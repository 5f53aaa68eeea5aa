use makaikit::database::{decode_database, encode_database, DatabaseRecord, RecordTable};
use makaikit::modding::{parse_file_stem, RecordIdentifier};
use makaikit::nlsd::{HeaderField, NlsdRead, ReadError};
use makaikit::records::{ActMapData, AnimeData, BuData, CmlString, GameFlag, MapLine, PairData, StringData};
use makaikit::shape::Value;
use makaikit::ykcmp::{DecodeError, Decoder};

fn nlsd_header(format: u32, total: u32, stereo: u8, unused: u8, middle: u32, end: u32) -> Vec<u8> {
    let mut out = Vec::new();
    out.extend_from_slice(&format.to_le_bytes());
    out.extend_from_slice(&total.to_le_bytes());
    out.extend_from_slice(&44100u16.to_le_bytes());
    out.push(stereo);
    out.push(unused);
    out.extend_from_slice(&1234u32.to_le_bytes());
    out.extend_from_slice(&middle.to_le_bytes());
    out.extend_from_slice(&end.to_le_bytes());
    out
}

#[test]
fn nlsd_header_and_sections() {
    let mut data = nlsd_header(7, 10, 1, 0, 3, 8);
    data.extend_from_slice(b"0123456789");
    let n = NlsdRead::open(data).unwrap();
    assert_eq!(n.format(), 7);
    assert_eq!(n.sample_rate(), 44100);
    assert!(n.stereo());
    assert!(n.has_start());
    assert!(n.has_end());
    let mut buf = [0u8; 16];
    let mut begin = n.section_begin().unwrap();
    assert_eq!(begin.read(&mut buf), 3);
    assert_eq!(&buf[..3], b"012");
    assert_eq!(begin.read(&mut buf), 0);
    let mut middle = n.section_middle().unwrap();
    assert_eq!(middle.read(&mut buf), 5);
    assert_eq!(&buf[..5], b"34567");
    let mut end = n.section_end().unwrap().unwrap();
    assert_eq!(end.read(&mut buf), 2);
    assert_eq!(&buf[..2], b"89");
}

#[test]
fn nlsd_without_lead_in_or_tail() {
    let mut data = nlsd_header(5, 4, 0, 0, 0, 4);
    data.extend_from_slice(b"abcd");
    let n = NlsdRead::open(data).unwrap();
    assert!(!n.stereo());
    assert!(!n.has_start());
    assert!(!n.has_end());
    assert!(n.section_begin().is_none());
    assert!(n.section_end().unwrap().is_none());
}

#[test]
fn nlsd_rejects_bad_fields() {
    assert_eq!(
        NlsdRead::open(nlsd_header(6, 0, 0, 0, 0, 0)).err(),
        Some(ReadError::UnrecognizedValue(HeaderField::Format, 6))
    );
    assert_eq!(
        NlsdRead::open(nlsd_header(5, 0, 2, 0, 0, 0)).err(),
        Some(ReadError::UnrecognizedValue(HeaderField::Stereo, 2))
    );
    assert_eq!(
        NlsdRead::open(nlsd_header(5, 0, 1, 9, 0, 0)).err(),
        Some(ReadError::UnrecognizedValue(HeaderField::UnusedByte, 9))
    );
    assert_eq!(NlsdRead::open(vec![5, 0, 0, 0, 1]).err(), Some(ReadError::UnexpectedEof));
    assert_eq!(HeaderField::Format.name(), "format");
}

fn ykcmp_file(encoding: u32, payload: &[u8], decomp_len: u32) -> Vec<u8> {
    let mut out = b"YKCMP_V1".to_vec();
    out.extend_from_slice(&encoding.to_le_bytes());
    out.extend_from_slice(&(payload.len() as u32).to_le_bytes());
    out.extend_from_slice(&decomp_len.to_le_bytes());
    out.extend_from_slice(payload);
    out
}

#[test]
fn ykcmp_lz4_payload_decompresses() {
    let text = b"hello hello hello hello hello world";
    let block = lz4_flex::block::compress(text);
    let file = ykcmp_file(8, &block, text.len() as u32);
    let mut d = Decoder::new(&file).unwrap();
    let mut buf = [0u8; 64];
    let n = d.read(&mut buf);
    assert_eq!(&buf[..n], &text[..]);
    assert_eq!(d.read(&mut buf), 0);
}

#[test]
fn ykcmp_rejects_bad_headers() {
    assert!(matches!(Decoder::new(b"YKCMP_V2aaaabbbbcccc"), Err(DecodeError::InvalidMagic)));
    assert!(matches!(Decoder::new(&ykcmp_file(3, b"", 0)), Err(DecodeError::UnsupportedEncoding(3))));
    assert!(matches!(Decoder::new(b"YKCMP"), Err(DecodeError::UnexpectedEof)));
    let mut short = ykcmp_file(9, b"abcd", 4);
    short.truncate(22);
    assert!(matches!(Decoder::new(&short), Err(DecodeError::UnexpectedEof)));
    assert!(matches!(
        Decoder::new(&ykcmp_file(9, &[0xf0], 16)),
        Err(DecodeError::Lz4DecompressError(_))
    ));
}

#[test]
fn file_stems_name_records() {
    assert!(parse_file_stem("").is_none());
    assert!(matches!(parse_file_stem("12_SWORD"), Some(RecordIdentifier::Id(12))));
    assert!(matches!(parse_file_stem("-3_x"), Some(RecordIdentifier::Id(-3))));
    match parse_file_stem("SWORD") {
        Some(RecordIdentifier::EnumName(n)) => assert_eq!(n, "SWORD"),
        other => panic!("{:?}", other),
    }
    match parse_file_stem("BIG_SWORD") {
        Some(RecordIdentifier::EnumName(n)) => assert_eq!(n, "BIG_SWORD"),
        other => panic!("{:?}", other),
    }
    match parse_file_stem("99999999999_A") {
        Some(RecordIdentifier::EnumName(n)) => assert_eq!(n, "99999999999_A"),
        other => panic!("{:?}", other),
    }
}

fn text(s: &str) -> CmlString {
    CmlString {
        jp: format!("{s}-jp"),
        en: s.to_string(),
        fr: String::new(),
        zh_cn: String::new(),
        zh_cht: String::new(),
        kr: String::new(),
    }
}

#[test]
fn string_records_round_trip_through_a_record_set() {
    let records = vec![
        StringData { id: 1, enum_name: "HELLO".to_string(), text: text("hello"), version: 1, region: 2, product: 3, platform: 4 },
        StringData { id: 2, enum_name: String::new(), text: text("bye"), version: 0, region: 0, product: 0, platform: 0 },
    ];
    let values: Vec<Value> = records.iter().map(|r| r.to_value()).collect();
    let bytes = encode_database(&values, &StringData::shape()).unwrap();
    let back = decode_database(&bytes, &StringData::shape()).unwrap();
    let typed: Vec<StringData> = back.iter().map(|v| StringData::from_value(v).unwrap()).collect();
    assert_eq!(typed.len(), 2);
    assert_eq!(typed[0].database_id(), 1);
    assert_eq!(typed[0].database_enum_name(), "HELLO");
    assert_eq!(typed[0].text.jp, "hello-jp");
    assert_eq!(typed[1].database_id(), 2);
    assert_eq!(typed[1].database_enum_name(), "");
    assert_eq!(typed[1].text.en, "bye");
}

#[test]
fn record_kinds_without_names_report_empty() {
    let bu = BuData { id: 9, script_name: "s".to_string(), anime_id: 1, seq_no: 2, version: 0, region: 0, product: 0, platform: 0 };
    assert_eq!(bu.database_id(), 9);
    assert_eq!(bu.database_enum_name(), "");
}

#[test]
fn from_value_refuses_other_shapes() {
    assert!(PairData::from_value(&Value::List(vec![Value::I32(1)])).is_none());
    assert!(PairData::from_value(&Value::List(vec![Value::I32(1), Value::U32(2)])).is_none());
    let p = PairData::from_value(&Value::List(vec![Value::I32(1), Value::I32(2)])).unwrap();
    assert_eq!((p.key, p.value), (1, 2));
    let g = GameFlag::from_value(&Value::List(vec![
        Value::U32(4),
        Value::Str("flag".to_string()),
        Value::Str("desc".to_string()),
    ]))
    .unwrap();
    assert_eq!(g.id, 4);
    assert_eq!(g.name, "flag");
}

fn flag(id: i32, name: &str, on: i32) -> makaikit::records::BattleFlagData {
    makaikit::records::BattleFlagData {
        id,
        enum_name: name.to_string(),
        comment: String::new(),
        flag_on: on,
        version: 0,
        region: 0,
        product: 0,
        platform: 0,
    }
}

#[test]
fn record_table_replaces_by_id_and_keeps_order() {
    let mut table = RecordTable::from_records(vec![flag(3, "C", 0), flag(1, "A", 0), flag(3, "C2", 1)]);
    assert_eq!(table.len(), 2);
    table.upsert(flag(7, "G", 0));
    table.upsert(flag(1, "A", 5));
    assert_eq!(table.get(1).unwrap().flag_on, 5);
    assert!(table.get(2).is_none());
    assert_eq!(table.find_by_enum_name("C2").unwrap().database_id(), 3);
    assert!(table.find_by_enum_name("C").is_none());
    let ids: Vec<i32> = table.into_records().iter().map(|r| r.database_id()).collect();
    assert_eq!(ids, vec![3, 1, 7]);
}

#[test]
fn act_map_round_trip_with_nested_rows() {

    let mut column = [0i32; 21];
    column[3] = 7;
    let record = ActMapData {
        id: 4,
        enum_name: "CROSS".to_string(),
        name: "Cross".to_string(),
        range_type: 1,
        rot_type: 2,
        line: vec![MapLine { check: 1, column }, MapLine { check: 0, column: [1; 21] }],
        version: 0,
        region: 0,
        product: 0,
        platform: 0,
    };
    let bytes = encode_database(&vec![record.to_value()], &ActMapData::shape()).unwrap();
    let back = decode_database(&bytes, &ActMapData::shape()).unwrap();
    let decoded = ActMapData::from_value(&back[0]).unwrap();
    assert_eq!(decoded.line.len(), 2);
    assert_eq!(decoded.line[0].column[3], 7);
    assert_eq!(decoded.line[1].column, [1; 21]);
    assert_eq!(decoded.database_enum_name(), "CROSS");
}

#[test]
fn fixed_array_field_needs_its_length() {

    let record = AnimeData {
        id: 1,
        enum_name: "A".to_string(),
        comment: String::new(),
        bank: [1, 2, 3, 4, 5, 6],
        file_name: "a.bin".to_string(),
        version: 0,
        region: 0,
        product: 0,
        platform: 0,
    };
    let value = record.to_value();
    assert_eq!(AnimeData::from_value(&value).unwrap().bank, [1, 2, 3, 4, 5, 6]);
    let short = match value {
        Value::List(mut items) => {
            items[3] = Value::List(vec![Value::I32(1)]);
            Value::List(items)
        }
        other => other,
    };
    assert!(AnimeData::from_value(&short).is_none());
}

#[test]
fn dungeon_round_trip_with_stage_list() {
    use_dungeon();
}

fn use_dungeon() {
    let record = makaikit::records::DungeonData {
        id: 12,
        enum_name: "CAVE".to_string(),
        name: "Cave".to_string(),
        area_id: 3,
        difficulty: 2,
        cond_on_flag: vec![1, 2],
        cond_off_flag: vec![],
        stage: vec![makaikit::records::StageInfo {
            id: 5,
            clear_count: 1,
            is_first_time_configuration: 0,
            cond_on_flag: vec![9],
            cond_off_flag: vec![8, 7],
        }],
        tag: 0,
        version: 1,
        region: 0,
        product: 0,
        platform: 0,
    };
    let shape = makaikit::records::DungeonData::shape();
    let bytes = encode_database(&vec![record.to_value()], &shape).unwrap();
    let back = decode_database(&bytes, &shape).unwrap();
    let d = makaikit::records::DungeonData::from_value(&back[0]).unwrap();
    assert_eq!(d.stage[0].cond_off_flag, vec![8, 7]);
    assert_eq!(d.cond_on_flag, vec![1, 2]);
    assert_eq!(d.database_id(), 12);
    let again = encode_database(&back, &shape).unwrap();
    assert_eq!(again, bytes);
}
