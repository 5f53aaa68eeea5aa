use makaikit::dsarcfl::{Archive, ArchiveWriter, WriteError};
use makaikit::scripts::{compiled_name, repack_scripts, ScriptRepackError};

fn archive_of(entries: &[(&[u8], &[u8])]) -> Archive {
    let mut writer = ArchiveWriter::new();
    for (name, data) in entries {
        let mut f = writer.file(name).unwrap();
        f.write(data);
        writer.add(f);
    }
    Archive::open(writer.finish().unwrap()).unwrap()
}

fn contents(archive: &mut Archive) -> Vec<(Vec<u8>, Vec<u8>)> {
    let mut out = Vec::new();
    for i in 0..archive.len() {
        let mut f = archive.get_file(i).unwrap().unwrap();
        let name = f.name().to_vec();
        out.push((name, f.read_to_end()));
    }
    out
}

#[test]
fn replacements_come_first_and_shadow_originals() {
    let mut source = archive_of(&[(b"a.lub", b"old a"), (b"b.lub", b"old b")]);
    let reps = vec![
        (b"b.lub".to_vec(), b"new b".to_vec()),
        (b"c.lub".to_vec(), b"new c".to_vec()),
        (b"b.lub".to_vec(), b"ignored".to_vec()),
    ];
    let bytes = repack_scripts(&mut source, &reps).unwrap();
    let mut rebuilt = Archive::open(bytes).unwrap();
    assert_eq!(
        contents(&mut rebuilt),
        vec![
            (b"b.lub".to_vec(), b"new b".to_vec()),
            (b"c.lub".to_vec(), b"new c".to_vec()),
            (b"a.lub".to_vec(), b"old a".to_vec()),
        ]
    );
}

#[test]
fn no_replacements_copies_the_source() {
    let mut source = archive_of(&[(b"x.lub", b"12345"), (b"y.lub", b"")]);
    let bytes = repack_scripts(&mut source, &Vec::new()).unwrap();
    let mut rebuilt = Archive::open(bytes).unwrap();
    assert_eq!(
        contents(&mut rebuilt),
        vec![(b"x.lub".to_vec(), b"12345".to_vec()), (b"y.lub".to_vec(), Vec::new())]
    );
}

#[test]
fn bad_replacement_name_fails() {
    let mut source = archive_of(&[]);
    let reps = vec![(vec![b'n'; 0x80], b"x".to_vec())];
    assert_eq!(
        repack_scripts(&mut source, &reps).err(),
        Some(ScriptRepackError::DsArcFlWrite(WriteError::NameTooLong))
    );
}

#[test]
fn lua_names_become_lub() {
    assert_eq!(compiled_name(b"menu.lua"), Some(b"menu.lub".to_vec()));
    assert_eq!(compiled_name(b"a.lua.lua"), Some(b"a.lua.lub".to_vec()));
    assert_eq!(compiled_name(b"menu.luac"), None);
    assert_eq!(compiled_name(b"lua"), None);
    assert_eq!(compiled_name(b".lua"), Some(b".lub".to_vec()));
}
