use makaikit::dsarcfl::{Archive, ArchiveWriter, ReadError, WriteError};
use makaikit::fafullfs;

fn small_archive(entries: &[(&[u8], u32, u32)], payload: &[u8]) -> Vec<u8> {
    let mut out = b"DSARC FL".to_vec();
    out.extend_from_slice(&(entries.len() as u32).to_le_bytes());
    out.extend_from_slice(&[0, 0, 0, 0]);
    for (name, size, offset) in entries {
        let mut field = [0u8; 0x74];
        field[..name.len()].copy_from_slice(name);
        out.extend_from_slice(&field);
        out.extend_from_slice(&size.to_le_bytes());
        out.extend_from_slice(&offset.to_le_bytes());
        out.extend_from_slice(&[0, 0, 0, 0]);
    }
    out.extend_from_slice(payload);
    out
}

#[test]
fn small_archive_single_entry_reads_hello() {
    let data = small_archive(&[(b"a.lua", 5, 16 + 0x80)], b"Hello");
    let mut archive = Archive::open(data).unwrap();
    assert_eq!(archive.len(), 1);
    let mut file = archive.get_file(0).unwrap().unwrap();
    assert_eq!(file.name(), b"a.lua");
    assert_eq!(file.size(), 5);
    let mut buf = [0u8; 16];
    let n = file.read(&mut buf);
    assert_eq!(n, 5);
    assert_eq!(&buf[..5], &[0x48, 0x65, 0x6c, 0x6c, 0x6f]);
    assert_eq!(file.read(&mut buf), 0);
}

#[test]
fn small_archive_reads_are_clipped_to_the_entry() {
    let data = small_archive(&[(b"x", 3, 16 + 2 * 0x80), (b"y", 2, 16 + 2 * 0x80 + 3)], b"abcde");
    let mut archive = Archive::open(data).unwrap();
    let mut file = archive.get_file(0).unwrap().unwrap();
    let mut buf = [0u8; 2];
    assert_eq!(file.read(&mut buf), 2);
    assert_eq!(&buf, b"ab");
    assert_eq!(file.read(&mut buf), 1);
    assert_eq!(buf[0], b'c');
    assert_eq!(file.read(&mut buf), 0);
    let mut second = archive.get_file(1).unwrap().unwrap();
    let mut buf = [0u8; 8];
    assert_eq!(second.read(&mut buf), 2);
    assert_eq!(&buf[..2], b"de");
    assert!(archive.get_file(2).is_none());
}

#[test]
fn small_archive_wrong_magic() {
    let mut data = small_archive(&[(b"a.lua", 5, 16 + 0x80)], b"Hello");
    data[0] = b'X';
    assert_eq!(Archive::open(data).err(), Some(ReadError::InvalidMagic));
    let mut header_only = b"DSARC FX".to_vec();
    header_only.extend_from_slice(&[0xff; 8]);
    assert_eq!(Archive::open(header_only).err(), Some(ReadError::InvalidMagic));
}

#[test]
fn small_archive_truncated() {
    assert_eq!(Archive::open(b"DSARC".to_vec()).err(), Some(ReadError::UnexpectedEof));
    let data = small_archive(&[(b"a.lua", 5, 16 + 0x80)], b"");
    assert_eq!(Archive::open(data[..100].to_vec()).err(), Some(ReadError::UnexpectedEof));
}

#[test]
fn small_archive_invalid_names() {
    let mut data = small_archive(&[(b"", 0, 0), (&[b'z'; 0x74], 0, 0)], b"");
    let mut archive = Archive::open(data.clone()).unwrap();
    assert_eq!(archive.get_file(0).unwrap().err(), Some(ReadError::InvalidName));
    assert_eq!(archive.get_file(1).unwrap().err(), Some(ReadError::InvalidName));
    data[16] = b'q';
    let mut archive = Archive::open(data).unwrap();
    assert_eq!(archive.get_file(0).unwrap().unwrap().name(), b"q");
}

#[test]
fn writer_output_reads_back() {
    let mut writer = ArchiveWriter::new();
    let mut f = writer.file(b"one.lub").unwrap();
    assert_eq!(f.write(b"first"), 5);
    f.flush();
    writer.add(f);
    let mut g = writer.file(b"two.lub").unwrap();
    g.write(b"second file");
    writer.add(g);
    let bytes = writer.finish().unwrap();
    assert_eq!(&bytes[0..8], b"DSARC FL");
    assert_eq!(&bytes[8..12], &[2, 0, 0, 0]);
    assert_eq!(bytes.len(), 16 + 2 * 0x80 + 16 + 16);
    let mut archive = Archive::open(bytes).unwrap();
    assert_eq!(archive.len(), 2);
    let mut a = archive.get_file(0).unwrap().unwrap();
    assert_eq!(a.name(), b"one.lub");
    let mut buf = [0u8; 32];
    assert_eq!(a.read(&mut buf), 5);
    assert_eq!(&buf[..5], b"first");
    let mut b = archive.get_file(1).unwrap().unwrap();
    assert_eq!(b.name(), b"two.lub");
    assert_eq!(b.read(&mut buf), 11);
    assert_eq!(&buf[..11], b"second file");
}

#[test]
fn writer_offsets_are_absolute_and_padded() {
    let mut writer = ArchiveWriter::with_capacity(64);
    let mut f = writer.file(b"a").unwrap();
    f.write(b"xyz");
    writer.add(f);
    let bytes = writer.finish().unwrap();
    assert_eq!(&bytes[16 + 0x74..16 + 0x78], &[3, 0, 0, 0]);
    assert_eq!(&bytes[16 + 0x78..16 + 0x7c], &[0x90, 0, 0, 0]);
    assert_eq!(&bytes[0x90..], b"xyz\0\0\0\0\0\0\0\0\0\0\0\0\0");
}

#[test]
fn writer_rejects_bad_names() {
    let writer = ArchiveWriter::new();
    assert_eq!(writer.file(&[b'n'; 0x74]).err(), Some(WriteError::NameTooLong));
    assert!(writer.file(&[b'n'; 0x73]).is_ok());
    assert_eq!(writer.file(b"a\0b").err(), Some(WriteError::InvalidName));
}

#[test]
fn empty_writer_gives_bare_header() {
    let bytes = ArchiveWriter::new().finish().unwrap();
    assert_eq!(bytes, b"DSARC FL\0\0\0\0\0\0\0\0".to_vec());
}

fn large_archive() -> Vec<u8> {
    let paths = b"data/a.dat\0b\0";
    let paths_off = 40u64;
    let info_off = paths_off + paths.len() as u64;
    let payload_off = info_off + 2 * 48;
    let mut out = b"FAFULLFS".to_vec();
    out.extend_from_slice(&2u32.to_le_bytes());
    out.extend_from_slice(&0u32.to_le_bytes());
    out.extend_from_slice(&paths_off.to_le_bytes());
    out.extend_from_slice(&(paths.len() as u64).to_le_bytes());
    out.extend_from_slice(&info_off.to_le_bytes());
    out.extend_from_slice(paths);
    for (checksum, path_off, size, offset, ts) in
        [(0xaa, 0u64, 4u64, payload_off, 77u64), (0xbb, 11, 2, payload_off + 4, 88)]
    {
        for v in [checksum, path_off, 0, size, offset, ts] {
            out.extend_from_slice(&(v as u64).to_le_bytes());
        }
    }
    out.extend_from_slice(b"ABCDxy");
    out
}

#[test]
fn large_archive_entries() {
    let mut archive = fafullfs::Archive::open(large_archive()).unwrap();
    assert_eq!(archive.len(), 2);
    {
        let mut a = archive.get_file(0).unwrap().unwrap();
        assert_eq!(a.path(), b"data/a.dat");
        assert_eq!(a.checksum(), 0xaa);
        assert_eq!(a.timestamp(), 77);
        assert_eq!(a.size(), 4);
        let mut buf = [0u8; 3];
        assert_eq!(a.read(&mut buf), 3);
        assert_eq!(&buf, b"ABC");
        assert_eq!(a.read(&mut buf), 1);
        assert_eq!(buf[0], b'D');
        assert_eq!(a.read(&mut buf), 0);
    }
    let mut b = archive.get_file(1).unwrap().unwrap();
    assert_eq!(b.path(), b"b");
    let mut buf = [0u8; 8];
    assert_eq!(b.read(&mut buf), 2);
    assert_eq!(&buf[..2], b"xy");
    assert!(archive.get_file(2).is_none());
}

#[test]
fn large_archive_wrong_magic() {
    let mut data = large_archive();
    data[7] = b'X';
    assert_eq!(fafullfs::Archive::open(data).err(), Some(fafullfs::Error::InvalidMagic));
}

#[test]
fn large_archive_bad_path_offset() {
    let mut data = large_archive();
    // Point the second entry's path at the pool's last byte, a bare NUL.
    let at = 40 + 13 + 48 + 8;
    data[at..at + 8].copy_from_slice(&12u64.to_le_bytes());
    let mut archive = fafullfs::Archive::open(data.clone()).unwrap();
    assert_eq!(archive.get_file(1).unwrap().err(), Some(fafullfs::Error::InvalidName));
    data[at..at + 8].copy_from_slice(&500u64.to_le_bytes());
    let mut archive = fafullfs::Archive::open(data).unwrap();
    assert_eq!(archive.get_file(1).unwrap().err(), Some(fafullfs::Error::InvalidName));
}

#[test]
fn large_archive_truncated_table() {
    let data = large_archive();
    assert_eq!(
        fafullfs::Archive::open(data[..60].to_vec()).err(),
        Some(fafullfs::Error::UnexpectedEof)
    );
    assert_eq!(fafullfs::Archive::open(data[..20].to_vec()).err(), Some(fafullfs::Error::UnexpectedEof));
}

#[test]
fn read_to_end_gives_the_whole_entry() {
    let data = small_archive(&[(b"a.lua", 5, 16 + 0x80)], b"Hello");
    let mut archive = Archive::open(data).unwrap();
    let mut file = archive.get_file(0).unwrap().unwrap();
    let mut buf = [0u8; 2];
    assert_eq!(file.read(&mut buf), 2);
    assert_eq!(file.read_to_end(), b"llo".to_vec());
    assert_eq!(file.read(&mut buf), 0);
}

#[test]
fn entry_clipped_by_the_data() {
    let data = small_archive(&[(b"a", 10, 16 + 0x80)], b"abc");
    let mut archive = Archive::open(data).unwrap();
    let mut file = archive.get_file(0).unwrap().unwrap();
    assert_eq!(file.read_to_end(), b"abc".to_vec());
}

#[test]
fn large_archive_position_by_path() {
    let archive = fafullfs::Archive::open(large_archive()).unwrap();
    assert_eq!(archive.position(b"data/a.dat"), Some(0));
    assert_eq!(archive.position(b"b"), Some(1));
    assert_eq!(archive.position(b"data/a.da"), None);
    assert_eq!(archive.position(b""), None);
}
