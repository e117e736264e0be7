use std::io::{Cursor, Write};
use tileserver::archive::ArchiveTileSource;
use tileserver::TileError;
use zip::write::SimpleFileOptions;
use zip::ZipWriter;

/// Builds an in-memory ZIP container with the given entries.
fn build_zip(entries: &[(&str, &[u8])]) -> Cursor<Vec<u8>> {
    let mut writer = ZipWriter::new(Cursor::new(Vec::new()));
    for (name, body) in entries {
        writer.start_file(*name, SimpleFileOptions::default()).unwrap();
        writer.write_all(body).unwrap();
    }
    writer.finish().unwrap()
}

#[test]
fn returns_exact_stored_bytes() {
    let payload: &[u8] = &[1, 2, 3, 4, 255, 0, 42];
    let reader = build_zip(&[("tms/1/2/3.png", payload), ("other.json", b"{}")]);
    let mut source = ArchiveTileSource::new("tiles/demo.zip", reader).unwrap();
    assert_eq!(source.name().as_str(), "demo");
    assert_eq!(source.read("tms/1/2/3.png").unwrap(), payload.to_vec());
    assert_eq!(source.read("other.json").unwrap(), b"{}".to_vec());
}

#[test]
fn unknown_entry_is_not_found() {
    let reader = build_zip(&[("a.png", b"x")]);
    let mut source = ArchiveTileSource::new("demo.zip", reader).unwrap();
    assert_eq!(source.read("b.png"), Err(TileError::NotFound));
    // Near-matches do not count: the lookup is verbatim.
    assert_eq!(source.read("a.pn"), Err(TileError::NotFound));
    assert_eq!(source.read("/a.png"), Err(TileError::NotFound));
}

#[test]
fn garbage_container_is_io_error() {
    let reader = Cursor::new(vec![0u8; 64]);
    match ArchiveTileSource::new("bad.zip", reader) {
        Err(TileError::IOError) => {}
        other => panic!("expected IOError, got {:?}", other.map(|_| ())),
    }
}

#[test]
fn name_needs_a_base_name() {
    let reader = build_zip(&[("a.png", b"x")]);
    match ArchiveTileSource::new("tiles/", reader) {
        Err(TileError::ConfigError) => {}
        other => panic!("expected ConfigError, got {:?}", other.map(|_| ())),
    }
}
