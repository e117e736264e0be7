use std::io::{Cursor, Write};
use tileserver::archive::ArchiveTileSource;
use tileserver::registry::{content_type_of, Registry, TileSource};
use zip::write::SimpleFileOptions;
use zip::ZipWriter;

fn zip_source(path: &str, entries: &[(&str, &[u8])]) -> ArchiveTileSource<Cursor<Vec<u8>>> {
    let mut writer = ZipWriter::new(Cursor::new(Vec::new()));
    for (name, body) in entries {
        writer.start_file(*name, SimpleFileOptions::default()).unwrap();
        writer.write_all(body).unwrap();
    }
    let reader = writer.finish().unwrap();
    ArchiveTileSource::new(path, reader).unwrap()
}

#[test]
fn unregistered_name_is_not_found() {
    let mut registry: Registry<Cursor<Vec<u8>>> = Registry::new();
    assert_eq!(registry.dispatch("nosuch", "tms/1/2/3.png"), None);
}

#[test]
fn dispatch_serves_registered_source() {
    let mut registry: Registry<Cursor<Vec<u8>>> = Registry::new();
    let source = zip_source("world.zip", &[("tms/1/2/3.png", b"tilebytes")]);
    registry.register("world".to_string(), TileSource::Archive(source));
    let (body, content_type) = registry.dispatch("world", "tms/1/2/3.png").unwrap();
    assert_eq!(body, b"tilebytes".to_vec());
    assert_eq!(content_type, "image/png");
    // A missing entry in a registered source is still a miss.
    assert_eq!(registry.dispatch("world", "tms/9/9/9.png"), None);
}

#[test]
fn last_registration_wins() {
    let mut registry: Registry<Cursor<Vec<u8>>> = Registry::new();
    let first = zip_source("world.zip", &[("a.png", b"old")]);
    let second = zip_source("world.zip", &[("a.png", b"new")]);
    registry.register("world".to_string(), TileSource::Archive(first));
    registry.register("world".to_string(), TileSource::Archive(second));
    let (body, _) = registry.dispatch("world", "a.png").unwrap();
    assert_eq!(body, b"new".to_vec());
}

#[test]
fn two_tile_sets_stay_apart() {
    let mut registry: Registry<Cursor<Vec<u8>>> = Registry::new();
    registry.register(
        "alpha".to_string(),
        TileSource::Archive(zip_source("alpha.zip", &[("t.png", b"a")])),
    );
    registry.register(
        "beta".to_string(),
        TileSource::Archive(zip_source("beta.zip", &[("t.png", b"b")])),
    );
    assert_eq!(registry.dispatch("alpha", "t.png").unwrap().0, b"a".to_vec());
    assert_eq!(registry.dispatch("beta", "t.png").unwrap().0, b"b".to_vec());
    assert_eq!(registry.dispatch("gamma", "t.png"), None);
}

#[test]
fn content_type_classification() {
    assert_eq!(content_type_of("a.json"), "application/json");
    assert_eq!(content_type_of("tilemapresource.xml"), "application/xml");
    assert_eq!(content_type_of("tms/1/2/3.jpg"), "image/jpg");
    assert_eq!(content_type_of("tms/1/2/3.png"), "image/png");
    assert_eq!(content_type_of("file.unknownext"), "application/octet-stream");
    assert_eq!(content_type_of(""), "application/octet-stream");
}
