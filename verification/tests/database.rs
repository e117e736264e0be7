use tileserver::database::DatabaseTileSource;
use tileserver::TileError;

#[test]
fn bad_base_name_is_config_error() {
    // A trailing separator leaves no base name to register under.
    match DatabaseTileSource::new("no_such_directory/") {
        Err(TileError::ConfigError) => {}
        other => panic!("expected ConfigError, got {:?}", other.map(|_| ())),
    }
}

#[test]
fn missing_file_is_not_found() {
    match DatabaseTileSource::new("no_such_directory/absent.pak") {
        Err(TileError::NotFound) => {}
        other => panic!("expected NotFound, got {:?}", other.map(|_| ())),
    }
}

/// Creates a pak database at `path` holding one low-zoom tile, one
/// high-zoom tile in its shard table, and a capabilities document.
fn build_pak(path: &str) {
    let conn = rusqlite::Connection::open(path).unwrap();
    conn.execute_batch(
        "drop table if exists blocks;
         drop table if exists blocks_10_2_1;
         drop table if exists infos;
         create table blocks (x integer, y integer, z integer, tile blob);
         create table blocks_10_2_1 (x integer, y integer, z integer, tile blob);
         create table infos (tmsxml blob);",
    )
    .unwrap();
    conn.execute(
        "insert into blocks (x, y, z, tile) values (?1, ?2, ?3, ?4)",
        (3, 13, 4, &b"lowzoom"[..]),
    )
    .unwrap();
    conn.execute(
        "insert into blocks_10_2_1 (x, y, z, tile) values (?1, ?2, ?3, ?4)",
        (1024, 512, 10, &b"highzoom"[..]),
    )
    .unwrap();
    conn.execute("insert into infos (tmsxml) values (?1)", [&b"<TileMap/>"[..]]).unwrap();
}

#[test]
fn serves_tiles_from_sqlite() {
    let path = "/tmp/tileserver_pak_serve.pak";
    build_pak(path);
    let source = DatabaseTileSource::new(path).unwrap();
    assert_eq!(source.name().as_str(), "tileserver_pak_serve");

    // TMS addressing hits the row directly.
    assert_eq!(source.read("tms/4/3/13.png").unwrap(), b"lowzoom".to_vec());
    // XYZ row 2 at zoom 4 is TMS row 13.
    assert_eq!(source.read("xyz/4/3/2.png").unwrap(), b"lowzoom".to_vec());
    // Zoom 10 at (1024, 512) lands in the shard table blocks_10_2_1.
    assert_eq!(source.read("tms/10/1024/512.png").unwrap(), b"highzoom".to_vec());
    // The capabilities document comes from the infos table.
    assert_eq!(source.read("deep/tilemapresource.xml").unwrap(), b"<TileMap/>".to_vec());
}

#[test]
fn misses_and_bad_paths_from_sqlite() {
    let path = "/tmp/tileserver_pak_miss.pak";
    build_pak(path);
    let source = DatabaseTileSource::new(path).unwrap();

    // No row at these coordinates.
    assert_eq!(source.read("tms/4/0/0.png"), Err(TileError::NotFound));
    // A shard table that was never created is a backend failure.
    assert_eq!(source.read("tms/11/0/0.png"), Err(TileError::IOError));
    // Unparseable paths are NotFound.
    assert_eq!(source.read("bad/4/3/2.jpg"), Err(TileError::NotFound));
    assert_eq!(source.read("tms/4/3.jpg"), Err(TileError::NotFound));
    // An XYZ row outside the zoom's grid has no tile.
    assert_eq!(source.read_xyz(0, 16, 4), Err(TileError::NotFound));
    assert_eq!(source.read_xyz(0, 0, 32), Err(TileError::NotFound));
}
