use tileserver::paths::{parse_tile_path, ParseError, TileAddress, TileRequest, TileScheme};

#[test]
fn parses_tms_path() {
    let r = parse_tile_path("tms/4/3/2.jpg");
    assert_eq!(
        r,
        Ok(TileRequest::Tile(TileAddress { scheme: TileScheme::Tms, zoom: 4, x: 3, y: 2 }))
    );
}

#[test]
fn parses_xyz_path() {
    let r = parse_tile_path("xyz/4/3/2.png");
    assert_eq!(
        r,
        Ok(TileRequest::Tile(TileAddress { scheme: TileScheme::Xyz, zoom: 4, x: 3, y: 2 }))
    );
}

#[test]
fn rejects_unknown_scheme() {
    assert_eq!(parse_tile_path("bad/4/3/2.jpg"), Err(ParseError::BadScheme));
}

#[test]
fn rejects_wrong_segment_count() {
    assert_eq!(parse_tile_path("tms/4/3.jpg"), Err(ParseError::WrongSegmentCount));
    assert_eq!(parse_tile_path("tms/4/3/2/1.jpg"), Err(ParseError::WrongSegmentCount));
}

#[test]
fn rejects_non_numeric_coordinates() {
    assert_eq!(parse_tile_path("tms/a/3/2.jpg"), Err(ParseError::BadNumber));
    assert_eq!(parse_tile_path("tms/4/-3/2.jpg"), Err(ParseError::BadNumber));
    assert_eq!(parse_tile_path("tms/4/3/99999999999.jpg"), Err(ParseError::BadNumber));
}

#[test]
fn rejects_short_path() {
    assert_eq!(parse_tile_path("ab"), Err(ParseError::TooShort));
    assert_eq!(parse_tile_path(""), Err(ParseError::TooShort));
}

#[test]
fn number_errors_win_over_scheme_errors() {
    // Coordinates are parsed before the scheme is checked.
    assert_eq!(parse_tile_path("bad/4/x/2.jpg"), Err(ParseError::BadNumber));
}

#[test]
fn capabilities_marker_anywhere() {
    assert_eq!(parse_tile_path("tilemapresource.xml"), Ok(TileRequest::Capabilities));
    assert_eq!(parse_tile_path("deep/dir/tilemapresource.xml"), Ok(TileRequest::Capabilities));
}

#[test]
fn zoom_x_y_order() {
    let r = parse_tile_path("xyz/10/1024/512.png");
    assert_eq!(
        r,
        Ok(TileRequest::Tile(TileAddress { scheme: TileScheme::Xyz, zoom: 10, x: 1024, y: 512 }))
    );
}

#[test]
fn large_coordinates_fit_u32() {
    let r = parse_tile_path("tms/31/4294967295/0.png");
    assert_eq!(
        r,
        Ok(TileRequest::Tile(TileAddress {
            scheme: TileScheme::Tms,
            zoom: 31,
            x: 4_294_967_295,
            y: 0
        }))
    );
}
