use coordinate_transformer::ZoomLv;
use nahlun_server::tile::zoom::{parse_zoom_level, TileError, ZoomLevel};

#[test]
fn zoom_levels_in_range() {
    for z in [0u32, 14, 24] {
        let l = parse_zoom_level(z).unwrap();
        assert_eq!(l, ZoomLevel { level: z as u8 });
        assert!(ZoomLv::parse(l.level).is_ok());
    }
}

#[test]
fn zoom_levels_out_of_range() {
    assert_eq!(parse_zoom_level(25), Err(TileError::InvalidZoomLevel));
    assert_eq!(parse_zoom_level(255), Err(TileError::InvalidZoomLevel));
    assert_eq!(parse_zoom_level(u32::MAX), Err(TileError::InvalidZoomLevel));
}

#[test]
fn zoom_level_keeps_low_byte() {
    let l = parse_zoom_level(265).unwrap();
    assert_eq!(l.level, 9);
    assert_eq!(ZoomLv::parse(l.level), Ok(ZoomLv::Lv9));
    assert_eq!(parse_zoom_level(256).unwrap().level, 0);
}
