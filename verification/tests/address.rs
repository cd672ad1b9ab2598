use nahlun_server::tile::address::{
    calc_tile_path, land_dem_url, land_photo_url, tile_center_pixel, tile_corner_pixels,
    water_level_query,
};

#[test]
fn tile_path_at_zoom_zero() {
    assert_eq!(calc_tile_path(0, 0, 0), "(:Tile0{x:0,y:0})");
}

#[test]
fn tile_path_runs_through_ancestors() {
    assert_eq!(
        calc_tile_path(2, 3, 1),
        "(:Tile0{x:0,y:0})-[:CHILD]->(:Tile1{x:1,y:0})-[:CHILD]->(:Tile2{x:3,y:1})"
    );
    assert_eq!(
        calc_tile_path(3, 7, 4),
        "(:Tile0{x:0,y:0})-[:CHILD]->(:Tile1{x:1,y:1})-[:CHILD]->(:Tile2{x:3,y:2})-[:CHILD]->(:Tile3{x:7,y:4})"
    );
}

#[test]
fn tile_path_matches_format() {
    let (z, x, y) = (15u32, 29100u32, 12903u32);
    let expected = (0..=z)
        .map(|cz| format!("(:Tile{cz}{{x:{},y:{}}})", x >> (z - cz), y >> (z - cz)))
        .collect::<Vec<_>>()
        .join("-[:CHILD]->");
    assert_eq!(calc_tile_path(z, x, y), expected);
}

#[test]
fn tile_path_at_deepest_zoom() {
    let s = calc_tile_path(31, u32::MAX, 0);
    assert!(s.starts_with("(:Tile0{x:1,y:0})"));
    assert!(s.ends_with("(:Tile31{x:4294967295,y:0})"));
}

#[test]
fn water_query_wraps_path() {
    let path = calc_tile_path(1, 1, 0);
    let expected = format!(
        "\nMATCH {path}-[:MEMBER]->(n:RiverNode)-[:WATER_LEVEL]->(wl:WaterLevel)\nRETURN n.location AS location, wl.value AS water_level\n            "
    );
    assert_eq!(water_level_query(1, 1, 0), expected);
}

#[test]
fn land_source_urls() {
    assert_eq!(land_dem_url(14, 14552, 6451), "https://tiles.gsj.jp/tiles/elev/land/14/6451/14552.png");
    assert_eq!(
        land_photo_url(14, 14552, 6451),
        "https://cyberjapandata.gsi.go.jp/xyz/seamlessphoto/14/14552/6451.jpg"
    );
}

#[test]
fn tile_pixels() {
    assert_eq!(tile_center_pixel(2, 5), (640, 1408));
    assert_eq!(tile_corner_pixels(2, 5), vec![(512, 1280), (768, 1280), (768, 1536), (512, 1536)]);
    assert_eq!(tile_corner_pixels(0, 0), vec![(0, 0), (256, 0), (256, 256), (0, 256)]);
}

#[test]
fn distinct_tiles_have_distinct_paths() {
    let tiles = [(0u32, 0u32, 0u32), (1, 0, 0), (1, 1, 0), (1, 0, 1), (2, 1, 0), (2, 0, 1), (11, 1, 1), (1, 11, 1)];
    for (i, a) in tiles.iter().enumerate() {
        for (j, b) in tiles.iter().enumerate() {
            assert_eq!(i == j, calc_tile_path(a.0, a.1, a.2) == calc_tile_path(b.0, b.1, b.2));
        }
    }
}

#[test]
fn child_path_extends_parent_path() {
    let (z, x, y) = (5u32, 19u32, 22u32);
    let expected = format!(
        "{}-[:CHILD]->(:Tile{}{{x:{},y:{}}})",
        calc_tile_path(z, x >> 1, y >> 1),
        z + 1,
        x,
        y
    );
    assert_eq!(calc_tile_path(z + 1, x, y), expected);
}
