use nahlun_server::cache::items::{CacheDataType, CacheKey, TileId};

#[test]
fn tile_id_name_is_x_y_z() {
    let t = TileId::new(3, 7, 4);
    assert_eq!(t.to_string(), "3_7_4");
    assert_eq!(TileId::new(0, 0, 0).to_string(), "0_0_0");
    assert_eq!(TileId::new(u32::MAX, 10, 255).to_string(), "4294967295_10_255");
}

#[test]
fn tile_id_name_reads_back() {
    for t in [
        TileId::new(0, 0, 0),
        TileId::new(3, 7, 4),
        TileId::new(u32::MAX, u32::MAX, u8::MAX),
        TileId::new(1234567, 89, 18),
    ] {
        assert_eq!(TileId::parse(&t.to_string()), Some(t));
    }
}

#[test]
fn tile_id_parse_accepts_leading_zeros() {
    assert_eq!(TileId::parse("007_010_03"), Some(TileId::new(7, 10, 3)));
}

#[test]
fn tile_id_parse_rejects_malformed_names() {
    assert_eq!(TileId::parse(""), None);
    assert_eq!(TileId::parse("1_2"), None);
    assert_eq!(TileId::parse("1_2_3_4"), None);
    assert_eq!(TileId::parse("1__3"), None);
    assert_eq!(TileId::parse("_1_2"), None);
    assert_eq!(TileId::parse("1_2_"), None);
    assert_eq!(TileId::parse("a_2_3"), None);
    assert_eq!(TileId::parse("1_2_3.bin"), None);
    assert_eq!(TileId::parse("+1_2_3"), None);
    assert_eq!(TileId::parse("1_2_256"), None);
    assert_eq!(TileId::parse("4294967296_0_0"), None);
    assert_eq!(TileId::parse("0_99999999999999999999999_0"), None);
    assert_eq!(TileId::parse("1_2_٣"), None);
}

#[test]
fn tile_id_parse_bounds() {
    assert_eq!(TileId::parse("4294967295_0_255"), Some(TileId::new(u32::MAX, 0, 255)));
}

#[test]
fn data_type_names_are_snake_case() {
    assert_eq!(CacheDataType::LandTile.to_string(), "land_tile");
    assert_eq!(CacheDataType::WaterTile.to_string(), "water_tile");
    assert_eq!(CacheDataType::CustomVoxelModelTile.to_string(), "custom_voxel_model_tile");
}

#[test]
fn all_data_types_in_declaration_order() {
    assert_eq!(
        CacheDataType::all(),
        vec![CacheDataType::LandTile, CacheDataType::WaterTile, CacheDataType::CustomVoxelModelTile]
    );
}

#[test]
fn cache_key_path_is_kind_then_tile() {
    let k = CacheKey { data_type: CacheDataType::WaterTile, tile_id: TileId::new(12, 5, 9) };
    assert_eq!(k.to_string(), "water_tile/12_5_9");
    let k = CacheKey { data_type: CacheDataType::CustomVoxelModelTile, tile_id: TileId::new(0, 1, 2) };
    assert_eq!(k.to_string(), "custom_voxel_model_tile/0_1_2");
}

#[test]
fn disk_entry_recovers_key() {
    let k = CacheKey { data_type: CacheDataType::LandTile, tile_id: TileId::new(29100, 12903, 15) };
    let name = k.tile_id.to_string();
    assert_eq!(CacheKey::from_disk_entry(CacheDataType::LandTile, &name), Some(k));
    assert_eq!(CacheKey::from_disk_entry(CacheDataType::LandTile, "notes.txt"), None);
}

#[test]
fn eviction_predicate_matches_kind_only() {
    let k = CacheKey { data_type: CacheDataType::LandTile, tile_id: TileId::new(1, 2, 3) };
    assert!(k.is_of_kind(CacheDataType::LandTile));
    assert!(!k.is_of_kind(CacheDataType::WaterTile));
    assert!(!k.is_of_kind(CacheDataType::CustomVoxelModelTile));
}

#[test]
fn distinct_keys_have_distinct_paths() {
    let keys = [
        CacheKey { data_type: CacheDataType::LandTile, tile_id: TileId::new(1, 23, 4) },
        CacheKey { data_type: CacheDataType::LandTile, tile_id: TileId::new(12, 3, 4) },
        CacheKey { data_type: CacheDataType::WaterTile, tile_id: TileId::new(1, 23, 4) },
        CacheKey { data_type: CacheDataType::CustomVoxelModelTile, tile_id: TileId::new(1, 23, 4) },
    ];
    for (i, a) in keys.iter().enumerate() {
        for (j, b) in keys.iter().enumerate() {
            assert_eq!(i == j, a.to_string() == b.to_string());
        }
    }
}
