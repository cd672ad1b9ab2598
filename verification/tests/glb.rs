use nahlun_server::tile::glb::{
    assemble_bin, assemble_glb, glb_layout, index_list_to_padded_bytes, le32_bytes,
    pad_to_mul_of_four, records_to_bytes, round_up_to_mul_of_four, u32s_to_le_bytes,
    vertex_ids_to_indices, VertexRecord,
};

#[test]
fn round_up_examples() {
    assert_eq!(round_up_to_mul_of_four(0), 0);
    assert_eq!(round_up_to_mul_of_four(1), 4);
    assert_eq!(round_up_to_mul_of_four(4), 4);
    assert_eq!(round_up_to_mul_of_four(5), 8);
    assert_eq!(round_up_to_mul_of_four(7), 8);
    assert_eq!(round_up_to_mul_of_four(usize::MAX - 3), usize::MAX - 3);
}

#[test]
fn pad_examples() {
    assert_eq!(pad_to_mul_of_four(vec![1u32, 2, 3, 4, 5, 6], 0), vec![1, 2, 3, 4, 5, 6, 0, 0]);
    assert_eq!(pad_to_mul_of_four(vec![9u32; 4], 0), vec![9; 4]);
    assert_eq!(pad_to_mul_of_four(Vec::<u32>::new(), 7), Vec::<u32>::new());
    assert_eq!(pad_to_mul_of_four(vec![1u8], 7), vec![1, 7, 7, 7]);
}

#[test]
fn byte_conversions() {
    assert_eq!(le32_bytes(0x01020304), [4, 3, 2, 1]);
    assert_eq!(u32s_to_le_bytes(&vec![1, 0x0a0b0c0d]), vec![1, 0, 0, 0, 0x0d, 0x0c, 0x0b, 0x0a]);
    let v: Vec<u32> = vec![3, 1, 4, 1, 5];
    let native: Vec<u8> = v.iter().flat_map(|x| x.to_le_bytes()).collect();
    assert_eq!(u32s_to_le_bytes(&v), native);
    let r: VertexRecord = [1, 2, 3, 4, 5, 6, 7, 8, 9, 10, 11, 12];
    assert_eq!(records_to_bytes(&vec![r, r]).len(), 24);
    assert_eq!(&records_to_bytes(&vec![r])[..], &r[..]);
}

#[test]
fn vertex_ids_convert_with_truncation() {
    assert_eq!(vertex_ids_to_indices(&vec![0, 1, 2, 2, 3, 0]), vec![0u32, 1, 2, 2, 3, 0]);
    assert_eq!(vertex_ids_to_indices(&vec![(1usize << 32) + 5]), vec![5u32]);
}

#[test]
fn index_list_padding() {
    assert_eq!(
        index_list_to_padded_bytes(&vec![7u32]),
        vec![7, 0, 0, 0, 0, 0, 0, 0, 0, 0, 0, 0, 0, 0, 0, 0]
    );
    assert_eq!(index_list_to_padded_bytes(&vec![]), Vec::<u8>::new());
}

#[test]
fn layout_of_water_surface() {
    // four corners, one face of six indices
    let l = glb_layout(4, &vec![6]);
    assert_eq!(l.vertex_count, 4);
    assert_eq!(l.padded_vertices_length, 48);
    assert_eq!(l.padded_indices_lengths, vec![32]);
    assert_eq!(l.index_offsets, vec![0]);
    assert_eq!(l.indices_length, 32);
    assert_eq!(l.buffer_length, 80);
}

#[test]
fn layout_of_several_faces() {
    let l = glb_layout(5, &vec![3, 4, 9, 0]);
    assert_eq!(l.padded_vertices_length, 96);
    assert_eq!(l.padded_indices_lengths, vec![16, 16, 48, 0]);
    assert_eq!(l.index_offsets, vec![0, 16, 32, 80]);
    assert_eq!(l.indices_length, 80);
    assert_eq!(l.buffer_length, 176);
}

#[test]
fn bin_holds_vertices_then_indices() {
    let r: VertexRecord = [1; 12];
    let lists = vec![vec![0u32, 1, 2], vec![2u32, 3, 0, 1, 2]];
    let bin = assemble_bin(vec![r; 5], &lists);
    let l = glb_layout(5, &vec![3, 5]);
    assert_eq!(bin.len(), l.buffer_length);
    assert_eq!(&bin[..60], &[1u8; 60][..]);
    assert_eq!(&bin[60..96], &[0u8; 36][..]);
    for (i, list) in lists.iter().enumerate() {
        let start = l.padded_vertices_length + l.index_offsets[i];
        assert_eq!(&bin[start..start + 4 * list.len()], &u32s_to_le_bytes(list)[..]);
    }
}

#[test]
fn glb_file_reads_back_with_gltf() {
    let json = b"{\"asset\":{\"version\":\"2.0\"}}".to_vec();
    let r: VertexRecord = [2; 12];
    let lists = vec![vec![0u32, 1, 2, 2, 3, 0]];
    let bin = assemble_bin(vec![r; 4], &lists);
    let glb = assemble_glb(json.clone(), vec![r; 4], &lists).unwrap();
    assert_eq!(&glb[..4], b"glTF");
    assert_eq!(u32::from_le_bytes([glb[4], glb[5], glb[6], glb[7]]), 2);
    assert_eq!(u32::from_le_bytes([glb[8], glb[9], glb[10], glb[11]]) as usize, glb.len());
    assert_eq!(glb.len(), 12 + 8 + 28 + 8 + 80);
    let parsed = gltf::Glb::from_slice(&glb).unwrap();
    assert_eq!(&parsed.json[..json.len()], &json[..]);
    assert!(parsed.json[json.len()..].iter().all(|b| *b == b' '));
    assert_eq!(parsed.bin.unwrap().as_ref(), &bin[..]);
}
