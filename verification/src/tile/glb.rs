//! Binary glTF (`.glb`) assembly for generated tiles: padding, the byte layout
//! of the vertex and index buffers, and the final container.

use vstd::prelude::*;
use std::borrow::Cow;

verus! {

/// MIME type of a texture image.
#[derive(Clone, Copy, Debug, PartialEq, Eq, Structural)]
pub enum Mime {
    ImageJpeg,
    ImagePng,
}

/// A texture for a generated tile. Give `buf` or `uri`; when both are given
/// both are written and readers use `buf`.
#[derive(Clone, Debug)]
pub struct TextureInfo {
    pub buf: Option<Vec<u8>>,
    pub uri: Option<String>,
    pub mime_type: Mime,
}

/// The bytes of one vertex: three `f32` coordinates.
pub type VertexRecord = [u8; 12];

/// The smallest multiple of four that is at least `n`.
pub open spec fn round4(n: int) -> int {
    if n % 4 == 0 {
        n
    } else {
        n + 4 - n % 4
    }
}

/// `s` followed by copies of `fill` up to the next multiple of four elements.
pub open spec fn padded<T>(s: Seq<T>, fill: T) -> Seq<T> {
    s + Seq::new((round4(s.len() as int) - s.len()) as nat, |_i: int| fill)
}

/// `n` zero bytes.
pub open spec fn zeros(n: int) -> Seq<u8> {
    Seq::new(n as nat, |_i: int| 0u8)
}

/// The four little-endian bytes of `x`.
pub open spec fn le32(x: u32) -> Seq<u8> {
    seq![
        (x & 0xff) as u8,
        ((x >> 8u32) & 0xff) as u8,
        ((x >> 16u32) & 0xff) as u8,
        ((x >> 24u32) & 0xff) as u8,
    ]
}

/// The little-endian bytes of each `u32` of `s`, in order.
pub open spec fn u32s_le(s: Seq<u32>) -> Seq<u8>
    decreases s.len(),
{
    if s.len() == 0 {
        Seq::<u8>::empty()
    } else {
        u32s_le(s.drop_last()) + le32(s.last())
    }
}

/// The four little-endian bytes of `x`.
pub fn le32_bytes(x: u32) -> (r: [u8; 4])
    ensures
        r@ == le32(x),
{
    let r = [
        (x & 0xff) as u8,
        ((x >> 8u32) & 0xff) as u8,
        ((x >> 16u32) & 0xff) as u8,
        ((x >> 24u32) & 0xff) as u8,
    ];
    assert(r@ =~= le32(x));
    r
}

/// The bytes of each vertex record of `s`, in order.
pub open spec fn records_bytes(s: Seq<VertexRecord>) -> Seq<u8>
    decreases s.len(),
{
    if s.len() == 0 {
        Seq::<u8>::empty()
    } else {
        records_bytes(s.drop_last()) + s.last()@
    }
}

/// The smallest multiple of four that is at least `n`; computed with the
/// remainder, without bit tricks.
pub fn round_up_to_mul_of_four(n: usize) -> (r: usize)
    requires
        round4(n as int) <= usize::MAX,
    ensures
        r == round4(n as int),
        r % 4 == 0,
        n <= r < n + 4,
{
    let remainder = n % 4;
    if remainder == 0 {
        n
    } else {
        n + 4 - remainder
    }
}

/// `vec` filled up with `fill` to a multiple of four elements.
pub fn pad_to_mul_of_four<T: Copy>(vec: Vec<T>, fill: T) -> (r: Vec<T>)
    requires
        vec.len() + 3 <= usize::MAX,
    ensures
        r@ == padded(vec@, fill),
        r@.len() == round4(vec@.len() as int),
        r@.len() % 4 == 0,
{
    let mut vec = vec;
    let ghost orig = vec@;
    let remainder = vec.len() % 4;
    if remainder != 0 {
        let extra = 4 - remainder;
        let mut k: usize = 0;
        while k < extra
            invariant
                extra == 4 - remainder,
                remainder == orig.len() % 4,
                k <= extra,
                vec@ == orig + Seq::new(k as nat, |_i: int| fill),
            decreases extra - k,
        {
            vec.push(fill);
            k = k + 1;
            assert(vec@ =~= orig + Seq::new(k as nat, |_i: int| fill));
        }
    }
    assert(vec@ =~= padded(orig, fill));
    vec
}

/// Vertex ids as the `u32` indices of a glTF index buffer (`as` conversion).
pub fn vertex_ids_to_indices(ids: &Vec<usize>) -> (r: Vec<u32>)
    ensures
        r@.len() == ids@.len(),
        forall|i: int| 0 <= i < ids@.len() ==> #[trigger] r@[i] == ids@[i] as u32,
{
    let mut r: Vec<u32> = Vec::new();
    let mut i: usize = 0;
    while i < ids.len()
        invariant
            i <= ids@.len(),
            r@.len() == i,
            forall|j: int| 0 <= j < i ==> #[trigger] r@[j] == ids@[j] as u32,
        decreases ids@.len() - i,
    {
        r.push(ids[i] as u32);
        i = i + 1;
    }
    r
}

/// The `u32`s of `v` as consecutive little-endian bytes.
pub fn u32s_to_le_bytes(v: &Vec<u32>) -> (r: Vec<u8>)
    ensures
        r@ == u32s_le(v@),
        r@.len() == 4 * v@.len(),
{
    let mut r: Vec<u8> = Vec::new();
    let mut i: usize = 0;
    assert(v@.take(0) =~= Seq::<u32>::empty());
    while i < v.len()
        invariant
            i <= v@.len(),
            r@ == u32s_le(v@.take(i as int)),
            r@.len() == 4 * i,
        decreases v@.len() - i,
    {
        let b = le32_bytes(v[i]);
        r.push(b[0]);
        r.push(b[1]);
        r.push(b[2]);
        r.push(b[3]);
        assert(v@.take(i + 1).drop_last() =~= v@.take(i as int));
        assert(r@ =~= u32s_le(v@.take(i as int)) + le32(v@[i as int]));
        i = i + 1;
    }
    assert(v@.take(v@.len() as int) =~= v@);
    r
}

/// The vertex records of `v` as consecutive bytes.
pub fn records_to_bytes(v: &Vec<VertexRecord>) -> (r: Vec<u8>)
    ensures
        r@ == records_bytes(v@),
        r@.len() == 12 * v@.len(),
{
    let mut r: Vec<u8> = Vec::new();
    let mut i: usize = 0;
    assert(v@.take(0) =~= Seq::<VertexRecord>::empty());
    while i < v.len()
        invariant
            i <= v@.len(),
            r@ == records_bytes(v@.take(i as int)),
            r@.len() == 12 * i,
        decreases v@.len() - i,
    {
        let rec = v[i];
        let ghost before = r@;
        let mut j: usize = 0;
        while j < 12
            invariant
                j <= 12,
                r@ == before + rec@.take(j as int),
            decreases 12 - j,
        {
            r.push(rec[j]);
            j = j + 1;
            assert(r@ =~= before + rec@.take(j as int));
        }
        assert(rec@.take(12) =~= rec@);
        assert(v@.take(i + 1).drop_last() =~= v@.take(i as int));
        i = i + 1;
    }
    assert(v@.take(v@.len() as int) =~= v@);
    r
}

/// Bytes of the vertex buffer view: the vertex count padded to a multiple of
/// four, twelve bytes per vertex.
pub open spec fn padded_vertex_bytes(vertex_count: int) -> int {
    round4(vertex_count) * 12
}

/// Bytes of the index list of `count` indices once padded to a multiple of four.
pub open spec fn padded_index_bytes(count: int) -> int {
    round4(count) * 4
}

/// Byte offset, within the index buffer view, of the `i`-th index list: the
/// padded sizes of the lists before it.
pub open spec fn index_offset(counts: Seq<usize>, i: int) -> int
    decreases i,
{
    if i <= 0 {
        0
    } else {
        index_offset(counts, i - 1) + padded_index_bytes(counts[i - 1] as int)
    }
}

/// Bytes of the whole binary buffer: padded vertices, then all padded index lists.
pub open spec fn buffer_length(vertex_count: int, counts: Seq<usize>) -> int {
    padded_vertex_bytes(vertex_count) + index_offset(counts, counts.len() as int)
}

/// Offsets grow with the list index.
proof fn lemma_index_offset_monotone(counts: Seq<usize>, i: int, j: int)
    requires
        0 <= i <= j,
    ensures
        0 <= index_offset(counts, i) <= index_offset(counts, j),
    decreases j - i,
{
    if i < j {
        lemma_index_offset_monotone(counts, i, j - 1);
        assert(padded_index_bytes(counts[j - 1] as int) >= 0);
    } else {
        lemma_index_offset_nonneg(counts, i);
    }
}

/// Offsets are never negative.
proof fn lemma_index_offset_nonneg(counts: Seq<usize>, i: int)
    ensures
        0 <= index_offset(counts, i),
    decreases i,
{
    if i > 0 {
        lemma_index_offset_nonneg(counts, i - 1);
    }
}

/// Where each part of a tile's binary buffer lies, as its glTF buffer views and
/// accessors declare it.
pub struct GlbLayout {
    /// Number of vertices (the count of the position accessor).
    pub vertex_count: usize,
    /// Byte length of the vertex buffer view.
    pub padded_vertices_length: usize,
    /// Padded byte length of each index list.
    pub padded_indices_lengths: Vec<usize>,
    /// Byte offset of each index accessor within the index buffer view.
    pub index_offsets: Vec<usize>,
    /// Byte length of the index buffer view; it starts right after the vertices.
    pub indices_length: usize,
    /// Byte length of the whole buffer.
    pub buffer_length: usize,
}

/// The layout of a buffer holding `vertex_count` vertices and index lists of
/// `index_counts` indices each.
pub fn glb_layout(vertex_count: usize, index_counts: &Vec<usize>) -> (l: GlbLayout)
    requires
        buffer_length(vertex_count as int, index_counts@) <= usize::MAX,
    ensures
        l.vertex_count == vertex_count,
        l.padded_vertices_length == padded_vertex_bytes(vertex_count as int),
        l.padded_indices_lengths@.len() == index_counts@.len(),
        l.index_offsets@.len() == index_counts@.len(),
        forall|i: int|
            0 <= i < index_counts@.len() ==> #[trigger] l.padded_indices_lengths@[i]
                == padded_index_bytes(index_counts@[i] as int),
        forall|i: int|
            0 <= i < index_counts@.len() ==> #[trigger] l.index_offsets@[i] == index_offset(
                index_counts@,
                i,
            ),
        l.indices_length == index_offset(index_counts@, index_counts@.len() as int),
        l.buffer_length == buffer_length(vertex_count as int, index_counts@),
{
    let ghost counts = index_counts@;
    let ghost total = buffer_length(vertex_count as int, counts);
    proof {
        lemma_index_offset_nonneg(counts, counts.len() as int);
    }
    let padded_vertices_length = round_up_to_mul_of_four(vertex_count) * 12;
    let mut padded_indices_lengths: Vec<usize> = Vec::new();
    let mut index_offsets: Vec<usize> = Vec::new();
    let mut sum: usize = 0;
    let mut i: usize = 0;
    while i < index_counts.len()
        invariant
            counts == index_counts@,
            total == buffer_length(vertex_count as int, counts),
            total <= usize::MAX,
            padded_vertices_length == padded_vertex_bytes(vertex_count as int),
            i <= counts.len(),
            sum == index_offset(counts, i as int),
            padded_indices_lengths@.len() == i,
            index_offsets@.len() == i,
            forall|j: int|
                0 <= j < i ==> #[trigger] padded_indices_lengths@[j] == padded_index_bytes(
                    counts[j] as int,
                ),
            forall|j: int| 0 <= j < i ==> #[trigger] index_offsets@[j] == index_offset(counts, j),
        decreases counts.len() - i,
    {
        proof {
            lemma_index_offset_monotone(counts, i + 1, counts.len() as int);
            lemma_index_offset_nonneg(counts, i as int);
        }
        let p = round_up_to_mul_of_four(index_counts[i]) * 4;
        index_offsets.push(sum);
        padded_indices_lengths.push(p);
        sum = sum + p;
        i = i + 1;
    }
    GlbLayout {
        vertex_count,
        padded_vertices_length,
        padded_indices_lengths,
        index_offsets,
        indices_length: sum,
        buffer_length: padded_vertices_length + sum,
    }
}

/// The contents of each `Vec` of `v`.
pub open spec fn lists_view(v: Seq<Vec<u32>>) -> Seq<Seq<u32>> {
    v.map_values(|l: Vec<u32>| l@)
}

/// The number of indices of each list of `lists`.
pub open spec fn list_counts(lists: Seq<Seq<u32>>) -> Seq<usize> {
    lists.map_values(|l: Seq<u32>| l.len() as usize)
}

/// The bytes of one index list padded with zeros to a multiple of four indices.
pub open spec fn padded_list_bytes(l: Seq<u32>) -> Seq<u8> {
    u32s_le(l) + zeros(padded_index_bytes(l.len() as int) - 4 * l.len())
}

/// The padded bytes of the first `i` index lists, one after the other.
pub open spec fn index_lists_bytes(lists: Seq<Seq<u32>>, i: int) -> Seq<u8>
    decreases i,
{
    if i <= 0 {
        Seq::<u8>::empty()
    } else {
        index_lists_bytes(lists, i - 1) + padded_list_bytes(lists[i - 1])
    }
}

/// The binary chunk of a tile: the vertices, zeros up to a multiple of four
/// vertices, then each index list followed by zeros up to a multiple of four
/// indices.
pub open spec fn glb_bin(vertices: Seq<VertexRecord>, lists: Seq<Seq<u32>>) -> Seq<u8> {
    records_bytes(vertices) + zeros(padded_vertex_bytes(vertices.len() as int) - 12 * vertices.len())
        + index_lists_bytes(lists, lists.len() as int)
}

/// Four bytes per index.
proof fn lemma_u32s_le_len(s: Seq<u32>)
    ensures
        u32s_le(s).len() == 4 * s.len(),
    decreases s.len(),
{
    if s.len() > 0 {
        lemma_u32s_le_len(s.drop_last());
    }
}

/// Twelve bytes per vertex.
proof fn lemma_records_len(s: Seq<VertexRecord>)
    ensures
        records_bytes(s).len() == 12 * s.len(),
    decreases s.len(),
{
    if s.len() > 0 {
        lemma_records_len(s.drop_last());
    }
}

/// The bytes of two runs of vertices are the bytes of each, one after the other.
proof fn lemma_records_concat(a: Seq<VertexRecord>, b: Seq<VertexRecord>)
    ensures
        records_bytes(a + b) == records_bytes(a) + records_bytes(b),
    decreases b.len(),
{
    if b.len() == 0 {
        assert(a + b =~= a);
        assert(records_bytes(a) + records_bytes(b) =~= records_bytes(a));
    } else {
        lemma_records_concat(a, b.drop_last());
        assert((a + b).drop_last() =~= a + b.drop_last());
        assert(records_bytes(a) + records_bytes(b.drop_last()) + b.last()@ =~= records_bytes(a)
            + (records_bytes(b.drop_last()) + b.last()@));
    }
}

/// Zero vertices are zero bytes.
proof fn lemma_records_zero(k: nat, z: VertexRecord)
    requires
        z@ == zeros(12),
    ensures
        records_bytes(Seq::new(k, |_i: int| z)) == zeros(12 * k as int),
    decreases k,
{
    let s = Seq::new(k, |_i: int| z);
    if k > 0 {
        lemma_records_zero((k - 1) as nat, z);
        assert(s.drop_last() =~= Seq::new((k - 1) as nat, |_i: int| z));
        assert(zeros(12 * (k - 1)) + z@ =~= zeros(12 * k as int));
    } else {
        assert(records_bytes(s) =~= zeros(0));
    }
}

/// The padded bytes of the first `i` lists end at the offset of list `i`.
proof fn lemma_index_lists_bytes_len(lists: Seq<Seq<u32>>, i: int)
    requires
        0 <= i <= lists.len(),
        forall|j: int| 0 <= j < lists.len() ==> #[trigger] lists[j].len() <= usize::MAX,
    ensures
        index_lists_bytes(lists, i).len() == index_offset(list_counts(lists), i),
    decreases i,
{
    if i > 0 {
        lemma_index_lists_bytes_len(lists, i - 1);
        lemma_u32s_le_len(lists[i - 1]);
        let c = lists[i - 1].len();
        assert(round4(c as int) >= c);
    }
}

/// The padded bytes of fewer lists are a prefix of those of more lists.
proof fn lemma_index_lists_bytes_prefix(lists: Seq<Seq<u32>>, i: int, j: int)
    requires
        0 <= i <= j <= lists.len(),
        forall|k: int| 0 <= k < lists.len() ==> #[trigger] lists[k].len() <= usize::MAX,
    ensures
        index_lists_bytes(lists, j).take(index_lists_bytes(lists, i).len() as int)
            == index_lists_bytes(lists, i),
    decreases j - i,
{
    if i < j {
        lemma_index_lists_bytes_prefix(lists, i, j - 1);
        let pre = index_lists_bytes(lists, j - 1);
        let n = index_lists_bytes(lists, i).len() as int;
        lemma_index_lists_bytes_len(lists, i);
        lemma_index_lists_bytes_len(lists, j - 1);
        lemma_index_offset_monotone(list_counts(lists), i, j - 1);
        assert((pre + padded_list_bytes(lists[j - 1])).take(n) =~= pre.take(n));
    } else {
        assert(index_lists_bytes(lists, i).take(index_lists_bytes(lists, i).len() as int)
            =~= index_lists_bytes(lists, i));
    }
}

/// The bytes of `l` followed by zeros up to a multiple of four indices.
pub fn index_list_to_padded_bytes(l: &Vec<u32>) -> (r: Vec<u8>)
    requires
        padded_index_bytes(l@.len() as int) <= usize::MAX,
    ensures
        r@ == padded_list_bytes(l@),
{
    let mut r = u32s_to_le_bytes(l);
    let ghost body = r@;
    let target = round_up_to_mul_of_four(l.len()) * 4;
    while r.len() < target
        invariant
            body == u32s_le(l@),
            body.len() == 4 * l@.len(),
            target == padded_index_bytes(l@.len() as int),
            body.len() <= r@.len() <= target,
            r@ == body + zeros(r@.len() - body.len()),
        decreases target - r@.len(),
    {
        r.push(0u8);
        assert(r@ =~= body + zeros(r@.len() - body.len()));
    }
    r
}

/// The binary chunk of a tile (see `glb_bin`): vertices padded to a multiple of
/// four with zero vertices, then each index list padded to a multiple of four
/// with zero indices.
pub fn assemble_bin(vertices: Vec<VertexRecord>, index_lists: &Vec<Vec<u32>>) -> (bin: Vec<u8>)
    requires
        buffer_length(vertices@.len() as int, list_counts(lists_view(index_lists@))) <= usize::MAX,
    ensures
        bin@ == glb_bin(vertices@, lists_view(index_lists@)),
{
    let ghost lists = lists_view(index_lists@);
    let ghost counts = list_counts(lists);
    let ghost orig = vertices@;
    let zero: VertexRecord = [0u8; 12];
    assert(zero@ =~= zeros(12));
    proof {
        lemma_index_offset_nonneg(counts, counts.len() as int);
    }
    let padded_vertices = pad_to_mul_of_four(vertices, zero);
    let mut bin = records_to_bytes(&padded_vertices);
    proof {
        let k = (round4(orig.len() as int) - orig.len()) as nat;
        lemma_records_concat(orig, Seq::new(k, |_i: int| zero));
        lemma_records_zero(k, zero);
        assert(bin@ =~= records_bytes(orig) + zeros(
            padded_vertex_bytes(orig.len() as int) - 12 * orig.len(),
        ));
    }
    let ghost head = bin@;
    let mut i: usize = 0;
    assert(head + index_lists_bytes(lists, 0) =~= head);
    while i < index_lists.len()
        invariant
            lists == lists_view(index_lists@),
            counts == list_counts(lists),
            buffer_length(orig.len() as int, counts) <= usize::MAX,
            i <= index_lists@.len(),
            bin@ == head + index_lists_bytes(lists, i as int),
        decreases index_lists@.len() - i,
    {
        let list_len = index_lists[i].len();
        proof {
            lemma_index_offset_monotone(counts, i + 1, counts.len() as int);
            lemma_index_offset_nonneg(counts, i as int);
            assert(lists[i as int] == index_lists@[i as int]@);
            assert(list_len == index_lists@[i as int]@.len());
            assert(counts[i as int] as int == index_lists@[i as int]@.len());
            assert(index_offset(counts, i + 1) == index_offset(counts, i as int) + padded_index_bytes(
                counts[i as int] as int,
            ));
            assert(padded_vertex_bytes(orig.len() as int) >= 0);
        }
        let mut b = index_list_to_padded_bytes(&index_lists[i]);
        bin.append(&mut b);
        assert(bin@ =~= head + index_lists_bytes(lists, i + 1));
        i = i + 1;
    }
    bin
}

/// The binary chunk is as long as the buffer that the glTF document declares.
pub proof fn lemma_glb_bin_length(vertices: Seq<VertexRecord>, lists: Seq<Seq<u32>>)
    requires
        forall|j: int| 0 <= j < lists.len() ==> #[trigger] lists[j].len() <= usize::MAX,
    ensures
        glb_bin(vertices, lists).len() == buffer_length(vertices.len() as int, list_counts(lists)),
{
    lemma_records_len(vertices);
    assert(round4(vertices.len() as int) >= vertices.len());
    lemma_index_lists_bytes_len(lists, lists.len() as int);
}

/// The binary chunk holds what the glTF document declares: its length is the
/// declared buffer length, it starts with the vertices, and the bytes that the
/// `i`-th index accessor covers (at the vertex view's length plus the accessor's
/// offset, four bytes per index) are exactly the `i`-th index list.
pub proof fn lemma_glb_bin_layout(vertices: Seq<VertexRecord>, lists: Seq<Seq<u32>>, i: int)
    requires
        0 <= i < lists.len(),
        forall|j: int| 0 <= j < lists.len() ==> #[trigger] lists[j].len() <= usize::MAX,
    ensures
        glb_bin(vertices, lists).len() == buffer_length(vertices.len() as int, list_counts(lists)),
        glb_bin(vertices, lists).take(12 * vertices.len() as int) == records_bytes(vertices),
        glb_bin(vertices, lists).subrange(
            padded_vertex_bytes(vertices.len() as int) + index_offset(list_counts(lists), i),
            padded_vertex_bytes(vertices.len() as int) + index_offset(list_counts(lists), i) + 4
                * lists[i].len(),
        ) == u32s_le(lists[i]),
{
    let n = vertices.len() as int;
    let counts = list_counts(lists);
    let pv = padded_vertex_bytes(n);
    lemma_records_len(vertices);
    assert(round4(n) >= n);
    let head = records_bytes(vertices) + zeros(pv - 12 * n);
    assert(head.len() == pv);
    let all = index_lists_bytes(lists, lists.len() as int);
    lemma_index_lists_bytes_len(lists, lists.len() as int);
    assert(glb_bin(vertices, lists) == head + all);
    assert((head + all).take(12 * n) =~= records_bytes(vertices));
    lemma_index_lists_bytes_prefix(lists, i + 1, lists.len() as int);
    lemma_index_lists_bytes_len(lists, i);
    lemma_index_lists_bytes_len(lists, i + 1);
    lemma_u32s_le_len(lists[i]);
    let off = index_offset(counts, i);
    let pre = index_lists_bytes(lists, i + 1);
    assert(pre == index_lists_bytes(lists, i) + padded_list_bytes(lists[i]));
    let len_i = 4 * lists[i].len();
    assert(counts[i] as int == lists[i].len());
    assert(pre.len() == off + padded_index_bytes(counts[i] as int));
    assert(round4(lists[i].len() as int) >= lists[i].len());
    assert(off + len_i <= pre.len());
    assert(all.take(pre.len() as int) == pre);
    lemma_index_offset_monotone(counts, i + 1, lists.len() as int);
    assert(pv + off + len_i <= (head + all).len());
    assert((head + all).subrange(pv + off, pv + off + len_i) =~= all.subrange(off, off + len_i));
    assert(all.subrange(off, off + len_i) =~= all.take(pre.len() as int).subrange(off, off + len_i));
    assert((head + all).subrange(pv + off, pv + off + len_i) =~= pre.subrange(off, off + len_i));
    assert(pre.subrange(off, off + len_i) =~= u32s_le(lists[i]));
}

/// The error value of the `gltf` crate.
#[verifier::external_type_specification]
#[verifier::external_body]
pub struct ExGltfError(gltf::Error);

/// Why a tile's binary glTF could not be produced.
#[derive(Clone, Copy, Debug, PartialEq, Eq, Structural)]
pub enum GlbError {
    /// The file size exceeds the binary glTF limit (a `u32` byte count).
    FileTooLarge,
}

/// A `.glb` file of the JSON chunk `json` and the binary chunk `bin`, as the
/// `gltf` crate writes it: the header (`"glTF"`, version 2, total length), then
/// each chunk as its padded length, its type and its bytes, the JSON padded
/// with spaces and the binary chunk with zeros to a multiple of four bytes.
pub open spec fn glb_container_bytes(json: Seq<u8>, bin: Seq<u8>) -> Seq<u8> {
    let json_chunk = round4(json.len() as int);
    let bin_chunk = round4(bin.len() as int);
    let total = round4(round4(20 + json.len() as int) + 8 + bin.len());
    seq![0x67u8, 0x6c, 0x54, 0x46] + le32(2) + le32(total as u32) + le32(json_chunk as u32)
        + seq![0x4au8, 0x53, 0x4f, 0x4e] + json + Seq::new(
        (json_chunk - json.len()) as nat,
        |_i: int| 0x20u8,
    ) + le32(bin_chunk as u32) + seq![0x42u8, 0x49, 0x4e, 0x00] + bin + zeros(
        bin_chunk - bin.len(),
    )
}

/// Calls `gltf::Glb::to_vec` on a `Glb` with the given header length, JSON
/// chunk and binary chunk. `to_vec` writes the header's magic, version 2 and a
/// length it computes itself (the `length` field is not read), then both chunks
/// with their padding. It writes into a `Vec`, which accepts every write, so it
/// always succeeds; the contract claims success and that output.
#[verifier::external_body]
fn gltf_glb_to_vec(length: u32, json: Vec<u8>, bin: Vec<u8>) -> (r: Result<Vec<u8>, gltf::Error>)
    requires
        json@.len() + bin@.len() + 64 <= usize::MAX,
    ensures
        r is Ok,
        r matches Ok(b) ==> b@ == glb_container_bytes(json@, bin@),
{
    let header = gltf::binary::Header { magic: *b"glTF", version: 2, length };
    gltf::Glb { header, json: Cow::Owned(json), bin: Some(Cow::Owned(bin)) }.to_vec()
}

/// The number of indices of each list.
fn index_counts(index_lists: &Vec<Vec<u32>>) -> (r: Vec<usize>)
    ensures
        r@ == list_counts(lists_view(index_lists@)),
        forall|j: int| 0 <= j < index_lists@.len() ==> #[trigger] r@[j] as int == index_lists@[j]@.len(),
{
    let mut r: Vec<usize> = Vec::new();
    let mut i: usize = 0;
    while i < index_lists.len()
        invariant
            i <= index_lists@.len(),
            r@.len() == i,
            forall|j: int|
                0 <= j < i ==> #[trigger] r@[j] == list_counts(lists_view(index_lists@))[j],
            forall|j: int| 0 <= j < i ==> #[trigger] r@[j] as int == index_lists@[j]@.len(),
        decreases index_lists@.len() - i,
    {
        r.push(index_lists[i].len());
        i = i + 1;
    }
    assert(r@ =~= list_counts(lists_view(index_lists@)));
    r
}

/// The `.glb` file of a tile: `json` is the glTF document, which declares the
/// buffer layout of `glb_layout`; the binary chunk holds the vertices and index
/// lists (see `glb_bin`). Fails, with `FileTooLarge`, exactly when the padded
/// JSON plus the buffer exceed the binary glTF limit.
pub fn assemble_glb(json: Vec<u8>, vertices: Vec<VertexRecord>, index_lists: &Vec<Vec<u32>>) -> (r:
    Result<Vec<u8>, GlbError>)
    requires
        round4(json@.len() as int) + buffer_length(
            vertices@.len() as int,
            list_counts(lists_view(index_lists@)),
        ) + 64 <= usize::MAX,
    ensures
        round4(json@.len() as int) + buffer_length(
            vertices@.len() as int,
            list_counts(lists_view(index_lists@)),
        ) > u32::MAX ==> r == Err::<Vec<u8>, GlbError>(GlbError::FileTooLarge),
        round4(json@.len() as int) + buffer_length(
            vertices@.len() as int,
            list_counts(lists_view(index_lists@)),
        ) <= u32::MAX ==> r is Ok,
        r matches Ok(b) ==> b@ == glb_container_bytes(
            json@,
            glb_bin(vertices@, lists_view(index_lists@)),
        ),
{
    let ghost lists = lists_view(index_lists@);
    let ghost orig = vertices@;
    let counts = index_counts(index_lists);
    proof {
        lemma_index_offset_nonneg(counts@, counts@.len() as int);
    }
    let layout = glb_layout(vertices.len(), &counts);
    let json_offset = round_up_to_mul_of_four(json.len());
    let total = json_offset + layout.buffer_length;
    if total > 0xffff_ffff {
        return Err(GlbError::FileTooLarge);
    }
    let bin = assemble_bin(vertices, index_lists);
    proof {
        assert forall|j: int| 0 <= j < lists.len() implies #[trigger] lists[j].len() <= usize::MAX by {
            assert(lists[j] == index_lists@[j]@);
            assert(counts@[j] as int == index_lists@[j]@.len());
        }
        lemma_glb_bin_length(orig, lists);
        assert(bin@.len() == layout.buffer_length);
    }
    match gltf_glb_to_vec(total as u32, json, bin) {
        Ok(b) => Ok(b),
        Err(_) => {
            proof {
                assert(false);
            }
            Err(GlbError::FileTooLarge)
        },
    }
}

/// The header of a tile's `.glb` file states the file's length, and both chunk
/// lengths are multiples of four.
pub proof fn lemma_glb_container_length(json: Seq<u8>, bin: Seq<u8>)
    requires
        28 + round4(json.len() as int) + round4(bin.len() as int) <= u32::MAX,
    ensures
        glb_container_bytes(json, bin).len() == 28 + round4(json.len() as int) + round4(
            bin.len() as int,
        ),
        round4(round4(20 + json.len() as int) + 8 + bin.len()) == 28 + round4(json.len() as int)
            + round4(bin.len() as int),
        round4(json.len() as int) % 4 == 0,
        round4(bin.len() as int) % 4 == 0,
{
    let j = json.len() as int;
    let b = bin.len() as int;
    assert(round4(20 + j) == 20 + round4(j));
    assert(round4(20 + round4(j) + 8 + b) == 28 + round4(j) + round4(b));
    assert(round4(j) >= j);
    assert(round4(b) >= b);
}

} // verus!
