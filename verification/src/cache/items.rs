//! Tile identifiers, kinds of cached data and cache keys, with the names under
//! which the disk layer stores them.

use vstd::prelude::*;
use crate::text::{
    append_decimal, decimal, digits_value, is_digit, is_number_at_most, split_on, all_digits,
    digit_value, lemma_decimal_all_digits, lemma_decimal_value, lemma_split_digits,
    lemma_split_on_nonempty,
};

verus! {

/// A map tile addressed by its column `x`, row `y` and zoom level `z`.
#[derive(Clone, Copy, Debug, PartialEq, Eq, Hash, Structural)]
pub struct TileId {
    pub x: u32,
    pub y: u32,
    pub z: u8,
}

/// The name of a tile: `"{x}_{y}_{z}"`.
pub open spec fn tile_id_text(t: TileId) -> Seq<char> {
    decimal(t.x as nat) + seq!['_'] + decimal(t.y as nat) + seq!['_'] + decimal(t.z as nat)
}

/// What reading a tile name gives: the text must split at `'_'` into exactly
/// three non-empty digit runs, the first two fitting a `u32` and the last a `u8`.
pub open spec fn parse_tile_id(s: Seq<char>) -> Option<TileId> {
    let f = split_on(s, '_');
    if f.len() == 3 && is_number_at_most(f[0], u32::MAX as nat) && is_number_at_most(
        f[1],
        u32::MAX as nat,
    ) && is_number_at_most(f[2], u8::MAX as nat) {
        Some(TileId { x: digits_value(f[0]) as u32, y: digits_value(f[1]) as u32, z: digits_value(f[2]) as u8 })
    } else {
        None
    }
}

/// The running value of a digit run, held back at `2^32` once it no longer fits a `u32`.
pub open spec fn capped_value(field: Seq<char>) -> nat {
    if digits_value(field) <= u32::MAX as nat {
        digits_value(field)
    } else {
        0x1_0000_0000
    }
}

impl TileId {
    /// A tile from its coordinates.
    pub fn new(x: u32, y: u32, z: u8) -> (t: TileId)
        ensures
            t == (TileId { x, y, z }),
    {
        TileId { x, y, z }
    }

    /// The tile's name, `"{x}_{y}_{z}"`.
    pub fn to_string(&self) -> (s: String)
        ensures
            s@ == tile_id_text(*self),
    {
        let mut s = String::new();
        proof {
            reveal_strlit("_");
        }
        append_decimal(&mut s, self.x as u64);
        s.append("_");
        append_decimal(&mut s, self.y as u64);
        s.append("_");
        append_decimal(&mut s, self.z as u64);
        assert(s@ =~= tile_id_text(*self));
        s
    }

    /// Reads a tile name such as `"3_7_4"` (see `parse_tile_id`).
    pub fn parse(s: &str) -> (r: Option<TileId>)
        ensures
            r == parse_tile_id(s@),
    {
        let n = s.unicode_len();
        let ghost chars = s@;
        let mut fields: usize = 1;
        let mut cur_len: usize = 0;
        let mut cur_digits = true;
        let mut cur_val: u64 = 0;
        let mut first_ok = false;
        let mut first_val: u64 = 0;
        let mut second_ok = false;
        let mut second_val: u64 = 0;
        let mut i: usize = 0;
        assert(chars.take(0) =~= Seq::<char>::empty());
        assert(all_digits(Seq::<char>::empty()));
        assert(digits_value(Seq::<char>::empty()) == 0);
        while i < n
            invariant
                n == chars.len(),
                chars == s@,
                i <= n,
                cur_len <= i,
                split_on(chars.take(i as int), '_').len() >= 1,
                fields as int == if split_on(chars.take(i as int), '_').len() < 4 {
                    split_on(chars.take(i as int), '_').len() as int
                } else {
                    4
                },
                cur_len as int == split_on(chars.take(i as int), '_').last().len(),
                cur_digits == all_digits(split_on(chars.take(i as int), '_').last()),
                cur_digits ==> cur_val as nat == capped_value(
                    split_on(chars.take(i as int), '_').last(),
                ),
                fields >= 2 ==> first_ok == is_number_at_most(
                    split_on(chars.take(i as int), '_')[0],
                    u32::MAX as nat,
                ),
                fields >= 2 && first_ok ==> first_val as nat == digits_value(
                    split_on(chars.take(i as int), '_')[0],
                ),
                fields >= 3 ==> second_ok == is_number_at_most(
                    split_on(chars.take(i as int), '_')[1],
                    u32::MAX as nat,
                ),
                fields >= 3 && second_ok ==> second_val as nat == digits_value(
                    split_on(chars.take(i as int), '_')[1],
                ),
            decreases n - i,
        {
            let c = s.get_char(i);
            let ghost prev = split_on(chars.take(i as int), '_');
            let ghost t = chars.take(i + 1);
            assert(t.drop_last() =~= chars.take(i as int));
            assert(t.last() == c);
            proof {
                lemma_split_on_nonempty(chars.take(i as int), '_');
            }
            if c == '_' {
                assert(split_on(t, '_') == prev.push(Seq::<char>::empty()));
                let ok = cur_digits && cur_len > 0 && cur_val <= 0xffff_ffff;
                if fields == 1 {
                    first_ok = ok;
                    first_val = cur_val;
                } else if fields == 2 {
                    second_ok = ok;
                    second_val = cur_val;
                }
                if fields < 4 {
                    fields = fields + 1;
                }
                cur_len = 0;
                cur_digits = true;
                cur_val = 0;
                assert(all_digits(Seq::<char>::empty()));
                assert(digits_value(Seq::<char>::empty()) == 0);
            } else {
                let ghost last = prev.last();
                let ghost next = last.push(c);
                assert(split_on(t, '_') == prev.update(prev.len() - 1, next));
                assert(next.drop_last() =~= last);
                assert(next.last() == c);
                let is_d = '0' <= c && c <= '9';
                if cur_digits && !is_d {
                    assert(!is_digit(next[next.len() - 1]));
                }
                if cur_digits && is_d {
                    assert forall|j: int| 0 <= j < next.len() implies #[trigger] is_digit(next[j]) by {
                        if j < last.len() {
                            assert(is_digit(last[j]));
                        }
                    }
                    let d = (c as u32 - 48) as u64;
                    assert(d as int == digit_value(c));
                    assert(digits_value(next) == digits_value(last) * 10 + digit_value(c));
                    if cur_val > 0xffff_ffff {
                        cur_val = 0x1_0000_0000;
                    } else {
                        let v = cur_val * 10 + d;
                        if v > 0xffff_ffff {
                            cur_val = 0x1_0000_0000;
                        } else {
                            cur_val = v;
                        }
                    }
                }
                if !cur_digits {
                    let ghost j = choose|j: int| 0 <= j < last.len() && !is_digit(last[j]);
                    assert(!is_digit(next[j]));
                }
                cur_digits = cur_digits && is_d;
                cur_len = cur_len + 1;
            }
            i = i + 1;
        }
        assert(chars.take(n as int) =~= chars);
        if fields == 3 && first_ok && second_ok && cur_digits && cur_len > 0 && cur_val <= 255 {
            Some(TileId { x: first_val as u32, y: second_val as u32, z: cur_val as u8 })
        } else {
            None
        }
    }
}

/// Splitting `p + "_"` at `'_'` adds an empty piece.
proof fn lemma_split_underscore(p: Seq<char>)
    ensures
        split_on(p + seq!['_'], '_') == split_on(p, '_').push(Seq::<char>::empty()),
{
    let s = p + seq!['_'];
    assert(s.drop_last() =~= p);
    assert(s.last() == '_');
}

/// A tile's name reads back as the tile: the disk layer finds, under the name it
/// wrote a record with, the tile it wrote it for.
pub proof fn lemma_tile_id_roundtrip(t: TileId)
    ensures
        parse_tile_id(tile_id_text(t)) == Some(t),
{
    let dx = decimal(t.x as nat);
    let dy = decimal(t.y as nat);
    let dz = decimal(t.z as nat);
    lemma_decimal_all_digits(t.x as nat);
    lemma_decimal_all_digits(t.y as nat);
    lemma_decimal_all_digits(t.z as nat);
    lemma_decimal_value(t.x as nat);
    lemma_decimal_value(t.y as nat);
    lemma_decimal_value(t.z as nat);
    let e = Seq::<char>::empty();
    assert(!is_digit('_'));
    assert(split_on(e, '_') == seq![e]);
    lemma_split_digits(e, dx, '_');
    assert(e + dx =~= dx);
    assert(split_on(dx, '_') =~= seq![dx]);
    lemma_split_underscore(dx);
    let p1 = dx + seq!['_'];
    assert(split_on(p1, '_') =~= seq![dx, e]);
    lemma_split_digits(p1, dy, '_');
    assert(split_on(p1 + dy, '_') =~= seq![dx, dy]);
    lemma_split_underscore(p1 + dy);
    let p2 = p1 + dy + seq!['_'];
    assert(split_on(p2, '_') =~= seq![dx, dy, e]);
    lemma_split_digits(p2, dz, '_');
    assert(split_on(p2 + dz, '_') =~= seq![dx, dy, dz]);
    assert(p2 + dz =~= tile_id_text(t));
}

/// The kinds of data the cache holds; each kind has a directory of its own on disk.
#[derive(Clone, Copy, Debug, PartialEq, Eq, Hash, Structural)]
pub enum CacheDataType {
    LandTile,
    WaterTile,
    CustomVoxelModelTile,
}

/// The snake-case name of a kind of cached data.
pub open spec fn data_type_text(t: CacheDataType) -> Seq<char> {
    match t {
        CacheDataType::LandTile => "land_tile"@,
        CacheDataType::WaterTile => "water_tile"@,
        CacheDataType::CustomVoxelModelTile => "custom_voxel_model_tile"@,
    }
}

/// The kinds of cached data, in declaration order.
pub open spec fn all_data_types() -> Seq<CacheDataType> {
    seq![CacheDataType::LandTile, CacheDataType::WaterTile, CacheDataType::CustomVoxelModelTile]
}

impl CacheDataType {
    /// The kind's snake-case name, which is also its directory on disk.
    pub fn to_string(&self) -> (s: String)
        ensures
            s@ == data_type_text(*self),
    {
        match self {
            CacheDataType::LandTile => String::from_str("land_tile"),
            CacheDataType::WaterTile => String::from_str("water_tile"),
            CacheDataType::CustomVoxelModelTile => String::from_str("custom_voxel_model_tile"),
        }
    }

    /// Every kind of cached data, in declaration order.
    pub fn all() -> (v: Vec<CacheDataType>)
        ensures
            v@ == all_data_types(),
    {
        let v = vec![CacheDataType::LandTile, CacheDataType::WaterTile, CacheDataType::CustomVoxelModelTile];
        assert(v@ =~= all_data_types());
        v
    }
}

/// Distinct kinds have distinct names, so their directories never collide.
pub proof fn lemma_data_type_text_injective(a: CacheDataType, b: CacheDataType)
    ensures
        data_type_text(a) == data_type_text(b) ==> a == b,
{
    reveal_strlit("land_tile");
    reveal_strlit("water_tile");
    reveal_strlit("custom_voxel_model_tile");
    if a != b {
        assert(data_type_text(a).len() != data_type_text(b).len() || data_type_text(a)[0]
            != data_type_text(b)[0]);
    }
}

/// The key of a cache entry: the kind of data and the tile it belongs to.
#[derive(Clone, Copy, Debug, PartialEq, Eq, Hash, Structural)]
pub struct CacheKey {
    pub data_type: CacheDataType,
    pub tile_id: TileId,
}

/// The relative path of an entry on disk: `"{data_type}/{tile_id}"`.
pub open spec fn cache_key_text(k: CacheKey) -> Seq<char> {
    data_type_text(k.data_type) + seq!['/'] + tile_id_text(k.tile_id)
}

impl CacheKey {
    /// The relative path under which the disk layer stores this entry.
    pub fn to_string(&self) -> (s: String)
        ensures
            s@ == cache_key_text(*self),
    {
        let mut s = self.data_type.to_string();
        proof {
            reveal_strlit("/");
        }
        s.append("/");
        let t = self.tile_id.to_string();
        s.append(t.as_str());
        s
    }

    /// Whether this entry is of the kind `kind`; eviction by kind removes exactly
    /// the entries for which this holds.
    pub fn is_of_kind(&self, kind: CacheDataType) -> (b: bool)
        ensures
            b == (self.data_type == kind),
    {
        self.data_type == kind
    }

    /// The key of a file found in the directory of `data_type` while the disk
    /// layer reloads its index: the file name must be a tile name.
    pub fn from_disk_entry(data_type: CacheDataType, file_name: &str) -> (r: Option<CacheKey>)
        ensures
            r == disk_entry_key(data_type, file_name@),
    {
        match TileId::parse(file_name) {
            Some(tile_id) => Some(CacheKey { data_type, tile_id }),
            None => None,
        }
    }
}

/// The key of the file `name` in the directory of `data_type`, if its name is a tile name.
pub open spec fn disk_entry_key(data_type: CacheDataType, name: Seq<char>) -> Option<CacheKey> {
    match parse_tile_id(name) {
        Some(t) => Some(CacheKey { data_type, tile_id: t }),
        None => None,
    }
}

/// An entry stored under `cache_key_text(k)` is found again on reload: its
/// directory names its kind, and its file name reads back as its tile.
pub proof fn lemma_disk_entry_roundtrip(k: CacheKey)
    ensures
        cache_key_text(k) == data_type_text(k.data_type) + seq!['/'] + tile_id_text(k.tile_id),
        disk_entry_key(k.data_type, tile_id_text(k.tile_id)) == Some(k),
{
    lemma_tile_id_roundtrip(k.tile_id);
}

/// Distinct keys have distinct paths on disk, so no two entries share a file.
pub proof fn lemma_cache_key_text_injective(a: CacheKey, b: CacheKey)
    ensures
        cache_key_text(a) == cache_key_text(b) ==> a == b,
{
    reveal_strlit("land_tile");
    reveal_strlit("water_tile");
    reveal_strlit("custom_voxel_model_tile");
    if cache_key_text(a) == cache_key_text(b) {
        let ta = data_type_text(a.data_type);
        let tb = data_type_text(b.data_type);
        let sa = cache_key_text(a);
        if a.data_type != b.data_type {
            if ta.len() < tb.len() {
                assert(sa[ta.len() as int] == '/');
                assert(tb[ta.len() as int] != '/');
            } else {
                assert(tb.len() < ta.len());
                assert(cache_key_text(b)[tb.len() as int] == '/');
                assert(ta[tb.len() as int] != '/');
            }
        }
        assert(a.data_type == b.data_type);
        let n = ta.len() + 1;
        assert(tile_id_text(a.tile_id) =~= sa.skip(n as int));
        assert(tile_id_text(b.tile_id) =~= cache_key_text(b).skip(n as int));
        lemma_tile_id_roundtrip(a.tile_id);
        lemma_tile_id_roundtrip(b.tile_id);
    }
}

} // verus!
