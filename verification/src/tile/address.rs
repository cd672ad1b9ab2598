//! Where a tile sits: its chain of ancestors in the tile graph, the URLs of its
//! source imagery, and its pixel positions.

use vstd::prelude::*;
use crate::text::{
    all_digits, append_decimal, decimal, is_decimal_of, is_digit, lemma_decimal_all_digits,
    lemma_decimal_canonical, lemma_decimal_value,
};

verus! {

/// The coordinate at `level` of the ancestor of a tile with coordinate `c` at zoom `z`.
pub open spec fn ancestor_coord(c: u32, z: u32, level: u32) -> u32 {
    c >> ((z - level) as u32)
}

/// The graph pattern of one tile node: `"(:Tile{level}{x:{x},y:{y}})"`.
pub open spec fn tile_segment(level: u32, x: u32, y: u32) -> Seq<char> {
    "(:Tile"@ + decimal(level as nat) + "{x:"@ + decimal(x as nat) + ",y:"@ + decimal(y as nat)
        + "})"@
}

/// The segment of the ancestor at `level` of tile `(x, y)` at zoom `z`.
pub open spec fn ancestor_segment(z: u32, x: u32, y: u32, level: u32) -> Seq<char> {
    tile_segment(level, ancestor_coord(x, z, level), ancestor_coord(y, z, level))
}

/// The segments of levels `0..count` joined by `"-[:CHILD]->"`.
pub open spec fn tile_path_prefix(z: u32, x: u32, y: u32, count: nat) -> Seq<char>
    decreases count,
{
    if count <= 1 {
        ancestor_segment(z, x, y, 0)
    } else {
        tile_path_prefix(z, x, y, (count - 1) as nat) + "-[:CHILD]->"@ + ancestor_segment(
            z,
            x,
            y,
            (count - 1) as u32,
        )
    }
}

/// The path from the level-0 tile down to tile `(x, y)` at zoom `z`.
pub open spec fn tile_path(z: u32, x: u32, y: u32) -> Seq<char> {
    tile_path_prefix(z, x, y, (z + 1) as nat)
}

/// The graph path from the level-0 tile down to tile `(x, y)` at zoom `z`: the
/// pattern of each level's ancestor, from level 0 to `z`, joined by
/// `"-[:CHILD]->"`.
pub fn calc_tile_path(z: u32, x: u32, y: u32) -> (s: String)
    requires
        z < 32,
    ensures
        s@ == tile_path(z, x, y),
{
    let mut s = String::new();
    let mut level: u32 = 0;
    while level <= z
        invariant
            z < 32,
            level <= z + 1,
            level == 0 ==> s@.len() == 0,
            level > 0 ==> s@ == tile_path_prefix(z, x, y, level as nat),
        decreases z + 1 - level,
    {
        if level > 0 {
            s.append("-[:CHILD]->");
        }
        let ax = x >> (z - level);
        let ay = y >> (z - level);
        s.append("(:Tile");
        append_decimal(&mut s, level as u64);
        s.append("{x:");
        append_decimal(&mut s, ax as u64);
        s.append(",y:");
        append_decimal(&mut s, ay as u64);
        s.append("})");
        proof {
            if level == 0 {
                assert(s@ =~= ancestor_segment(z, x, y, 0));
            } else {
                assert(s@ =~= tile_path_prefix(z, x, y, level as nat) + "-[:CHILD]->"@
                    + ancestor_segment(z, x, y, level));
            }
        }
        level = level + 1;
    }
    s
}

/// The graph query for the river nodes of tile `(x, y)` at zoom `z` and their
/// water levels.
pub open spec fn water_level_query_text(z: u32, x: u32, y: u32) -> Seq<char> {
    "\nMATCH "@ + tile_path(z, x, y)
        + "-[:MEMBER]->(n:RiverNode)-[:WATER_LEVEL]->(wl:WaterLevel)\nRETURN n.location AS location, wl.value AS water_level\n            "@
}

/// The query that the water tile of `(x, y)` at zoom `z` runs against the graph.
pub fn water_level_query(z: u32, x: u32, y: u32) -> (s: String)
    requires
        z < 32,
    ensures
        s@ == water_level_query_text(z, x, y),
{
    let mut s = String::from_str("\nMATCH ");
    let path = calc_tile_path(z, x, y);
    s.append(path.as_str());
    s.append(
        "-[:MEMBER]->(n:RiverNode)-[:WATER_LEVEL]->(wl:WaterLevel)\nRETURN n.location AS location, wl.value AS water_level\n            ",
    );
    s
}

/// The URL of the elevation image of tile `(x, y)` at zoom `z`.
pub open spec fn land_dem_url_text(z: u32, x: u32, y: u32) -> Seq<char> {
    "https://tiles.gsj.jp/tiles/elev/land/"@ + decimal(z as nat) + "/"@ + decimal(y as nat) + "/"@
        + decimal(x as nat) + ".png"@
}

/// The URL of the aerial photograph of tile `(x, y)` at zoom `z`.
pub open spec fn land_photo_url_text(z: u32, x: u32, y: u32) -> Seq<char> {
    "https://cyberjapandata.gsi.go.jp/xyz/seamlessphoto/"@ + decimal(z as nat) + "/"@ + decimal(
        x as nat,
    ) + "/"@ + decimal(y as nat) + ".jpg"@
}

/// Where the elevation image of a land tile is fetched from.
pub fn land_dem_url(z: u32, x: u32, y: u32) -> (s: String)
    ensures
        s@ == land_dem_url_text(z, x, y),
{
    let mut s = String::from_str("https://tiles.gsj.jp/tiles/elev/land/");
    append_decimal(&mut s, z as u64);
    s.append("/");
    append_decimal(&mut s, y as u64);
    s.append("/");
    append_decimal(&mut s, x as u64);
    s.append(".png");
    s
}

/// Where the aerial photograph of a land tile is fetched from.
pub fn land_photo_url(z: u32, x: u32, y: u32) -> (s: String)
    ensures
        s@ == land_photo_url_text(z, x, y),
{
    let mut s = String::from_str("https://cyberjapandata.gsi.go.jp/xyz/seamlessphoto/");
    append_decimal(&mut s, z as u64);
    s.append("/");
    append_decimal(&mut s, x as u64);
    s.append("/");
    append_decimal(&mut s, y as u64);
    s.append(".jpg");
    s
}

/// The global pixel at the centre of tile `(x, y)` (tiles are 256 pixels wide).
pub fn tile_center_pixel(x: u32, y: u32) -> (p: (u32, u32))
    requires
        x * 256 + 128 <= u32::MAX,
        y * 256 + 128 <= u32::MAX,
    ensures
        p == ((x * 256 + 128) as u32, (y * 256 + 128) as u32),
{
    (x * 256 + 128, y * 256 + 128)
}

/// The global pixels of the corners of tile `(x, y)`: left top, right top,
/// right bottom, left bottom.
pub fn tile_corner_pixels(x: u32, y: u32) -> (v: Vec<(u32, u32)>)
    requires
        (x + 1) * 256 <= u32::MAX,
        (y + 1) * 256 <= u32::MAX,
    ensures
        v@ == seq![
            ((x * 256) as u32, (y * 256) as u32),
            (((x + 1) * 256) as u32, (y * 256) as u32),
            (((x + 1) * 256) as u32, ((y + 1) * 256) as u32),
            ((x * 256) as u32, ((y + 1) * 256) as u32),
        ],
{
    let left_top = (x * 256, y * 256);
    let right_top = ((x + 1) * 256, y * 256);
    let right_bottom = ((x + 1) * 256, (y + 1) * 256);
    let left_bottom = (x * 256, (y + 1) * 256);
    let v = vec![left_top, right_top, right_bottom, left_bottom];
    assert(v@ =~= seq![left_top, right_top, right_bottom, left_bottom]);
    v
}

/// The path runs through the tile's ancestors: the last level is the tile
/// itself, and each tile on the path is one of the four children of the tile
/// before it (its coordinates halve to the parent's).
pub proof fn lemma_tile_path_ancestors(z: u32, c: u32, level: u32)
    requires
        z < 32,
        level < z,
    ensures
        ancestor_coord(c, z, z) == c,
        ancestor_coord(c, z, (level + 1) as u32) / 2 == ancestor_coord(c, z, level),
{
    let a = (z - level) as u32;
    assert(c >> 0u32 == c) by (bit_vector);
    assert(1 <= a < 32 ==> (c >> ((a - 1) as u32)) / 2 == c >> a) by (bit_vector);
}

/// Every level of the path of `(x, y)` at zoom `z + 1`, up to level `count - 1`,
/// names the same tile as in the path of the parent `(x / 2, y / 2)` at zoom `z`.
proof fn lemma_tile_path_prefix_parent(z: u32, x: u32, y: u32, count: nat)
    requires
        z + 1 < 32,
        1 <= count <= z + 1,
    ensures
        tile_path_prefix((z + 1) as u32, x, y, count) == tile_path_prefix(z, x >> 1u32, y >> 1u32, count),
    decreases count,
{
    let l = (count - 1) as u32;
    let a = (z - l) as u32;
    assert(a + 1 < 32 ==> (x >> 1u32) >> a == x >> ((a + 1) as u32)) by (bit_vector);
    assert(a + 1 < 32 ==> (y >> 1u32) >> a == y >> ((a + 1) as u32)) by (bit_vector);
    assert(ancestor_coord(x, (z + 1) as u32, l) == ancestor_coord(x >> 1u32, z, l));
    assert(ancestor_coord(y, (z + 1) as u32, l) == ancestor_coord(y >> 1u32, z, l));
    if count > 1 {
        lemma_tile_path_prefix_parent(z, x, y, (count - 1) as nat);
    }
}

/// The path of a tile at zoom `z + 1` is the path of its parent (its
/// coordinates halved) at zoom `z`, followed by one `-[:CHILD]->` step to the
/// tile's own segment.
pub proof fn lemma_tile_path_child(z: u32, x: u32, y: u32)
    requires
        z + 1 < 32,
    ensures
        tile_path((z + 1) as u32, x, y) == tile_path(z, x >> 1u32, y >> 1u32) + "-[:CHILD]->"@
            + tile_segment((z + 1) as u32, x, y),
{
    lemma_tile_path_prefix_parent(z, x, y, (z + 1) as nat);
    assert(x >> 0u32 == x) by (bit_vector);
    assert(y >> 0u32 == y) by (bit_vector);
    assert(ancestor_coord(x, (z + 1) as u32, (z + 1) as u32) == x);
    assert(ancestor_coord(y, (z + 1) as u32, (z + 1) as u32) == y);
}

/// What comes before the last segment of the path of a tile at zoom `z`.
pub open spec fn tile_path_head(z: u32, x: u32, y: u32) -> Seq<char> {
    if z == 0 {
        Seq::<char>::empty()
    } else {
        tile_path_prefix(z, x, y, z as nat) + "-[:CHILD]->"@
    }
}

/// The path ends with the segment of the tile itself.
proof fn lemma_tile_path_ends_with_tile(z: u32, x: u32, y: u32)
    requires
        z < 32,
    ensures
        tile_path(z, x, y) == tile_path_head(z, x, y) + tile_segment(z as u32, x, y),
{
    assert(x >> 0u32 == x) by (bit_vector);
    assert(y >> 0u32 == y) by (bit_vector);
    assert(ancestor_coord(x, z, z) == x);
    assert(ancestor_coord(y, z, z) == y);
    if z == 0 {
        assert(Seq::<char>::empty() + tile_segment(0, x, y) =~= tile_segment(0, x, y));
    }
}

/// Where two texts end in a separator `c` that is not a digit followed by a run
/// of digits, equal texts have equal runs and equal beginnings.
proof fn lemma_digits_after_separator(
    a_head: Seq<char>,
    b_head: Seq<char>,
    c: char,
    da: Seq<char>,
    db: Seq<char>,
)
    requires
        !is_digit(c),
        all_digits(da),
        all_digits(db),
        a_head + seq![c] + da == b_head + seq![c] + db,
    ensures
        da == db,
        a_head == b_head,
{
    let ta = a_head + seq![c] + da;
    let tb = b_head + seq![c] + db;
    let n = ta.len() as int;
    if da.len() < db.len() {
        let k = n - da.len() - 1;
        assert(ta[k] == c);
        assert(tb[k] == db[db.len() - da.len() - 1]);
        assert(is_digit(db[db.len() - da.len() - 1]));
    } else if db.len() < da.len() {
        let k = n - db.len() - 1;
        assert(tb[k] == c);
        assert(ta[k] == da[da.len() - db.len() - 1]);
        assert(is_digit(da[da.len() - db.len() - 1]));
    }
    assert(da =~= ta.skip(n - da.len()));
    assert(db =~= tb.skip(n - db.len()));
    assert(a_head =~= ta.take(n - da.len() - 1));
    assert(b_head =~= tb.take(n - db.len() - 1));
}

/// Two texts that end in segment texts with the same shape are equal only if
/// the digit runs of their segments are equal.
#[verifier::rlimit(40)]
proof fn lemma_segment_texts(
    h1: Seq<char>,
    h2: Seq<char>,
    dz1: Seq<char>,
    dx1: Seq<char>,
    dy1: Seq<char>,
    dz2: Seq<char>,
    dx2: Seq<char>,
    dy2: Seq<char>,
)
    requires
        all_digits(dz1),
        all_digits(dx1),
        all_digits(dy1),
        all_digits(dz2),
        all_digits(dx2),
        all_digits(dy2),
        h1 + "(:Tile"@ + dz1 + "{x:"@ + dx1 + ",y:"@ + dy1 + "})"@ == h2 + "(:Tile"@ + dz2
            + "{x:"@ + dx2 + ",y:"@ + dy2 + "})"@,
    ensures
        dz1 == dz2,
        dx1 == dx2,
        dy1 == dy2,
{
    reveal_strlit("(:Tile");
    reveal_strlit("{x:");
    reveal_strlit(",y:");
    reveal_strlit("})");
    let til = seq!['(', ':', 'T', 'i', 'l'];
    assert("(:Tile"@ =~= til + seq!['e']);
    assert("{x:"@ =~= seq!['{', 'x'] + seq![':']);
    assert(",y:"@ =~= seq![',', 'y'] + seq![':']);
    assert("})"@ =~= seq!['}', ')']);
    let z_head1 = h1 + til;
    let z_head2 = h2 + til;
    let x_head1 = z_head1 + seq!['e'] + dz1 + seq!['{', 'x'];
    let x_head2 = z_head2 + seq!['e'] + dz2 + seq!['{', 'x'];
    let y_head1 = x_head1 + seq![':'] + dx1 + seq![',', 'y'];
    let y_head2 = x_head2 + seq![':'] + dx2 + seq![',', 'y'];
    let t1 = h1 + "(:Tile"@ + dz1 + "{x:"@ + dx1 + ",y:"@ + dy1 + "})"@;
    let t2 = h2 + "(:Tile"@ + dz2 + "{x:"@ + dx2 + ",y:"@ + dy2 + "})"@;
    assert(t1 =~= y_head1 + seq![':'] + dy1 + seq!['}', ')']);
    assert(t2 =~= y_head2 + seq![':'] + dy2 + seq!['}', ')']);
    let n = t1.len() as int;
    assert(y_head1 + seq![':'] + dy1 =~= t1.take(n - 2));
    assert(y_head2 + seq![':'] + dy2 =~= t2.take(n - 2));
    assert(!is_digit(':'));
    lemma_digits_after_separator(y_head1, y_head2, ':', dy1, dy2);
    let m = y_head1.len() as int;
    assert(x_head1 + seq![':'] + dx1 =~= y_head1.take(m - 2));
    assert(x_head2 + seq![':'] + dx2 =~= y_head2.take(m - 2));
    lemma_digits_after_separator(x_head1, x_head2, ':', dx1, dx2);
    let k = x_head1.len() as int;
    assert(z_head1 + seq!['e'] + dz1 =~= x_head1.take(k - 2));
    assert(z_head2 + seq!['e'] + dz2 =~= x_head2.take(k - 2));
    assert(!is_digit('e'));
    lemma_digits_after_separator(z_head1, z_head2, 'e', dz1, dz2);
}

/// A segment appended to `h` reads as its parts appended one by one.
proof fn lemma_segment_shape(h: Seq<char>, dz: Seq<char>, dx: Seq<char>, dy: Seq<char>)
    ensures
        h + ("(:Tile"@ + dz + "{x:"@ + dx + ",y:"@ + dy + "})"@) == h + "(:Tile"@ + dz + "{x:"@
            + dx + ",y:"@ + dy + "})"@,
{
    assert(h + ("(:Tile"@ + dz + "{x:"@ + dx + ",y:"@ + dy + "})"@) =~= h + "(:Tile"@ + dz
        + "{x:"@ + dx + ",y:"@ + dy + "})"@);
}

/// Distinct tiles get distinct graph paths: the path spells out the tile's zoom
/// level and coordinates in its last segment.
pub proof fn lemma_tile_path_injective(z: u32, x: u32, y: u32, z2: u32, x2: u32, y2: u32)
    requires
        z < 32,
        z2 < 32,
        tile_path(z, x, y) == tile_path(z2, x2, y2),
    ensures
        z == z2,
        x == x2,
        y == y2,
{
    lemma_tile_path_ends_with_tile(z, x, y);
    lemma_tile_path_ends_with_tile(z2, x2, y2);
    lemma_decimal_all_digits(z as nat);
    lemma_decimal_all_digits(x as nat);
    lemma_decimal_all_digits(y as nat);
    lemma_decimal_all_digits(z2 as nat);
    lemma_decimal_all_digits(x2 as nat);
    lemma_decimal_all_digits(y2 as nat);
    let h1 = tile_path_head(z, x, y);
    let h2 = tile_path_head(z2, x2, y2);
    lemma_segment_shape(h1, decimal(z as nat), decimal(x as nat), decimal(y as nat));
    lemma_segment_shape(h2, decimal(z2 as nat), decimal(x2 as nat), decimal(y2 as nat));
    lemma_segment_texts(
        tile_path_head(z, x, y),
        tile_path_head(z2, x2, y2),
        decimal(z as nat),
        decimal(x as nat),
        decimal(y as nat),
        decimal(z2 as nat),
        decimal(x2 as nat),
        decimal(y2 as nat),
    );
    lemma_decimal_value(z as nat);
    lemma_decimal_value(x as nat);
    lemma_decimal_value(y as nat);
    lemma_decimal_value(z2 as nat);
    lemma_decimal_value(x2 as nat);
    lemma_decimal_value(y2 as nat);
}

/// The elevation URL names the requested tile in full: after the fixed host
/// and path it holds the zoom, the row and the column, each written as the
/// canonical decimal numeral of that number, separated by `/` and followed by
/// `.png`.
pub proof fn lemma_land_dem_url_fields(z: u32, x: u32, y: u32)
    ensures
        exists|dz: Seq<char>, dy: Seq<char>, dx: Seq<char>|
            #![trigger is_decimal_of(dz, z as nat), is_decimal_of(dy, y as nat), is_decimal_of(dx, x as nat)]
            is_decimal_of(dz, z as nat) && is_decimal_of(dy, y as nat) && is_decimal_of(dx, x as nat)
                && land_dem_url_text(z, x, y) == "https://tiles.gsj.jp/tiles/elev/land/"@ + dz + "/"@
                + dy + "/"@ + dx + ".png"@,
{
    lemma_decimal_canonical(z as nat);
    lemma_decimal_canonical(y as nat);
    lemma_decimal_canonical(x as nat);
    let dz = decimal(z as nat);
    let dy = decimal(y as nat);
    let dx = decimal(x as nat);
    assert(is_decimal_of(dz, z as nat) && is_decimal_of(dy, y as nat) && is_decimal_of(dx, x as nat)
        && land_dem_url_text(z, x, y) == "https://tiles.gsj.jp/tiles/elev/land/"@ + dz + "/"@ + dy
        + "/"@ + dx + ".png"@);
}

/// The photograph URL names the requested tile in full: after the fixed host
/// and path it holds the zoom, the column and the row, each written as the
/// canonical decimal numeral of that number, separated by `/` and followed by
/// `.jpg`.
pub proof fn lemma_land_photo_url_fields(z: u32, x: u32, y: u32)
    ensures
        exists|dz: Seq<char>, dx: Seq<char>, dy: Seq<char>|
            #![trigger is_decimal_of(dz, z as nat), is_decimal_of(dx, x as nat), is_decimal_of(dy, y as nat)]
            is_decimal_of(dz, z as nat) && is_decimal_of(dx, x as nat) && is_decimal_of(dy, y as nat)
                && land_photo_url_text(z, x, y)
                == "https://cyberjapandata.gsi.go.jp/xyz/seamlessphoto/"@ + dz + "/"@ + dx + "/"@
                + dy + ".jpg"@,
{
    lemma_decimal_canonical(z as nat);
    lemma_decimal_canonical(x as nat);
    lemma_decimal_canonical(y as nat);
    let dz = decimal(z as nat);
    let dx = decimal(x as nat);
    let dy = decimal(y as nat);
    assert(is_decimal_of(dz, z as nat) && is_decimal_of(dx, x as nat) && is_decimal_of(dy, y as nat)
        && land_photo_url_text(z, x, y) == "https://cyberjapandata.gsi.go.jp/xyz/seamlessphoto/"@
        + dz + "/"@ + dx + "/"@ + dy + ".jpg"@);
}

/// The water-level query matches the requested tile itself: its `MATCH`
/// pattern ends, right before the `MEMBER` step, with the node
/// `(:Tile{z}{x:{x},y:{y}})`, the three numbers written as canonical decimal
/// numerals.
pub proof fn lemma_water_level_query_ends_with_tile(z: u32, x: u32, y: u32)
    requires
        z < 32,
    ensures
        exists|head: Seq<char>, dz: Seq<char>, dx: Seq<char>, dy: Seq<char>|
            #![trigger is_decimal_of(dz, z as nat), is_decimal_of(dx, x as nat), is_decimal_of(dy, y as nat), head.len()]
            is_decimal_of(dz, z as nat) && is_decimal_of(dx, x as nat) && is_decimal_of(dy, y as nat)
                && water_level_query_text(z, x, y) == "\nMATCH "@ + head + "(:Tile"@ + dz + "{x:"@
                + dx + ",y:"@ + dy + "})"@
                + "-[:MEMBER]->(n:RiverNode)-[:WATER_LEVEL]->(wl:WaterLevel)\nRETURN n.location AS location, wl.value AS water_level\n            "@,
{
    lemma_tile_path_ends_with_tile(z, x, y);
    lemma_decimal_canonical(z as nat);
    lemma_decimal_canonical(x as nat);
    lemma_decimal_canonical(y as nat);
    let head = tile_path_head(z, x, y);
    let dz = decimal(z as nat);
    let dx = decimal(x as nat);
    let dy = decimal(y as nat);
    let tail = "-[:MEMBER]->(n:RiverNode)-[:WATER_LEVEL]->(wl:WaterLevel)\nRETURN n.location AS location, wl.value AS water_level\n            "@;
    assert(water_level_query_text(z, x, y) =~= "\nMATCH "@ + head + "(:Tile"@ + dz + "{x:"@ + dx
        + ",y:"@ + dy + "})"@ + tail);
}

/// Distinct tiles get distinct water-level queries.
pub proof fn lemma_water_level_query_injective(z: u32, x: u32, y: u32, z2: u32, x2: u32, y2: u32)
    requires
        z < 32,
        z2 < 32,
        water_level_query_text(z, x, y) == water_level_query_text(z2, x2, y2),
    ensures
        z == z2,
        x == x2,
        y == y2,
{
    let head = "\nMATCH "@;
    let tail = "-[:MEMBER]->(n:RiverNode)-[:WATER_LEVEL]->(wl:WaterLevel)\nRETURN n.location AS location, wl.value AS water_level\n            "@;
    let p1 = tile_path(z, x, y);
    let p2 = tile_path(z2, x2, y2);
    let q1 = water_level_query_text(z, x, y);
    let q2 = water_level_query_text(z2, x2, y2);
    assert(q1 == head + p1 + tail);
    assert(q2 == head + p2 + tail);
    assert(p1.len() == p2.len());
    assert(p1 =~= q1.subrange(head.len() as int, (head.len() + p1.len()) as int));
    assert(p2 =~= q2.subrange(head.len() as int, (head.len() + p2.len()) as int));
    lemma_tile_path_injective(z, x, y, z2, x2, y2);
}

} // verus!
