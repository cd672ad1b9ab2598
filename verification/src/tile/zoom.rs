//! Zoom levels of requested tiles.

use vstd::prelude::*;
use coordinate_transformer::ZoomLv;

verus! {

/// Why a tile request was refused.
#[derive(Clone, Copy, Debug, PartialEq, Eq, Structural)]
pub enum TileError {
    /// The zoom level is outside the supported range.
    InvalidZoomLevel,
}

/// Whether `coordinate_transformer::ZoomLv::parse` accepts `z`. `parse`
/// converts its argument to `u8` with `as` (keeping the low eight bits) and
/// accepts the results 0 to 24; the contract claims exactly that.
#[verifier::external_body]
fn zoom_lv_accepts(z: u32) -> (ok: bool)
    ensures
        ok <==> z % 256 <= 24,
{
    ZoomLv::parse(z).is_ok()
}

/// The zoom level of a tile request, 0 to 24.
#[derive(Clone, Copy, Debug, PartialEq, Eq, Structural)]
pub struct ZoomLevel {
    pub level: u8,
}

/// The zoom level `z` of a tile request. Succeeds exactly when the low eight
/// bits of `z` are at most 24 (so 265 is read as level 9), and then the level
/// is those low eight bits.
pub fn parse_zoom_level(z: u32) -> (r: Result<ZoomLevel, TileError>)
    ensures
        r is Ok <==> z % 256 <= 24,
        r matches Ok(l) ==> l.level == z % 256 && l.level <= 24,
        r matches Err(e) ==> e == TileError::InvalidZoomLevel,
{
    if zoom_lv_accepts(z) {
        Ok(ZoomLevel { level: (z % 256) as u8 })
    } else {
        Err(TileError::InvalidZoomLevel)
    }
}

} // verus!
