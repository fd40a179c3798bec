//! What is asked of GDI when a font is created: by name and flags
//! (`CreateFontW`), or by a `LOGFONTW` whose face name is a fixed array.

use vstd::prelude::*;

use crate::wide::{encode_utf16, to_wide_string};

verus! {

/// The length of `LOGFONTW::lfFaceName`, its terminating NUL included.
pub const FACE_NAME_LEN: usize = 32;

/// The arguments of a `CreateFontW` call that vary between the fonts the
/// window makes; the others are fixed (default character set and
/// precision, ClearType quality, default pitch, any family).
pub struct FontRequest {
    pub height: i32,
    pub weight: i32,
    /// 1 for an italic font, 0 otherwise.
    pub italic: u32,
    /// The face name, NUL-terminated UTF-16.
    pub face_name: Vec<u16>,
}

/// The `CreateFontW` arguments for a font of the given height, face and
/// weight.
pub fn font_by_name_request(height: i32, face_name: &str, weight: i32, italic: bool) -> (r: FontRequest)
    ensures
        r.height == height,
        r.weight == weight,
        r.italic == (if italic { 1u32 } else { 0u32 }),
        r.face_name@ == encode_utf16(face_name@).push(0u16),
{
    FontRequest {
        height,
        weight,
        italic: if italic { 1 } else { 0 },
        face_name: to_wide_string(face_name),
    }
}

/// `LOGFONTW::lfFaceName` for a face name: its UTF-16 units, at most
/// `FACE_NAME_LEN - 1` of them, then NULs up to `FACE_NAME_LEN` units.
pub open spec fn face_name_units(face_name: Seq<char>) -> Seq<u16> {
    let units = encode_utf16(face_name);
    let copy_len = if units.len() < FACE_NAME_LEN - 1 { units.len() as int } else { FACE_NAME_LEN - 1 };
    Seq::new(FACE_NAME_LEN as nat, |i: int| if i < copy_len { units[i] } else { 0u16 })
}

/// The fields of a `LOGFONTW` that vary between the fonts the window makes;
/// the others are fixed (default character set, TrueType output precision,
/// default clipping, ClearType quality, default pitch, any family).
pub struct LogFontRequest {
    pub height: i32,
    pub weight: i32,
    /// `lfFaceName`, `FACE_NAME_LEN` units.
    pub face_name: Vec<u16>,
}

/// The `LOGFONTW` fields for a font of the given height, face and weight.
pub fn log_font_request(height: i32, face_name: &str, weight: i32) -> (r: LogFontRequest)
    ensures
        r.height == height,
        r.weight == weight,
        r.face_name@ == face_name_units(face_name@),
{
    let wide_name = to_wide_string(face_name);
    let available = wide_name.len() - 1;
    let copy_len = if available < FACE_NAME_LEN - 1 { available } else { FACE_NAME_LEN - 1 };
    let mut face: Vec<u16> = Vec::new();
    let mut i: usize = 0;
    while i < FACE_NAME_LEN
        invariant
            wide_name@ == encode_utf16(face_name@).push(0u16),
            available == encode_utf16(face_name@).len(),
            copy_len <= available,
            copy_len == (if available < FACE_NAME_LEN - 1 { available } else { (FACE_NAME_LEN - 1) as usize }),
            i <= FACE_NAME_LEN,
            face@ =~= face_name_units(face_name@).take(i as int),
        decreases FACE_NAME_LEN - i,
    {
        if i < copy_len {
            face.push(wide_name[i]);
        } else {
            face.push(0u16);
        }
        i += 1;
    }
    LogFontRequest { height, weight, face_name: face }
}

/// The face name array always ends with a NUL, and holds the name whole
/// when it has fewer than `FACE_NAME_LEN` UTF-16 units.
pub proof fn lemma_face_name_terminated(face_name: Seq<char>)
    ensures
        face_name_units(face_name).len() == FACE_NAME_LEN,
        face_name_units(face_name)[FACE_NAME_LEN - 1] == 0u16,
        encode_utf16(face_name).len() < FACE_NAME_LEN ==> face_name_units(face_name).take(
            encode_utf16(face_name).len() as int,
        ) == encode_utf16(face_name),
{
    let units = encode_utf16(face_name);
    if units.len() < FACE_NAME_LEN {
        assert(face_name_units(face_name).take(units.len() as int) =~= units);
    }
}

} // verus!
