//! Client-side checks of what the user types and of what the server hands back.
use vstd::prelude::*;
use vstd::utf8::encode_utf8;

use crate::text::{chars_of, eq_ignore_ascii_case, eq_ignore_ascii_case_str, trim, trimmed};

verus! {

broadcast use vstd::string::group_string_axioms;

/// Largest number of characters a question may have.
pub const MAX_QUERY_CHARS: usize = 4000;

/// Largest width or height of an image that is accepted for decoding.
pub const MAX_SOURCE_IMAGE_DIMENSION: u32 = 16384;

/// Largest number of pixels of an image that is accepted for decoding.
pub const MAX_SOURCE_IMAGE_PIXELS: u64 = 64000000;

/// What `validate_query` gives for `text`: the trimmed question, or the message shown.
pub open spec fn query_check(text: Seq<char>) -> Result<Seq<char>, Seq<char>> {
    let t = trimmed(text);
    if t.len() == 0 {
        Err("Enter a question"@)
    } else if t.len() > MAX_QUERY_CHARS {
        Err("Question must be at most 4000 characters"@)
    } else {
        Ok(t)
    }
}

/// Trims a question and checks that it is neither empty nor longer than
/// `MAX_QUERY_CHARS` characters.
pub fn validate_query(value: &str) -> (r: Result<&str, String>)
    ensures
        match r {
            Ok(q) => query_check(value@) == Ok::<Seq<char>, Seq<char>>(q@),
            Err(e) => query_check(value@) == Err::<Seq<char>, Seq<char>>(e@),
        },
{
    let v = trim(value);
    if v.unicode_len() == 0 {
        return Err(String::from_str("Enter a question"));
    }
    if v.unicode_len() > MAX_QUERY_CHARS {
        return Err(String::from_str("Question must be at most 4000 characters"));
    }
    Ok(v)
}

/// Whether a trimmed activation key is acceptable: `trial` in any ASCII case, or
/// 8 to 256 bytes of UTF-8.
pub open spec fn activation_key_ok(t: Seq<char>) -> bool {
    ||| eq_ignore_ascii_case(t, "trial"@)
    ||| 8 <= (encode_utf8(t).len() as usize) <= 256
}

/// Trims an activation key and checks it: `trial` (any ASCII case) or an 8–256
/// byte key.
pub fn validate_activation_key(value: &str) -> (r: Result<&str, String>)
    ensures
        match r {
            Ok(k) => activation_key_ok(trimmed(value@)) && k@ == trimmed(value@),
            Err(e) => !activation_key_ok(trimmed(value@)) && e@
                == "Enter trial or an 8–256 character activation key"@,
        },
{
    let v = trim(value);
    let len = v.len();
    if !eq_ignore_ascii_case_str(v, "trial") && !(8 <= len && len <= 256) {
        return Err(String::from_str("Enter trial or an 8–256 character activation key"));
    }
    Ok(v)
}

/// Whether an image of `width` by `height` pixels may be decoded.
pub open spec fn image_dimensions_ok(width: u32, height: u32) -> bool {
    &&& width != 0
    &&& height != 0
    &&& width <= MAX_SOURCE_IMAGE_DIMENSION
    &&& height <= MAX_SOURCE_IMAGE_DIMENSION
    &&& width * height <= MAX_SOURCE_IMAGE_PIXELS
}

/// Checks that an image is neither empty nor beyond the decoding envelope.
pub fn validate_image_dimensions(width: u32, height: u32) -> (r: Result<(), String>)
    ensures
        r is Ok <==> image_dimensions_ok(width, height),
        r matches Err(e) ==> e@ == "Image dimensions are out of range"@,
{
    proof {
        let w = width as u64;
        let h = height as u64;
        assert(w * h <= 0xffff_ffff_ffff_ffff) by (nonlinear_arith)
            requires
                w <= 0xffff_ffff,
                h <= 0xffff_ffff,
        ;
    }
    if width == 0 || height == 0 || width > MAX_SOURCE_IMAGE_DIMENSION || height
        > MAX_SOURCE_IMAGE_DIMENSION || (width as u64) * (height as u64) > MAX_SOURCE_IMAGE_PIXELS {
        return Err(String::from_str("Image dimensions are out of range"));
    }
    Ok(())
}

/// A printable ASCII character other than space.
pub open spec fn is_ascii_graphic(c: char) -> bool {
    '!' <= c && c <= '~'
}

/// Whether a device token handed out by the server may be stored: 32 to 4096
/// bytes, all printable ASCII without spaces.
pub open spec fn device_token_ok(token: Seq<char>) -> bool {
    &&& 32 <= (encode_utf8(token).len() as usize) <= 4096
    &&& forall|i: int| 0 <= i < token.len() ==> is_ascii_graphic(#[trigger] token[i])
}

/// Checks a device token from an activation response.
pub fn valid_device_token(token: &str) -> (r: bool)
    ensures
        r == device_token_ok(token@),
{
    let len = token.len();
    if !(32 <= len && len <= 4096) {
        return false;
    }
    let cs = chars_of(token);
    let mut i: usize = 0;
    while i < cs.len()
        invariant
            cs@ == token@,
            i <= cs@.len(),
            forall|k: int| 0 <= k < i ==> is_ascii_graphic(#[trigger] token@[k]),
        decreases cs@.len() - i,
    {
        if !('!' <= cs[i] && cs[i] <= '~') {
            assert(!is_ascii_graphic(token@[i as int]));
            return false;
        }
        i = i + 1;
    }
    true
}

} // verus!
