//! Pure checks of the image-loading path: magic-byte validation, the
//! system-directory blocklist, and downsampling arithmetic. Reading a file
//! and decoding pixels stay with the caller; the decisions live here.

use crate::grid::MAX_DIMENSION;
use vstd::arithmetic::div_mod::lemma_multiply_divide_lt;
use vstd::prelude::*;
use vstd::string::{StrSliceExecFns, StringExecFns};

verus! {

/// Result of loading an image: dimensions, metadata, and preview data.
#[derive(Clone, Debug)]
pub struct LoadImageOut {
    pub ok: bool,
    pub width: u32,
    pub height: u32,
    pub file_size_bytes: u64,
    pub downsampled: bool,
    /// Base64-encoded RGB image (PNG) for preview.
    pub preview_base64: String,
}

/// An image format the loader accepts, recognized by its magic bytes.
#[derive(Clone, Copy, Debug, PartialEq, Eq, Structural)]
pub enum ImageKind {
    Png,
    Jpeg,
}

/// Why a byte buffer is rejected as an image.
#[derive(Clone, Copy, Debug, PartialEq, Eq, Structural)]
pub enum MagicError {
    /// Fewer than eight bytes.
    TooShort,
    /// Neither the PNG nor the JPEG signature.
    UnsupportedFormat,
}

impl MagicError {
    /// What each rejection means, in words.
    pub open spec fn message_spec(self) -> Seq<char> {
        match self {
            MagicError::TooShort => "file too short to be a valid image"@,
            MagicError::UnsupportedFormat => "unsupported or invalid image format (expected PNG or JPEG)"@,
        }
    }

    /// Renders the rejection as a human-readable message.
    pub fn message(&self) -> (s: String)
        ensures
            s@ == self.message_spec(),
    {
        match self {
            MagicError::TooShort => String::from_str("file too short to be a valid image"),
            MagicError::UnsupportedFormat => String::from_str(
                "unsupported or invalid image format (expected PNG or JPEG)",
            ),
        }
    }
}

/// The eight PNG signature bytes open the buffer.
pub open spec fn starts_with_png(b: Seq<u8>) -> bool {
    &&& b.len() >= 8
    &&& b[0] == 0x89u8
    &&& b[1] == 0x50u8
    &&& b[2] == 0x4Eu8
    &&& b[3] == 0x47u8
    &&& b[4] == 0x0Du8
    &&& b[5] == 0x0Au8
    &&& b[6] == 0x1Au8
    &&& b[7] == 0x0Au8
}

/// The three JPEG start-of-image bytes open the buffer.
pub open spec fn starts_with_jpeg(b: Seq<u8>) -> bool {
    &&& b.len() >= 3
    &&& b[0] == 0xFFu8
    &&& b[1] == 0xD8u8
    &&& b[2] == 0xFFu8
}

/// The outcome [`validate_magic_bytes`] must produce: at least eight bytes,
/// then the PNG signature, then the JPEG signature, else rejection.
pub open spec fn magic_check(b: Seq<u8>) -> Result<ImageKind, MagicError> {
    if b.len() < 8 {
        Err(MagicError::TooShort)
    } else if starts_with_png(b) {
        Ok(ImageKind::Png)
    } else if starts_with_jpeg(b) {
        Ok(ImageKind::Jpeg)
    } else {
        Err(MagicError::UnsupportedFormat)
    }
}

/// Validates magic bytes before any decode is attempted.
pub fn validate_magic_bytes(bytes: &Vec<u8>) -> (r: Result<ImageKind, MagicError>)
    ensures
        r == magic_check(bytes@),
{
    if bytes.len() < 8 {
        return Err(MagicError::TooShort);
    }
    if bytes[0] == 0x89 && bytes[1] == 0x50 && bytes[2] == 0x4E && bytes[3] == 0x47 && bytes[4]
        == 0x0D && bytes[5] == 0x0A && bytes[6] == 0x1A && bytes[7] == 0x0A {
        return Ok(ImageKind::Png);
    }
    if bytes[0] == 0xFF && bytes[1] == 0xD8 && bytes[2] == 0xFF {
        return Ok(ImageKind::Jpeg);
    }
    Err(MagicError::UnsupportedFormat)
}

/// `s` begins with `p`.
pub open spec fn str_has_prefix(s: Seq<char>, p: Seq<char>) -> bool {
    s.len() >= p.len() && s.subrange(0, p.len() as int) == p
}

/// Whether `s` begins with `prefix`.
#[verifier::loop_isolation(false)]
pub fn starts_with_str(s: &str, prefix: &str) -> (r: bool)
    ensures
        r == str_has_prefix(s@, prefix@),
{
    let n = s.unicode_len();
    let m = prefix.unicode_len();
    if n < m {
        proof {
            assert(!str_has_prefix(s@, prefix@));
        }
        return false;
    }
    let mut i: usize = 0;
    while i < m
        invariant
            0 <= i <= m,
            m <= n,
            n == s@.len(),
            m == prefix@.len(),
            forall|k: int| 0 <= k < i ==> (#[trigger] s@[k]) == prefix@[k],
        decreases m - i,
    {
        if s.get_char(i) != prefix.get_char(i) {
            proof {
                assert(s@.subrange(0, m as int)[i as int] != prefix@[i as int]);
            }
            return false;
        }
        i += 1;
    }
    proof {
        assert(s@.subrange(0, m as int) =~= prefix@);
    }
    true
}

/// Whether `s` equals `other` character for character.
pub fn str_equals(s: &str, other: &str) -> (r: bool)
    ensures
        r == (s@ == other@),
{
    let n = s.unicode_len();
    let m = other.unicode_len();
    if n != m {
        proof {
            assert(s@.len() != other@.len());
        }
        return false;
    }
    let r = starts_with_str(s, other);
    proof {
        if str_has_prefix(s@, other@) {
            assert(s@.subrange(0, m as int) =~= s@);
        }
        if s@ == other@ {
            assert(s@.subrange(0, m as int) =~= other@);
        }
    }
    r
}

/// The canonical path lies under a system directory that image loading must
/// not touch.
pub open spec fn blocklisted_spec(s: Seq<char>) -> bool {
    ||| str_has_prefix(s, "/System/"@)
    ||| str_has_prefix(s, "/usr/bin"@)
    ||| str_has_prefix(s, "/usr/sbin"@)
    ||| str_has_prefix(s, "/etc/"@)
    ||| s == "/System"@
    ||| s == "/usr"@
    ||| s == "/etc"@
}

/// Whether the canonical path is under a blocklisted system directory.
pub fn is_blocklisted(canonical: &str) -> (r: bool)
    ensures
        r == blocklisted_spec(canonical@),
{
    starts_with_str(canonical, "/System/") || starts_with_str(canonical, "/usr/bin")
        || starts_with_str(canonical, "/usr/sbin") || starts_with_str(canonical, "/etc/")
        || str_equals(canonical, "/System") || str_equals(canonical, "/usr") || str_equals(
        canonical,
        "/etc",
    )
}

/// `p / q` rounded to the nearest integer, halves away from zero.
pub open spec fn round_div(p: int, q: int) -> int
    recommends
        q > 0,
{
    (2 * p + q) / (2 * q)
}

/// The outcome [`scale_down_dimensions`] must produce: dimensions within
/// `max` are kept; otherwise both shrink by the one ratio `max / max(w, h)`,
/// rounded to nearest and floored at one, which preserves the aspect ratio.
pub open spec fn scale_down_spec(w: int, h: int, max: int) -> (int, int) {
    if w <= max && h <= max {
        (w, h)
    } else {
        let m = if w >= h {
            w
        } else {
            h
        };
        let nw = round_div(w * max, m);
        let nh = round_div(h * max, m);
        (if nw < 1 {
            1
        } else {
            nw
        }, if nh < 1 {
            1
        } else {
            nh
        })
    }
}

/// Scales `(w, h)` down to fit within `max`, preserving the aspect ratio.
pub fn scale_down_dimensions(w: u32, h: u32, max: u32) -> (r: (u32, u32))
    ensures
        r.0 == scale_down_spec(w as int, h as int, max as int).0,
        r.1 == scale_down_spec(w as int, h as int, max as int).1,
        max >= 1 && !(w <= max && h <= max) ==> 1 <= r.0 <= max && 1 <= r.1 <= max,
{
    if w <= max && h <= max {
        return (w, h);
    }
    let m: u128 = if w >= h {
        w as u128
    } else {
        h as u128
    };
    proof {
        assert(m >= 1);
        assert(2 * (w as int) * (max as int) == 2 * ((w as int) * (max as int))
            && 2 * (w as int) * (max as int) <= 2 * 0xFFFF_FFFFi128 * 0xFFFF_FFFFi128
            && 2 * (w as int) * (max as int) + m < (2 * (m as int)) * (max as int + 1)) by (nonlinear_arith)
            requires
                w as int <= m as int,
                1 <= m as int,
                0 <= w <= 0xFFFF_FFFF,
                0 <= max <= 0xFFFF_FFFF,
        ;
        assert(2 * (h as int) * (max as int) == 2 * ((h as int) * (max as int))
            && 2 * (h as int) * (max as int) <= 2 * 0xFFFF_FFFFi128 * 0xFFFF_FFFFi128
            && 2 * (h as int) * (max as int) + m < (2 * (m as int)) * (max as int + 1)) by (nonlinear_arith)
            requires
                h as int <= m as int,
                1 <= m as int,
                0 <= h <= 0xFFFF_FFFF,
                0 <= max <= 0xFFFF_FFFF,
        ;
        lemma_multiply_divide_lt(2 * (w as int) * (max as int) + (m as int), 2 * (m as int), max
            as int + 1);
        lemma_multiply_divide_lt(2 * (h as int) * (max as int) + (m as int), 2 * (m as int), max
            as int + 1);
    }
    let nw128: u128 = (2 * (w as u128) * (max as u128) + m) / (2 * m);
    let nh128: u128 = (2 * (h as u128) * (max as u128) + m) / (2 * m);
    let nw: u32 = nw128 as u32;
    let nh: u32 = nh128 as u32;
    (if nw < 1 {
        1
    } else {
        nw
    }, if nh < 1 {
        1
    } else {
        nh
    })
}

} // verus!
