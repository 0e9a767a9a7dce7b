//! Validation of uploaded images: magic-byte detection and the extension
//! allow-list. Reading and storing the files happens outside the library.

use vstd::prelude::*;
use vstd::string::StrSliceExecFns;

use crate::strutil::{eq_ignore_ascii_case, str_eq_ignore_ascii_case};

verus! {

/// Maximum accepted file size, in bytes.
pub const MAX_FILE_SIZE: usize = 10_485_760;

/// The MIME type a payload's magic bytes announce, if a supported one.
pub open spec fn spec_detect_file_type(d: Seq<u8>) -> Option<Seq<char>> {
    if d.len() >= 3 && d[0] == 0xFFu8 && d[1] == 0xD8u8 && d[2] == 0xFFu8 {
        Some("image/jpeg"@)
    } else if d.len() >= 8 && d[0] == 0x89u8 && d[1] == 0x50u8 && d[2] == 0x4Eu8 && d[3] == 0x47u8
        && d[4] == 0x0Du8 && d[5] == 0x0Au8 && d[6] == 0x1Au8 && d[7] == 0x0Au8 {
        Some("image/png"@)
    } else if d.len() >= 6 && d[0] == 0x47u8 && d[1] == 0x49u8 && d[2] == 0x46u8 && d[3] == 0x38u8
        && (d[4] == 0x37u8 || d[4] == 0x39u8) && d[5] == 0x61u8 {
        Some("image/gif"@)
    } else if d.len() >= 12 && d[8] == 0x57u8 && d[9] == 0x45u8 && d[10] == 0x42u8 && d[11]
        == 0x50u8 {
        Some("image/webp"@)
    } else {
        None
    }
}

/// Detect a supported image type by its magic bytes.
pub fn detect_file_type(data: &[u8]) -> (r: Option<&'static str>)
    ensures
        match r {
            Some(t) => spec_detect_file_type(data@) == Some(t@),
            None => spec_detect_file_type(data@) is None,
        },
{
    let n = data.len();
    if n >= 3 && data[0] == 0xFF && data[1] == 0xD8 && data[2] == 0xFF {
        Some("image/jpeg")
    } else if n >= 8 && data[0] == 0x89 && data[1] == 0x50 && data[2] == 0x4E && data[3] == 0x47
        && data[4] == 0x0D && data[5] == 0x0A && data[6] == 0x1A && data[7] == 0x0A {
        Some("image/png")
    } else if n >= 6 && data[0] == 0x47 && data[1] == 0x49 && data[2] == 0x46 && data[3] == 0x38
        && (data[4] == 0x37 || data[4] == 0x39) && data[5] == 0x61 {
        Some("image/gif")
    } else if n >= 12 && data[8] == 0x57 && data[9] == 0x45 && data[10] == 0x42 && data[11] == 0x50 {
        Some("image/webp")
    } else {
        None
    }
}

/// The extension of a file name: everything after the last dot, or the
/// whole name when it has no dot.
pub open spec fn spec_extension(name: Seq<char>) -> Seq<char> {
    if exists|i: int| 0 <= i < name.len() && name[i] == '.' {
        let last = choose|i: int|
            0 <= i < name.len() && name[i] == '.' && forall|j: int|
                i < j < name.len() ==> name[j] != '.';
        name.subrange(last + 1, name.len() as int)
    } else {
        name
    }
}

/// Whether an extension is on the image allow-list, up to ASCII case.
pub open spec fn spec_allowed_extension(ext: Seq<char>) -> bool {
    eq_ignore_ascii_case(ext, "jpg"@) || eq_ignore_ascii_case(ext, "jpeg"@)
        || eq_ignore_ascii_case(ext, "png"@) || eq_ignore_ascii_case(ext, "gif"@)
        || eq_ignore_ascii_case(ext, "webp"@)
}

/// Validate a file name's extension against the image allow-list.
pub fn has_valid_extension(filename: &str) -> (r: bool)
    ensures
        r == spec_allowed_extension(spec_extension(filename@)),
{
    let len = filename.unicode_len();
    // Find the character position just after the last dot.
    let mut start: usize = 0;
    let mut i: usize = 0;
    while i < len
        invariant
            len == filename@.len(),
            0 <= start <= i <= len,
            start > 0 ==> filename@[start - 1] == '.' && forall|j: int|
                start <= j < i ==> filename@[j] != '.',
            start == 0 ==> forall|j: int| 0 <= j < i ==> filename@[j] != '.',
        decreases len - i,
    {
        if filename.get_char(i) == '.' {
            start = i + 1;
        }
        i = i + 1;
    }
    let ext = filename.substring_char(start, len);
    proof {
        if start > 0 {
            assert(exists|k: int| 0 <= k < filename@.len() && filename@[k] == '.') by {
                assert(filename@[start - 1] == '.');
            }
            let last = choose|k: int|
                0 <= k < filename@.len() && filename@[k] == '.' && forall|j: int|
                    k < j < filename@.len() ==> filename@[j] != '.';
            assert(last == start - 1) by {
                if last < start - 1 {
                    assert(filename@[start - 1] != '.');
                } else if last > start - 1 {
                    assert(filename@[last] != '.');
                }
            }
        } else {
            if exists|k: int| 0 <= k < filename@.len() && filename@[k] == '.' {
                let k = choose|k: int| 0 <= k < filename@.len() && filename@[k] == '.';
                assert(filename@[k] != '.');
            }
            assert(filename@.subrange(0, filename@.len() as int) =~= filename@);
        }
    }
    str_eq_ignore_ascii_case(ext, "jpg") || str_eq_ignore_ascii_case(ext, "jpeg")
        || str_eq_ignore_ascii_case(ext, "png") || str_eq_ignore_ascii_case(ext, "gif")
        || str_eq_ignore_ascii_case(ext, "webp")
}

} // verus!
