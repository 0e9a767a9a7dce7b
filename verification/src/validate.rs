//! Input validators for names, statuses, voice quality labels, bitrates
//! and reaction emoji.

use vstd::prelude::*;
use vstd::string::StrSliceExecFns;

use crate::strutil::{eq_ignore_ascii_case, str_eq_ignore_ascii_case};

verus! {

/// Maximum length of a text or voice channel name.
pub const MAX_CHANNEL_NAME_LEN: usize = 50;

/// Maximum length of a user name.
pub const MAX_USER_NAME_LEN: usize = 32;

/// Maximum length of a voice quality label.
pub const MAX_QUALITY_LEN: usize = 32;

/// Maximum length of a reaction emoji, in UTF-8 bytes.
pub const MAX_EMOJI_LEN: usize = 16;

/// Upper bound accepted for a voice channel bitrate, in bits per second.
pub const MAX_ALLOWED_VOICE_BITRATE: i32 = 320_000;

/// Characters allowed in names: ASCII letters, digits, `-`, `_` and space.
pub open spec fn is_name_char(c: char) -> bool {
    ('a' <= c && c <= 'z') || ('A' <= c && c <= 'Z') || ('0' <= c && c <= '9') || c == '-' || c
        == '_' || c == ' '
}

/// A valid name is non-empty, at most `maxlen` characters, trim-stable and
/// made of ASCII letters, digits, dashes, underscores and spaces.
pub open spec fn spec_valid_name(s: Seq<char>, maxlen: int) -> bool {
    &&& 1 <= s.len() <= maxlen
    &&& forall|i: int| 0 <= i < s.len() ==> is_name_char(s[i])
    &&& s[0] != ' '
    &&& s[s.len() - 1] != ' '
}

/// Generic name validator.
fn validate_name(name: &str, max_length: usize) -> (r: bool)
    ensures
        r == spec_valid_name(name@, max_length as int),
{
    let len = name.unicode_len();
    if len == 0 || len > max_length {
        return false;
    }
    if name.get_char(0) == ' ' || name.get_char(len - 1) == ' ' {
        return false;
    }
    for i in 0..len
        invariant
            len == name@.len(),
            forall|j: int| 0 <= j < i ==> is_name_char(name@[j]),
    {
        let c = name.get_char(i);
        let ok = ('a' <= c && c <= 'z') || ('A' <= c && c <= 'Z') || ('0' <= c && c <= '9') || c
            == '-' || c == '_' || c == ' ';
        if !ok {
            return false;
        }
    }
    true
}

/// Validate a channel name (at most 50 characters).
pub fn validate_channel_name(name: &str) -> (r: bool)
    ensures
        r == spec_valid_name(name@, MAX_CHANNEL_NAME_LEN as int),
{
    validate_name(name, MAX_CHANNEL_NAME_LEN)
}

/// Validate a user name (at most 32 characters).
pub fn validate_user_name(name: &str) -> (r: bool)
    ensures
        r == spec_valid_name(name@, MAX_USER_NAME_LEN as int),
{
    validate_name(name, MAX_USER_NAME_LEN)
}

/// A valid voice quality label once trimmed: non-empty, at most 32
/// characters, same character set as names.
pub open spec fn spec_valid_quality(s: Seq<char>) -> bool {
    &&& 1 <= crate::strutil::trimmed(s).len() <= MAX_QUALITY_LEN as int
    &&& forall|i: int|
        0 <= i < crate::strutil::trimmed(s).len() ==> is_name_char(crate::strutil::trimmed(s)[i])
}

/// Validate a voice quality label; surrounding whitespace is ignored.
pub fn validate_voice_quality(value: &str) -> (r: bool)
    ensures
        r == spec_valid_quality(value@),
{
    let t = crate::strutil::trim_spaces(value);
    let ts = t.as_str();
    let len = ts.unicode_len();
    if len == 0 || len > MAX_QUALITY_LEN {
        return false;
    }
    for i in 0..len
        invariant
            len == ts@.len(),
            ts@ == crate::strutil::trimmed(value@),
            forall|j: int| 0 <= j < i ==> is_name_char(ts@[j]),
    {
        let c = ts.get_char(i);
        let ok = ('a' <= c && c <= 'z') || ('A' <= c && c <= 'Z') || ('0' <= c && c <= '9') || c
            == '-' || c == '_' || c == ' ';
        if !ok {
            return false;
        }
    }
    true
}

/// Validate and convert a bitrate value to `i32`.
///
/// Returns `None` if the value is out of the accepted range `(0, 320_000]`.
pub fn validate_bitrate(value: i64) -> (r: Option<i32>)
    ensures
        r == if 0 < value <= MAX_ALLOWED_VOICE_BITRATE as i64 {
            Some(value as i32)
        } else {
            None::<i32>
        },
{
    if value <= 0 || value > MAX_ALLOWED_VOICE_BITRATE as i64 {
        return None;
    }
    Some(value as i32)
}

/// The canonical user statuses.
pub open spec fn spec_status_of(v: Seq<char>) -> Option<Seq<char>> {
    if eq_ignore_ascii_case(v, "online"@) {
        Some("online"@)
    } else if eq_ignore_ascii_case(v, "away"@) {
        Some("away"@)
    } else if eq_ignore_ascii_case(v, "busy"@) {
        Some("busy"@)
    } else if eq_ignore_ascii_case(v, "offline"@) {
        Some("offline"@)
    } else {
        None
    }
}

/// Normalize a user status string to a canonical status value.
///
/// Returns `None` if the input does not match any status, up to ASCII case.
pub fn normalize_status(value: &str) -> (r: Option<&'static str>)
    ensures
        match r {
            Some(s) => spec_status_of(value@) == Some(s@),
            None => spec_status_of(value@) is None,
        },
{
    if str_eq_ignore_ascii_case(value, "online") {
        Some("online")
    } else if str_eq_ignore_ascii_case(value, "away") {
        Some("away")
    } else if str_eq_ignore_ascii_case(value, "busy") {
        Some("busy")
    } else if str_eq_ignore_ascii_case(value, "offline") {
        Some("offline")
    } else {
        None
    }
}

/// A control character: the Unicode `Cc` category.
pub open spec fn is_control_char(c: char) -> bool {
    (c as u32) < 32 || (127 <= c as u32 && c as u32 <= 159)
}

/// A valid emoji: non-empty, at most 16 bytes in UTF-8, no control
/// characters and no whitespace of any kind.
pub open spec fn spec_valid_emoji(s: Seq<char>) -> bool {
    &&& s.len() >= 1
    &&& vstd::utf8::encode_utf8(s).len() <= MAX_EMOJI_LEN as int
    &&& forall|i: int|
        0 <= i < s.len() ==> !is_control_char(#[trigger] s[i]) && !crate::strutil::is_space(s[i])
}

/// Validate a reaction emoji (expected trimmed).
pub fn validate_emoji(value: &str) -> (r: bool)
    ensures
        r == spec_valid_emoji(value@),
{
    if value.is_empty() || value.as_bytes().len() > MAX_EMOJI_LEN {
        return false;
    }
    let chars = value.unicode_len();
    for i in 0..chars
        invariant
            chars == value@.len(),
            forall|j: int|
                0 <= j < i ==> !is_control_char(#[trigger] value@[j]) && !crate::strutil::is_space(
                    value@[j],
                ),
    {
        let c = value.get_char(i);
        let control = (c as u32) < 32 || ((c as u32) >= 127 && (c as u32) <= 159);
        let space = ('\u{9}' <= c && c <= '\u{D}') || c == ' ' || c == '\u{85}' || c == '\u{A0}'
            || c == '\u{1680}' || ('\u{2000}' <= c && c <= '\u{200A}') || c == '\u{2028}' || c
            == '\u{2029}' || c == '\u{202F}' || c == '\u{205F}' || c == '\u{3000}';
        if control || space {
            return false;
        }
    }
    true
}

} // verus!
