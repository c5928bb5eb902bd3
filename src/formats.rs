use vstd::prelude::*;

use crate::text::{
    decimal_spec, eq_ignore_ascii_case, eq_ignore_case_spec, extension_known, name_extension,
    path_extension, str_equal, usize_to_decimal,
};

verus! {

/// Predefined clipboard format of 8-bit text.
pub const CF_TEXT: u32 = 1;
/// Predefined clipboard format of a TIFF image.
pub const CF_TIFF: u32 = 6;
/// Predefined clipboard format of a device-independent bitmap.
pub const CF_DIB: u32 = 8;
/// Predefined clipboard format of UTF-16 text.
pub const CF_UNICODETEXT: u32 = 13;
/// Predefined clipboard format of a dropped-file list.
pub const CF_HDROP: u32 = 15;
/// Predefined clipboard format of a version 5 device-independent bitmap.
pub const CF_DIBV5: u32 = 17;

/// Transfer medium: a global memory buffer.
pub const TYMED_HGLOBAL: u32 = 1;
/// Transfer medium: a file on disk.
pub const TYMED_FILE: u32 = 2;
/// Transfer medium: a sequential byte stream.
pub const TYMED_ISTREAM: u32 = 4;
/// Transfer medium: a compound storage container.
pub const TYMED_ISTORAGE: u32 = 8;

/// Status code of a format/medium combination the provider does not offer.
pub const DV_E_FORMATETC: i32 = -2147221404;

/// Prefix of the names given to formats that have no registered name.
pub const INTERNAL_PREFIX: &'static str = "NativeShell_CF_";

/// Name of a format that has no registered name.
pub open spec fn internal_format_name_spec(format: nat) -> Seq<char> {
    INTERNAL_PREFIX@ + decimal_spec(format)
}

pub fn internal_format_name(format: u32) -> (r: String)
    ensures
        r@ == internal_format_name_spec(format as nat),
{
    let mut r = String::from_str(INTERNAL_PREFIX);
    let digits = usize_to_decimal(format as usize);
    r.append(digits.as_str());
    r
}

/// Name of a format: its registered name, if the system knows one, else the
/// internal name built from its number.
pub fn format_to_string(format: u32, registered: Option<String>) -> (r: String)
    ensures
        match registered {
            Some(n) => r@ == n@,
            None => r@ == internal_format_name_spec(format as nat),
        },
{
    match registered {
        Some(n) => n,
        None => internal_format_name(format),
    }
}

/// The first media type that `mime_guess` knows for an extension.
pub uninterp spec fn mime_of_extension(ext: Seq<char>) -> Option<Seq<char>>;

/// Relies on `mime_guess::from_ext(..).first()`: the first media type known
/// for an extension; none for an empty extension.
#[verifier::external_body]
fn guess_mime_for_extension(ext: &str) -> (r: Option<String>)
    ensures
        match r {
            Some(m) => mime_of_extension(ext@) == Some(m@),
            None => mime_of_extension(ext@) is None,
        },
        ext@.len() == 0 ==> r is None,
{
    mime_guess::from_ext(ext).first().map(|m| m.to_string())
}

/// Media type of a file with extension `ext`: the two mail formats by name,
/// else what `mime_guess` knows, else a generic binary type naming the
/// extension.
pub open spec fn mime_spec(ext: Option<Seq<char>>) -> Seq<char> {
    let e = match ext {
        Some(e) => e,
        None => Seq::<char>::empty(),
    };
    if ext is Some && eq_ignore_case_spec(e, "msg"@) {
        "application/vnd.ms-outlook"@
    } else if ext is Some && eq_ignore_case_spec(e, "eml"@) {
        "message/rfc822"@
    } else {
        match mime_of_extension(e) {
            Some(m) => m,
            None => "application/octet-stream;extension="@ + e,
        }
    }
}

/// Media type for a file name, guessed from its extension.
pub fn mime_from_name(name: &str) -> (r: String)
    ensures
        extension_known(name@) ==> r@ == mime_spec(name_extension(name@)),
{
    let ext = path_extension(name);
    let e = match &ext {
        Some(e) => e.clone(),
        None => String::new(),
    };
    if ext.is_some() && eq_ignore_ascii_case(e.as_str(), "msg") {
        return String::from_str("application/vnd.ms-outlook");
    }
    if ext.is_some() && eq_ignore_ascii_case(e.as_str(), "eml") {
        return String::from_str("message/rfc822");
    }
    match guess_mime_for_extension(e.as_str()) {
        Some(m) => m,
        None => {
            let mut r = String::from_str("application/octet-stream;extension=");
            r.append(e.as_str());
            r
        },
    }
}

/// Clipboard format name for a media type: the image types that have a
/// well-known clipboard name get it, all others keep the media type.
pub open spec fn windows_format_spec(mime: Seq<char>) -> Seq<char> {
    if mime == "image/png"@ {
        "PNG"@
    } else if mime == "image/jpeg"@ {
        "JFIF"@
    } else if mime == "image/gif"@ {
        "GIF"@
    } else if mime == "image/tiff"@ {
        internal_format_name_spec(CF_TIFF as nat)
    } else {
        mime
    }
}

pub fn mime_to_windows(mime: String) -> (r: String)
    ensures
        r@ == windows_format_spec(mime@),
{
    if str_equal(mime.as_str(), "image/png") {
        String::from_str("PNG")
    } else if str_equal(mime.as_str(), "image/jpeg") {
        String::from_str("JFIF")
    } else if str_equal(mime.as_str(), "image/gif") {
        String::from_str("GIF")
    } else if str_equal(mime.as_str(), "image/tiff") {
        internal_format_name(CF_TIFF)
    } else {
        mime
    }
}

/// Format hint of a file name: the clipboard name of its guessed media type.
pub open spec fn format_hint_spec(name: Seq<char>) -> Seq<char> {
    windows_format_spec(mime_spec(name_extension(name)))
}

pub fn format_hint_for_name(name: &str) -> (r: String)
    ensures
        extension_known(name@) ==> r@ == format_hint_spec(name@),
{
    mime_to_windows(mime_from_name(name))
}


pub open spec fn is_ascii_digit(c: char) -> bool {
    '0' <= c <= '9'
}

/// Value of a run of ASCII digits.
pub open spec fn digits_value(d: Seq<char>) -> nat
    decreases d.len(),
{
    if d.len() == 0 {
        0
    } else {
        digits_value(d.drop_last()) * 10 + ((d.last() as u32) - ('0' as u32)) as nat
    }
}

/// What `str::parse::<u32>` accepts: an optional '+', then one or more ASCII
/// digits whose value fits in 32 bits.
pub open spec fn parse_u32_spec(s: Seq<char>) -> Option<u32> {
    let d = if s.len() > 0 && s[0] == '+' {
        s.drop_first()
    } else {
        s
    };
    if d.len() == 0 || exists|i: int| 0 <= i < d.len() && !is_ascii_digit(#[trigger] d[i]) {
        None
    } else if digits_value(d) > u32::MAX {
        None
    } else {
        Some(digits_value(d) as u32)
    }
}

/// Relies on `u32`'s `FromStr`: an optional '+', then one or more ASCII
/// digits whose value fits in 32 bits; anything else is an error.
#[verifier::external_body]
fn parse_u32(s: &str) -> (r: Option<u32>)
    ensures
        r == parse_u32_spec(s@),
{
    s.parse::<u32>().ok()
}

/// Number of a format named with the internal prefix: the number after the
/// prefix, or 0 when it is not one; `None` for a name without the prefix,
/// which must be registered instead.
pub fn internal_format_number(name: &str) -> (r: Option<u32>)
    ensures
        ({
            let p = INTERNAL_PREFIX@;
            if name@.len() >= p.len() && name@.subrange(0, p.len() as int) == p {
                r == Some(
                    match parse_u32_spec(name@.subrange(p.len() as int, name@.len() as int)) {
                        Some(n) => n,
                        None => 0u32,
                    },
                )
            } else {
                r is None
            }
        }),
{
    let n = name.unicode_len();
    let p = INTERNAL_PREFIX.unicode_len();
    if n < p {
        return None;
    }
    let head = name.substring_char(0, p);
    if !str_equal(head, INTERNAL_PREFIX) {
        return None;
    }
    let rest = name.substring_char(p, n);
    match parse_u32(rest) {
        Some(v) => Some(v),
        None => Some(0),
    }
}

} // verus!
