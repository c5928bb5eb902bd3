use vstd::prelude::*;

verus! {

/// Decimal rendering of a non-negative integer, most significant digit first.
pub open spec fn decimal_spec(n: nat) -> Seq<char>
    decreases n,
{
    if n < 10 {
        seq![digit_char(n)]
    } else {
        decimal_spec(n / 10) + seq![digit_char(n % 10)]
    }
}

pub open spec fn digit_char(d: nat) -> char {
    if d < 10 {
        (('0' as u32) + d) as char
    } else {
        '0'
    }
}

/// Relies on `usize`'s `Display` (through `ToString`): plain decimal digits,
/// without sign, padding or separators.
#[verifier::external_body]
pub(crate) fn usize_to_decimal(n: usize) -> (r: String)
    ensures
        r@ == decimal_spec(n as nat),
{
    n.to_string()
}


/// What `String::from_utf16_lossy` makes of a sequence of UTF-16 code units.
pub uninterp spec fn utf16_lossy_of(units: Seq<u16>) -> Seq<char>;

/// What `String::from_utf8_lossy` makes of a sequence of bytes.
pub uninterp spec fn utf8_lossy_of(bytes: Seq<u8>) -> Seq<char>;

/// Relies on `String::from_utf16_lossy`: the text depends on the code units
/// alone, and no units give no text.
#[verifier::external_body]
pub(crate) fn decode_utf16_lossy(units: &[u16]) -> (r: String)
    ensures
        r@ == utf16_lossy_of(units@),
        units@.len() == 0 ==> r@.len() == 0,
{
    String::from_utf16_lossy(units)
}

/// Relies on `String::from_utf8_lossy`: the text depends on the bytes alone,
/// and no bytes give no text.
#[verifier::external_body]
pub(crate) fn decode_utf8_lossy(bytes: &[u8]) -> (r: String)
    ensures
        r@ == utf8_lossy_of(bytes@),
        bytes@.len() == 0 ==> r@.len() == 0,
{
    String::from_utf8_lossy(bytes).into_owned()
}

/// The code points with the Unicode `White_Space` property.
pub open spec fn is_white_space_spec(c: char) -> bool {
    let v = c as u32;
    (0x9 <= v <= 0xd) || v == 0x20 || v == 0x85 || v == 0xa0 || v == 0x1680 || (0x2000 <= v
        <= 0x200a) || v == 0x2028 || v == 0x2029 || v == 0x202f || v == 0x205f || v == 0x3000
}

/// Whether `c` has the Unicode `White_Space` property (as `char::is_whitespace`).
pub fn is_white_space(c: char) -> (r: bool)
    ensures
        r == is_white_space_spec(c),
{
    let v = c as u32;
    (0x9 <= v && v <= 0xd) || v == 0x20 || v == 0x85 || v == 0xa0 || v == 0x1680 || (0x2000 <= v
        && v <= 0x200a) || v == 0x2028 || v == 0x2029 || v == 0x202f || v == 0x205f || v == 0x3000
}

/// Text that is empty once surrounding white space is trimmed.
pub open spec fn is_blank_spec(s: Seq<char>) -> bool {
    forall|i: int| 0 <= i < s.len() ==> is_white_space_spec(#[trigger] s[i])
}

pub fn is_blank(s: &str) -> (r: bool)
    ensures
        r == is_blank_spec(s@),
{
    let n = s.unicode_len();
    let mut i: usize = 0;
    while i < n
        invariant
            n == s@.len(),
            i <= n,
            forall|j: int| 0 <= j < i ==> is_white_space_spec(#[trigger] s@[j]),
        decreases n - i,
    {
        if !is_white_space(s.get_char(i)) {
            return false;
        }
        i = i + 1;
    }
    true
}

/// `needle` occurs in `hay` at position `at`.
pub open spec fn occurs_at(hay: Seq<char>, needle: Seq<char>, at: int) -> bool {
    0 <= at && at + needle.len() <= hay.len() && hay.subrange(at, at + needle.len()) == needle
}

pub open spec fn contains_spec(hay: Seq<char>, needle: Seq<char>) -> bool {
    exists|at: int| occurs_at(hay, needle, at)
}

/// Whether `needle` occurs in `hay` (as `str::contains` with a string pattern).
pub fn contains_str(hay: &str, needle: &str) -> (r: bool)
    ensures
        r == contains_spec(hay@, needle@),
{
    let h = hay.unicode_len();
    let n = needle.unicode_len();
    if n > h {
        assert forall|at: int| !occurs_at(hay@, needle@, at) by {}
        return false;
    }
    if n == 0 {
        assert(hay@.subrange(0, 0) =~= needle@);
        assert(occurs_at(hay@, needle@, 0));
        return true;
    }
    let mut at: usize = 0;
    while at <= h - n
        invariant
            h == hay@.len(),
            n == needle@.len(),
            1 <= n <= h,
            at <= h - n + 1,
            forall|a: int| 0 <= a < at ==> !occurs_at(hay@, needle@, a),
        decreases h - n + 1 - at,
    {
        let mut k: usize = 0;
        let mut same = true;
        while k < n
            invariant
                h == hay@.len(),
                n == needle@.len(),
                at + n <= h,
                k <= n,
                same ==> forall|j: int| 0 <= j < k ==> hay@[at + j] == needle@[j],
                !same ==> !occurs_at(hay@, needle@, at as int),
            decreases n - k,
        {
            if hay.get_char(at + k) != needle.get_char(k) {
                same = false;
                assert(hay@.subrange(at as int, at + n)[k as int] != needle@[k as int]);
            }
            k = k + 1;
        }
        if same {
            assert(hay@.subrange(at as int, at + n) =~= needle@);
            assert(occurs_at(hay@, needle@, at as int));
            return true;
        }
        at = at + 1;
    }
    assert forall|a: int| !occurs_at(hay@, needle@, a) by {}
    false
}

pub open spec fn ascii_lower(c: char) -> char {
    if 'A' <= c <= 'Z' {
        ((c as u8) + 32) as u8 as char
    } else {
        c
    }
}

pub fn to_ascii_lower(c: char) -> (r: char)
    ensures
        r == ascii_lower(c),
{
    if 'A' <= c && c <= 'Z' {
        ((c as u8) + 32) as char
    } else {
        c
    }
}

/// `s` ends with `suffix` when ASCII letters are compared without case.
pub open spec fn ends_with_ignore_case_spec(s: Seq<char>, suffix: Seq<char>) -> bool {
    suffix.len() <= s.len() && forall|i: int|
        0 <= i < suffix.len() ==> ascii_lower(#[trigger] s[s.len() - suffix.len() + i])
            == ascii_lower(suffix[i])
}

pub fn ends_with_ignore_ascii_case(s: &str, suffix: &str) -> (r: bool)
    ensures
        r == ends_with_ignore_case_spec(s@, suffix@),
{
    let n = s.unicode_len();
    let m = suffix.unicode_len();
    if m > n {
        return false;
    }
    let mut i: usize = 0;
    while i < m
        invariant
            n == s@.len(),
            m == suffix@.len(),
            m <= n,
            i <= m,
            forall|j: int|
                0 <= j < i ==> ascii_lower(#[trigger] s@[n - m + j]) == ascii_lower(suffix@[j]),
        decreases m - i,
    {
        if to_ascii_lower(s.get_char(n - m + i)) != to_ascii_lower(suffix.get_char(i)) {
            return false;
        }
        i = i + 1;
    }
    true
}

/// Equality of two texts when ASCII letters are compared without case.
pub open spec fn eq_ignore_case_spec(a: Seq<char>, b: Seq<char>) -> bool {
    a.len() == b.len() && ends_with_ignore_case_spec(a, b)
}

pub fn eq_ignore_ascii_case(a: &str, b: &str) -> (r: bool)
    ensures
        r == eq_ignore_case_spec(a@, b@),
{
    a.unicode_len() == b.unicode_len() && ends_with_ignore_ascii_case(a, b)
}

pub open spec fn contains_char_spec(s: Seq<char>, c: char) -> bool {
    exists|i: int| 0 <= i < s.len() && s[i] == c
}

pub fn contains_char(s: &str, c: char) -> (r: bool)
    ensures
        r == contains_char_spec(s@, c),
{
    let n = s.unicode_len();
    let mut i: usize = 0;
    while i < n
        invariant
            n == s@.len(),
            i <= n,
            forall|j: int| 0 <= j < i ==> s@[j] != c,
        decreases n - i,
    {
        if s.get_char(i) == c {
            return true;
        }
        i = i + 1;
    }
    false
}


pub fn str_equal(a: &str, b: &str) -> (r: bool)
    ensures
        r == (a@ == b@),
{
    let n = a.unicode_len();
    if n != b.unicode_len() {
        return false;
    }
    let mut i: usize = 0;
    while i < n
        invariant
            n == a@.len(),
            n == b@.len(),
            i <= n,
            forall|j: int| 0 <= j < i ==> a@[j] == b@[j],
        decreases n - i,
    {
        if a.get_char(i) != b.get_char(i) {
            return false;
        }
        i = i + 1;
    }
    assert(a@ =~= b@);
    true
}

/// Index of the last '.' before position `i`, or -1 when there is none.
pub open spec fn last_dot(s: Seq<char>, i: int) -> int
    decreases i,
{
    if i <= 0 || i > s.len() {
        -1
    } else if s[i - 1] == '.' {
        i - 1
    } else {
        last_dot(s, i - 1)
    }
}

/// The extension of a single file name: the text after the final '.', unless
/// there is no '.' or the only one leads the name.
pub open spec fn extension_spec(s: Seq<char>) -> Option<Seq<char>> {
    let d = last_dot(s, s.len() as int);
    if d <= 0 {
        None
    } else {
        Some(s.subrange(d + 1, s.len() as int))
    }
}

/// A path separator on some platform: '/' everywhere, '\\' on Windows.
pub open spec fn is_sep(c: char) -> bool {
    c == '/' || c == '\\'
}

/// Index of the last separator before position `i`, or -1 when there is none.
pub open spec fn last_sep(s: Seq<char>, i: int) -> int
    decreases i,
{
    if i <= 0 || i > s.len() {
        -1
    } else if is_sep(s[i - 1]) {
        i - 1
    } else {
        last_sep(s, i - 1)
    }
}

/// The text after the last separator (all of `s` when it has none).
pub open spec fn last_component(s: Seq<char>) -> Seq<char> {
    s.subrange(last_sep(s, s.len() as int) + 1, s.len() as int)
}

pub open spec fn has_sep(s: Seq<char>) -> bool {
    last_sep(s, s.len() as int) >= 0
}

/// The path starts with two separators, as network and device paths do on
/// Windows.
pub open spec fn two_leading_seps(s: Seq<char>) -> bool {
    s.len() >= 2 && is_sep(s[0]) && is_sep(s[1])
}

/// A ':' occurs only as a drive letter's colon followed by a separator.
pub open spec fn colon_ok(s: Seq<char>) -> bool {
    forall|i: int| 0 <= i < s.len() && #[trigger] s[i] == ':' ==> i == 1 && s.len() > 2 && is_sep(
        s[2],
    )
}

/// Paths whose final component is the same on every platform: '/'-separated,
/// with at most a drive colon, not a network or device path, and not ending
/// in a separator, "." or "..".
pub open spec fn file_name_known(s: Seq<char>) -> bool {
    let n = last_component(s);
    &&& colon_ok(s)
    &&& !contains_char_spec(s, '\\')
    &&& !two_leading_seps(s)
    &&& n.len() > 0
    &&& n != seq!['.']
    &&& n != seq!['.', '.']
}

/// Names whose extension is the same on every platform: those that are a
/// single component; or, with separators, those whose final component is
/// neither empty, "." nor "..", and, when '\\' occurs, has a '.' past its
/// start (so that splitting on '/' alone finds the same extension).
pub open spec fn extension_known(s: Seq<char>) -> bool {
    let n = last_component(s);
    &&& colon_ok(s)
    &&& !two_leading_seps(s)
    &&& n != seq!['.', '.']
    &&& has_sep(s) ==> {
        &&& n.len() > 0
        &&& n != seq!['.']
        &&& (contains_char_spec(s, '\\') ==> last_dot(n, n.len() as int) > 0)
    }
}

/// The extension of a path: that of its final component.
pub open spec fn name_extension(s: Seq<char>) -> Option<Seq<char>> {
    extension_spec(last_component(s))
}

/// Relies on `std::path::Path::extension`: the text after the final '.' of
/// the final component, unless there is no '.' or the only one leads it.
#[verifier::external_body]
pub(crate) fn path_extension(name: &str) -> (r: Option<String>)
    ensures
        extension_known(name@) ==> match r {
            Some(e) => name_extension(name@) == Some(e@),
            None => name_extension(name@) is None,
        },
{
    std::path::Path::new(name).extension().map(|e| e.to_string_lossy().into_owned())
}

/// Relies on `std::path::Path::file_name`: the final component is never
/// empty, and is the text after the last '/' for the paths where every
/// platform splits alike.
#[verifier::external_body]
pub(crate) fn path_file_name(path: &str) -> (r: Option<String>)
    ensures
        match r {
            Some(n) => n@.len() > 0,
            None => true,
        },
        match r {
            Some(n) => file_name_known(path@) ==> n@ == last_component(path@),
            None => !file_name_known(path@),
        },
{
    std::path::Path::new(path).file_name().map(|f| f.to_string_lossy().into_owned())
}

} // verus!
