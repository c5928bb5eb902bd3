use vstd::arithmetic::div_mod::lemma_fundamental_div_mod;
use vstd::prelude::*;

use crate::error::{NativeExtensionsError, NativeExtensionsResult};
use crate::formats::{format_hint_for_name, format_hint_spec};
use crate::text::{
    decimal_spec, decode_utf16_lossy, decode_utf8_lossy, is_blank, is_blank_spec,
    extension_known, usize_to_decimal, utf16_lossy_of, utf8_lossy_of,
};

verus! {

/// Size of the header of a dropped-file list.
pub const DROPFILES_SIZE: usize = 20;
/// Size of one entry of a file-group descriptor.
pub const FILE_DESCRIPTOR_SIZE: usize = 592;
/// Size of a file-group descriptor holding one entry (count plus entry).
pub const FILE_GROUP_DESCRIPTOR_SIZE: usize = 596;
/// Flag of a descriptor entry whose size fields are valid.
pub const FD_FILESIZE: u32 = 0x40;
/// Number of UTF-16 code units in a descriptor entry's name field.
pub const FILE_NAME_UNITS: usize = 260;
/// Offset of the name field within a descriptor entry.
pub const FILE_NAME_OFFSET: usize = 72;

pub open spec fn le_u16_spec(lo: u8, hi: u8) -> u16 {
    (lo as int + hi as int * 256) as u16
}

pub open spec fn le_u32_spec(b: Seq<u8>, off: int) -> u32 {
    (b[off] as int + b[off + 1] as int * 256 + b[off + 2] as int * 65536 + b[off + 3] as int
        * 16777216) as u32
}

fn read_u32_le(b: &[u8], off: usize) -> (r: u32)
    requires
        off + 4 <= b@.len(),
    ensures
        r == le_u32_spec(b@, off as int),
{
    (b[off] as u32) + (b[off + 1] as u32) * 256 + (b[off + 2] as u32) * 65536 + (b[off + 3] as u32)
        * 16777216
}

fn read_u16_le(b: &[u8], off: usize) -> (r: u16)
    requires
        off + 2 <= b@.len(),
    ensures
        r == le_u16_spec(b@[off as int], b@[off + 1]),
{
    (b[off] as u16) + (b[off + 1] as u16) * 256
}

/// The UTF-16 code units stored little-endian in `b` (a trailing odd byte is
/// not part of any unit).
pub open spec fn units_le(b: Seq<u8>) -> Seq<u16> {
    Seq::new(b.len() / 2, |i: int| le_u16_spec(b[2 * i], b[2 * i + 1]))
}

/// The non-empty runs of `d` that end in `zero`, scanning from `i` with the
/// current run starting at `start`; the list ends at an empty run or at the
/// end of `d` (a run without its `zero` is not part of the list).
pub open spec fn segments<T>(d: Seq<T>, zero: T, start: int, i: int) -> Seq<Seq<T>>
    decreases d.len() - i,
{
    if i < 0 || i >= d.len() {
        Seq::empty()
    } else if d[i] == zero {
        if i == start {
            Seq::empty()
        } else {
            seq![d.subrange(start, i)] + segments(d, zero, i + 1, i + 1)
        }
    } else {
        segments(d, zero, start, i + 1)
    }
}

/// The list scanned by `segments` ends at an empty run (a double `zero`).
pub open spec fn segments_terminated<T>(d: Seq<T>, zero: T, start: int, i: int) -> bool
    decreases d.len() - i,
{
    if i < 0 || i >= d.len() {
        false
    } else if d[i] == zero {
        if i == start {
            true
        } else {
            segments_terminated(d, zero, i + 1, i + 1)
        }
    } else {
        segments_terminated(d, zero, start, i + 1)
    }
}

/// Offset of the path list within a dropped-file list.
pub open spec fn drop_files_offset(b: Seq<u8>) -> int {
    le_u32_spec(b, 0) as int
}

/// Whether a dropped-file list holds UTF-16 paths.
pub open spec fn drop_files_wide(b: Seq<u8>) -> bool {
    le_u32_spec(b, 16) != 0
}

pub open spec fn drop_files_payload(b: Seq<u8>) -> Seq<u8> {
    b.subrange(drop_files_offset(b), b.len() as int)
}

/// The paths of a dropped-file list, or `None` for a malformed one: too short
/// for its header, an offset past its end, a wide list of odd length, or a
/// narrow list that is not closed by an empty string.
pub open spec fn drop_files_spec(b: Seq<u8>) -> Option<Seq<Seq<char>>> {
    if b.len() < DROPFILES_SIZE || drop_files_offset(b) > b.len() {
        None
    } else {
        let d = drop_files_payload(b);
        if drop_files_wide(b) {
            if d.len() % 2 != 0 {
                None
            } else {
                Some(
                    segments(units_le(d), 0u16, 0, 0).map_values(
                        |s: Seq<u16>| utf16_lossy_of(s),
                    ),
                )
            }
        } else if !segments_terminated(d, 0u8, 0, 0) {
            None
        } else {
            Some(segments(d, 0u8, 0, 0).map_values(|s: Seq<u8>| utf8_lossy_of(s)))
        }
    }
}

proof fn lemma_segments_unfold_push<T>(raw: Seq<Seq<T>>, d: Seq<T>, zero: T, start: int, i: int)
    requires
        0 <= start < i < d.len(),
        d[i] == zero,
    ensures
        raw.push(d.subrange(start, i)) + segments(d, zero, i + 1, i + 1) == raw + segments(
            d,
            zero,
            start,
            i,
        ),
{
    assert(segments(d, zero, start, i) == seq![d.subrange(start, i)] + segments(
        d,
        zero,
        i + 1,
        i + 1,
    ));
    assert(raw.push(d.subrange(start, i)) + segments(d, zero, i + 1, i + 1) =~= raw + (seq![
        d.subrange(start, i),
    ] + segments(d, zero, i + 1, i + 1)));
}

fn copy_range(b: &[u8], from: usize, to: usize) -> (r: Vec<u8>)
    requires
        from <= to <= b@.len(),
    ensures
        r@ == b@.subrange(from as int, to as int),
{
    let mut r: Vec<u8> = Vec::new();
    let mut k = from;
    while k < to
        invariant
            from <= k <= to <= b@.len(),
            r@ == b@.subrange(from as int, k as int),
        decreases to - k,
    {
        r.push(b[k]);
        k = k + 1;
        assert(r@ =~= b@.subrange(from as int, k as int));
    }
    r
}

fn copy_units(u: &Vec<u16>, from: usize, to: usize) -> (r: Vec<u16>)
    requires
        from <= to <= u@.len(),
    ensures
        r@ == u@.subrange(from as int, to as int),
{
    let mut r: Vec<u16> = Vec::new();
    let mut k = from;
    while k < to
        invariant
            from <= k <= to <= u@.len(),
            r@ == u@.subrange(from as int, k as int),
        decreases to - k,
    {
        r.push(u[k]);
        k = k + 1;
        assert(r@ =~= u@.subrange(from as int, k as int));
    }
    r
}

/// Splits the narrow path list that starts at `off` in `b`.
fn narrow_paths(b: &[u8], off: usize) -> (r: NativeExtensionsResult<Vec<String>>)
    requires
        off <= b@.len(),
    ensures
        ({
            let d = b@.subrange(off as int, b@.len() as int);
            match r {
                Ok(v) => segments_terminated(d, 0u8, 0, 0) && v@.map_values(|s: String| s@)
                    == segments(d, 0u8, 0, 0).map_values(|s: Seq<u8>| utf8_lossy_of(s)),
                Err(e) => !segments_terminated(d, 0u8, 0, 0) && e
                    == NativeExtensionsError::InvalidData,
            }
        }),
{
    let ghost d = b@.subrange(off as int, b@.len() as int);
    let blen = b.len();
    let n = blen - off;
    let mut res: Vec<String> = Vec::new();
    let ghost mut raw: Seq<Seq<u8>> = Seq::empty();
    let mut start: usize = 0;
    let mut i: usize = 0;
    loop
        invariant
            d == b@.subrange(off as int, b@.len() as int),
            n == d.len(),
            off + n == b@.len(),
            blen == b@.len(),
            start <= i <= n,
            raw + segments(d, 0u8, start as int, i as int) == segments(d, 0u8, 0, 0),
            segments_terminated(d, 0u8, start as int, i as int) == segments_terminated(
                d,
                0u8,
                0,
                0,
            ),
            res@.len() == raw.len(),
            forall|k: int| 0 <= k < raw.len() ==> (#[trigger] res@[k])@ == utf8_lossy_of(raw[k]),
        decreases n - i,
    {
        if i >= n {
            return Err(NativeExtensionsError::InvalidData);
        }
        if b[off + i] == 0 {
            if i == start {
                assert(raw =~= raw + segments(d, 0u8, start as int, i as int));
                assert(res@.map_values(|s: String| s@) =~= raw.map_values(
                    |s: Seq<u8>| utf8_lossy_of(s),
                ));
                return Ok(res);
            }
            let seg = copy_range(b, off + start, off + i);
            assert(seg@ == d.subrange(start as int, i as int));
            let name = decode_utf8_lossy(seg.as_slice());
            proof {
                lemma_segments_unfold_push(raw, d, 0u8, start as int, i as int);
                raw = raw.push(d.subrange(start as int, i as int));
            }
            res.push(name);
            i = i + 1;
            start = i;
        } else {
            i = i + 1;
        }
    }
}

/// Reads the UTF-16 units stored little-endian in `b` from `off` on.
fn wide_units(b: &[u8], off: usize) -> (r: Vec<u16>)
    requires
        off <= b@.len(),
        (b@.len() - off) % 2 == 0,
    ensures
        r@ == units_le(b@.subrange(off as int, b@.len() as int)),
{
    let ghost d = b@.subrange(off as int, b@.len() as int);
    let blen = b.len();
    let count = (blen - off) / 2;
    let mut r: Vec<u16> = Vec::new();
    let mut k: usize = 0;
    while k < count
        invariant
            d == b@.subrange(off as int, b@.len() as int),
            count == d.len() / 2,
            off + d.len() == b@.len(),
            blen == b@.len(),
            k <= count,
            r@.len() == k,
            forall|j: int| 0 <= j < k ==> r@[j] == units_le(d)[j],
        decreases count - k,
    {
        let u = read_u16_le(b, off + 2 * k);
        r.push(u);
        k = k + 1;
    }
    assert(r@ =~= units_le(d));
    r
}

/// Splits the wide path list held in `units`.
fn wide_paths(units: &Vec<u16>) -> (r: Vec<String>)
    ensures
        r@.map_values(|s: String| s@) == segments(units@, 0u16, 0, 0).map_values(
            |s: Seq<u16>| utf16_lossy_of(s),
        ),
{
    let ghost d = units@;
    let n = units.len();
    let mut res: Vec<String> = Vec::new();
    let ghost mut raw: Seq<Seq<u16>> = Seq::empty();
    let mut start: usize = 0;
    let mut i: usize = 0;
    while i < n
        invariant
            d == units@,
            n == d.len(),
            start <= i <= n,
            raw + segments(d, 0u16, start as int, i as int) == segments(d, 0u16, 0, 0),
            res@.len() == raw.len(),
            forall|k: int|
                0 <= k < raw.len() ==> (#[trigger] res@[k])@ == utf16_lossy_of(raw[k]),
        decreases n - i,
    {
        if units[i] == 0 {
            if i == start {
                assert(raw =~= raw + segments(d, 0u16, start as int, i as int));
                assert(res@.map_values(|s: String| s@) =~= raw.map_values(
                    |s: Seq<u16>| utf16_lossy_of(s),
                ));
                return res;
            }
            let seg = copy_units(units, start, i);
            let name = decode_utf16_lossy(seg.as_slice());
            proof {
                lemma_segments_unfold_push(raw, d, 0u16, start as int, i as int);
                raw = raw.push(d.subrange(start as int, i as int));
            }
            res.push(name);
            i = i + 1;
            start = i;
        } else {
            i = i + 1;
        }
    }
    assert(raw =~= raw + segments(d, 0u16, start as int, i as int));
    assert(res@.map_values(|s: String| s@) =~= raw.map_values(|s: Seq<u16>| utf16_lossy_of(s)));
    res
}

/// Parses a dropped-file list: a header giving the offset of a list of
/// NUL-terminated paths (narrow or wide) closed by an empty path.
pub fn extract_drop_files(buffer: &[u8]) -> (r: NativeExtensionsResult<Vec<String>>)
    ensures
        match r {
            Ok(v) => drop_files_spec(buffer@) == Some(v@.map_values(|s: String| s@)),
            Err(e) => drop_files_spec(buffer@) is None && e == NativeExtensionsError::InvalidData,
        },
{
    if buffer.len() < DROPFILES_SIZE {
        return Err(NativeExtensionsError::InvalidData);
    }
    let offset = read_u32_le(buffer, 0);
    let wide = read_u32_le(buffer, 16) != 0;
    if offset as usize > buffer.len() {
        return Err(NativeExtensionsError::InvalidData);
    }
    let off = offset as usize;
    if wide {
        if (buffer.len() - off) % 2 != 0 {
            return Err(NativeExtensionsError::InvalidData);
        }
        let units = wide_units(buffer, off);
        Ok(wide_paths(&units))
    } else {
        narrow_paths(buffer, off)
    }
}


/// A virtual file announced by a file-group descriptor.
#[derive(Debug)]
pub struct FileDescriptor {
    /// Name of the file.
    pub name: String,
    /// Clipboard format hint, guessed from the name.
    pub format: String,
    /// Position of the entry, used to request the file's contents.
    pub index: usize,
    /// Size announced by the provider, if any.
    pub expected_size: Option<u64>,
}

/// The plain values a file descriptor holds.
pub ghost struct DescriptorView {
    pub name: Seq<char>,
    pub format: Seq<char>,
    pub index: usize,
    pub expected_size: Option<u64>,
}

impl View for FileDescriptor {
    type V = DescriptorView;

    open spec fn view(&self) -> DescriptorView {
        DescriptorView {
            name: self.name@,
            format: self.format@,
            index: self.index,
            expected_size: self.expected_size,
        }
    }
}

impl FileDescriptor {
    pub fn copy(&self) -> (r: FileDescriptor)
        ensures
            r@ == self@,
    {
        FileDescriptor {
            name: String::from_str(self.name.as_str()),
            format: String::from_str(self.format.as_str()),
            index: self.index,
            expected_size: self.expected_size,
        }
    }
}

pub open spec fn descriptor_count(b: Seq<u8>) -> int {
    le_u32_spec(b, 0) as int
}

/// Offset of entry `i` of a file-group descriptor.
pub open spec fn entry_base(i: int) -> int {
    4 + i * FILE_DESCRIPTOR_SIZE
}

/// A file-group descriptor is large enough for the entries its count announces.
pub open spec fn descriptors_ok(b: Seq<u8>) -> bool {
    b.len() >= FILE_GROUP_DESCRIPTOR_SIZE && (descriptor_count(b) == 0 || b.len()
        >= FILE_GROUP_DESCRIPTOR_SIZE + (descriptor_count(b) - 1) * FILE_DESCRIPTOR_SIZE)
}

/// The name field of entry `i`.
pub open spec fn name_field(b: Seq<u8>, i: int) -> Seq<u16> {
    Seq::new(
        FILE_NAME_UNITS as nat,
        |k: int|
            le_u16_spec(
                b[entry_base(i) + FILE_NAME_OFFSET + 2 * k],
                b[entry_base(i) + FILE_NAME_OFFSET + 2 * k + 1],
            ),
    )
}

/// Index of the first zero unit at or after `k`, or the length when there is none.
pub open spec fn first_zero(u: Seq<u16>, k: int) -> int
    decreases u.len() - k,
{
    if k < 0 || k >= u.len() {
        u.len() as int
    } else if u[k] == 0 {
        k
    } else {
        first_zero(u, k + 1)
    }
}

/// The name stored in entry `i`, up to its terminator.
pub open spec fn stored_name(b: Seq<u8>, i: int) -> Seq<char> {
    let u = name_field(b, i);
    utf16_lossy_of(u.subrange(0, first_zero(u, 0)))
}

/// Name given to entry `i` when its stored name is blank.
pub open spec fn placeholder_name(i: nat) -> Seq<char> {
    "outlook_message_"@ + decimal_spec(i) + ".eml"@
}

pub open spec fn descriptor_name_spec(b: Seq<u8>, i: int) -> Seq<char> {
    if is_blank_spec(stored_name(b, i)) {
        placeholder_name(i as nat)
    } else {
        stored_name(b, i)
    }
}

pub open spec fn descriptor_size_spec(b: Seq<u8>, i: int) -> Option<u64> {
    if le_u32_spec(b, entry_base(i)) & FD_FILESIZE != 0 {
        Some(
            (le_u32_spec(b, entry_base(i) + 64) as int * 4294967296 + le_u32_spec(
                b,
                entry_base(i) + 68,
            ) as int) as u64,
        )
    } else {
        None
    }
}

/// What entry `i` of a file-group descriptor describes.
pub open spec fn descriptor_matches(d: FileDescriptor, b: Seq<u8>, i: int) -> bool {
    &&& d.name@ == descriptor_name_spec(b, i)
    &&& d.index == i
    &&& d.expected_size == descriptor_size_spec(b, i)
    &&& extension_known(d.name@) ==> d.format@ == format_hint_spec(d.name@)
}

fn placeholder(index: usize) -> (r: String)
    ensures
        r@ == placeholder_name(index as nat),
{
    let mut r = String::from_str("outlook_message_");
    let digits = usize_to_decimal(index);
    r.append(digits.as_str());
    r.append(".eml");
    r
}

fn parse_entry(b: &[u8], i: usize) -> (r: FileDescriptor)
    requires
        entry_base(i as int) + FILE_DESCRIPTOR_SIZE <= b@.len(),
    ensures
        descriptor_matches(r, b@, i as int),
{
    let blen = b.len();
    let base = 4 + i * FILE_DESCRIPTOR_SIZE;
    let mut units: Vec<u16> = Vec::new();
    let mut k: usize = 0;
    while k < FILE_NAME_UNITS
        invariant
            base == entry_base(i as int),
            base + FILE_DESCRIPTOR_SIZE <= b@.len(),
            blen == b@.len(),
            k <= FILE_NAME_UNITS,
            units@.len() == k,
            forall|j: int| 0 <= j < k ==> units@[j] == name_field(b@, i as int)[j],
        decreases FILE_NAME_UNITS - k,
    {
        units.push(read_u16_le(b, base + FILE_NAME_OFFSET + 2 * k));
        k = k + 1;
    }
    assert(units@ =~= name_field(b@, i as int));
    let mut len: usize = 0;
    while len < FILE_NAME_UNITS && units[len] != 0
        invariant
            units@ == name_field(b@, i as int),
            len <= FILE_NAME_UNITS,
            first_zero(units@, 0) == first_zero(units@, len as int),
        decreases FILE_NAME_UNITS - len,
    {
        len = len + 1;
    }
    assert(first_zero(units@, len as int) == len);
    let prefix = copy_units(&units, 0, len);
    let stored = decode_utf16_lossy(prefix.as_slice());
    let name = if is_blank(stored.as_str()) {
        placeholder(i)
    } else {
        stored
    };
    let flags = read_u32_le(b, base);
    let expected_size = if flags & FD_FILESIZE != 0 {
        let high = read_u32_le(b, base + 64);
        let low = read_u32_le(b, base + 68);
        Some((high as u64) * 4294967296 + (low as u64))
    } else {
        None
    };
    let format = format_hint_for_name(name.as_str());
    FileDescriptor { name, format, index: i, expected_size }
}

/// Parses a file-group descriptor: a count followed by fixed-size entries.
/// Blank names are replaced by a placeholder, so that no entry is lost.
pub fn extract_file_descriptors(buffer: &[u8]) -> (r: NativeExtensionsResult<Vec<FileDescriptor>>)
    ensures
        match r {
            Ok(v) => descriptors_ok(buffer@) && v@.len() == descriptor_count(buffer@) && forall|
                i: int,
            |
                0 <= i < v@.len() ==> descriptor_matches(#[trigger] v@[i], buffer@, i),
            Err(e) => !descriptors_ok(buffer@) && e == NativeExtensionsError::InvalidData,
        },
{
    if buffer.len() < FILE_GROUP_DESCRIPTOR_SIZE {
        return Err(NativeExtensionsError::InvalidData);
    }
    let count = read_u32_le(buffer, 0);
    if count == 0 {
        return Ok(Vec::new());
    }
    let more = count as u64 - 1;
    assert(more * 592 <= 4294967295u64 * 592) by (nonlinear_arith)
        requires
            more <= 4294967295u64,
    ;
    if (buffer.len() as u64) < FILE_GROUP_DESCRIPTOR_SIZE as u64 + more
        * FILE_DESCRIPTOR_SIZE as u64 {
        return Err(NativeExtensionsError::InvalidData);
    }
    let n = count as usize;
    let mut res: Vec<FileDescriptor> = Vec::new();
    let mut i: usize = 0;
    while i < n
        invariant
            n == descriptor_count(buffer@),
            n >= 1,
            buffer@.len() >= FILE_GROUP_DESCRIPTOR_SIZE + (n - 1) * FILE_DESCRIPTOR_SIZE,
            i <= n,
            res@.len() == i,
            forall|j: int| 0 <= j < i ==> descriptor_matches(#[trigger] res@[j], buffer@, j),
        decreases n - i,
    {
        proof {
            assert(entry_base(i as int) + FILE_DESCRIPTOR_SIZE <= buffer@.len()) by (nonlinear_arith)
                requires
                    i < n,
                    buffer@.len() >= FILE_GROUP_DESCRIPTOR_SIZE + (n - 1) * FILE_DESCRIPTOR_SIZE,
                    FILE_GROUP_DESCRIPTOR_SIZE == 596,
                    FILE_DESCRIPTOR_SIZE == 592,
            {}
        }
        let d = parse_entry(buffer, i);
        res.push(d);
        i = i + 1;
    }
    Ok(res)
}


/// Paths joined as a dropped-file list stores them: each followed by `zero`,
/// and the list closed by one more `zero`.
pub open spec fn join_terminated<T>(paths: Seq<Seq<T>>, zero: T) -> Seq<T>
    decreases paths.len(),
{
    if paths.len() == 0 {
        seq![zero]
    } else {
        paths[0] + seq![zero] + join_terminated(paths.drop_first(), zero)
    }
}

/// Every path is non-empty and holds no `zero`.
pub open spec fn paths_well_formed<T>(paths: Seq<Seq<T>>, zero: T) -> bool {
    forall|i: int|
        0 <= i < paths.len() ==> (#[trigger] paths[i]).len() > 0 && forall|k: int|
            0 <= k < paths[i].len() ==> paths[i][k] != zero
}

/// Header of a dropped-file list whose paths follow it directly.
pub open spec fn drop_files_header(wide: bool) -> Seq<u8> {
    seq![20u8, 0, 0, 0, 0, 0, 0, 0, 0, 0, 0, 0, 0, 0, 0, 0, if wide { 1u8 } else { 0u8 }, 0, 0, 0]
}

/// UTF-16 code units stored little-endian.
pub open spec fn le_bytes(units: Seq<u16>) -> Seq<u8> {
    Seq::new(
        units.len() * 2,
        |j: int|
            if j % 2 == 0 {
                (units[j / 2] as int % 256) as u8
            } else {
                (units[j / 2] as int / 256) as u8
            },
    )
}

proof fn lemma_scan_run<T>(d: Seq<T>, zero: T, start: int, i: int, end: int)
    requires
        0 <= start <= i <= end < d.len(),
        forall|k: int| start <= k < end ==> d[k] != zero,
    ensures
        segments(d, zero, start, i) == segments(d, zero, start, end),
        segments_terminated(d, zero, start, i) == segments_terminated(d, zero, start, end),
    decreases end - i,
{
    if i < end {
        lemma_scan_run(d, zero, start, i + 1, end);
    }
}

proof fn lemma_segments_of_join<T>(d: Seq<T>, zero: T, off: int, paths: Seq<Seq<T>>)
    requires
        paths_well_formed(paths, zero),
        0 <= off,
        off + join_terminated(paths, zero).len() <= d.len(),
        forall|k: int|
            0 <= k < join_terminated(paths, zero).len() ==> d[off + k] == join_terminated(
                paths,
                zero,
            )[k],
    ensures
        segments(d, zero, off, off) == paths,
        segments_terminated(d, zero, off, off),
    decreases paths.len(),
{
    let j = join_terminated(paths, zero);
    if paths.len() == 0 {
        assert(d[off + 0] == j[0]);
        assert(segments(d, zero, off, off) =~= paths);
    } else {
        let p = paths[0];
        let rest = paths.drop_first();
        let jr = join_terminated(rest, zero);
        assert(j == p + seq![zero] + jr);
        let end = off + p.len();
        assert forall|k: int| off <= k < end implies d[k] != zero by {
            assert(d[off + (k - off)] == j[k - off]);
        }
        assert(d[off + p.len()] == j[p.len() as int]);
        lemma_scan_run(d, zero, off, off, end);
        assert(d.subrange(off, end) =~= p) by {
            assert forall|k: int| 0 <= k < p.len() implies d.subrange(off, end)[k] == p[k] by {
                assert(d[off + k] == j[k]);
            }
        }
        assert(paths_well_formed(rest, zero)) by {
            assert forall|i: int| 0 <= i < rest.len() implies (#[trigger] rest[i]).len() > 0
                && forall|k: int| 0 <= k < rest[i].len() ==> rest[i][k] != zero by {
                assert(rest[i] == paths[i + 1]);
            }
        }
        assert forall|k: int| 0 <= k < jr.len() implies d[(end + 1) + k] == jr[k] by {
            assert(d[off + (p.len() + 1 + k)] == j[p.len() + 1 + k]);
        }
        lemma_segments_of_join(d, zero, end + 1, rest);
        assert(segments(d, zero, off, off) =~= paths);
    }
}

proof fn lemma_units_of_le_bytes(units: Seq<u16>)
    ensures
        units_le(le_bytes(units)) == units,
{
    let b = le_bytes(units);
    assert forall|i: int| 0 <= i < units.len() implies #[trigger] units_le(b)[i] == units[i] by {
        assert((2 * i) % 2 == 0 && (2 * i) / 2 == i);
        assert((2 * i + 1) % 2 == 1 && (2 * i + 1) / 2 == i);
        let x = units[i] as int;
        lemma_fundamental_div_mod(x, 256);
        assert(0 <= x % 256 < 256);
        assert(0 <= x / 256 < 256);
    }
    assert(units_le(b) =~= units);
}

/// A dropped-file list built from well-formed paths (non-empty, without NUL)
/// parses back to exactly those paths, in order, each decoded; parsing
/// depends on the bytes alone, so parsing the same list again gives the same
/// paths.
pub proof fn lemma_drop_files_round_trip_narrow(paths: Seq<Seq<u8>>)
    requires
        paths_well_formed(paths, 0u8),
    ensures
        drop_files_spec(drop_files_header(false) + join_terminated(paths, 0u8)) == Some(
            paths.map_values(|s: Seq<u8>| utf8_lossy_of(s)),
        ),
{
    let h = drop_files_header(false);
    let j = join_terminated(paths, 0u8);
    let b = h + j;
    assert(le_u32_spec(b, 0) == 20);
    assert(le_u32_spec(b, 16) == 0);
    assert(drop_files_payload(b) =~= j);
    lemma_segments_of_join(j, 0u8, 0, paths);
}

/// The same law for a wide list: UTF-16 paths stored little-endian.
pub proof fn lemma_drop_files_round_trip_wide(paths: Seq<Seq<u16>>)
    requires
        paths_well_formed(paths, 0u16),
    ensures
        drop_files_spec(drop_files_header(true) + le_bytes(join_terminated(paths, 0u16))) == Some(
            paths.map_values(|s: Seq<u16>| utf16_lossy_of(s)),
        ),
{
    let h = drop_files_header(true);
    let j = join_terminated(paths, 0u16);
    let b = h + le_bytes(j);
    assert(le_u32_spec(b, 0) == 20);
    assert(le_u32_spec(b, 16) == 1);
    assert(drop_files_payload(b) =~= le_bytes(j));
    lemma_units_of_le_bytes(j);
    lemma_segments_of_join(j, 0u16, 0, paths);
}


/// `prefix` is the start of `d`.
pub open spec fn starts_with<T>(d: Seq<T>, prefix: Seq<T>) -> bool {
    prefix.len() <= d.len() && forall|k: int| 0 <= k < prefix.len() ==> d[k] == prefix[k]
}

/// Any narrow dropped-file list whose path list, at the offset its header
/// gives, starts with well-formed paths (non-empty, without NUL), each closed
/// by a NUL, and then an empty path, parses to exactly those paths in order,
/// each decoded; whatever else the header and the bytes before and after the
/// list hold.
pub proof fn lemma_drop_files_exact_narrow(b: Seq<u8>, paths: Seq<Seq<u8>>)
    requires
        paths_well_formed(paths, 0u8),
        b.len() >= DROPFILES_SIZE,
        drop_files_offset(b) <= b.len(),
        !drop_files_wide(b),
        starts_with(drop_files_payload(b), join_terminated(paths, 0u8)),
    ensures
        drop_files_spec(b) == Some(paths.map_values(|s: Seq<u8>| utf8_lossy_of(s))),
{
    let d = drop_files_payload(b);
    let j = join_terminated(paths, 0u8);
    assert forall|k: int| 0 <= k < j.len() implies d[0 + k] == j[k] by {}
    lemma_segments_of_join(d, 0u8, 0, paths);
}

/// The same law for a wide list: the path list, read as little-endian UTF-16
/// units, starts with the paths, each closed by a zero unit, and then an
/// empty path.
pub proof fn lemma_drop_files_exact_wide(b: Seq<u8>, paths: Seq<Seq<u16>>)
    requires
        paths_well_formed(paths, 0u16),
        b.len() >= DROPFILES_SIZE,
        drop_files_offset(b) <= b.len(),
        drop_files_wide(b),
        drop_files_payload(b).len() % 2 == 0,
        starts_with(units_le(drop_files_payload(b)), join_terminated(paths, 0u16)),
    ensures
        drop_files_spec(b) == Some(paths.map_values(|s: Seq<u16>| utf16_lossy_of(s))),
{
    let u = units_le(drop_files_payload(b));
    let j = join_terminated(paths, 0u16);
    assert forall|k: int| 0 <= k < j.len() implies u[0 + k] == j[k] by {}
    lemma_segments_of_join(u, 0u16, 0, paths);
}

} // verus!
