use vstd::prelude::*;

use crate::blob::{
    descriptor_matches, descriptors_ok, descriptor_count as blob_descriptor_count,
    extract_file_descriptors, DescriptorView, FileDescriptor,
};
use crate::error::{NativeExtensionsError, NativeExtensionsResult};
use crate::formats::{
    internal_format_name, internal_format_name_spec, CF_DIB, CF_DIBV5, CF_HDROP, TYMED_HGLOBAL,
    TYMED_ISTREAM,
};
use crate::formats::format_hint_spec;
use crate::text::{
    extension_known, file_name_known, last_component, contains_char, contains_char_spec, contains_spec, contains_str, ends_with_ignore_ascii_case,
    ends_with_ignore_case_spec, path_file_name, str_equal,
};

verus! {

/// A format the provider advertises, with the transfer media it offers it on.
pub struct FormatEntry {
    pub format: u32,
    pub tymed: u32,
}

/// A format the reader can consume, with its name.
pub struct ClipboardFormat {
    pub id: u32,
    pub name: String,
}

/// Keeps the formats offered on a global buffer or a stream, the two media
/// the reader consumes, in the order the provider gave them.
pub open spec fn consumable_formats(entries: Seq<FormatEntry>) -> Seq<u32>
    decreases entries.len(),
{
    if entries.len() == 0 {
        Seq::empty()
    } else {
        let rest = consumable_formats(entries.drop_last());
        let e = entries.last();
        if e.tymed & TYMED_HGLOBAL != 0 || e.tymed & TYMED_ISTREAM != 0 {
            rest.push(e.format)
        } else {
            rest
        }
    }
}

pub fn filter_consumable_formats(entries: &Vec<FormatEntry>) -> (r: Vec<u32>)
    ensures
        r@ == consumable_formats(entries@),
{
    let mut r: Vec<u32> = Vec::new();
    let mut i: usize = 0;
    while i < entries.len()
        invariant
            i <= entries@.len(),
            r@ == consumable_formats(entries@.subrange(0, i as int)),
        decreases entries@.len() - i,
    {
        let e = &entries[i];
        assert(entries@.subrange(0, i + 1).drop_last() =~= entries@.subrange(0, i as int));
        if e.tymed & TYMED_HGLOBAL != 0 || e.tymed & TYMED_ISTREAM != 0 {
            r.push(e.format);
        }
        i = i + 1;
    }
    assert(entries@.subrange(0, i as int) =~= entries@);
    r
}

/// What a reader knows about the provider's data: each part is filled once,
/// when first needed, and kept for the reader's lifetime.
pub ghost struct ReaderView {
    /// Number of the registered portable image format.
    pub png_format: u32,
    pub supports_async: bool,
    /// Consumable formats and their names.
    pub formats_raw: Option<Seq<(u32, Seq<char>)>>,
    /// Virtual-file descriptors, if the provider offers any.
    pub descriptors: Option<Option<Seq<DescriptorView>>>,
    /// Dropped-file paths, if the provider offers any.
    pub hdrop: Option<Option<Seq<Seq<char>>>>,
}

/// The resolver that turns the provider's formats, descriptors and dropped
/// files into a list of logical items.
pub struct PlatformDataReader {
    png_format: u32,
    supports_async: bool,
    formats_raw: Option<Vec<ClipboardFormat>>,
    file_descriptors: Option<Option<Vec<FileDescriptor>>>,
    hdrop: Option<Option<Vec<String>>>,
}

pub open spec fn format_views(v: Seq<ClipboardFormat>) -> Seq<(u32, Seq<char>)> {
    v.map_values(|f: ClipboardFormat| (f.id, f.name@))
}

pub open spec fn descriptor_views(v: Seq<FileDescriptor>) -> Seq<DescriptorView> {
    v.map_values(|d: FileDescriptor| d@)
}

pub open spec fn string_views(v: Seq<String>) -> Seq<Seq<char>> {
    v.map_values(|s: String| s@)
}

impl View for PlatformDataReader {
    type V = ReaderView;

    closed spec fn view(&self) -> ReaderView {
        ReaderView {
            png_format: self.png_format,
            supports_async: self.supports_async,
            formats_raw: match self.formats_raw {
                Some(f) => Some(format_views(f@)),
                None => None,
            },
            descriptors: match self.file_descriptors {
                Some(Some(d)) => Some(Some(descriptor_views(d@))),
                Some(None) => Some(None),
                None => None,
            },
            hdrop: match self.hdrop {
                Some(Some(h)) => Some(Some(string_views(h@))),
                Some(None) => Some(None),
                None => None,
            },
        }
    }
}

/// All three parts are known.
pub open spec fn loaded(v: ReaderView) -> bool {
    v.formats_raw is Some && v.descriptors is Some && v.hdrop is Some
}

pub open spec fn raw_ids(v: ReaderView) -> Seq<u32> {
    v.formats_raw.unwrap().map_values(|f: (u32, Seq<char>)| f.0)
}

pub open spec fn raw_names(v: ReaderView) -> Seq<Seq<char>> {
    v.formats_raw.unwrap().map_values(|f: (u32, Seq<char>)| f.1)
}

/// A raw bitmap is offered and the portable image format is not.
pub open spec fn need_png_spec(v: ReaderView) -> bool {
    (raw_ids(v).contains(CF_DIBV5) || raw_ids(v).contains(CF_DIB)) && !raw_ids(v).contains(
        v.png_format,
    )
}

/// The formats the reader advertises: the consumable ones, plus the portable
/// image format when it is synthesized.
pub open spec fn formats_spec(v: ReaderView) -> Seq<u32> {
    if need_png_spec(v) {
        raw_ids(v).push(v.png_format)
    } else {
        raw_ids(v)
    }
}

pub open spec fn descriptor_len(v: ReaderView) -> nat {
    match v.descriptors {
        Some(Some(d)) => d.len(),
        _ => 0,
    }
}

pub open spec fn hdrop_len(v: ReaderView) -> nat {
    match v.hdrop {
        Some(Some(h)) => h.len(),
        _ => 0,
    }
}

/// Number of items: the longer of the descriptor and dropped-file lists, else
/// one item for the whole payload when any format is offered, else none.
pub open spec fn item_count_spec(v: ReaderView) -> nat {
    let m = if descriptor_len(v) >= hdrop_len(v) {
        descriptor_len(v)
    } else {
        hdrop_len(v)
    };
    if m > 0 {
        m
    } else if formats_spec(v).len() > 0 {
        1
    } else {
        0
    }
}

/// Names of the advertised formats, in the same order.
pub open spec fn format_names_spec(v: ReaderView) -> Seq<Seq<char>> {
    if need_png_spec(v) {
        raw_names(v).push("PNG"@)
    } else {
        raw_names(v)
    }
}

pub open spec fn descriptor_for_spec(v: ReaderView, item: i64) -> Option<DescriptorView> {
    match v.descriptors {
        Some(Some(d)) => if 0 <= item < d.len() {
            Some(d[item as int])
        } else {
            None
        },
        _ => None,
    }
}

pub open spec fn hdrop_for_spec(v: ReaderView, item: i64) -> Option<Seq<char>> {
    match v.hdrop {
        Some(Some(h)) => if 0 <= item < h.len() {
            Some(h[item as int])
        } else {
            None
        },
        _ => None,
    }
}

/// Formats of an item: item 0 has every advertised format, the other dropped
/// files have the dropped-file format, and an item backed by a virtual file
/// has that file's format first.
pub open spec fn formats_for_item_spec(v: ReaderView, item: i64) -> Seq<Seq<char>> {
    let base = if item == 0 {
        format_names_spec(v)
    } else if item > 0 && item < hdrop_len(v) {
        seq![internal_format_name_spec(CF_HDROP as nat)]
    } else {
        Seq::empty()
    };
    match descriptor_for_spec(v, item) {
        Some(d) => seq![d.format] + base,
        None => base,
    }
}

/// Some advertised format's name contains `pat`.
pub open spec fn any_name_contains(v: ReaderView, pat: Seq<char>) -> bool {
    exists|i: int| 0 <= i < raw_names(v).len() && contains_spec(#[trigger] raw_names(v)[i], pat)
}

/// The advertised formats suggest a mail message.
pub open spec fn probably_outlook_spec(v: ReaderView) -> bool {
    any_name_contains(v, "FileGroupDescriptor"@) || any_name_contains(v, "RenPrivateMessages"@)
        || any_name_contains(v, "FileContents"@) || any_name_contains(v, "message/rfc822"@)
        || any_name_contains(v, "application/vnd.ms-outlook"@)
}

/// The advertised formats come from a web browser.
pub open spec fn chromium_spec(v: ReaderView) -> bool {
    any_name_contains(v, "Chromium"@) || any_name_contains(v, "chromium"@)
}

/// A virtual file's name, given the mail-message extension when the data is
/// probably a mail message and the name has no extension.
pub open spec fn adjusted_name_spec(name: Seq<char>, outlook: bool) -> Seq<char> {
    if outlook && !ends_with_ignore_case_spec(name, ".msg"@) && !ends_with_ignore_case_spec(
        name,
        ".eml"@,
    ) && !contains_char_spec(name, '.') {
        name + ".msg"@
    } else {
        name
    }
}

/// Name suggested for an item that has neither a descriptor nor a dropped file.
pub open spec fn fallback_name_spec(v: ReaderView, has_file_contents: bool) -> Seq<char> {
    if probably_outlook_spec(v) {
        "outlook_message.msg"@
    } else if chromium_spec(v) {
        "outlook_email.msg"@
    } else if any_name_contains(v, "FILECONTENTS"@) {
        if any_name_contains(v, "RenPrivateMessages"@) || any_name_contains(v, "CF_HDROP"@)
            || any_name_contains(v, "FileGroupDescriptor"@) {
            "outlook_message.msg"@
        } else {
            "outlook_email.msg"@
        }
    } else if has_file_contents {
        "outlook_email.msg"@
    } else if any_name_contains(v, "PNG"@) || any_name_contains(v, "JFIF"@) || any_name_contains(
        v,
        "GIF"@,
    ) {
        "image.tmp"@
    } else if any_name_contains(v, "TEXT"@) || any_name_contains(v, "Unicode"@) {
        "text_content.txt"@
    } else {
        "outlook_email.msg"@
    }
}

/// The descriptor made up for file contents offered without descriptors.
pub open spec fn orphan_descriptor_spec(v: ReaderView) -> DescriptorView {
    let (name, format) = if probably_outlook_spec(v) {
        ("outlook_message.eml"@, "message/rfc822"@)
    } else if chromium_spec(v) {
        ("web_download.tmp"@, "application/octet-stream"@)
    } else {
        ("attachment.tmp"@, "application/octet-stream"@)
    };
    DescriptorView { name, format, index: 0, expected_size: None }
}

/// How the data of one item in one format is obtained.
pub enum DataRoute {
    /// The item's dropped-file path, if it has one.
    DroppedFile(Option<String>),
    /// The portable image is converted from the offered bitmap.
    SynthesizedPng,
    /// The provider is asked for the format directly.
    Direct(u32),
    /// Nothing is offered in that format (it may be a virtual file).
    Unavailable,
}

impl PlatformDataReader {
    /// A reader that knows nothing yet; `png_format` is the number of the
    /// registered portable image format.
    pub fn new(png_format: u32) -> (r: Self)
        ensures
            r@ == (ReaderView {
                png_format,
                supports_async: false,
                formats_raw: None,
                descriptors: None,
                hdrop: None,
            }),
    {
        PlatformDataReader {
            png_format,
            supports_async: false,
            formats_raw: None,
            file_descriptors: None,
            hdrop: None,
        }
    }

    /// Marks the provider as supporting deferred completion.
    pub fn set_supports_async(&mut self)
        ensures
            final(self)@ == (ReaderView { supports_async: true, ..old(self)@ }),
    {
        self.supports_async = true;
    }

    pub fn supports_async(&self) -> (r: bool)
        ensures
            r == self@.supports_async,
    {
        self.supports_async
    }

    pub fn png_format(&self) -> (r: u32)
        ensures
            r == self@.png_format,
    {
        self.png_format
    }

    pub fn formats_known(&self) -> (r: bool)
        ensures
            r == self@.formats_raw is Some,
    {
        self.formats_raw.is_some()
    }

    pub fn descriptors_known(&self) -> (r: bool)
        ensures
            r == self@.descriptors is Some,
    {
        self.file_descriptors.is_some()
    }

    pub fn hdrop_known(&self) -> (r: bool)
        ensures
            r == self@.hdrop is Some,
    {
        self.hdrop.is_some()
    }

    /// Records the consumable formats, unless they are known already.
    pub fn set_formats_raw(&mut self, formats: Vec<ClipboardFormat>)
        ensures
            final(self)@ == (if old(self)@.formats_raw is None {
                ReaderView { formats_raw: Some(format_views(formats@)), ..old(self)@ }
            } else {
                old(self)@
            }),
    {
        if self.formats_raw.is_none() {
            self.formats_raw = Some(formats);
        }
    }

    /// Records the virtual-file descriptors, unless they are known already.
    pub fn set_file_descriptors(&mut self, descriptors: Option<Vec<FileDescriptor>>)
        ensures
            final(self)@ == (if old(self)@.descriptors is None {
                ReaderView {
                    descriptors: Some(
                        match descriptors {
                            Some(d) => Some(descriptor_views(d@)),
                            None => None,
                        },
                    ),
                    ..old(self)@
                }
            } else {
                old(self)@
            }),
    {
        if self.file_descriptors.is_none() {
            self.file_descriptors = Some(descriptors);
        }
    }

    /// Records the dropped-file paths, unless they are known already.
    pub fn set_hdrop(&mut self, hdrop: Option<Vec<String>>)
        ensures
            final(self)@ == (if old(self)@.hdrop is None {
                ReaderView {
                    hdrop: Some(
                        match hdrop {
                            Some(h) => Some(string_views(h@)),
                            None => None,
                        },
                    ),
                    ..old(self)@
                }
            } else {
                old(self)@
            }),
    {
        if self.hdrop.is_none() {
            self.hdrop = Some(hdrop);
        }
    }

    fn raw_contains(&self, format: u32) -> (r: bool)
        requires
            self@.formats_raw is Some,
        ensures
            r == raw_ids(self@).contains(format),
    {
        let f = self.formats_raw.as_ref().unwrap();
        let mut i: usize = 0;
        while i < f.len()
            invariant
                self.formats_raw == Some(*f),
                i <= f@.len(),
                forall|j: int| 0 <= j < i ==> f@[j].id != format,
            decreases f@.len() - i,
        {
            if f[i].id == format {
                assert(raw_ids(self@)[i as int] == format);
                return true;
            }
            i = i + 1;
        }
        assert forall|j: int| 0 <= j < raw_ids(self@).len() implies raw_ids(self@)[j] != format by {
            assert(raw_ids(self@)[j] == f@[j].id);
        }
        false
    }

    /// Whether the portable image format must be synthesized from a bitmap.
    pub fn need_to_synthesize_png(&self) -> (r: bool)
        requires
            self@.formats_raw is Some,
        ensures
            r == need_png_spec(self@),
    {
        (self.raw_contains(CF_DIBV5) || self.raw_contains(CF_DIB)) && !self.raw_contains(
            self.png_format,
        )
    }

    /// The formats the reader advertises.
    pub fn data_object_formats(&self) -> (r: Vec<u32>)
        requires
            self@.formats_raw is Some,
        ensures
            r@ == formats_spec(self@),
    {
        let f = self.formats_raw.as_ref().unwrap();
        let mut r: Vec<u32> = Vec::new();
        let mut i: usize = 0;
        while i < f.len()
            invariant
                self.formats_raw == Some(*f),
                i <= f@.len(),
                r@ == raw_ids(self@).subrange(0, i as int),
            decreases f@.len() - i,
        {
            r.push(f[i].id);
            i = i + 1;
            assert(r@ =~= raw_ids(self@).subrange(0, i as int));
        }
        assert(raw_ids(self@).subrange(0, i as int) =~= raw_ids(self@));
        if self.need_to_synthesize_png() {
            r.push(self.png_format);
        }
        r
    }

    fn descriptor_count(&self) -> (r: usize)
        ensures
            r == descriptor_len(self@),
    {
        match &self.file_descriptors {
            Some(Some(d)) => d.len(),
            _ => 0,
        }
    }

    fn hdrop_count(&self) -> (r: usize)
        ensures
            r == hdrop_len(self@),
    {
        match &self.hdrop {
            Some(Some(h)) => h.len(),
            _ => 0,
        }
    }

    /// Number of logical items.
    pub fn item_count(&self) -> (r: usize)
        requires
            loaded(self@),
        ensures
            r == item_count_spec(self@),
    {
        let d = self.descriptor_count();
        let h = self.hdrop_count();
        let m = if d >= h {
            d
        } else {
            h
        };
        if m > 0 {
            m
        } else if self.data_object_formats().len() > 0 {
            1
        } else {
            0
        }
    }

    /// The item numbers, from 0 up to the item count.
    pub fn get_items_sync(&self) -> (r: Vec<i64>)
        requires
            loaded(self@),
        ensures
            r@.len() == item_count_spec(self@),
            forall|i: int| 0 <= i < r@.len() ==> r@[i] == i as i64,
    {
        let n = self.item_count();
        let mut r: Vec<i64> = Vec::new();
        let mut i: usize = 0;
        while i < n
            invariant
                n == item_count_spec(self@),
                i <= n,
                r@.len() == i,
                forall|j: int| 0 <= j < i ==> r@[j] == j as i64,
            decreases n - i,
        {
            r.push(i as i64);
            i = i + 1;
        }
        r
    }

    /// Names of the advertised formats.
    pub fn format_names(&self) -> (r: Vec<String>)
        requires
            self@.formats_raw is Some,
        ensures
            string_views(r@) == format_names_spec(self@),
    {
        let f = self.formats_raw.as_ref().unwrap();
        let ghost names = raw_names(self@);
        let mut r: Vec<String> = Vec::new();
        let mut i: usize = 0;
        while i < f.len()
            invariant
                self.formats_raw == Some(*f),
                names == raw_names(self@),
                names.len() == f@.len(),
                i <= f@.len(),
                r@.len() == i,
                forall|j: int| 0 <= j < i ==> (#[trigger] r@[j])@ == names[j],
            decreases f@.len() - i,
        {
            assert(names[i as int] == f@[i as int].name@);
            r.push(String::from_str(f[i].name.as_str()));
            i = i + 1;
        }
        assert(string_views(r@) =~= names);
        if self.need_to_synthesize_png() {
            r.push(String::from_str("PNG"));
            assert(string_views(r@) =~= format_names_spec(self@));
        }
        r
    }

    /// The virtual-file descriptor of an item, if it has one.
    pub fn descriptor_for_item(&self, item: i64) -> (r: Option<FileDescriptor>)
        ensures
            match r {
                Some(d) => descriptor_for_spec(self@, item) == Some(d@),
                None => descriptor_for_spec(self@, item) is None,
            },
    {
        match &self.file_descriptors {
            Some(Some(d)) => {
                if 0 <= item && (item as u64) < (d.len() as u64) {
                    let r = d[item as usize].copy();
                    assert(descriptor_views(d@)[item as int] == d@[item as int]@);
                    Some(r)
                } else {
                    None
                }
            },
            _ => None,
        }
    }

    /// The descriptor of an item that is a virtual file; an error otherwise.
    pub fn descriptor_for_virtual_file(&self, item: i64) -> (r: NativeExtensionsResult<
        FileDescriptor,
    >)
        ensures
            match r {
                Ok(d) => descriptor_for_spec(self@, item) == Some(d@),
                Err(e) => descriptor_for_spec(self@, item) is None && e is VirtualFileReceiveError,
            },
    {
        match self.descriptor_for_item(item) {
            Some(d) => Ok(d),
            None => Err(
                NativeExtensionsError::VirtualFileReceiveError(String::from_str("item not found")),
            ),
        }
    }

    /// The dropped-file path of an item, if it has one.
    pub fn hdrop_for_item(&self, item: i64) -> (r: Option<String>)
        ensures
            match r {
                Some(p) => hdrop_for_spec(self@, item) == Some(p@),
                None => hdrop_for_spec(self@, item) is None,
            },
    {
        match &self.hdrop {
            Some(Some(h)) => {
                if 0 <= item && (item as u64) < (h.len() as u64) {
                    assert(string_views(h@)[item as int] == h@[item as int]@);
                    Some(String::from_str(h[item as usize].as_str()))
                } else {
                    None
                }
            },
            _ => None,
        }
    }

    /// The formats of one item, virtual-file format first.
    pub fn get_formats_for_item_sync(&self, item: i64) -> (r: Vec<String>)
        requires
            loaded(self@),
        ensures
            string_views(r@) == formats_for_item_spec(self@, item),
    {
        let base = if item == 0 {
            self.format_names()
        } else if item > 0 && (item as u64) < (self.hdrop_count() as u64) {
            let mut v: Vec<String> = Vec::new();
            v.push(internal_format_name(CF_HDROP));
            assert(string_views(v@) =~= seq![internal_format_name_spec(CF_HDROP as nat)]);
            v
        } else {
            let v: Vec<String> = Vec::new();
            assert(string_views(v@) =~= Seq::<Seq<char>>::empty());
            v
        };
        match self.descriptor_for_item(item) {
            Some(d) => {
                let mut r: Vec<String> = Vec::new();
                r.push(d.format);
                let mut i: usize = 0;
                while i < base.len()
                    invariant
                        i <= base@.len(),
                        r@.len() == i + 1,
                        r@[0]@ == d@.format,
                        forall|j: int| 0 <= j < i ==> r@[j + 1]@ == base@[j]@,
                    decreases base@.len() - i,
                {
                    r.push(String::from_str(base[i].as_str()));
                    i = i + 1;
                }
                assert(string_views(r@) =~= seq![d@.format] + string_views(base@));
                r
            },
            None => base,
        }
    }

    /// Whether `format` is produced by conversion rather than transferred.
    pub fn item_format_is_synthesized(&self, item: i64, format: &str) -> (r: bool)
        requires
            self@.formats_raw is Some,
        ensures
            r == (format@ == "PNG"@ && need_png_spec(self@)),
    {
        str_equal(format, "PNG") && self.need_to_synthesize_png()
    }

    /// Whether the item is a virtual file offered in `format`.
    pub fn can_copy_virtual_file_for_item(&self, item: i64, format: &str) -> (r: bool)
        ensures
            r == match descriptor_for_spec(self@, item) {
                Some(d) => d.format == format@,
                None => false,
            },
    {
        match self.descriptor_for_item(item) {
            Some(d) => str_equal(d.format.as_str(), format),
            None => false,
        }
    }

    /// Whether the item is a virtual file offered in `format`.
    pub fn can_read_virtual_file_for_item(&self, item: i64, format: &str) -> (r: bool)
        ensures
            r == match descriptor_for_spec(self@, item) {
                Some(d) => d.format == format@,
                None => false,
            },
    {
        self.can_copy_virtual_file_for_item(item, format)
    }

    fn any_name_contains(&self, pat: &str) -> (r: bool)
        requires
            self@.formats_raw is Some,
        ensures
            r == any_name_contains(self@, pat@),
    {
        let f = self.formats_raw.as_ref().unwrap();
        let mut i: usize = 0;
        while i < f.len()
            invariant
                self.formats_raw == Some(*f),
                i <= f@.len(),
                forall|j: int| 0 <= j < i ==> !contains_spec(raw_names(self@)[j], pat@),
            decreases f@.len() - i,
        {
            assert(raw_names(self@)[i as int] == f@[i as int].name@);
            if contains_str(f[i].name.as_str(), pat) {
                return true;
            }
            i = i + 1;
        }
        false
    }

    /// Whether the advertised formats suggest a mail message.
    pub fn probably_outlook_message(&self) -> (r: bool)
        requires
            self@.formats_raw is Some,
        ensures
            r == probably_outlook_spec(self@),
    {
        self.any_name_contains("FileGroupDescriptor") || self.any_name_contains(
            "RenPrivateMessages",
        ) || self.any_name_contains("FileContents") || self.any_name_contains("message/rfc822")
            || self.any_name_contains("application/vnd.ms-outlook")
    }

    fn is_chromium(&self) -> (r: bool)
        requires
            self@.formats_raw is Some,
        ensures
            r == chromium_spec(self@),
    {
        self.any_name_contains("Chromium") || self.any_name_contains("chromium")
    }

    /// Name for an item without descriptor or dropped file, guessed from the
    /// advertised formats and from whether file contents are offered.
    pub fn fallback_name(&self, has_file_contents: bool) -> (r: String)
        requires
            self@.formats_raw is Some,
        ensures
            r@ == fallback_name_spec(self@, has_file_contents),
    {
        if self.probably_outlook_message() {
            String::from_str("outlook_message.msg")
        } else if self.is_chromium() {
            String::from_str("outlook_email.msg")
        } else if self.any_name_contains("FILECONTENTS") {
            if self.any_name_contains("RenPrivateMessages") || self.any_name_contains("CF_HDROP")
                || self.any_name_contains("FileGroupDescriptor") {
                String::from_str("outlook_message.msg")
            } else {
                String::from_str("outlook_email.msg")
            }
        } else if has_file_contents {
            String::from_str("outlook_email.msg")
        } else if self.any_name_contains("PNG") || self.any_name_contains("JFIF")
            || self.any_name_contains("GIF") {
            String::from_str("image.tmp")
        } else if self.any_name_contains("TEXT") || self.any_name_contains("Unicode") {
            String::from_str("text_content.txt")
        } else {
            String::from_str("outlook_email.msg")
        }
    }

    /// Suggested file name of an item: the virtual file's name, else the
    /// dropped file's base name, else a name guessed from the formats.
    pub fn get_suggested_name_for_item(&self, item: i64, has_file_contents: bool) -> (r: Option<
        String,
    >)
        requires
            self@.formats_raw is Some,
        ensures
            match descriptor_for_spec(self@, item) {
                Some(d) => r matches Some(n) && n@ == adjusted_name_spec(
                    d.name,
                    probably_outlook_spec(self@),
                ),
                None => match hdrop_for_spec(self@, item) {
                    Some(p) => {
                        &&& r matches Some(n) ==> n@.len() > 0
                        &&& file_name_known(p) ==> (r matches Some(n) && n@ == last_component(p))
                    },
                    None => r matches Some(n) && n@ == fallback_name_spec(
                        self@,
                        has_file_contents,
                    ),
                },
            },
    {
        if let Some(d) = self.descriptor_for_item(item) {
            let mut name = d.name;
            if self.probably_outlook_message() && !ends_with_ignore_ascii_case(
                name.as_str(),
                ".msg",
            ) && !ends_with_ignore_ascii_case(name.as_str(), ".eml") && !contains_char(
                name.as_str(),
                '.',
            ) {
                name.append(".msg");
            }
            return Some(name);
        }
        if let Some(path) = self.hdrop_for_item(item) {
            return path_file_name(path.as_str());
        }
        Some(self.fallback_name(has_file_contents))
    }

    /// The descriptors of the provider's data: those of the descriptor blob,
    /// if one was obtained; else, when file contents are offered without
    /// descriptors, one made-up descriptor so that the contents are not lost.
    pub fn resolve_file_descriptors(&self, blob: Option<&[u8]>, has_file_contents: bool) -> (r:
        NativeExtensionsResult<Option<Vec<FileDescriptor>>>)
        requires
            self@.formats_raw is Some,
        ensures
            match blob {
                Some(b) => match r {
                    Ok(Some(v)) => descriptors_ok(b@) && v@.len() == blob_descriptor_count(b@)
                        && forall|i: int|
                        0 <= i < v@.len() ==> descriptor_matches(#[trigger] v@[i], b@, i),
                    Ok(None) => false,
                    Err(e) => !descriptors_ok(b@) && e == NativeExtensionsError::InvalidData,
                },
                None => if has_file_contents {
                    r matches Ok(Some(v)) && v@.len() == 1 && v@[0]@ == orphan_descriptor_spec(
                        self@,
                    )
                } else {
                    r matches Ok(None)
                },
            },
    {
        match blob {
            Some(b) => match extract_file_descriptors(b) {
                Ok(v) => Ok(Some(v)),
                Err(e) => Err(e),
            },
            None => {
                if !has_file_contents {
                    return Ok(None);
                }
                let outlook = self.probably_outlook_message();
                let chromium = self.is_chromium();
                let (name, format) = if outlook {
                    (String::from_str("outlook_message.eml"), String::from_str("message/rfc822"))
                } else if chromium {
                    (
                        String::from_str("web_download.tmp"),
                        String::from_str("application/octet-stream"),
                    )
                } else {
                    (
                        String::from_str("attachment.tmp"),
                        String::from_str("application/octet-stream"),
                    )
                };
                let mut v: Vec<FileDescriptor> = Vec::new();
                v.push(FileDescriptor { name, format, index: 0, expected_size: None });
                Ok(Some(v))
            },
        }
    }

    /// Format hint of an item's dropped file, if it has one.
    pub fn get_item_format_for_uri(&self, item: i64) -> (r: Option<String>)
        ensures
            r is Some <==> hdrop_for_spec(self@, item) is Some,
            match (hdrop_for_spec(self@, item), r) {
                (Some(p), Some(f)) => extension_known(p) ==> f@ == format_hint_spec(p),
                _ => true,
            },
    {
        match self.hdrop_for_item(item) {
            Some(path) => Some(crate::formats::format_hint_for_name(path.as_str())),
            None => None,
        }
    }

    /// How the data of `item` in `format` is obtained.
    pub fn data_route(&self, item: i64, format: u32) -> (r: DataRoute)
        requires
            self@.formats_raw is Some,
        ensures
            if format == CF_HDROP {
                r matches DataRoute::DroppedFile(p) && match p {
                    Some(p) => hdrop_for_spec(self@, item) == Some(p@),
                    None => hdrop_for_spec(self@, item) is None,
                }
            } else if format == self@.png_format && need_png_spec(self@) {
                r is SynthesizedPng
            } else if formats_spec(self@).contains(format) {
                r matches DataRoute::Direct(f) && f == format
            } else {
                r is Unavailable
            },
    {
        if format == CF_HDROP {
            DataRoute::DroppedFile(self.hdrop_for_item(item))
        } else if format == self.png_format && self.need_to_synthesize_png() {
            DataRoute::SynthesizedPng
        } else {
            let formats = self.data_object_formats();
            let mut i: usize = 0;
            while i < formats.len()
                invariant
                    formats@ == formats_spec(self@),
                    format != CF_HDROP,
                    !(format == self@.png_format && need_png_spec(self@)),
                    i <= formats@.len(),
                    forall|j: int| 0 <= j < i ==> formats@[j] != format,
                decreases formats@.len() - i,
            {
                if formats[i] == format {
                    assert(formats_spec(self@)[i as int] == format);
                    assert(formats_spec(self@).contains(format));
                    return DataRoute::Direct(format);
                }
                i = i + 1;
            }
            DataRoute::Unavailable
        }
    }

    /// The bitmap format a portable image is converted from: the version 5
    /// bitmap (which keeps alpha) when offered, else the plain one.
    pub fn png_source_format(&self) -> (r: Option<u32>)
        requires
            self@.formats_raw is Some,
        ensures
            r == (if formats_spec(self@).contains(CF_DIBV5) {
                Some(CF_DIBV5)
            } else if formats_spec(self@).contains(CF_DIB) {
                Some(CF_DIB)
            } else {
                None::<u32>
            }),
    {
        let formats = self.data_object_formats();
        let mut has_v5 = false;
        let mut has_dib = false;
        let mut i: usize = 0;
        while i < formats.len()
            invariant
                formats@ == formats_spec(self@),
                i <= formats@.len(),
                has_v5 == exists|j: int| 0 <= j < i && formats@[j] == CF_DIBV5,
                has_dib == exists|j: int| 0 <= j < i && formats@[j] == CF_DIB,
            decreases formats@.len() - i,
        {
            if formats[i] == CF_DIBV5 {
                has_v5 = true;
            }
            if formats[i] == CF_DIB {
                has_dib = true;
            }
            i = i + 1;
        }
        if has_v5 {
            Some(CF_DIBV5)
        } else if has_dib {
            Some(CF_DIB)
        } else {
            None
        }
    }
}


/// Item count in the words of the law: the longer list, else one item when
/// any raw format is offered, else none.
pub proof fn lemma_item_count(v: ReaderView)
    requires
        loaded(v),
    ensures
        item_count_spec(v) == ({
            let m = if descriptor_len(v) >= hdrop_len(v) {
                descriptor_len(v)
            } else {
                hdrop_len(v)
            };
            if m > 0 {
                m
            } else if raw_ids(v).len() > 0 {
                1
            } else {
                0
            }
        }),
{
    if raw_ids(v).len() == 0 {
        assert(!raw_ids(v).contains(CF_DIBV5));
        assert(!raw_ids(v).contains(CF_DIB));
    }
}

/// Little-endian bytes of a 32-bit value.
pub open spec fn le32_bytes(x: u32) -> Seq<u8> {
    seq![
        (x as int % 256) as u8,
        (x as int / 256 % 256) as u8,
        (x as int / 65536 % 256) as u8,
        (x as int / 16777216 % 256) as u8,
    ]
}

/// A bitmap file made from a device-independent bitmap: the file signature,
/// the total size (truncated to 32 bits), two reserved words and a zero data
/// offset, then the bitmap itself.
pub open spec fn bmp_file_spec(dib: Seq<u8>) -> Seq<u8> {
    seq![0x42u8, 0x4d] + le32_bytes(((dib.len() % 4294967296 + 14) % 4294967296) as u32) + seq![
        0u8,
        0,
        0,
        0,
        0,
        0,
        0,
        0,
    ] + dib
}

pub fn bmp_file_from_dib(dib: &[u8]) -> (r: Vec<u8>)
    ensures
        r@ == bmp_file_spec(dib@),
{
    let size = ((dib.len() as u64 % 4294967296 + 14) % 4294967296) as u32;
    let mut r: Vec<u8> = Vec::new();
    r.push(0x42);
    r.push(0x4d);
    r.push((size % 256) as u8);
    r.push((size / 256 % 256) as u8);
    r.push((size / 65536 % 256) as u8);
    r.push((size / 16777216 % 256) as u8);
    let mut k: usize = 0;
    while k < 8
        invariant
            k <= 8,
            r@.len() == 6 + k,
            r@.subrange(0, 6) == seq![0x42u8, 0x4d] + le32_bytes(size),
            forall|j: int| 6 <= j < 6 + k ==> r@[j] == 0,
        decreases 8 - k,
    {
        let ghost prev = r@;
        r.push(0);
        k = k + 1;
        assert(r@.subrange(0, 6) =~= prev.subrange(0, 6));
    }
    let ghost header = r@;
    let mut i: usize = 0;
    while i < dib.len()
        invariant
            header.len() == 14,
            i <= dib@.len(),
            r@ == header + dib@.subrange(0, i as int),
        decreases dib@.len() - i,
    {
        r.push(dib[i]);
        i = i + 1;
        assert(r@ =~= header + dib@.subrange(0, i as int));
    }
    assert(dib@.subrange(0, i as int) =~= dib@);
    assert(header =~= seq![0x42u8, 0x4d] + le32_bytes(size) + seq![0u8, 0, 0, 0, 0, 0, 0, 0]);
    r
}

/// Index of the first pair of zero bytes among the two-byte units of `d`
/// from unit `k` on, or `None`.
pub open spec fn first_zero_pair(d: Seq<u8>, k: int) -> Option<int>
    decreases d.len() - 2 * k,
{
    if k < 0 || 2 * k + 2 > d.len() {
        None
    } else if d[2 * k] == 0 && d[2 * k + 1] == 0 {
        Some(k)
    } else {
        first_zero_pair(d, k + 1)
    }
}

/// UTF-16 text that may carry a terminator: cut at the first zero unit.
pub open spec fn unicode_text_spec(d: Seq<u8>) -> Seq<u8> {
    match first_zero_pair(d, 0) {
        Some(k) => d.subrange(0, 2 * k),
        None => d,
    }
}

pub fn truncate_unicode_text(data: &mut Vec<u8>)
    ensures
        final(data)@ == unicode_text_spec(old(data)@),
{
    let n = data.len();
    let mut k: usize = 0;
    while k < n / 2
        invariant
            n == data@.len(),
            data@ == old(data)@,
            k <= n / 2,
            first_zero_pair(data@, 0) == first_zero_pair(data@, k as int),
        decreases n / 2 - k,
    {
        if data[2 * k] == 0 && data[2 * k + 1] == 0 {
            data.truncate(2 * k);
            return;
        }
        k = k + 1;
    }
    assert(first_zero_pair(data@, k as int) is None);
}

} // verus!
