use vstd::prelude::*;

use crate::data_reader::{consumable_formats, filter_consumable_formats, FormatEntry};
use crate::error::{NativeExtensionsError, NativeExtensionsResult};
use crate::formats::{
    CF_HDROP, DV_E_FORMATETC, TYMED_FILE, TYMED_HGLOBAL, TYMED_ISTORAGE, TYMED_ISTREAM,
};

verus! {

/// Name of a mail client's private message format.
pub const CF_OUTLOOK_MSG: &'static str = "RenPrivateMessages\0";
/// Name of a mail client's private attachment format.
pub const CF_OUTLOOK_ATTACH: &'static str = "RenPrivateAttachments\0";
/// Name of the file-group descriptor format.
pub const CF_FILEDESCRIPTOR: &'static str = "FileGroupDescriptor\0";
/// Name of the virtual-file contents format.
pub const CF_FILECONTENTS: &'static str = "FileContents\0";
/// Name of the URL format.
pub const CF_UNIFORMRESOURCELOCATOR: &'static str = "UniformResourceLocator\0";

/// Name of the dropped-file list format.
pub const CF_HDROP_STR: &'static str = "CF_HDROP\0";
/// Name of the 8-bit text format.
pub const CF_TEXT_STR: &'static str = "CF_TEXT\0";
/// Name of the UTF-16 text format.
pub const CF_UNICODETEXT_STR: &'static str = "CF_UNICODETEXT\0";

/// The well-known formats probed one by one when the provider refuses to
/// enumerate its formats, in order.
pub fn fallback_probe_names() -> (r: Vec<&'static str>)
    ensures
        r@ == seq![
            CF_OUTLOOK_MSG,
            CF_OUTLOOK_ATTACH,
            CF_FILEDESCRIPTOR,
            CF_FILECONTENTS,
            CF_UNIFORMRESOURCELOCATOR,
            CF_HDROP_STR,
            CF_TEXT_STR,
            CF_UNICODETEXT_STR,
        ],
{
    let r = vec![
        CF_OUTLOOK_MSG,
        CF_OUTLOOK_ATTACH,
        CF_FILEDESCRIPTOR,
        CF_FILECONTENTS,
        CF_UNIFORMRESOURCELOCATOR,
        CF_HDROP_STR,
        CF_TEXT_STR,
        CF_UNICODETEXT_STR,
    ];
    assert(r@ =~= seq![
        CF_OUTLOOK_MSG,
        CF_OUTLOOK_ATTACH,
        CF_FILEDESCRIPTOR,
        CF_FILECONTENTS,
        CF_UNIFORMRESOURCELOCATOR,
        CF_HDROP_STR,
        CF_TEXT_STR,
        CF_UNICODETEXT_STR,
    ]);
    r
}

/// Medium kinds tried, in order, when probing whether a format is available.
pub open spec fn probe_order() -> Seq<u32> {
    seq![TYMED_HGLOBAL, TYMED_ISTREAM, TYMED_ISTORAGE, TYMED_FILE]
}

/// The first medium on which the provider answered yes, from answer `k` on.
pub open spec fn first_answered(answers: Seq<bool>, k: int) -> Option<u32>
    decreases 4 - k,
{
    if k < 0 || k >= 4 || k >= answers.len() {
        None
    } else if answers[k] {
        Some(probe_order()[k])
    } else {
        first_answered(answers, k + 1)
    }
}

/// Availability probe of one format: asks for each medium kind in order and
/// stops at the first the provider accepts. Provider errors count as "no".
pub struct MediumProbe {
    index: usize,
    found: Option<u32>,
    answers: Ghost<Seq<bool>>,
}

/// The answers given so far and the medium found, if any.
pub ghost struct ProbeView {
    pub answers: Seq<bool>,
    pub found: Option<u32>,
}

impl View for MediumProbe {
    type V = ProbeView;

    closed spec fn view(&self) -> ProbeView {
        ProbeView { answers: self.answers@, found: self.found }
    }
}

impl MediumProbe {
    pub closed spec fn wf(&self) -> bool {
        &&& self.index == self.answers@.len()
        &&& self.index <= 4
        &&& self.found == first_answered(self.answers@, 0)
        &&& self.found is None ==> forall|j: int|
            0 <= j < self.answers@.len() ==> !self.answers@[j]
        &&& self.found is Some ==> self.answers@.len() > 0 && self.answers@.last()
    }

    pub fn new() -> (r: Self)
        ensures
            r.wf(),
            r@.answers == Seq::<bool>::empty(),
            r@.found is None,
    {
        MediumProbe { index: 0, found: None, answers: Ghost(Seq::empty()) }
    }

    /// The next medium to ask for, or `None` once one was accepted or all
    /// were refused.
    pub fn next_medium(&self) -> (r: Option<u32>)
        requires
            self.wf(),
        ensures
            r == (if self@.found is Some || self@.answers.len() >= 4 {
                None
            } else {
                Some(probe_order()[self@.answers.len() as int])
            }),
    {
        if self.found.is_some() || self.index >= 4 {
            None
        } else if self.index == 0 {
            Some(TYMED_HGLOBAL)
        } else if self.index == 1 {
            Some(TYMED_ISTREAM)
        } else if self.index == 2 {
            Some(TYMED_ISTORAGE)
        } else {
            Some(TYMED_FILE)
        }
    }

    /// Records the provider's answer for the medium `next_medium` named.
    pub fn record(&mut self, available: bool)
        requires
            old(self).wf(),
            old(self)@.found is None,
            old(self)@.answers.len() < 4,
        ensures
            final(self).wf(),
            final(self)@.answers == old(self)@.answers.push(available),
            final(self)@.found == first_answered(final(self)@.answers, 0),
    {
        let ghost old_answers = self.answers@;
        let ghost new_answers = old_answers.push(available);
        proof {
            assert forall|j: int| 0 <= j < old_answers.len() implies !new_answers[j] by {
                assert(new_answers[j] == old_answers[j]);
            }
            lemma_first_answered_skip(new_answers, 0, old_answers.len() as int);
            let n = old_answers.len() as int;
            assert(new_answers[n] == available);
            assert(first_answered(new_answers, n + 1) is None);
            assert(probe_order()[0] == TYMED_HGLOBAL && probe_order()[1] == TYMED_ISTREAM
                && probe_order()[2] == TYMED_ISTORAGE && probe_order()[3] == TYMED_FILE);
        }
        if available {
            self.found = Some(
                if self.index == 0 {
                    TYMED_HGLOBAL
                } else if self.index == 1 {
                    TYMED_ISTREAM
                } else if self.index == 2 {
                    TYMED_ISTORAGE
                } else {
                    TYMED_FILE
                },
            );
        }
        self.answers = Ghost(new_answers);
        self.index = self.index + 1;
    }

    /// The medium the provider accepted, if any.
    pub fn found(&self) -> (r: Option<u32>)
        requires
            self.wf(),
        ensures
            r == first_answered(self@.answers, 0),
            r == self@.found,
    {
        self.found
    }
}

proof fn lemma_first_answered_skip(answers: Seq<bool>, k: int, end: int)
    requires
        0 <= k <= end <= answers.len(),
        end <= 4,
        forall|j: int| k <= j < end ==> !answers[j],
    ensures
        first_answered(answers, k) == first_answered(answers, end),
    decreases end - k,
{
    if k < end {
        lemma_first_answered_skip(answers, k + 1, end);
    }
}

/// A well-known format probed by name: its registered number and the medium
/// on which it answered, if it did.
pub struct ProbeAnswer {
    pub format: u32,
    pub medium: Option<u32>,
}

/// Formats found by probing, each with the medium on which it answered.
pub open spec fn fallback_entries(answers: Seq<ProbeAnswer>) -> Seq<FormatEntry>
    decreases answers.len(),
{
    if answers.len() == 0 {
        Seq::empty()
    } else {
        let rest = fallback_entries(answers.drop_last());
        match answers.last().medium {
            Some(t) => rest.push(FormatEntry { format: answers.last().format, tymed: t }),
            None => rest,
        }
    }
}

pub fn fallback_formats(answers: &Vec<ProbeAnswer>) -> (r: Vec<FormatEntry>)
    ensures
        r@ == fallback_entries(answers@),
{
    let mut r: Vec<FormatEntry> = Vec::new();
    let mut i: usize = 0;
    while i < answers.len()
        invariant
            i <= answers@.len(),
            r@ == fallback_entries(answers@.subrange(0, i as int)),
        decreases answers@.len() - i,
    {
        assert(answers@.subrange(0, i + 1).drop_last() =~= answers@.subrange(0, i as int));
        match answers[i].medium {
            Some(t) => r.push(FormatEntry { format: answers[i].format, tymed: t }),
            None => {},
        }
        i = i + 1;
    }
    assert(answers@.subrange(0, i as int) =~= answers@);
    r
}

/// What the provider's format enumeration gave.
pub enum Enumeration {
    /// The provider listed its formats.
    Listed(Vec<FormatEntry>),
    /// The provider refused to enumerate as unsupported; the well-known
    /// formats were probed instead.
    Unsupported(Vec<ProbeAnswer>),
    /// The provider failed with another status.
    Failed(i32),
}

/// Whether an enumeration failure is the "unsupported" condition, which is
/// answered by probing well-known formats.
pub fn enumeration_falls_back(code: i32) -> (r: bool)
    ensures
        r == (code == DV_E_FORMATETC),
{
    code == DV_E_FORMATETC
}

/// The outcome of enumeration: the listed or probed formats, or the
/// provider's failure.
pub fn enumeration_result(e: Enumeration) -> (r: NativeExtensionsResult<Vec<FormatEntry>>)
    ensures
        match e {
            Enumeration::Listed(l) => r matches Ok(v) && v@ == l@,
            Enumeration::Unsupported(a) => r matches Ok(v) && v@ == fallback_entries(a@),
            Enumeration::Failed(c) => r == Err::<Vec<FormatEntry>, _>(
                NativeExtensionsError::WindowsError(c),
            ),
        },
{
    match e {
        Enumeration::Listed(l) => Ok(l),
        Enumeration::Unsupported(a) => Ok(fallback_formats(&a)),
        Enumeration::Failed(c) => Err(NativeExtensionsError::WindowsError(c)),
    }
}

/// The consumable formats an enumeration yields; a failed enumeration yields
/// none rather than an error.
pub open spec fn enumerated_formats(e: Enumeration) -> Seq<u32> {
    match e {
        Enumeration::Listed(l) => consumable_formats(l@),
        Enumeration::Unsupported(a) => consumable_formats(fallback_entries(a@)),
        Enumeration::Failed(_) => Seq::empty(),
    }
}

pub fn formats_from_enumeration(e: Enumeration) -> (r: Vec<u32>)
    ensures
        r@ == enumerated_formats(e),
{
    match enumeration_result(e) {
        Ok(entries) => filter_consumable_formats(&entries),
        Err(_) => Vec::new(),
    }
}

/// A medium the reader consumes: a global buffer or a stream.
pub open spec fn consumable_medium(t: u32) -> bool {
    t & TYMED_HGLOBAL != 0 || t & TYMED_ISTREAM != 0
}

/// The probe answered on a medium the reader consumes.
pub open spec fn answered_consumable(a: ProbeAnswer) -> bool {
    match a.medium {
        Some(t) => consumable_medium(t),
        None => false,
    }
}

proof fn lemma_fallback_nonempty(answers: Seq<ProbeAnswer>)
    ensures
        consumable_formats(fallback_entries(answers)).len() > 0 <==> exists|i: int|
            0 <= i < answers.len() && answered_consumable(#[trigger] answers[i]),
    decreases answers.len(),
{
    if answers.len() > 0 {
        let rest = answers.drop_last();
        lemma_fallback_nonempty(rest);
        let entries = fallback_entries(answers);
        match answers.last().medium {
            Some(t) => {
                assert(entries.drop_last() == fallback_entries(rest));
            },
            None => {},
        }
        if exists|i: int|
            0 <= i < rest.len() && answered_consumable(#[trigger] rest[i]) {
            let i = choose|i: int|
                0 <= i < rest.len() && answered_consumable(#[trigger] rest[i]);
            assert(answers[i] == rest[i]);
        }
        if exists|i: int|
            0 <= i < answers.len() && answered_consumable(#[trigger] answers[i]) {
            let i = choose|i: int|
                0 <= i < answers.len() && answered_consumable(#[trigger] answers[i]);
            if i < rest.len() {
                assert(rest[i] == answers[i]);
            }
        }
    }
}

/// When the provider refuses enumeration as unsupported, the reader still
/// has a format exactly when some well-known format answered on a medium it
/// consumes; in particular, when every answering format answered on a buffer
/// or a stream, it has a format exactly when any probe answered.
pub proof fn lemma_enumeration_fallback(answers: Vec<ProbeAnswer>)
    ensures
        enumerated_formats(Enumeration::Unsupported(answers)).len() > 0 <==> exists|i: int|
            0 <= i < answers@.len() && answered_consumable(#[trigger] answers@[i]),
        (forall|i: int|
            0 <= i < answers@.len() && (#[trigger] answers@[i]).medium is Some ==> consumable_medium(
                answers@[i].medium.unwrap(),
            )) ==> (enumerated_formats(Enumeration::Unsupported(answers)).len() > 0 <==> exists|
            i: int,
        | 0 <= i < answers@.len() && (#[trigger] answers@[i]).medium is Some),
{
    lemma_fallback_nonempty(answers@);
}

/// The outcome of asking the provider for data: nothing when its
/// availability probe refused the format (then the data is not asked for),
/// the medium, nothing when the format/medium combination is unsupported, or
/// the provider's failure.
pub fn get_outcome<M>(query_ok: bool, got: Option<Result<M, i32>>) -> (r: NativeExtensionsResult<
    Option<M>,
>)
    ensures
        !query_ok ==> r == Ok::<Option<M>, NativeExtensionsError>(None),
        query_ok ==> match got {
            None => r == Ok::<Option<M>, NativeExtensionsError>(None),
            Some(Ok(m)) => r == Ok::<Option<M>, NativeExtensionsError>(Some(m)),
            Some(Err(c)) => if c == DV_E_FORMATETC {
                r == Ok::<Option<M>, NativeExtensionsError>(None)
            } else {
                r == Err::<Option<M>, NativeExtensionsError>(NativeExtensionsError::WindowsError(c))
            },
        },
{
    if !query_ok {
        return Ok(None);
    }
    match got {
        None => Ok(None),
        Some(Ok(m)) => Ok(Some(m)),
        Some(Err(c)) => {
            if c == DV_E_FORMATETC {
                Ok(None)
            } else {
                Err(NativeExtensionsError::WindowsError(c))
            }
        },
    }
}

/// A format to probe for: by number, or by its NUL-terminated name.
#[derive(Debug, Clone, Copy, PartialEq, Eq)]
pub enum FormatProbe {
    Number(u32),
    Named(&'static str),
}

/// The formats whose presence stands for `format`: the format itself, and for
/// a dropped-file list also virtual files (a descriptor or file contents).
/// The format is present when any of them answers.
pub fn presence_probes(format: u32) -> (r: Vec<FormatProbe>)
    ensures
        r@ == if format == CF_HDROP {
            seq![
                FormatProbe::Number(format),
                FormatProbe::Named(CF_FILEDESCRIPTOR),
                FormatProbe::Named(CF_FILECONTENTS),
            ]
        } else {
            seq![FormatProbe::Number(format)]
        },
{
    let mut r: Vec<FormatProbe> = Vec::new();
    r.push(FormatProbe::Number(format));
    if format == CF_HDROP {
        r.push(FormatProbe::Named(CF_FILEDESCRIPTOR));
        r.push(FormatProbe::Named(CF_FILECONTENTS));
    }
    assert(r@ =~= if format == CF_HDROP {
        seq![
            FormatProbe::Number(format),
            FormatProbe::Named(CF_FILEDESCRIPTOR),
            FormatProbe::Named(CF_FILECONTENTS),
        ]
    } else {
        seq![FormatProbe::Number(format)]
    });
    r
}

/// The formats whose presence marks a drag of mail messages: the private
/// message format or a file-group descriptor.
pub fn outlook_drag_probes() -> (r: Vec<FormatProbe>)
    ensures
        r@ == seq![FormatProbe::Named(CF_OUTLOOK_MSG), FormatProbe::Named(CF_FILEDESCRIPTOR)],
{
    let r = vec![FormatProbe::Named(CF_OUTLOOK_MSG), FormatProbe::Named(CF_FILEDESCRIPTOR)];
    assert(r@ =~= seq![FormatProbe::Named(CF_OUTLOOK_MSG), FormatProbe::Named(CF_FILEDESCRIPTOR)]);
    r
}

/// Data answered for a dropped-file list the provider could not give: when it
/// offers a file-group descriptor instead (virtual files), an empty payload
/// says that files are there; otherwise nothing.
pub fn hdrop_fallback(format: u32, descriptor_available: bool) -> (r: Option<Vec<u8>>)
    ensures
        match r {
            Some(v) => format == CF_HDROP && descriptor_available && v@.len() == 0,
            None => !(format == CF_HDROP && descriptor_available),
        },
{
    if format == CF_HDROP && descriptor_available {
        Some(Vec::new())
    } else {
        None
    }
}

} // verus!
