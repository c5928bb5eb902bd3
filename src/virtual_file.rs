use rand::Rng;
use vstd::prelude::*;

use crate::error::{NativeExtensionsError, NativeExtensionsResult};
use crate::formats::{TYMED_HGLOBAL, TYMED_ISTORAGE, TYMED_ISTREAM};
use crate::text::{decimal_spec, ends_with_ignore_ascii_case, ends_with_ignore_case_spec, usize_to_decimal};

verus! {

/// Media asked for, in order, when fetching a virtual file's contents:
/// a stream first, then compound storage (when enabled), then a global
/// buffer, then any of them.
pub open spec fn virtual_file_media_spec(enable_storage: bool) -> Seq<u32> {
    if enable_storage {
        seq![
            TYMED_ISTREAM,
            TYMED_ISTORAGE,
            TYMED_HGLOBAL,
            TYMED_ISTREAM | TYMED_HGLOBAL | TYMED_ISTORAGE,
        ]
    } else {
        seq![TYMED_ISTREAM, TYMED_HGLOBAL, TYMED_ISTREAM | TYMED_HGLOBAL]
    }
}

pub fn virtual_file_media(enable_storage: bool) -> (r: Vec<u32>)
    ensures
        r@ == virtual_file_media_spec(enable_storage),
{
    let r = if enable_storage {
        vec![TYMED_ISTREAM, TYMED_ISTORAGE, TYMED_HGLOBAL, TYMED_ISTREAM | TYMED_HGLOBAL | TYMED_ISTORAGE]
    } else {
        vec![TYMED_ISTREAM, TYMED_HGLOBAL, TYMED_ISTREAM | TYMED_HGLOBAL]
    };
    assert(r@ =~= virtual_file_media_spec(enable_storage));
    r
}

/// A medium obtained on one attempt is kept, unless it is an empty global
/// buffer and other attempts remain.
pub open spec fn keep_medium_spec(attempt: int, attempts: int, tymed: u32, size: u64) -> bool {
    !(tymed == TYMED_HGLOBAL && size == 0 && attempt + 1 < attempts)
}

/// What to do with the answer to one request of a virtual file's contents.
#[derive(Debug, Clone, Copy, PartialEq, Eq, Structural)]
pub enum MediumDecision {
    /// Nothing was obtained; go on with the next request.
    Skip,
    /// The medium is not used: release it now, and go on.
    Release,
    /// The medium is used: its user releases it once done.
    Keep,
}

/// The requests for a virtual file's contents, one medium kind after the
/// other, with a count of the media obtained and released.
pub struct MediumFetch {
    media: Vec<u32>,
    attempt: usize,
    kept: bool,
    acquired: Ghost<nat>,
    released: Ghost<nat>,
}

impl MediumFetch {
    pub closed spec fn spec_media(&self) -> Seq<u32> {
        self.media@
    }

    pub closed spec fn spec_attempt(&self) -> nat {
        self.attempt as nat
    }

    pub closed spec fn spec_kept(&self) -> bool {
        self.kept
    }

    /// Number of media the provider handed over so far.
    pub closed spec fn acquired(&self) -> nat {
        self.acquired@
    }

    /// Number of those released by the fetch itself.
    pub closed spec fn released(&self) -> nat {
        self.released@
    }

    /// Every medium obtained is released exactly once: by the fetch, or, for
    /// the one kept, by its user.
    pub open spec fn wf(&self) -> bool {
        &&& self.spec_attempt() <= self.spec_media().len()
        &&& self.acquired() == self.released() + if self.spec_kept() {
            1nat
        } else {
            0nat
        }
    }

    pub fn new(enable_storage: bool) -> (r: Self)
        ensures
            r.wf(),
            r.spec_media() == virtual_file_media_spec(enable_storage),
            r.spec_attempt() == 0,
            !r.spec_kept(),
            r.acquired() == 0,
    {
        MediumFetch {
            media: virtual_file_media(enable_storage),
            attempt: 0,
            kept: false,
            acquired: Ghost(0),
            released: Ghost(0),
        }
    }

    /// The medium kinds to ask for next, or `None` once a medium was kept or
    /// every kind was tried.
    pub fn next_request(&self) -> (r: Option<u32>)
        requires
            self.wf(),
        ensures
            r == (if self.spec_kept() || self.spec_attempt() >= self.spec_media().len() {
                None
            } else {
                Some(self.spec_media()[self.spec_attempt() as int])
            }),
    {
        if self.kept || self.attempt >= self.media.len() {
            None
        } else {
            Some(self.media[self.attempt])
        }
    }

    /// Records the answer to the current request: `None` when nothing was
    /// obtained, else the kind and size of the medium obtained.
    pub fn on_answer(&mut self, got: Option<(u32, u64)>) -> (r: MediumDecision)
        requires
            old(self).wf(),
            !old(self).spec_kept(),
            old(self).spec_attempt() < old(self).spec_media().len(),
        ensures
            final(self).wf(),
            final(self).spec_media() == old(self).spec_media(),
            final(self).spec_attempt() == old(self).spec_attempt() + 1,
            match got {
                None => r == MediumDecision::Skip && final(self).acquired() == old(self).acquired()
                    && !final(self).spec_kept(),
                Some((tymed, size)) => {
                    &&& final(self).acquired() == old(self).acquired() + 1
                    &&& if keep_medium_spec(
                        old(self).spec_attempt() as int,
                        old(self).spec_media().len() as int,
                        tymed,
                        size,
                    ) {
                        r == MediumDecision::Keep && final(self).spec_kept()
                    } else {
                        r == MediumDecision::Release && !final(self).spec_kept()
                            && final(self).released() == old(self).released() + 1
                    }
                },
            },
    {
        let attempt = self.attempt;
        let n = self.media.len();
        assert(attempt < n);
        self.attempt = attempt + 1;
        match got {
            None => MediumDecision::Skip,
            Some((tymed, size)) => {
                self.acquired = Ghost(self.acquired@ + 1);
                if tymed == TYMED_HGLOBAL && size == 0 && attempt + 1 < self.media.len() {
                    self.released = Ghost(self.released@ + 1);
                    MediumDecision::Release
                } else {
                    self.kept = true;
                    MediumDecision::Keep
                }
            },
        }
    }

    /// The outcome once no request is left: success when a medium was kept.
    pub fn outcome(&self, file_name: &str) -> (r: NativeExtensionsResult<()>)
        ensures
            r is Ok <==> self.spec_kept(),
            r matches Err(e) ==> e is VirtualFileReceiveError,
    {
        if self.kept {
            Ok(())
        } else {
            let mut m = String::from_str("Virtual file content not available for '");
            m.append(file_name);
            m.append("' (tried all TYMED options)");
            Err(NativeExtensionsError::VirtualFileReceiveError(m))
        }
    }
}

/// Whatever the provider answers, the media a fetch obtains are all released
/// once: the fetch itself releases every one it does not keep, and keeps at
/// most one.
pub proof fn lemma_fetch_releases_all(f: MediumFetch)
    requires
        f.wf(),
    ensures
        f.spec_kept() ==> f.acquired() == f.released() + 1,
        !f.spec_kept() ==> f.acquired() == f.released(),
{
}

/// How a virtual file's bytes are read as a stream.
#[derive(Debug, Clone, Copy, PartialEq, Eq, Structural)]
pub enum StreamSource {
    /// Copy the global buffer into a memory stream.
    GlobalBuffer,
    /// Use the stream handed over.
    Stream,
}

/// "Unsupported data format (TYMED: n)".
pub open spec fn unsupported_medium_message(tymed: u32) -> Seq<char> {
    "Unsupported data format (TYMED: "@ + decimal_spec(tymed as nat) + ")"@
}

fn unsupported_medium(tymed: u32) -> (r: String)
    ensures
        r@ == unsupported_medium_message(tymed),
{
    let mut m = String::from_str("Unsupported data format (TYMED: ");
    let digits = usize_to_decimal(tymed as usize);
    m.append(digits.as_str());
    m.append(")");
    m
}

/// How a medium of kind `tymed` is read as a stream; compound storage and
/// unknown kinds cannot be.
pub fn stream_source(tymed: u32) -> (r: NativeExtensionsResult<StreamSource>)
    ensures
        tymed == TYMED_HGLOBAL ==> r == Ok::<StreamSource, NativeExtensionsError>(
            StreamSource::GlobalBuffer,
        ),
        tymed == TYMED_ISTREAM ==> r == Ok::<StreamSource, NativeExtensionsError>(
            StreamSource::Stream,
        ),
        tymed == TYMED_ISTORAGE ==> r matches Err(NativeExtensionsError::VirtualFileReceiveError(_)),
        tymed != TYMED_HGLOBAL && tymed != TYMED_ISTREAM && tymed != TYMED_ISTORAGE ==> (r matches Err(
            NativeExtensionsError::VirtualFileReceiveError(m),
        ) && m@ == unsupported_medium_message(tymed)),
{
    if tymed == TYMED_HGLOBAL {
        Ok(StreamSource::GlobalBuffer)
    } else if tymed == TYMED_ISTREAM {
        Ok(StreamSource::Stream)
    } else if tymed == TYMED_ISTORAGE {
        Err(
            NativeExtensionsError::VirtualFileReceiveError(
                String::from_str(
                    "IStorage cannot be used as stream - use copy_virtual_file_for_item instead",
                ),
            ),
        )
    } else {
        Err(NativeExtensionsError::VirtualFileReceiveError(unsupported_medium(tymed)))
    }
}

/// How a virtual file is copied into the target folder.
pub enum CopyRoute {
    /// Write the global buffer to a file of this name.
    WriteBuffer(String),
    /// Save the compound storage as a document of this name.
    WriteStorage(String),
    /// Copy the stream to a file of this name, on a background worker when
    /// the provider supports deferred completion.
    CopyStream { name: String, in_background: bool },
}

/// File name of saved compound storage: given the mail-message extension
/// unless it has it already.
pub open spec fn storage_name_spec(name: Seq<char>) -> Seq<char> {
    if ends_with_ignore_case_spec(name, ".msg"@) {
        name
    } else {
        name + ".msg"@
    }
}

pub fn copy_route(tymed: u32, file_name: &str, supports_async: bool) -> (r: NativeExtensionsResult<
    CopyRoute,
>)
    ensures
        tymed == TYMED_HGLOBAL ==> (r matches Ok(CopyRoute::WriteBuffer(n)) && n@ == file_name@),
        tymed == TYMED_ISTORAGE ==> (r matches Ok(CopyRoute::WriteStorage(n)) && n@
            == storage_name_spec(file_name@)),
        tymed == TYMED_ISTREAM ==> (r matches Ok(CopyRoute::CopyStream { name, in_background })
            && name@ == file_name@ && in_background == supports_async),
        tymed != TYMED_HGLOBAL && tymed != TYMED_ISTORAGE && tymed != TYMED_ISTREAM ==> (r matches Err(
            NativeExtensionsError::VirtualFileReceiveError(m),
        ) && m@ == unsupported_medium_message(tymed) + " for file '"@ + file_name@ + "'"@),
{
    if tymed == TYMED_HGLOBAL {
        Ok(CopyRoute::WriteBuffer(String::from_str(file_name)))
    } else if tymed == TYMED_ISTORAGE {
        let mut name = String::from_str(file_name);
        if !ends_with_ignore_ascii_case(file_name, ".msg") {
            name.append(".msg");
        }
        Ok(CopyRoute::WriteStorage(name))
    } else if tymed == TYMED_ISTREAM {
        Ok(CopyRoute::CopyStream { name: String::from_str(file_name), in_background: supports_async })
    } else {
        let mut m = unsupported_medium(tymed);
        m.append(" for file '");
        m.append(file_name);
        m.append("'");
        Err(NativeExtensionsError::VirtualFileReceiveError(m))
    }
}

pub open spec fn is_ascii_alphanumeric(c: char) -> bool {
    ('a' <= c <= 'z') || ('A' <= c <= 'Z') || ('0' <= c <= '9')
}

/// Relies on `rand`'s `Alphanumeric` distribution sampled from the thread's
/// generator: `n` characters, each an ASCII letter or digit.
#[verifier::external_body]
fn random_alphanumeric(n: usize) -> (r: String)
    ensures
        r@.len() == n,
        forall|i: int| 0 <= i < n ==> is_ascii_alphanumeric(#[trigger] r@[i]),
{
    rand::thread_rng().sample_iter(&rand::distributions::Alphanumeric).take(n).map(char::from).collect()
}

/// Name of the hidden temporary file a copy is written to before it is
/// renamed: a dot and thirty random letters or digits.
pub fn temp_file_name() -> (r: String)
    ensures
        r@.len() == 31,
        r@[0] == '.',
        forall|i: int| 1 <= i < 31 ==> is_ascii_alphanumeric(#[trigger] r@[i]),
{
    let mut r = String::from_str(".");
    let tail = random_alphanumeric(30);
    proof {
        reveal_strlit(".");
    }
    r.append(tail.as_str());
    assert forall|i: int| 1 <= i < 31 implies is_ascii_alphanumeric(#[trigger] r@[i]) by {
        assert(r@[i] == tail@[i - 1]);
    }
    r
}

} // verus!
