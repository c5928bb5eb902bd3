use super_native_extensions::access::{
    enumeration_falls_back, enumeration_result, fallback_formats, fallback_probe_names,
    formats_from_enumeration, get_outcome, hdrop_fallback, outlook_drag_probes, presence_probes,
    Enumeration, FormatProbe, MediumProbe, ProbeAnswer,
    CF_FILECONTENTS, CF_FILEDESCRIPTOR, CF_OUTLOOK_ATTACH, CF_OUTLOOK_MSG,
    CF_UNIFORMRESOURCELOCATOR,
};
use super_native_extensions::data_reader::FormatEntry;
use super_native_extensions::error::NativeExtensionsError;
use super_native_extensions::formats::{
    CF_HDROP, DV_E_FORMATETC, TYMED_FILE, TYMED_HGLOBAL, TYMED_ISTORAGE, TYMED_ISTREAM,
};
use super_native_extensions::stream_reader::{
    cancelled_error, copy_advance, copy_step, CopyStep, EagerStreamReader, ReadCursor,
};
use super_native_extensions::virtual_file::{
    copy_route, stream_source, temp_file_name, CopyRoute, MediumDecision, MediumFetch,
    StreamSource,
};

#[test]
fn test_format_constants() {
    assert_eq!(CF_OUTLOOK_MSG.as_bytes(), b"RenPrivateMessages\0");
    assert_eq!(CF_OUTLOOK_ATTACH.as_bytes(), b"RenPrivateAttachments\0");
    assert_eq!(CF_FILEDESCRIPTOR.as_bytes(), b"FileGroupDescriptor\0");
    assert_eq!(CF_FILECONTENTS.as_bytes(), b"FileContents\0");
    assert_eq!(CF_UNIFORMRESOURCELOCATOR.as_bytes(), b"UniformResourceLocator\0");
}

#[test]
fn test_error_handling_improvements() {
    assert_eq!(DV_E_FORMATETC as u32, 0x80040064);
    assert!(enumeration_falls_back(DV_E_FORMATETC));
    assert!(!enumeration_falls_back(-2147467259));
}

#[test]
fn test_safe_data_retrieval() {
    assert_eq!(get_outcome::<u8>(true, Some(Ok(7))), Ok(Some(7)));
    assert_eq!(get_outcome::<u8>(false, None), Ok(None));
    assert_eq!(get_outcome::<u8>(true, Some(Err(DV_E_FORMATETC))), Ok(None));
    assert_eq!(get_outcome::<u8>(true, Some(Err(-2147467259))), Err(NativeExtensionsError::WindowsError(-2147467259)));
}

#[test]
fn probe_stops_at_first_accepted_medium() {
    let mut p = MediumProbe::new();
    assert_eq!(p.next_medium(), Some(TYMED_HGLOBAL));
    p.record(false);
    assert_eq!(p.next_medium(), Some(TYMED_ISTREAM));
    p.record(false);
    assert_eq!(p.next_medium(), Some(TYMED_ISTORAGE));
    p.record(true);
    assert_eq!(p.next_medium(), None);
    assert_eq!(p.found(), Some(TYMED_ISTORAGE));

    let mut none = MediumProbe::new();
    let mut asked = Vec::new();
    while let Some(t) = none.next_medium() {
        asked.push(t);
        none.record(false);
    }
    assert_eq!(asked, vec![TYMED_HGLOBAL, TYMED_ISTREAM, TYMED_ISTORAGE, TYMED_FILE]);
    assert_eq!(none.found(), None);
}

#[test]
fn enumeration_fallback_finds_probed_formats() {
    assert_eq!(fallback_probe_names().len(), 8);
    let answered = vec![
        ProbeAnswer { format: 0xC001, medium: None },
        ProbeAnswer { format: 0xC002, medium: Some(TYMED_HGLOBAL) },
        ProbeAnswer { format: 0xC003, medium: Some(TYMED_ISTORAGE) },
    ];
    let entries = fallback_formats(&answered);
    assert_eq!(entries.len(), 2);
    assert_eq!((entries[0].format, entries[0].tymed), (0xC002, TYMED_HGLOBAL));
    assert_eq!(formats_from_enumeration(Enumeration::Unsupported(answered)), vec![0xC002]);
    let silent = vec![ProbeAnswer { format: 0xC001, medium: None }];
    assert!(formats_from_enumeration(Enumeration::Unsupported(silent)).is_empty());
    assert!(formats_from_enumeration(Enumeration::Failed(-1)).is_empty());
    let listed = vec![FormatEntry { format: 13, tymed: TYMED_ISTREAM | TYMED_HGLOBAL }];
    assert_eq!(formats_from_enumeration(Enumeration::Listed(listed)), vec![13]);
    assert_eq!(
        enumeration_result(Enumeration::Failed(-5)).err(),
        Some(NativeExtensionsError::WindowsError(-5))
    );
}

#[test]
fn presence_probe_plans() {
    assert_eq!(presence_probes(13), vec![FormatProbe::Number(13)]);
    assert_eq!(
        presence_probes(CF_HDROP),
        vec![FormatProbe::Number(CF_HDROP), FormatProbe::Named(CF_FILEDESCRIPTOR), FormatProbe::Named(CF_FILECONTENTS)]
    );
    assert_eq!(outlook_drag_probes(), vec![FormatProbe::Named(CF_OUTLOOK_MSG), FormatProbe::Named(CF_FILEDESCRIPTOR)]);
}

#[test]
fn dropped_file_fallback_for_virtual_files() {
    assert_eq!(hdrop_fallback(CF_HDROP, true), Some(Vec::new()));
    assert_eq!(hdrop_fallback(CF_HDROP, false), None);
    assert_eq!(hdrop_fallback(13, true), None);
}

#[test]
fn medium_fetch_releases_every_unused_medium() {
    let mut f = MediumFetch::new(true);
    let mut acquired = 0;
    let mut released = 0;
    let mut kept = 0;
    let answers = [None, Some((TYMED_HGLOBAL, 0u64)), Some((TYMED_HGLOBAL, 0u64))];
    let mut asked = Vec::new();
    let mut i = 0;
    while let Some(t) = f.next_request() {
        asked.push(t);
        let got = if i < answers.len() { answers[i] } else { Some((TYMED_ISTREAM, 10)) };
        i += 1;
        if got.is_some() {
            acquired += 1;
        }
        match f.on_answer(got) {
            MediumDecision::Release => released += 1,
            MediumDecision::Keep => kept += 1,
            MediumDecision::Skip => {},
        }
    }
    assert_eq!(asked, vec![4, 8, 1, 13]);
    assert_eq!((acquired, released, kept), (3, 2, 1));
    assert!(f.outcome("a").is_ok());

    let mut last = MediumFetch::new(false);
    last.on_answer(None);
    last.on_answer(None);
    assert_eq!(last.on_answer(Some((TYMED_HGLOBAL, 0))), MediumDecision::Keep);

    let mut empty = MediumFetch::new(false);
    while empty.next_request().is_some() {
        assert_eq!(empty.on_answer(None), MediumDecision::Skip);
    }
    assert!(matches!(empty.outcome("x.txt"), Err(NativeExtensionsError::VirtualFileReceiveError(m))
        if m == "Virtual file content not available for 'x.txt' (tried all TYMED options)"));
}

#[test]
fn stream_sources_and_copy_routes() {
    assert_eq!(stream_source(TYMED_HGLOBAL), Ok(StreamSource::GlobalBuffer));
    assert_eq!(stream_source(TYMED_ISTREAM), Ok(StreamSource::Stream));
    assert!(matches!(stream_source(TYMED_ISTORAGE), Err(NativeExtensionsError::VirtualFileReceiveError(_))));
    assert_eq!(
        stream_source(32),
        Err(NativeExtensionsError::VirtualFileReceiveError("Unsupported data format (TYMED: 32)".to_string()))
    );
    assert!(matches!(copy_route(TYMED_ISTORAGE, "mail", false), Ok(CopyRoute::WriteStorage(n)) if n == "mail.msg"));
    assert!(matches!(copy_route(TYMED_ISTORAGE, "m.MSG", false), Ok(CopyRoute::WriteStorage(n)) if n == "m.MSG"));
    assert!(matches!(copy_route(TYMED_HGLOBAL, "a.txt", true), Ok(CopyRoute::WriteBuffer(n)) if n == "a.txt"));
    assert!(matches!(copy_route(TYMED_ISTREAM, "a.txt", true), Ok(CopyRoute::CopyStream { name, in_background: true }) if name == "a.txt"));
    assert!(matches!(copy_route(TYMED_FILE, "f", false), Err(NativeExtensionsError::VirtualFileReceiveError(m))
        if m == "Unsupported data format (TYMED: 2) for file 'f'"));
}

#[test]
fn eager_reader_hands_bytes_out_once() {
    let mut r = EagerStreamReader::new(vec![1, 2, 3], "f.bin".to_string());
    assert_eq!(r.file_size(), Some(3));
    assert_eq!(r.file_name(), Some("f.bin".to_string()));
    assert_eq!(r.read_next(), vec![1, 2, 3]);
    assert_eq!(r.read_next(), Vec::<u8>::new());
    assert_eq!(r.read_next(), Vec::<u8>::new());
    assert!(r.close().is_ok());
}

#[test]
fn chunked_reads_and_copies() {
    let mut c = ReadCursor::new(2 * 1048576 + 5);
    assert!(c.begin());
    assert!(!c.begin());
    assert_eq!(c.next_chunk(), 1048576);
    c.advance(1048576);
    c.advance(1000);
    assert_eq!(c.next_chunk(), 1048576 + 5 - 1000);
    assert_eq!(c.length(), 2 * 1048576 + 5);
    assert_eq!(c.num_read(), 1048576 + 1000);
    assert!(matches!(copy_step(&c, false), CopyStep::Read(n) if n == c.next_chunk()));
    assert!(matches!(copy_step(&c, true), CopyStep::Cancelled));
    let mut done = ReadCursor::new(3);
    assert!(copy_advance(&mut done, 3).is_ok());
    assert_eq!(done.num_read(), 3);
    assert!(matches!(copy_step(&done, false), CopyStep::Done));
    assert_eq!(done.next_chunk(), 0);
    let mut stuck = ReadCursor::new(3);
    assert_eq!(
        copy_advance(&mut stuck, 0),
        Err(NativeExtensionsError::VirtualFileReceiveError("stream ended prematurely".to_string()))
    );
    assert_eq!(stuck.num_read(), 0);
    assert!(matches!(cancelled_error(), NativeExtensionsError::VirtualFileReceiveError(m) if m == "cancelled"));
}

#[test]
fn temp_names_are_hidden_and_alphanumeric() {
    let a = temp_file_name();
    let b = temp_file_name();
    assert_eq!(a.len(), 31);
    assert!(a.starts_with('.'));
    assert!(a[1..].chars().all(|c| c.is_ascii_alphanumeric()));
    assert_ne!(a, b);
}
