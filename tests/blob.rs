use super_native_extensions::blob::{extract_drop_files, extract_file_descriptors};
use super_native_extensions::error::NativeExtensionsError;

fn drop_files_header(offset: u32, wide: bool) -> Vec<u8> {
    let mut b = Vec::new();
    b.extend_from_slice(&offset.to_le_bytes());
    b.extend_from_slice(&[0u8; 8]);
    b.extend_from_slice(&0u32.to_le_bytes());
    b.extend_from_slice(&(wide as u32).to_le_bytes());
    b
}

fn wide_list(units: &[u16]) -> Vec<u8> {
    let mut b = drop_files_header(20, true);
    for u in units {
        b.extend_from_slice(&u.to_le_bytes());
    }
    b
}

fn descriptor_entry(name: &str, size: Option<u64>) -> Vec<u8> {
    let mut e = vec![0u8; 592];
    if let Some(size) = size {
        e[0..4].copy_from_slice(&0x40u32.to_le_bytes());
        e[64..68].copy_from_slice(&((size >> 32) as u32).to_le_bytes());
        e[68..72].copy_from_slice(&(size as u32).to_le_bytes());
    }
    for (i, u) in name.encode_utf16().enumerate() {
        e[72 + 2 * i..74 + 2 * i].copy_from_slice(&u.to_le_bytes());
    }
    e
}

fn descriptor_blob(entries: &[(&str, Option<u64>)]) -> Vec<u8> {
    let mut b = Vec::new();
    b.extend_from_slice(&(entries.len() as u32).to_le_bytes());
    for (name, size) in entries {
        b.extend_from_slice(&descriptor_entry(name, *size));
    }
    if entries.is_empty() {
        b.extend_from_slice(&vec![0u8; 592]);
    }
    b
}

#[test]
fn test_extract_drop_files() {
    let mut df = drop_files_header(20, false);
    df.extend_from_slice(b"A\0B\0\0");
    let files = extract_drop_files(&df).unwrap();
    assert_eq!(files, vec!["A", "B"]);
}

#[test]
fn test_extract_drop_files_wide() {
    let df = wide_list(&[65, 0, 66, 0, 0]);
    let files = extract_drop_files(&df).unwrap();
    assert_eq!(files, vec!["A", "B"]);
}

#[test]
fn drop_files_round_trip_is_exact_and_repeatable() {
    let paths = ["C:\\docs\\report.pdf", "D:\\x\\\u{e9}t\u{e9}.txt", "z"];
    let mut narrow = drop_files_header(20, false);
    for p in &paths {
        narrow.extend_from_slice(p.as_bytes());
        narrow.push(0);
    }
    narrow.push(0);
    let first = extract_drop_files(&narrow).unwrap();
    assert_eq!(first, paths.to_vec());
    assert_eq!(extract_drop_files(&narrow).unwrap(), first);

    let mut units = Vec::new();
    for p in &paths {
        units.extend(p.encode_utf16());
        units.push(0);
    }
    units.push(0);
    let wide = wide_list(&units);
    let first = extract_drop_files(&wide).unwrap();
    assert_eq!(first, paths.to_vec());
    assert_eq!(extract_drop_files(&wide).unwrap(), first);
}

#[test]
fn drop_files_empty_list() {
    let mut df = drop_files_header(20, false);
    df.push(0);
    assert_eq!(extract_drop_files(&df).unwrap(), Vec::<String>::new());
    let wide = wide_list(&[0]);
    assert_eq!(extract_drop_files(&wide).unwrap(), Vec::<String>::new());
}

#[test]
fn drop_files_with_gap_before_paths() {
    let mut df = drop_files_header(24, false);
    df.extend_from_slice(&[9, 9, 9, 9]);
    df.extend_from_slice(b"one\0\0");
    assert_eq!(extract_drop_files(&df).unwrap(), vec!["one"]);
}

#[test]
fn drop_files_malformed_are_invalid_data() {
    assert_eq!(extract_drop_files(&[0u8; 19]), Err(NativeExtensionsError::InvalidData));
    let past_end = drop_files_header(21, false);
    assert_eq!(extract_drop_files(&past_end), Err(NativeExtensionsError::InvalidData));
    let mut unterminated = drop_files_header(20, false);
    unterminated.extend_from_slice(b"A\0B");
    assert_eq!(extract_drop_files(&unterminated), Err(NativeExtensionsError::InvalidData));
    let mut odd = drop_files_header(20, true);
    odd.extend_from_slice(&[65, 0, 0]);
    assert_eq!(extract_drop_files(&odd), Err(NativeExtensionsError::InvalidData));
}

#[test]
fn drop_files_wide_unterminated_tail_is_dropped() {
    let df = wide_list(&[65, 0, 66]);
    assert_eq!(extract_drop_files(&df).unwrap(), vec!["A"]);
}

#[test]
fn drop_files_narrow_invalid_utf8_is_replaced() {
    let mut df = drop_files_header(20, false);
    df.extend_from_slice(&[0x61, 0xff, 0, 0]);
    assert_eq!(extract_drop_files(&df).unwrap(), vec!["a\u{fffd}"]);
}

#[test]
fn descriptors_parse_names_sizes_and_hints() {
    let blob = descriptor_blob(&[("a.txt", Some(0x1_0000_0005)), ("b.bin", None), ("pic.PNG", None)]);
    let d = extract_file_descriptors(&blob).unwrap();
    assert_eq!(d.len(), 3);
    assert_eq!(d[0].name, "a.txt");
    assert_eq!(d[0].index, 0);
    assert_eq!(d[0].expected_size, Some(0x1_0000_0005));
    assert_eq!(d[0].format, "text/plain");
    assert_eq!(d[1].name, "b.bin");
    assert_eq!(d[1].index, 1);
    assert_eq!(d[1].expected_size, None);
    assert_eq!(d[1].format, "application/octet-stream");
    assert_eq!(d[2].format, "PNG");
}

#[test]
fn descriptors_blank_name_gets_placeholder() {
    let blob = descriptor_blob(&[("x.msg", None), ("  ", None), ("", None)]);
    let d = extract_file_descriptors(&blob).unwrap();
    assert_eq!(d[0].format, "application/vnd.ms-outlook");
    assert_eq!(d[1].name, "outlook_message_1.eml");
    assert_eq!(d[1].format, "message/rfc822");
    assert_eq!(d[2].name, "outlook_message_2.eml");
}

#[test]
fn descriptors_name_fills_whole_field() {
    let long: String = std::iter::repeat('n').take(260).collect();
    let blob = descriptor_blob(&[(&long, None)]);
    let d = extract_file_descriptors(&blob).unwrap();
    assert_eq!(d[0].name, long);
    assert_eq!(d[0].format, "application/octet-stream;extension=");
}

#[test]
fn descriptors_empty_and_malformed() {
    let empty = descriptor_blob(&[]);
    assert_eq!(extract_file_descriptors(&empty).unwrap().len(), 0);
    assert_eq!(extract_file_descriptors(&[0u8; 595]).err(), Some(NativeExtensionsError::InvalidData));
    let mut short = descriptor_blob(&[("a", None), ("b", None)]);
    short.truncate(596 + 591);
    assert_eq!(extract_file_descriptors(&short).err(), Some(NativeExtensionsError::InvalidData));
}
