use super_native_extensions::blob::{extract_file_descriptors, FileDescriptor};
use super_native_extensions::data_reader::{
    bmp_file_from_dib, filter_consumable_formats, truncate_unicode_text, ClipboardFormat,
    DataRoute, FormatEntry, PlatformDataReader,
};
use super_native_extensions::error::NativeExtensionsError;
use super_native_extensions::formats::{
    format_hint_for_name, format_to_string, internal_format_name, internal_format_number,
    mime_from_name, mime_to_windows, CF_DIB, CF_DIBV5, CF_HDROP, CF_UNICODETEXT,
};

const PNG: u32 = 0xC123;

fn fmt(id: u32, name: &str) -> ClipboardFormat {
    ClipboardFormat { id, name: name.to_string() }
}

fn descriptor(name: &str, index: usize) -> FileDescriptor {
    FileDescriptor {
        name: name.to_string(),
        format: format_hint_for_name(name),
        index,
        expected_size: None,
    }
}

fn reader(
    formats: Vec<ClipboardFormat>,
    descriptors: Option<Vec<FileDescriptor>>,
    hdrop: Option<Vec<String>>,
) -> PlatformDataReader {
    let mut r = PlatformDataReader::new(PNG);
    r.set_formats_raw(formats);
    r.set_file_descriptors(descriptors);
    r.set_hdrop(hdrop);
    r
}

fn descriptor_blob(names: &[&str]) -> Vec<u8> {
    let mut b = Vec::new();
    b.extend_from_slice(&(names.len() as u32).to_le_bytes());
    for name in names {
        let mut e = vec![0u8; 592];
        for (i, u) in name.encode_utf16().enumerate() {
            e[72 + 2 * i..74 + 2 * i].copy_from_slice(&u.to_le_bytes());
        }
        b.extend_from_slice(&e);
    }
    b
}

#[test]
fn item_count_over_all_combinations() {
    for nd in [0usize, 1, 3] {
        for nh in [0usize, 1, 3] {
            for has_format in [false, true] {
                let descriptors = if nd == 0 {
                    None
                } else {
                    Some((0..nd).map(|i| descriptor(&format!("f{i}.txt"), i)).collect())
                };
                let hdrop = if nh == 0 {
                    None
                } else {
                    Some((0..nh).map(|i| format!("C:/d/f{i}.txt")).collect())
                };
                let formats = if has_format { vec![fmt(CF_UNICODETEXT, "NativeShell_CF_13")] } else { vec![] };
                let r = reader(formats, descriptors, hdrop);
                let expected = if nd.max(nh) > 0 {
                    nd.max(nh)
                } else if has_format {
                    1
                } else {
                    0
                };
                assert_eq!(r.item_count(), expected, "descriptors {nd}, files {nh}, format {has_format}");
                let items: Vec<i64> = (0..expected as i64).collect();
                assert_eq!(r.get_items_sync(), items);
            }
        }
    }
}

#[test]
fn scenario_descriptors_without_dropped_files() {
    let blob = descriptor_blob(&["a.txt", "b.bin"]);
    let descriptors = extract_file_descriptors(&blob).unwrap();
    let r = reader(vec![fmt(0xC001, "FileGroupDescriptorW")], Some(descriptors), None);
    assert_eq!(r.item_count(), 2);
    let f0 = r.get_formats_for_item_sync(0);
    assert_eq!(f0, vec!["text/plain".to_string(), "FileGroupDescriptorW".to_string()]);
    assert_eq!(r.get_formats_for_item_sync(1), vec!["application/octet-stream".to_string()]);
    assert_eq!(r.get_formats_for_item_sync(2), Vec::<String>::new());
    assert!(r.can_copy_virtual_file_for_item(0, "text/plain"));
    assert!(!r.can_copy_virtual_file_for_item(0, "PNG"));
    assert!(r.can_read_virtual_file_for_item(1, "application/octet-stream"));
    assert!(!r.can_read_virtual_file_for_item(-1, "application/octet-stream"));
}

#[test]
fn scenario_bitmap_synthesizes_png() {
    let r = reader(vec![fmt(CF_DIB, "NativeShell_CF_8")], None, None);
    assert!(r.need_to_synthesize_png());
    assert_eq!(r.data_object_formats(), vec![CF_DIB, PNG]);
    assert_eq!(r.format_names(), vec!["NativeShell_CF_8".to_string(), "PNG".to_string()]);
    assert!(r.item_format_is_synthesized(0, "PNG"));
    assert!(matches!(r.data_route(0, PNG), DataRoute::SynthesizedPng));
    assert_eq!(r.png_source_format(), Some(CF_DIB));
    let bmp = bmp_file_from_dib(&[1, 2, 3]);
    assert_eq!(bmp, vec![0x42, 0x4d, 17, 0, 0, 0, 0, 0, 0, 0, 0, 0, 0, 0, 1, 2, 3]);

    let with_png = reader(vec![fmt(CF_DIBV5, "NativeShell_CF_17"), fmt(PNG, "PNG")], None, None);
    assert!(!with_png.need_to_synthesize_png());
    assert!(!with_png.item_format_is_synthesized(0, "PNG"));
    assert!(matches!(with_png.data_route(0, PNG), DataRoute::Direct(f) if f == PNG));
    assert_eq!(with_png.png_source_format(), Some(CF_DIBV5));
}

#[test]
fn data_routes() {
    let r = reader(
        vec![fmt(CF_HDROP, "NativeShell_CF_15"), fmt(CF_UNICODETEXT, "NativeShell_CF_13")],
        None,
        Some(vec!["C:/a/x.txt".to_string()]),
    );
    assert!(matches!(r.data_route(0, CF_HDROP), DataRoute::DroppedFile(Some(p)) if p == "C:/a/x.txt"));
    assert!(matches!(r.data_route(1, CF_HDROP), DataRoute::DroppedFile(None)));
    assert!(matches!(r.data_route(0, CF_UNICODETEXT), DataRoute::Direct(f) if f == CF_UNICODETEXT));
    assert!(matches!(r.data_route(0, 0xC555), DataRoute::Unavailable));
    assert_eq!(r.png_source_format(), None);
}

#[test]
fn formats_for_dropped_files() {
    let r = reader(
        vec![fmt(CF_HDROP, "NativeShell_CF_15")],
        None,
        Some(vec!["C:/a/x.txt".to_string(), "C:/a/y.png".to_string(), "C:/a/z".to_string()]),
    );
    assert_eq!(r.item_count(), 3);
    assert_eq!(r.get_formats_for_item_sync(0), vec!["NativeShell_CF_15".to_string()]);
    assert_eq!(r.get_formats_for_item_sync(2), vec!["NativeShell_CF_15".to_string()]);
    assert_eq!(r.get_formats_for_item_sync(3), Vec::<String>::new());
    assert_eq!(r.get_item_format_for_uri(1), Some("PNG".to_string()));
    assert_eq!(r.get_item_format_for_uri(5), None);
    assert_eq!(r.get_suggested_name_for_item(1, false), Some("y.png".to_string()));
}

#[test]
fn suggested_names() {
    let mail = reader(
        vec![fmt(0xC010, "RenPrivateMessages"), fmt(0xC011, "FileGroupDescriptorW")],
        Some(vec![descriptor("Meeting notes", 0), descriptor("a.EML", 1), descriptor("x.y", 2)]),
        None,
    );
    assert!(mail.probably_outlook_message());
    assert_eq!(mail.get_suggested_name_for_item(0, false), Some("Meeting notes.msg".to_string()));
    assert_eq!(mail.get_suggested_name_for_item(1, false), Some("a.EML".to_string()));
    assert_eq!(mail.get_suggested_name_for_item(2, false), Some("x.y".to_string()));
    assert_eq!(mail.get_suggested_name_for_item(7, false), Some("outlook_message.msg".to_string()));

    let plain = reader(vec![], Some(vec![descriptor("Notes", 0)]), None);
    assert_eq!(plain.get_suggested_name_for_item(0, false), Some("Notes".to_string()));

    let browser = reader(vec![fmt(0xC020, "Chromium Web Custom MIME Data Format")], None, None);
    assert_eq!(browser.fallback_name(false), "outlook_email.msg");
    let image = reader(vec![fmt(PNG, "PNG")], None, None);
    assert_eq!(image.get_suggested_name_for_item(0, false), Some("image.tmp".to_string()));
    assert_eq!(image.get_suggested_name_for_item(0, true), Some("outlook_email.msg".to_string()));
    let text = reader(vec![fmt(0xC030, "Rich Text Format TEXT")], None, None);
    assert_eq!(text.fallback_name(false), "text_content.txt");
    let upper = reader(vec![fmt(0xC031, "FILECONTENTS"), fmt(0xC032, "CF_HDROP")], None, None);
    assert_eq!(upper.fallback_name(false), "outlook_message.msg");
    let upper_only = reader(vec![fmt(0xC031, "FILECONTENTS")], None, None);
    assert_eq!(upper_only.fallback_name(false), "outlook_email.msg");
    let nothing = reader(vec![fmt(0xC040, "Something")], None, None);
    assert_eq!(nothing.fallback_name(false), "outlook_email.msg");
}

#[test]
fn orphan_file_contents_get_a_descriptor() {
    let mail = reader(vec![fmt(0xC010, "RenPrivateMessages")], None, None);
    let d = mail.resolve_file_descriptors(None, true).unwrap().unwrap();
    assert_eq!(d.len(), 1);
    assert_eq!(d[0].name, "outlook_message.eml");
    assert_eq!(d[0].format, "message/rfc822");
    assert_eq!(d[0].index, 0);
    let web = reader(vec![fmt(0xC020, "chromium/x-renderer")], None, None);
    let d = web.resolve_file_descriptors(None, true).unwrap().unwrap();
    assert_eq!(d[0].name, "web_download.tmp");
    let other = reader(vec![], None, None);
    let d = other.resolve_file_descriptors(None, true).unwrap().unwrap();
    assert_eq!(d[0].name, "attachment.tmp");
    assert_eq!(d[0].format, "application/octet-stream");
    assert!(other.resolve_file_descriptors(None, false).unwrap().is_none());
    let blob = descriptor_blob(&["q.gif"]);
    let d = other.resolve_file_descriptors(Some(&blob), true).unwrap().unwrap();
    assert_eq!(d[0].format, "GIF");
    assert_eq!(
        other.resolve_file_descriptors(Some(&[0u8; 10]), true).err(),
        Some(NativeExtensionsError::InvalidData)
    );
}

#[test]
fn caches_are_filled_once() {
    let mut r = PlatformDataReader::new(PNG);
    assert!(!r.formats_known());
    r.set_formats_raw(vec![fmt(CF_DIB, "NativeShell_CF_8")]);
    r.set_formats_raw(vec![]);
    assert_eq!(r.data_object_formats(), vec![CF_DIB, PNG]);
    r.set_hdrop(None);
    r.set_hdrop(Some(vec!["a".to_string()]));
    assert!(r.hdrop_for_item(0).is_none());
    r.set_file_descriptors(None);
    assert!(r.descriptors_known());
    assert!(!r.supports_async());
    r.set_supports_async();
    assert!(r.supports_async());
    assert_eq!(r.png_format(), PNG);
}

#[test]
fn consumable_formats_are_kept_in_order() {
    let entries = vec![
        FormatEntry { format: 1, tymed: 1 },
        FormatEntry { format: 2, tymed: 8 },
        FormatEntry { format: 3, tymed: 4 },
        FormatEntry { format: 4, tymed: 2 },
        FormatEntry { format: 5, tymed: 13 },
    ];
    assert_eq!(filter_consumable_formats(&entries), vec![1, 3, 5]);
}

#[test]
fn unicode_text_is_cut_at_terminator() {
    let mut d = vec![65, 0, 66, 0, 0, 0, 67, 0];
    truncate_unicode_text(&mut d);
    assert_eq!(d, vec![65, 0, 66, 0]);
    let mut odd = vec![65, 0, 0];
    truncate_unicode_text(&mut odd);
    assert_eq!(odd, vec![65, 0, 0]);
    let mut misaligned = vec![65, 0, 0, 66, 0];
    truncate_unicode_text(&mut misaligned);
    assert_eq!(misaligned, vec![65, 0, 0, 66, 0]);
}

#[test]
fn format_names_and_numbers() {
    assert_eq!(internal_format_name(15), "NativeShell_CF_15");
    assert_eq!(format_to_string(15, None), "NativeShell_CF_15");
    assert_eq!(format_to_string(0xC001, Some("HTML Format".to_string())), "HTML Format");
    assert_eq!(internal_format_number("NativeShell_CF_42"), Some(42));
    assert_eq!(internal_format_number("NativeShell_CF_+7"), Some(7));
    assert_eq!(internal_format_number("NativeShell_CF_x"), Some(0));
    assert_eq!(internal_format_number("NativeShell_CF_99999999999"), Some(0));
    assert_eq!(internal_format_number("PNG"), None);
}

#[test]
fn mime_guesses() {
    assert_eq!(mime_from_name("Mail.MSG"), "application/vnd.ms-outlook");
    assert_eq!(mime_from_name("m.eml"), "message/rfc822");
    assert_eq!(mime_from_name("photo.jpg"), "image/jpeg");
    assert_eq!(mime_from_name("noext"), "application/octet-stream;extension=");
    assert_eq!(mime_from_name("a.zzqq"), "application/octet-stream;extension=zzqq");
    assert_eq!(mime_to_windows("image/jpeg".to_string()), "JFIF");
    assert_eq!(mime_to_windows("image/gif".to_string()), "GIF");
    assert_eq!(mime_to_windows("image/tiff".to_string()), "NativeShell_CF_6");
    assert_eq!(mime_to_windows("text/plain".to_string()), "text/plain");
    assert_eq!(format_hint_for_name("x.png"), "PNG");
}

#[test]
fn base_names_of_slash_paths() {
    let r = reader(
        vec![],
        None,
        Some(vec!["/home/u/report.final.pdf".to_string(), "rel/dir/notes".to_string(), "top.txt".to_string()]),
    );
    assert_eq!(r.get_suggested_name_for_item(0, false), Some("report.final.pdf".to_string()));
    assert_eq!(r.get_suggested_name_for_item(1, false), Some("notes".to_string()));
    assert_eq!(r.get_suggested_name_for_item(2, false), Some("top.txt".to_string()));
    assert_eq!(r.get_item_format_for_uri(0), Some("application/pdf".to_string()));
    assert_eq!(r.get_item_format_for_uri(1), Some("application/octet-stream;extension=".to_string()));
}

#[test]
fn hints_for_names_with_folders() {
    assert_eq!(format_hint_for_name("folder/pic.png"), "PNG");
    assert_eq!(format_hint_for_name("folder\\mail.msg"), "application/vnd.ms-outlook");
    assert_eq!(mime_from_name("a.dir/noext"), "application/octet-stream;extension=");
}
