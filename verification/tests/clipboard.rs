use ecp_clipboard::clipboard::{
    classify_text_kind, dib_image_event, dib_to_bmp, file_paths_event, hash_text, image_digest,
    is_supported_image_extension, raw_image_event, read_u16_le, read_u32_le, rgba_image_event,
    text_event, ClipboardEvent, WatcherState,
};
use ecp_clipboard::clipboard_write::{copy_request, file_paths_from_content, image_to_copy, CopyRequest};
use ecp_clipboard::db::{ClipboardEntry, EntryKind};

fn put_u32(buf: &mut [u8], at: usize, v: u32) {
    buf[at..at + 4].copy_from_slice(&v.to_le_bytes());
}

fn put_u16(buf: &mut [u8], at: usize, v: u16) {
    buf[at..at + 2].copy_from_slice(&v.to_le_bytes());
}

#[test]
fn dib_bitfield_masks_extend_pixel_offset() {
    let mut dib = vec![0u8; 40 + 12 + 4];
    put_u32(&mut dib, 0, 40);
    dib[4..8].copy_from_slice(&1i32.to_le_bytes());
    dib[8..12].copy_from_slice(&1i32.to_le_bytes());
    put_u16(&mut dib, 12, 1);
    put_u16(&mut dib, 14, 32);
    put_u32(&mut dib, 16, 3);
    let bmp = dib_to_bmp(&dib).unwrap();
    assert_eq!(u32::from_le_bytes(bmp[10..14].try_into().unwrap()), 66);
}

#[test]
fn dib_decoder_preserves_bgra_pixel() {
    let mut dib = vec![0u8; 40];
    put_u32(&mut dib, 0, 40);
    dib[4..8].copy_from_slice(&1i32.to_le_bytes());
    dib[8..12].copy_from_slice(&1i32.to_le_bytes());
    put_u16(&mut dib, 12, 1);
    put_u16(&mut dib, 14, 24);
    put_u32(&mut dib, 20, 4);
    dib.extend_from_slice(&[0, 0, 255, 0]);
    let bmp = dib_to_bmp(&dib).unwrap();
    let rgba = image::load_from_memory_with_format(&bmp, image::ImageFormat::Bmp)
        .unwrap()
        .to_rgba8();
    assert_eq!(rgba.dimensions(), (1, 1));
    assert_eq!(rgba.into_raw(), vec![255, 0, 0, 255]);
}

#[test]
fn dib_event_decodes_through_the_image_crate() {
    let mut dib = vec![0u8; 40];
    put_u32(&mut dib, 0, 40);
    dib[4..8].copy_from_slice(&1i32.to_le_bytes());
    dib[8..12].copy_from_slice(&1i32.to_le_bytes());
    put_u16(&mut dib, 12, 1);
    put_u16(&mut dib, 14, 24);
    put_u32(&mut dib, 20, 4);
    dib.extend_from_slice(&[0, 0, 255, 0]);
    match dib_image_event(&dib) {
        Some(ClipboardEvent::Item { kind, image_width, image_height, image_rgba, .. }) => {
            assert_eq!(kind, EntryKind::Image);
            assert_eq!((image_width, image_height), (Some(1), Some(1)));
            assert_eq!(image_rgba, Some(vec![255, 0, 0, 255]));
        }
        _ => panic!("missing image event"),
    }
}

#[test]
fn short_dib_is_refused() {
    assert_eq!(dib_to_bmp(&[0u8; 39]), None);
    assert!(dib_image_event(&[0u8; 39]).is_none());
}

#[test]
fn dib_header_and_palette_set_the_offset() {
    let mut dib = vec![0u8; 40];
    put_u32(&mut dib, 0, 40);
    put_u16(&mut dib, 14, 8);
    let bmp = dib_to_bmp(&dib).unwrap();
    assert_eq!(&bmp[0..2], b"BM");
    assert_eq!(u32::from_le_bytes(bmp[2..6].try_into().unwrap()), 54);
    assert_eq!(u32::from_le_bytes(bmp[10..14].try_into().unwrap()), 14 + 40 + 256 * 4);
    assert_eq!(&bmp[14..], &dib[..]);
    put_u32(&mut dib, 32, 2);
    let bmp = dib_to_bmp(&dib).unwrap();
    assert_eq!(u32::from_le_bytes(bmp[10..14].try_into().unwrap()), 14 + 40 + 8);
}

#[test]
fn little_endian_reads_stay_in_bounds() {
    let bytes = [1u8, 2, 3, 4, 5];
    assert_eq!(read_u16_le(&bytes, 0), Some(0x0201));
    assert_eq!(read_u32_le(&bytes, 1), Some(0x05040302));
    assert_eq!(read_u32_le(&bytes, 2), None);
    assert_eq!(read_u16_le(&bytes, 4), None);
}

#[test]
fn image_event_keeps_original_dimensions() {
    let event = rgba_image_event(301, 227, vec![17; 301 * 227 * 4]);
    let ClipboardEvent::Item { image_width, image_height, image_rgba, .. } = event else {
        panic!("missing image event")
    };
    assert_eq!((image_width, image_height), (Some(301), Some(227)));
    assert_eq!(image_rgba.unwrap().len(), 301 * 227 * 4);
}

#[test]
fn image_event_content_names_size_and_hash() {
    let event = rgba_image_event(1, 1, vec![1, 2, 3, 4]);
    let ClipboardEvent::Item { content, hash, .. } = event else { panic!("missing image event") };
    assert_eq!(hash, "47be0ce84d230de92e1ac78e275c9dd974b56567686eb2f2653b9ebd43b91125");
    assert_eq!(content, format!("Image 1x1 [{hash}]"));
    assert_eq!(image_digest(&[], 1, 1, &[1, 2, 3, 4]), hash);
}

#[test]
fn raw_image_needs_its_pixels() {
    assert!(raw_image_event(2, 2, vec![0; 15]).is_none());
    assert!(raw_image_event(2, 2, vec![0; 16]).is_some());
}

#[test]
fn text_hash_is_sha256_of_kind_and_content() {
    assert_eq!(
        hash_text(EntryKind::Text, "hello"),
        "473e56132817db95336d33bf282013826b44e2ae69d669533bcd37e9da050f66"
    );
    assert_eq!(
        hash_text(EntryKind::Url, "https://example.com"),
        "38f7b09073699bc9a60e2af6246253868a1559acda32a694fd0356f8e4b290c8"
    );
}

#[test]
fn urls_are_recognised_after_trimming() {
    assert_eq!(classify_text_kind("  HTTPS://Example.com/a?b=1 "), EntryKind::Url);
    assert_eq!(classify_text_kind("http://a b"), EntryKind::Text);
    assert_eq!(classify_text_kind("ftp://example.com"), EntryKind::Text);
    assert!(text_event("   \n".to_string()).is_none());
    match text_event("hello".to_string()) {
        Some(ClipboardEvent::Item { kind, hash, .. }) => {
            assert_eq!(kind, EntryKind::Text);
            assert_eq!(hash, hash_text(EntryKind::Text, "hello"));
        }
        _ => panic!("missing text event"),
    }
}

#[test]
fn file_list_event_joins_paths() {
    assert!(file_paths_event(&vec![], None).is_none());
    let paths = vec!["C:\\a.png".to_string(), "D:\\b.txt".to_string()];
    match file_paths_event(&paths, Some((1, 1, vec![1, 2, 3, 4]))) {
        Some(ClipboardEvent::Item { kind, content, image_width, image_rgba, .. }) => {
            assert_eq!(kind, EntryKind::FilePaths);
            assert_eq!(content, "C:\\a.png\nD:\\b.txt");
            assert_eq!(image_width, Some(1));
            assert_eq!(image_rgba, Some(vec![1, 2, 3, 4]));
        }
        _ => panic!("missing file event"),
    }
}

#[test]
fn repeated_item_is_sent_once() {
    let mut watcher = WatcherState::new();
    let event = text_event("same".to_string()).unwrap();
    assert!(watcher.observe(&event));
    assert!(!watcher.observe(&event));
    let other = text_event("other".to_string()).unwrap();
    assert!(watcher.observe(&other));
    assert!(watcher.observe(&event));
    let reload = ClipboardEvent::ReloadLimits { max_history: 20, max_image_bytes: 1 };
    assert!(!watcher.observe(&reload));
}

#[test]
fn image_extensions_in_any_case() {
    assert!(is_supported_image_extension(Some("PNG")));
    assert!(is_supported_image_extension(Some("webp")));
    assert!(is_supported_image_extension(Some("Jpeg")));
    assert!(!is_supported_image_extension(Some("txt")));
    assert!(!is_supported_image_extension(None));
}

#[test]
fn file_list_keeps_each_path_in_original_order() {
    assert_eq!(
        file_paths_from_content("C:\\one.txt\nD:\\two.png\n"),
        vec!["C:\\one.txt", "D:\\two.png"],
    );
}

#[test]
fn file_list_drops_empty_lines_and_carriage_returns() {
    assert_eq!(file_paths_from_content("a\r\n\r\nb"), vec!["a", "b"]);
    assert!(file_paths_from_content("").is_empty());
}

fn entry(kind: EntryKind, content: &str) -> ClipboardEntry {
    ClipboardEntry {
        id: 7,
        kind,
        content: content.to_string(),
        image_width: None,
        image_height: None,
        image_rgba: None,
        created_at: 0,
        updated_at: 0,
        asset_hash: None,
        legacy_preview: false,
    }
}

#[test]
fn copy_request_follows_the_kind() {
    match copy_request(&entry(EntryKind::Url, "https://x")) {
        CopyRequest::Text(t) => assert_eq!(t, "https://x"),
        _ => panic!("url copies as text"),
    }
    match copy_request(&entry(EntryKind::FilePaths, "a\nb")) {
        CopyRequest::Files(f) => assert_eq!(f, vec!["a", "b"]),
        _ => panic!("file list copies as files"),
    }
    match copy_request(&entry(EntryKind::FilePaths, "\n")) {
        CopyRequest::Text(t) => assert_eq!(t, "\n"),
        _ => panic!("an empty list copies as text"),
    }
    assert!(matches!(copy_request(&entry(EntryKind::Image, "img")), CopyRequest::Image(7)));
    assert_eq!(image_to_copy(None).unwrap_err(), "image data is unavailable");
    assert_eq!(image_to_copy(Some((1, 1, vec![0; 4]))).unwrap().2, vec![0; 4]);
}
