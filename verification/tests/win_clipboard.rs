use ruiss::platform::win::bitmap::{
    dib_bytes_to_png, dib_size_fits, image_to_dib, png_to_dib, rgba_to_dib,
};
use ruiss::platform::win::clipboard::{
    files_for_clipboard, hdrop_bytes, hdrop_paths, preferred_drop_effect, read_clipboard,
    render_clipboard_hdrop, text_bytes, ClipboardAction, ClipboardWindow, CF_HDROP,
    WM_CLIPBOARDUPDATE, WM_DESTROYCLIPBOARD, WM_RENDERALLFORMATS, WM_RENDERFORMAT,
};
use ruiss::platform::{
    complete_paste_ready, new_paste_ready, preferred_content, wait_paste_ready, ClipboardContent,
    ClipboardWatcherHandle,
};
use ruiss::utf16::{push_utf16, text_from_utf16_lossy, text_up_to_nul};

fn pixels(w: u32, h: u32) -> Vec<u8> {
    (0..w * h * 4).map(|i| (i * 7 % 251) as u8).collect()
}

#[test]
fn bitmap_in_its_exact_form() {
    let dib = rgba_to_dib(1, 2, &[1, 2, 3, 4, 5, 6, 7, 8]);
    assert_eq!(dib.len(), 48);
    assert_eq!(dib[..20], [40, 0, 0, 0, 1, 0, 0, 0, 2, 0, 0, 0, 1, 0, 32, 0, 0, 0, 0, 0]);
    assert_eq!(dib[20..24], [8, 0, 0, 0]);
    assert_eq!(dib[40..], [7, 6, 5, 8, 3, 2, 1, 4]);
}

#[test]
fn picture_survives_the_way_through_png() {
    for (w, h) in [(1, 1), (3, 2), (17, 9)] {
        let dib = rgba_to_dib(w, h, &pixels(w, h));
        assert!(dib_size_fits(&dib));
        let png = dib_bytes_to_png(&dib).unwrap();
        assert_eq!(png[..8], [137, 80, 78, 71, 13, 10, 26, 10]);
        assert_ne!(png, dib);
        assert_eq!(png_to_dib(&png).unwrap(), dib);
    }
}

#[test]
fn bitmap_of_24_bits_from_the_top_is_read() {
    let mut dib = vec![0u8; 40];
    dib[0] = 40;
    dib[4] = 1;
    dib[8..12].copy_from_slice(&(-2i32).to_le_bytes());
    dib[14] = 24;
    dib.extend_from_slice(&[10, 20, 30, 0, 40, 50, 60, 0]);
    let png = dib_bytes_to_png(&dib).unwrap();
    let back = png_to_dib(&png).unwrap();
    assert_eq!(back[40..], [40, 50, 60, 255, 10, 20, 30, 255]);
}

#[test]
fn bitmaps_that_cannot_be_read() {
    let good = rgba_to_dib(2, 2, &pixels(2, 2));
    assert!(dib_bytes_to_png(&good[..39]).is_none());
    assert!(dib_bytes_to_png(&good[..good.len() - 1]).is_none());
    let mut odd = good.clone();
    odd[14] = 16;
    assert!(dib_bytes_to_png(&odd).is_none());
    let mut empty = good.clone();
    empty[4] = 0;
    assert!(dib_bytes_to_png(&empty).is_none());
    let mut huge = good;
    huge[4..12].copy_from_slice(&[0xff, 0xff, 0xff, 0xff, 0, 0, 0, 0x80]);
    assert!(dib_size_fits(&huge));
    assert!(dib_bytes_to_png(&huge).is_none());
}

#[test]
fn pngs_that_cannot_be_read() {
    assert!(png_to_dib(b"no png").is_none());
    assert!(png_to_dib(&[0xff; 64]).is_none());
    assert!(image_to_dib(None).is_none());
    assert!(image_to_dib(Some((2, 2, vec![0; 15]))).is_none());
    assert!(image_to_dib(Some((0x1_0000, 0x1_0000, Vec::new()))).is_none());
    assert!(image_to_dib(Some((2, 2, vec![0; 16]))).is_some());
    let mut gray = Vec::new();
    {
        let mut enc = png::Encoder::new(&mut gray, 2, 2);
        enc.set_color(png::ColorType::Grayscale);
        enc.set_depth(png::BitDepth::Eight);
        enc.write_header().unwrap().write_image_data(&[1, 2, 3, 4]).unwrap();
    }
    assert!(png_to_dib(&gray).is_none());
}

#[test]
fn text_in_utf16() {
    for s in ["", "plain", "日本語", "a😀b", "\u{10FFFF}\u{FFFF}"] {
        let mut v = Vec::new();
        push_utf16(&mut v, s);
        assert_eq!(v, s.encode_utf16().collect::<Vec<u16>>());
        assert_eq!(text_from_utf16_lossy(&v), s);
        v.push(0);
        v.push(77);
        assert_eq!(text_up_to_nul(&v), s);
    }
    for v in [
        vec![0xD800u16],
        vec![0xDC00, 65],
        vec![0xD800, 65],
        vec![0xD83D, 0xD83D, 0xDE00],
        vec![0xDE00, 0xD83D],
    ] {
        assert_eq!(text_from_utf16_lossy(&v), String::from_utf16_lossy(&v));
    }
    assert_eq!(text_bytes("é"), vec![0xE9, 0, 0, 0]);
}

#[test]
fn list_of_files_in_its_exact_form() {
    let paths = vec!["a".to_string(), "bc".to_string()];
    let bytes = hdrop_bytes(&paths);
    assert_eq!(bytes[..4], [20, 0, 0, 0]);
    assert!(bytes[4..16].iter().all(|b| *b == 0));
    assert_eq!(bytes[16..20], [1, 0, 0, 0]);
    assert_eq!(bytes[20..], [b'a', 0, 0, 0, b'b', 0, b'c', 0, 0, 0, 0, 0]);
    assert_eq!(files_for_clipboard(&paths), Some(bytes.clone()));
    assert_eq!(files_for_clipboard(&Vec::new()), None);
    assert_eq!(render_clipboard_hdrop(Ok(paths)), Some(bytes));
    assert_eq!(render_clipboard_hdrop(Ok(Vec::new())), None);
    assert_eq!(render_clipboard_hdrop(Err("late".into())), None);
    assert_eq!(preferred_drop_effect(), vec![1, 0, 0, 0]);
    let names = vec![vec![97, 0, 9], Vec::new(), vec![98]];
    assert_eq!(hdrop_paths(&names), vec!["a".to_string(), "b".to_string()]);
}

#[test]
fn files_count_before_pictures_and_pictures_before_text() {
    let text = || Some(vec![104u16, 105, 0, 1]);
    let dib = || Some(rgba_to_dib(1, 1, &[1, 2, 3, 4]));
    match read_clipboard(Some(vec![vec![97]]), Some(vec![1]), dib(), text()) {
        ClipboardContent::Files(f) => assert_eq!(f, vec!["a".to_string()]),
        _ => panic!("files count first"),
    }
    match read_clipboard(Some(Vec::new()), Some(vec![1]), dib(), text()) {
        ClipboardContent::Image(i) => assert_eq!(i, vec![1]),
        _ => panic!("a PNG counts before a bitmap"),
    }
    match read_clipboard(None, None, dib(), text()) {
        ClipboardContent::Image(i) => assert_eq!(png_to_dib(&i), dib()),
        _ => panic!("a bitmap counts before text"),
    }
    match read_clipboard(None, None, Some(vec![0; 3]), text()) {
        ClipboardContent::Text(t) => assert_eq!(t, "hi"),
        _ => panic!("a broken bitmap does not count"),
    }
    assert!(read_clipboard(None, None, None, None).is_empty());
    assert!(!preferred_content(None, None, Some(String::new())).is_empty());
}

#[test]
fn own_change_is_skipped_once() {
    let mut w = ClipboardWindow::new();
    assert!(matches!(w.on_message(WM_CLIPBOARDUPDATE, 0, 5), ClipboardAction::Read));
    w.remember_local_clipboard_sequence(6);
    assert!(matches!(w.on_message(WM_CLIPBOARDUPDATE, 0, 6), ClipboardAction::Handled));
    assert!(matches!(w.on_message(WM_CLIPBOARDUPDATE, 0, 6), ClipboardAction::Read));
    w.remember_local_clipboard_sequence(0);
    assert!(matches!(w.on_message(WM_CLIPBOARDUPDATE, 0, 0), ClipboardAction::Read));
    assert!(matches!(w.on_message(0x0001, 0, 0), ClipboardAction::Pass));
}

#[test]
fn offered_files_can_be_pasted_once() {
    let mut w = ClipboardWindow::new();
    assert!(matches!(w.on_message(WM_RENDERFORMAT, CF_HDROP, 0), ClipboardAction::Handled));
    w.offer("o1".into(), true);
    assert!(matches!(
        w.on_message(WM_RENDERFORMAT, CF_HDROP, 0),
        ClipboardAction::Render(id) if id == "o1"
    ));
    assert!(matches!(w.on_message(WM_RENDERFORMAT, CF_HDROP, 0), ClipboardAction::Handled));
    for gone in [WM_RENDERALLFORMATS, WM_DESTROYCLIPBOARD] {
        w.offer("o2".into(), true);
        assert!(matches!(w.on_message(gone, 0, 0), ClipboardAction::Handled));
        assert!(w.offered.is_none());
    }
    w.offer("o3".into(), true);
    assert!(matches!(w.on_message(WM_RENDERFORMAT, 13, 0), ClipboardAction::Handled));
    assert!(w.offered.is_none());
    w.offer("o4".into(), false);
    assert!(w.offered.is_none());
}

#[test]
fn paste_waits_for_its_result() {
    let mut ready = new_paste_ready();
    assert_eq!(wait_paste_ready(&mut ready, false), None);
    complete_paste_ready(&mut ready, Ok(vec!["x".into()]));
    assert_eq!(
        wait_paste_ready(&mut ready, true),
        Some(Err("等待对端文件传输超时".to_string()))
    );
    assert_eq!(wait_paste_ready(&mut ready, false), Some(Ok(vec!["x".to_string()])));
    assert_eq!(wait_paste_ready(&mut ready, false), None);
    let mut watcher = ClipboardWatcherHandle::started();
    assert!(watcher.stop());
    assert!(!watcher.stop());
}
