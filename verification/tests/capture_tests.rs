use screen_recorder::capture::{
    crop, device_name_matches, frame_for_encoder, frame_from_texture, output_size, packed_rows,
    scale_frame, should_list_window, MonitorInfo, RawFrame, WindowInfo,
};

/// A w x h BGRA frame whose pixel (x, y) holds bytes [x, y, x + y, 255].
fn gradient(w: u32, h: u32) -> Vec<u8> {
    let mut v = Vec::new();
    for y in 0..h {
        for x in 0..w {
            v.extend_from_slice(&[x as u8, y as u8, (x + y) as u8, 255]);
        }
    }
    v
}

#[test]
fn crop_inner_rectangle() {
    let data = gradient(4, 3);
    let out = crop(&data, 4, 3, 1, 1, 2, 2);
    assert_eq!(
        out,
        vec![1, 1, 2, 255, 2, 1, 3, 255, 1, 2, 3, 255, 2, 2, 4, 255]
    );
}

#[test]
fn crop_clamps_to_frame() {
    let data = gradient(4, 3);
    // negative origin clamps to 0, oversized extent to what remains
    let out = crop(&data, 4, 3, -5, -5, 100, 100);
    assert_eq!(out, data);
    // origin past the edge clamps to the last column/row, at least one pixel
    let out = crop(&data, 4, 3, 10, 10, 0, 0);
    assert_eq!(out, vec![3, 2, 5, 255]);
}

#[test]
fn packed_rows_drops_padding() {
    // 2x2 pixels with rows 12 bytes apart (4 bytes of padding)
    let mut mapped = Vec::new();
    mapped.extend_from_slice(&[1, 2, 3, 4, 5, 6, 7, 8, 0, 0, 0, 0]);
    mapped.extend_from_slice(&[9, 10, 11, 12, 13, 14, 15, 16]);
    let out = packed_rows(&mapped, 12, 2, 2);
    assert_eq!(out, (1..=16).collect::<Vec<u8>>());
}

#[test]
fn frame_without_region_is_whole_texture() {
    let data = gradient(2, 2);
    let f = frame_from_texture(data.clone(), 2, 2, None, 2, 2, 77);
    assert_eq!(f.data, data);
    assert_eq!((f.width, f.height, f.ts_us), (2, 2, 77));
}

#[test]
fn frame_with_region_is_cropped_and_limited_by_item() {
    let data = gradient(4, 3);
    let f = frame_from_texture(data, 4, 3, Some((1, 1, 2, 2)), 4, 3, 5);
    assert_eq!(f.data.len(), 16);
    assert_eq!((f.width, f.height), (2, 2));
    // the reported size is the region's, capped by the capture item's size
    let data = gradient(4, 3);
    let f = frame_from_texture(data, 4, 3, Some((0, 0, 10, 10)), 3, 2, 5);
    assert_eq!((f.width, f.height), (3, 2));
    assert_eq!(f.data.len(), 4 * 3 * 4);
}

#[test]
fn frame_with_region_past_texture_holds_less_than_reported() {
    // the region runs past the right and bottom edges: the data is the clamped
    // 2 x 2 rectangle, the reported size the region's limited to the 4 x 3 item
    let f = frame_from_texture(gradient(4, 3), 4, 3, Some((2, 1, 5, 5)), 4, 3, 9);
    assert_eq!(f.data.len(), 2 * 2 * 4);
    assert_eq!((f.width, f.height), (4, 3));
    // a region inside the texture and the item holds exactly its pixels
    let f = frame_from_texture(gradient(4, 3), 4, 3, Some((1, 0, 3, 3)), 4, 3, 9);
    assert_eq!(f.data.len() as u32, f.width * f.height * 4);
}

#[test]
fn monitor_from_padded_device_name() {
    let m = MonitorInfo::from_device("\\\\.\\DISPLAY1\0\0\0", -1920, 0, 0, 1080, 1);
    assert_eq!(m.id, "\\\\.\\DISPLAY1");
    assert_eq!(m.name, m.id);
    assert_eq!((m.x, m.y, m.width, m.height), (-1920, 0, 1920, 1080));
    assert!(m.is_primary);
    let m = MonitorInfo::from_device("DISPLAY2", 0, 0, 2560, 1440, 0);
    assert!(!m.is_primary);
}

#[test]
fn monitor_from_utf16_units() {
    let mut units: Vec<u16> = "\\\\.\\DISPLAY3".encode_utf16().collect();
    units.extend_from_slice(&[0, 0, 0, 0]);
    let m = MonitorInfo::from_device_units(&units, 10, 20, 110, 220, 0);
    assert_eq!(m.id, "\\\\.\\DISPLAY3");
    assert_eq!((m.width, m.height), (100, 200));
}

#[test]
fn window_listing_rules() {
    assert!(should_list_window(true, 5, 0));
    assert!(!should_list_window(false, 5, 0));
    assert!(!should_list_window(true, 0, 0));
    assert!(!should_list_window(true, -1, 0));
    assert!(!should_list_window(true, 5, 0x80));
    assert!(should_list_window(true, 5, 0x100));
}

#[test]
fn window_title_from_utf16() {
    let units: Vec<u16> = "Notes — draft".encode_utf16().collect();
    let w = WindowInfo::from_title_units(4242, &units);
    assert_eq!(w.hwnd, 4242);
    assert_eq!(w.title, "Notes — draft");
    // an unpaired surrogate becomes U+FFFD
    let w = WindowInfo::from_title_units(1, &[0x0041, 0xD800, 0x0042]);
    assert_eq!(w.title, "A\u{FFFD}B");
}

#[test]
fn utf16_decoding_cases() {
    // a surrogate pair is one supplementary character
    let units: Vec<u16> = "a😀b".encode_utf16().collect();
    assert_eq!(WindowInfo::from_title_units(0, &units).title, "a😀b");
    // a lone low surrogate, and a high surrogate at the end, become U+FFFD
    assert_eq!(WindowInfo::from_title_units(0, &[0xDC00, 0x41]).title, "\u{FFFD}A");
    assert_eq!(WindowInfo::from_title_units(0, &[0x41, 0xD83D]).title, "A\u{FFFD}");
    // a high surrogate before a non-surrogate: U+FFFD, then that unit on its own
    assert_eq!(WindowInfo::from_title_units(0, &[0xD83D, 0x42]).title, "\u{FFFD}B");
    assert_eq!(WindowInfo::from_title_units(0, &[0xD83D, 0xD83D, 0xDE00]).title, "\u{FFFD}😀");
}

#[test]
fn device_names_match_after_trimming() {
    let mut units: Vec<u16> = "\\\\.\\DISPLAY1".encode_utf16().collect();
    units.extend_from_slice(&[0, 0]);
    assert!(device_name_matches(&units, "\\\\.\\DISPLAY1"));
    assert!(!device_name_matches(&units, "\\\\.\\DISPLAY2"));
    assert!(!device_name_matches(&units, "\\\\.\\DISPLAY1\0"));
}

#[test]
fn output_size_keeps_proportions() {
    assert_eq!(output_size(1920, 1080, None), None);
    assert_eq!(output_size(1920, 1080, Some(1280)), Some((1280, 720)));
    assert_eq!(output_size(2560, 1440, Some(1000)), Some((1000, 562)));
    assert_eq!(output_size(1000, 1, Some(10)), Some((10, 1)));
    assert_eq!(output_size(0, 1080, Some(1280)), None);
    assert_eq!(output_size(1, u32::MAX, Some(u32::MAX)), Some((u32::MAX, u32::MAX)));
}

#[test]
fn scaling_picks_nearest_pixels() {
    let data = gradient(4, 2);
    let out = scale_frame(&data, 4, 2, 2, 1);
    // output (0,0) <- (0,0), (1,0) <- (2,0)
    assert_eq!(out, vec![0, 0, 0, 255, 2, 0, 2, 255]);
    // doubling repeats each pixel
    let data = gradient(2, 1);
    let out = scale_frame(&data, 2, 1, 4, 2);
    assert_eq!(out.len(), 4 * 2 * 4);
    assert_eq!(&out[0..16], &[0, 0, 0, 255, 0, 0, 0, 255, 1, 0, 1, 255, 1, 0, 1, 255]);
    assert_eq!(&out[16..32], &out[0..16]);
}

#[test]
fn encoder_frames_scaled_when_asked() {
    let f = RawFrame { data: gradient(4, 2), width: 4, height: 2, ts_us: 9 };
    let g = frame_for_encoder(f.clone(), Some((2, 1)));
    assert_eq!((g.width, g.height, g.ts_us), (2, 1, 9));
    assert_eq!(g.data.len(), 8);
    let g = frame_for_encoder(f.clone(), None);
    assert_eq!(g.data, f.data);
    // a frame shorter than its size is passed on as it is
    let short = RawFrame { data: vec![0; 8], width: 4, height: 2, ts_us: 1 };
    let g = frame_for_encoder(short, Some((2, 1)));
    assert_eq!((g.width, g.height, g.data.len()), (4, 2, 8));
}
