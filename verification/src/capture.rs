//! Frames captured from a screen or a window, and the pixel-buffer work done on them.

use vstd::prelude::*;

use crate::text::{text_eq, trim_trailing_nuls, without_trailing_nuls};

verus! {

/// `v` limited to the closed range `lo..=hi`.
pub open spec fn clamp_int(v: int, lo: int, hi: int) -> int {
    if v < lo {
        lo
    } else if v > hi {
        hi
    } else {
        v
    }
}

pub open spec fn min_int(a: int, b: int) -> int {
    if a <= b { a } else { b }
}

pub open spec fn max_int(a: int, b: int) -> int {
    if a >= b { a } else { b }
}

/// Left edge of a crop rectangle once clamped into a frame `w` pixels wide.
pub open spec fn crop_left(w: u32, x: i32) -> int {
    clamp_int(x as int, 0, w - 1)
}

/// Top edge of a crop rectangle once clamped into a frame `h` pixels high.
pub open spec fn crop_top(h: u32, y: i32) -> int {
    clamp_int(y as int, 0, h - 1)
}

/// Width of a crop rectangle once clamped: at least one pixel, never past the right edge.
pub open spec fn crop_width(w: u32, x: i32, cw: u32) -> int {
    max_int(min_int(cw as int, w - crop_left(w, x)), 1)
}

/// Height of a crop rectangle once clamped: at least one row, never past the bottom edge.
pub open spec fn crop_height(h: u32, y: i32, ch: u32) -> int {
    max_int(min_int(ch as int, h - crop_top(h, y)), 1)
}

/// Byte offset of pixel (`col`, `row`) in a BGRA buffer whose rows are `w` pixels.
pub open spec fn pixel_offset(w: int, col: int, row: int) -> int {
    (row * w + col) * 4
}

/// The bytes of `n` rows of width `cw`, starting at pixel (`x0`, `y0`), laid end to end.
pub open spec fn rows_from(data: Seq<u8>, w: int, x0: int, cw: int, y0: int, n: nat) -> Seq<u8>
    decreases n,
{
    if n == 0 {
        Seq::empty()
    } else {
        let start = pixel_offset(w, x0, y0 + n - 1);
        rows_from(data, w, x0, cw, y0, (n - 1) as nat) + data.subrange(start, start + cw * 4)
    }
}

/// The BGRA bytes of the clamped crop rectangle of a `w` x `h` frame.
pub open spec fn cropped(data: Seq<u8>, w: u32, h: u32, x: i32, y: i32, cw: u32, ch: u32) -> Seq<u8> {
    rows_from(
        data,
        w as int,
        crop_left(w, x),
        crop_width(w, x, cw),
        crop_top(h, y),
        crop_height(h, y, ch) as nat,
    )
}

/// A crop can be taken: the frame is non-empty, its sides fit in an `i32`, and the
/// buffer holds every byte up to the end of the last cropped row.
pub open spec fn crop_in_bounds(len: int, w: u32, h: u32, x: i32, y: i32, cw: u32, ch: u32) -> bool {
    &&& 1 <= w <= i32::MAX
    &&& 1 <= h <= i32::MAX
    &&& len >= pixel_offset(
        w as int,
        crop_left(w, x) + crop_width(w, x, cw),
        crop_top(h, y) + crop_height(h, y, ch) - 1,
    )
}

/// Whether `crop` can be applied to a buffer of `len` bytes.
pub fn crop_fits(len: usize, w: u32, h: u32, x: i32, y: i32, cw: u32, ch: u32) -> (b: bool)
    ensures
        b == crop_in_bounds(len as int, w, h, x, y, cw, ch),
{
    if w < 1 || w > i32::MAX as u32 || h < 1 || h > i32::MAX as u32 {
        return false;
    }
    let wi = w as i32;
    let hi = h as i32;
    let x0: u32 = if x < 0 { 0 } else if x > wi - 1 { (wi - 1) as u32 } else { x as u32 };
    let y0: u32 = if y < 0 { 0 } else if y > hi - 1 { (hi - 1) as u32 } else { y as u32 };
    let cw0: u32 = if cw < w - x0 { cw } else { w - x0 };
    let cw0: u32 = if cw0 < 1 { 1 } else { cw0 };
    let ch0: u32 = if ch < h - y0 { ch } else { h - y0 };
    let ch0: u32 = if ch0 < 1 { 1 } else { ch0 };
    let last_row = (y0 + ch0 - 1) as u128;
    assert(last_row * (w as u128) <= 0x7fff_ffff * 0x7fff_ffff) by (nonlinear_arith)
        requires
            last_row <= 0x7fff_ffff,
            w <= 0x7fff_ffff,
    ;
    let need: u128 = (last_row * (w as u128) + (x0 + cw0) as u128) * 4;
    (len as u128) >= need
}

proof fn lemma_row_end_in_bounds(w: int, x0: int, cw: int, row: int, last: int)
    requires
        0 <= row <= last,
        0 <= x0,
        1 <= cw,
        x0 + cw <= w,
    ensures
        0 <= pixel_offset(w, x0, row),
        pixel_offset(w, x0, row) + cw * 4 <= pixel_offset(w, x0 + cw, last),
{
    assert(row * w <= last * w) by (nonlinear_arith)
        requires
            0 <= row <= last,
            0 <= w,
    ;
    assert(0 <= row * w) by (nonlinear_arith)
        requires
            0 <= row,
            0 <= w,
    ;
}

/// Crop a BGRA buffer (clamped to bounds).
pub fn crop(data: &[u8], w: u32, h: u32, x: i32, y: i32, cw: u32, ch: u32) -> (out: Vec<u8>)
    requires
        crop_in_bounds(data@.len() as int, w, h, x, y, cw, ch),
    ensures
        out@ == cropped(data@, w, h, x, y, cw, ch),
{
    let wi = w as i32;
    let hi = h as i32;
    let x0: u32 = if x < 0 {
        0
    } else if x > wi - 1 {
        (wi - 1) as u32
    } else {
        x as u32
    };
    let y0: u32 = if y < 0 {
        0
    } else if y > hi - 1 {
        (hi - 1) as u32
    } else {
        y as u32
    };
    let room_w = w - x0;
    let room_h = h - y0;
    let cw0: u32 = if cw < room_w { cw } else { room_w };
    let cw0: u32 = if cw0 < 1 { 1 } else { cw0 };
    let ch0: u32 = if ch < room_h { ch } else { room_h };
    let ch0: u32 = if ch0 < 1 { 1 } else { ch0 };
    assert(x0 == crop_left(w, x) && y0 == crop_top(h, y));
    assert(cw0 == crop_width(w, x, cw) && ch0 == crop_height(h, y, ch));
    let ghost last = y0 + ch0 - 1;
    let len = data.len();
    let mut out: Vec<u8> = Vec::new();
    let mut row: u32 = y0;
    while row < y0 + ch0
        invariant
            y0 <= row <= y0 + ch0,
            y0 + ch0 <= h,
            x0 + cw0 <= w,
            1 <= cw0,
            last == y0 + ch0 - 1,
            len == data@.len(),
            data@.len() >= pixel_offset(w as int, x0 + cw0, last),
            out@ == rows_from(data@, w as int, x0 as int, cw0 as int, y0 as int, (row - y0) as nat),
        decreases y0 + ch0 - row,
    {
        proof {
            lemma_row_end_in_bounds(w as int, x0 as int, cw0 as int, row as int, last);
            assert(len <= usize::MAX);
            assert(0 <= row as int * w as int);
            assert((row as int * w as int + x0) * 4 + cw0 * 4 <= usize::MAX);
        }
        let start: usize = (row as usize * w as usize + x0 as usize) * 4;
        let end: usize = start + cw0 as usize * 4;
        let ghost before = out@;
        let mut i: usize = start;
        while i < end
            invariant
                start <= i <= end,
                end <= data@.len(),
                out@ == before + data@.subrange(start as int, i as int),
            decreases end - i,
        {
            out.push(data[i]);
            i = i + 1;
            assert(out@ =~= before + data@.subrange(start as int, i as int));
        }
        row = row + 1;
        assert(out@ =~= rows_from(data@, w as int, x0 as int, cw0 as int, y0 as int, (row - y0) as nat));
    }
    out
}


/// A display that can be recorded.
#[derive(Clone, Debug)]
pub struct MonitorInfo {
    pub id: String,
    pub name: String,
    pub x: i32,
    pub y: i32,
    pub width: i32,
    pub height: i32,
    pub is_primary: bool,
}

/// A top-level window that can be recorded.
#[derive(Clone, Debug)]
pub struct WindowInfo {
    pub hwnd: isize,
    pub title: String,
}

/// What to record: a display, by device name, or a window, by handle.
#[derive(Clone, Debug)]
pub enum SourceKind {
    Monitor(String),
    Window(isize),
}

/// One captured frame: BGRA pixel rows laid end to end, reported as `width` x
/// `height`, stamped in microseconds since capture started. The encoder takes the
/// frame only when `data` holds at least `width * height * 4` bytes; see
/// `frame_from_texture` for when a cropped frame does.
#[derive(Clone, Debug)]
pub struct RawFrame {
    pub data: Vec<u8>,
    pub width: u32,
    pub height: u32,
    pub ts_us: u64,
}

pub open spec fn is_high_surrogate(u: u16) -> bool {
    0xD800 <= u <= 0xDBFF
}

pub open spec fn is_low_surrogate(u: u16) -> bool {
    0xDC00 <= u <= 0xDFFF
}

/// UTF-16 decoding with U+FFFD in place of each unpaired surrogate: a unit outside
/// the surrogate range is its own character, a high surrogate followed by a low one
/// is the supplementary character they encode, and any other surrogate is U+FFFD
/// (the unit after an unpaired high surrogate is decoded on its own).
pub open spec fn utf16_lossy(units: Seq<u16>) -> Seq<char>
    decreases units.len(),
{
    if units.len() == 0 {
        Seq::empty()
    } else if !is_high_surrogate(units[0]) && !is_low_surrogate(units[0]) {
        seq![units[0] as char] + utf16_lossy(units.drop_first())
    } else if is_high_surrogate(units[0]) && units.len() >= 2 && is_low_surrogate(units[1]) {
        seq![(((units[0] - 0xD800) * 0x400 + (units[1] - 0xDC00) + 0x10000) as u32) as char]
            + utf16_lossy(units.subrange(2, units.len() as int))
    } else {
        seq!['\u{FFFD}'] + utf16_lossy(units.drop_first())
    }
}

/// Calls `String::from_utf16_lossy`, which decodes UTF-16 and, as its documentation
/// says, replaces invalid data (unpaired surrogates) with U+FFFD.
#[verifier::external_body]
fn decode_utf16_lossy(units: &[u16]) -> (s: String)
    ensures
        s@ == utf16_lossy(units@),
{
    String::from_utf16_lossy(units)
}

/// The monitor-flags bit that marks the primary display.
pub open spec fn primary_flag_set(flags: u32) -> bool {
    flags & 1 != 0
}

impl MonitorInfo {
    /// A display described by its device name (possibly NUL-padded) and the
    /// rectangle it covers on the virtual screen.
    pub fn from_device(device_name: &str, left: i32, top: i32, right: i32, bottom: i32, flags: u32) -> (m:
        MonitorInfo)
        requires
            i32::MIN <= right - left <= i32::MAX,
            i32::MIN <= bottom - top <= i32::MAX,
        ensures
            m.id@ == without_trailing_nuls(device_name@),
            m.name@ == without_trailing_nuls(device_name@),
            m.x == left,
            m.y == top,
            m.width == right - left,
            m.height == bottom - top,
            m.is_primary == primary_flag_set(flags),
    {
        let name = trim_trailing_nuls(device_name);
        let id = name.clone();
        MonitorInfo {
            id,
            name,
            x: left,
            y: top,
            width: right - left,
            height: bottom - top,
            is_primary: (flags & 1) != 0,
        }
    }

    /// A display described by the UTF-16 device-name buffer the system fills in.
    pub fn from_device_units(device_name: &[u16], left: i32, top: i32, right: i32, bottom: i32, flags: u32) -> (m:
        MonitorInfo)
        requires
            i32::MIN <= right - left <= i32::MAX,
            i32::MIN <= bottom - top <= i32::MAX,
        ensures
            m.id@ == without_trailing_nuls(utf16_lossy(device_name@)),
            m.name@ == without_trailing_nuls(utf16_lossy(device_name@)),
            m.x == left,
            m.y == top,
            m.width == right - left,
            m.height == bottom - top,
            m.is_primary == primary_flag_set(flags),
    {
        let name = decode_utf16_lossy(device_name);
        MonitorInfo::from_device(name.as_str(), left, top, right, bottom, flags)
    }
}

/// Whether a display's UTF-16 device-name buffer names the display `name`
/// (compared as for listed displays: decoded, trailing NULs removed).
pub fn device_name_matches(device_name: &[u16], name: &str) -> (b: bool)
    ensures
        b == (without_trailing_nuls(utf16_lossy(device_name@)) == name@),
{
    let decoded = decode_utf16_lossy(device_name);
    let trimmed = trim_trailing_nuls(decoded.as_str());
    text_eq(trimmed.as_str(), name)
}

/// The extended window style of tool windows, which are not offered for recording.
pub open spec fn tool_window_style(ex_style: isize) -> bool {
    ex_style & 0x80 != 0
}

/// A window is offered for recording when it is visible, has a title and is not a
/// tool window.
pub fn should_list_window(visible: bool, title_len: i32, ex_style: isize) -> (list: bool)
    ensures
        list == (visible && title_len > 0 && !tool_window_style(ex_style)),
        list == (visible && title_len > 0 && ex_style & 0x80 == 0),
{
    if !visible {
        return false;
    }
    if title_len <= 0 {
        return false;
    }
    if ex_style & 0x80 != 0 {
        return false;
    }
    true
}

/// Only the tool-window bit (0x80) of the extended style keeps a visible, titled
/// window out of the list: such a window is listed exactly when that bit is clear,
/// whatever other extended styles it has.
pub proof fn law_only_tool_windows_are_left_out(visible: bool, title_len: i32, ex_style: isize)
    ensures
        (visible && title_len > 0 && !tool_window_style(ex_style)) == (visible && title_len > 0
            && ex_style & 0x80 == 0),
        visible && title_len > 0 && ex_style & 0x80 == 0 ==> !tool_window_style(ex_style),
        ex_style & 0x80 != 0 ==> tool_window_style(ex_style),
{
}

impl WindowInfo {
    /// A window with the title held in the given UTF-16 code units.
    pub fn from_title_units(hwnd: isize, title: &[u16]) -> (w: WindowInfo)
        ensures
            w.hwnd == hwnd,
            w.title@ == utf16_lossy(title@),
    {
        WindowInfo { hwnd, title: decode_utf16_lossy(title) }
    }
}

/// `n` rows of `row_len` bytes each, the rows `pitch` bytes apart, laid end to end.
pub open spec fn pitched_rows(data: Seq<u8>, pitch: int, row_len: int, n: nat) -> Seq<u8>
    decreases n,
{
    if n == 0 {
        Seq::empty()
    } else {
        pitched_rows(data, pitch, row_len, (n - 1) as nat) + data.subrange(
            (n - 1) * pitch,
            (n - 1) * pitch + row_len,
        )
    }
}

/// The mapped texture holds every byte of the `height` rows of `width` pixels.
pub open spec fn texture_in_bounds(len: int, row_pitch: usize, width: u32, height: u32) -> bool {
    &&& width * height * 4 <= usize::MAX
    &&& height > 0 ==> (height - 1) * row_pitch + width * 4 <= len
}

proof fn lemma_pitched_row_in_bounds(pitch: int, row_len: int, row: int, height: int, len: int)
    requires
        0 <= row < height,
        0 <= row_len,
        0 <= pitch,
        (height - 1) * pitch + row_len <= len,
    ensures
        0 <= row * pitch,
        row * pitch + row_len <= len,
{
    assert(row * pitch <= (height - 1) * pitch) by (nonlinear_arith)
        requires
            0 <= row <= height - 1,
            0 <= pitch,
    ;
    assert(0 <= row * pitch) by (nonlinear_arith)
        requires
            0 <= row,
            0 <= pitch,
    ;
}

/// The BGRA pixels of a mapped texture with its row padding removed: `height` rows
/// of `width` pixels, read `row_pitch` bytes apart.
pub fn packed_rows(mapped: &[u8], row_pitch: usize, width: u32, height: u32) -> (out: Vec<u8>)
    requires
        texture_in_bounds(mapped@.len() as int, row_pitch, width, height),
    ensures
        out@ == pitched_rows(mapped@, row_pitch as int, width * 4, height as nat),
{
    let len = mapped.len();
    if height == 0 {
        return Vec::new();
    }
    assert(width * 4 <= width * height * 4) by (nonlinear_arith)
        requires
            height >= 1,
    ;
    let row_len: usize = width as usize * 4;
    let mut out: Vec<u8> = Vec::new();
    let mut y: u32 = 0;
    while y < height
        invariant
            y <= height,
            len == mapped@.len(),
            row_len == width * 4,
            texture_in_bounds(len as int, row_pitch, width, height),
            out@ == pitched_rows(mapped@, row_pitch as int, row_len as int, y as nat),
        decreases height - y,
    {
        proof {
            lemma_pitched_row_in_bounds(row_pitch as int, row_len as int, y as int, height as int, len as int);
        }
        let start: usize = y as usize * row_pitch;
        let end: usize = start + row_len;
        let ghost before = out@;
        let mut i: usize = start;
        while i < end
            invariant
                start <= i <= end,
                end <= mapped@.len(),
                out@ == before + mapped@.subrange(start as int, i as int),
            decreases end - i,
        {
            out.push(mapped[i]);
            i = i + 1;
            assert(out@ =~= before + mapped@.subrange(start as int, i as int));
        }
        y = y + 1;
        assert(out@ =~= pitched_rows(mapped@, row_pitch as int, row_len as int, y as nat));
    }
    out
}

/// The region is at least a pixel, and lies inside a `w` x `h` texture and inside
/// the capture item.
pub open spec fn region_inside(w: u32, h: u32, item_w: i32, item_h: i32, rx: i32, ry: i32, rw: u32, rh: u32) -> bool {
    &&& 0 <= rx && 1 <= rw && rx + rw <= w && rw <= item_w
    &&& 0 <= ry && 1 <= rh && ry + rh <= h && rh <= item_h
}

/// The frame handed on for a captured texture of `w` x `h` pixels: cropped to
/// `region` when one is set, the whole texture otherwise. A cropped frame holds the
/// region clamped into the texture, but is reported at the region's size limited to
/// the capture item's size; the two agree when the region lies inside both.
pub fn frame_from_texture(
    data: Vec<u8>,
    w: u32,
    h: u32,
    region: Option<(i32, i32, u32, u32)>,
    item_w: i32,
    item_h: i32,
    ts_us: u64,
) -> (f: RawFrame)
    requires
        region matches Some((rx, ry, rw, rh)) ==> crop_in_bounds(data@.len() as int, w, h, rx, ry, rw, rh),
    ensures
        f.ts_us == ts_us,
        match region {
            Some((rx, ry, rw, rh)) => {
                &&& f.data@ == cropped(data@, w, h, rx, ry, rw, rh)
                &&& f.data@.len() == crop_width(w, rx, rw) * crop_height(h, ry, rh) * 4
                &&& region_inside(w, h, item_w, item_h, rx, ry, rw, rh) ==> f.data@.len() == f.width
                    * f.height * 4
                &&& f.width == min_int(rw as int, (item_w as u32) as int)
                &&& f.height == min_int(rh as int, (item_h as u32) as int)
            },
            None => f.data@ == data@ && f.width == w && f.height == h,
        },
{
    match region {
        Some((rx, ry, rw, rh)) => {
            proof {
                law_crop_copies_rectangle(data@, w, h, rx, ry, rw, rh);
            }
            let cropped_data = crop(&data, w, h, rx, ry, rw, rh);
            let iw = item_w as u32;
            let ih = item_h as u32;
            RawFrame {
                data: cropped_data,
                width: if rw < iw { rw } else { iw },
                height: if rh < ih { rh } else { ih },
                ts_us,
            }
        },
        None => RawFrame { data, width: w, height: h, ts_us },
    }
}


proof fn lemma_rows_from(data: Seq<u8>, w: int, x0: int, cw: int, y0: int, n: nat)
    requires
        0 <= x0,
        1 <= cw,
        x0 + cw <= w,
        0 <= y0,
        n > 0 ==> data.len() >= pixel_offset(w, x0 + cw, y0 + n - 1),
    ensures
        rows_from(data, w, x0, cw, y0, n).len() == n * cw * 4,
        forall|r: int, c: int|
            0 <= r < n && 0 <= c < cw * 4 ==> #[trigger] rows_from(data, w, x0, cw, y0, n)[r * cw * 4
                + c] == data[pixel_offset(w, x0, y0 + r) + c],
    decreases n,
{
    if n == 0 {
        assert(n * cw * 4 == 0) by (nonlinear_arith)
            requires
                n == 0,
        ;
    }
    if n > 0 {
        let m = (n - 1) as nat;
        if m > 0 {
            lemma_row_end_in_bounds(w, x0, cw, y0 + m - 1, y0 + n - 1);
        }
        lemma_rows_from(data, w, x0, cw, y0, m);
        lemma_row_end_in_bounds(w, x0, cw, y0 + m, y0 + m);
        let prev = rows_from(data, w, x0, cw, y0, m);
        let start = pixel_offset(w, x0, y0 + m);
        assert(y0 + n - 1 == y0 + m);
        assert(rows_from(data, w, x0, cw, y0, n) == prev + data.subrange(start, start + cw * 4));
        assert(n * cw * 4 == m * cw * 4 + cw * 4) by (nonlinear_arith)
            requires
                n == m + 1,
        ;
        assert(rows_from(data, w, x0, cw, y0, n).len() == n * cw * 4);
        assert forall|r: int, c: int| 0 <= r < n && 0 <= c < cw * 4 implies #[trigger] rows_from(
            data,
            w,
            x0,
            cw,
            y0,
            n,
        )[r * cw * 4 + c] == data[pixel_offset(w, x0, y0 + r) + c] by {
            if r < m {
                assert(r * cw * 4 + c < m * cw * 4) by (nonlinear_arith)
                    requires
                        0 <= r < m,
                        0 <= c < cw * 4,
                ;
                assert(0 <= r * cw * 4) by (nonlinear_arith)
                    requires
                        0 <= r,
                        0 <= cw,
                ;
            } else {
                assert(r * cw * 4 == m * cw * 4);
            }
        }
    }
}

/// A crop is the clamped rectangle of the source, byte for byte: it lies inside the
/// frame, is at least one pixel wide and high, and row `r`, byte `c` of the result
/// is byte `c` of the source row at the rectangle's top plus `r`, from its left edge.
pub proof fn law_crop_copies_rectangle(data: Seq<u8>, w: u32, h: u32, x: i32, y: i32, cw: u32, ch: u32)
    requires
        crop_in_bounds(data.len() as int, w, h, x, y, cw, ch),
    ensures
        0 <= crop_left(w, x),
        1 <= crop_width(w, x, cw),
        crop_left(w, x) + crop_width(w, x, cw) <= w,
        0 <= crop_top(h, y),
        1 <= crop_height(h, y, ch),
        crop_top(h, y) + crop_height(h, y, ch) <= h,
        cropped(data, w, h, x, y, cw, ch).len() == crop_width(w, x, cw) * crop_height(h, y, ch) * 4,
        forall|r: int, c: int|
            0 <= r < crop_height(h, y, ch) && 0 <= c < crop_width(w, x, cw) * 4 ==> #[trigger] cropped(
                data,
                w,
                h,
                x,
                y,
                cw,
                ch,
            )[r * crop_width(w, x, cw) * 4 + c] == data[pixel_offset(
                w as int,
                crop_left(w, x),
                crop_top(h, y) + r,
            ) + c],
{
    let cw0 = crop_width(w, x, cw);
    let ch0 = crop_height(h, y, ch);
    lemma_rows_from(data, w as int, crop_left(w, x), cw0, crop_top(h, y), ch0 as nat);
    assert(ch0 * cw0 * 4 == cw0 * ch0 * 4) by (nonlinear_arith);
}


proof fn lemma_pitched_rows(data: Seq<u8>, pitch: int, row_len: int, n: nat)
    requires
        0 <= row_len,
        0 <= pitch,
        n > 0 ==> (n - 1) * pitch + row_len <= data.len(),
    ensures
        pitched_rows(data, pitch, row_len, n).len() == n * row_len,
        forall|y: int, i: int|
            0 <= y < n && 0 <= i < row_len ==> #[trigger] pitched_rows(data, pitch, row_len, n)[y * row_len
                + i] == data[y * pitch + i],
    decreases n,
{
    if n == 0 {
        assert(n * row_len == 0) by (nonlinear_arith)
            requires
                n == 0,
        ;
    } else {
        let m = (n - 1) as nat;
        if m > 0 {
            lemma_pitched_row_in_bounds(pitch, row_len, m - 1, n as int, data.len() as int);
        }
        lemma_pitched_rows(data, pitch, row_len, m);
        lemma_pitched_row_in_bounds(pitch, row_len, m as int, n as int, data.len() as int);
        let prev = pitched_rows(data, pitch, row_len, m);
        assert(pitched_rows(data, pitch, row_len, n) == prev + data.subrange(m * pitch, m * pitch + row_len));
        assert(n * row_len == m * row_len + row_len) by (nonlinear_arith)
            requires
                n == m + 1,
        ;
        assert forall|y: int, i: int| 0 <= y < n && 0 <= i < row_len implies #[trigger] pitched_rows(
            data,
            pitch,
            row_len,
            n,
        )[y * row_len + i] == data[y * pitch + i] by {
            if y < m {
                assert(y * row_len + i < m * row_len) by (nonlinear_arith)
                    requires
                        0 <= y < m,
                        0 <= i < row_len,
                ;
                assert(0 <= y * row_len) by (nonlinear_arith)
                    requires
                        0 <= y,
                        0 <= row_len,
                ;
            } else {
                assert(y * row_len == m * row_len);
                assert(y * pitch == m * pitch);
            }
        }
    }
}

/// De-padding keeps exactly the pixels: `height` rows of `width * 4` bytes, and byte
/// `i` of output row `y` is byte `i` of the mapped row that starts `y * row_pitch`
/// bytes in.
pub proof fn law_packed_rows_drop_padding(mapped: Seq<u8>, row_pitch: usize, width: u32, height: u32)
    requires
        texture_in_bounds(mapped.len() as int, row_pitch, width, height),
    ensures
        pitched_rows(mapped, row_pitch as int, width * 4, height as nat).len() == width * height * 4,
        forall|y: int, i: int|
            0 <= y < height && 0 <= i < width * 4 ==> #[trigger] pitched_rows(
                mapped,
                row_pitch as int,
                width * 4,
                height as nat,
            )[y * (width * 4) + i] == mapped[y * row_pitch + i],
{
    lemma_pitched_rows(mapped, row_pitch as int, width * 4, height as nat);
    assert(height * (width * 4) == width * height * 4) by (nonlinear_arith);
}


/// The size frames of `w` x `h` are encoded at when a width `scale_width` is asked
/// for: that width, and the height that keeps the proportions (rounded down, at
/// least one row, at most `u32::MAX`). `None` when frames are encoded as captured:
/// no width asked for, or an empty frame.
pub open spec fn scaled_size(w: u32, h: u32, scale_width: Option<u32>) -> Option<(u32, u32)> {
    match scale_width {
        None => None,
        Some(sw) => if w == 0 {
            None
        } else {
            let sh = (h as int * sw as int) / (w as int);
            Some((sw, if sh < 1 { 1 } else if sh > u32::MAX { u32::MAX } else { sh as u32 }))
        },
    }
}

pub fn output_size(w: u32, h: u32, scale_width: Option<u32>) -> (s: Option<(u32, u32)>)
    ensures
        s == scaled_size(w, h, scale_width),
{
    match scale_width {
        None => None,
        Some(sw) => {
            if w == 0 {
                return None;
            }
            assert(h as int * sw as int <= 0xffff_ffff * 0xffff_ffff) by (nonlinear_arith)
                requires
                    h <= 0xffff_ffff,
                    sw <= 0xffff_ffff,
            ;
            let sh: u64 = (h as u64 * sw as u64) / (w as u64);
            Some((sw, if sh < 1 { 1 } else if sh > u32::MAX as u64 { u32::MAX } else { sh as u32 }))
        },
    }
}

/// Output row `y` of a nearest-neighbour scaling of a `w` x `h` BGRA frame to
/// `ow` x `oh`: output pixel (x, y) is source pixel (x * w / ow, y * h / oh).
pub open spec fn scaled_row(data: Seq<u8>, w: int, h: int, ow: int, oh: int, y: int) -> Seq<u8> {
    Seq::new((ow * 4) as nat, |i: int| data[pixel_offset(w, (i / 4) * w / ow, y * h / oh) + i % 4])
}

/// The first `n` output rows of the scaling, laid end to end.
pub open spec fn scaled_rows(data: Seq<u8>, w: int, h: int, ow: int, oh: int, n: nat) -> Seq<u8>
    decreases n,
{
    if n == 0 {
        Seq::empty()
    } else {
        scaled_rows(data, w, h, ow, oh, (n - 1) as nat) + scaled_row(data, w, h, ow, oh, n - 1)
    }
}

/// A `w` x `h` BGRA frame scaled to `ow` x `oh` by nearest neighbour.
pub open spec fn scaled(data: Seq<u8>, w: u32, h: u32, ow: u32, oh: u32) -> Seq<u8> {
    scaled_rows(data, w as int, h as int, ow as int, oh as int, oh as nat)
}

/// The frame and the target size are non-empty and the buffer holds the whole frame.
pub open spec fn scalable(len: int, w: u32, h: u32, ow: u32, oh: u32) -> bool {
    w >= 1 && h >= 1 && ow >= 1 && oh >= 1 && len >= w * h * 4
}

proof fn lemma_source_coordinate(x: int, w: int, ow: int)
    requires
        0 <= x < ow,
        1 <= w,
        1 <= ow,
    ensures
        0 <= x * w / ow < w,
{
    assert(0 <= x * w) by (nonlinear_arith)
        requires
            0 <= x,
            1 <= w,
    ;
    assert(x * w < ow * w) by (nonlinear_arith)
        requires
            0 <= x < ow,
            1 <= w,
    ;
    assert(x * w / ow < w) by (nonlinear_arith)
        requires
            0 <= x * w < ow * w,
            1 <= ow,
    ;
    assert(0 <= x * w / ow) by (nonlinear_arith)
        requires
            0 <= x * w,
            1 <= ow,
    ;
}

proof fn lemma_source_offset_in_frame(sx: int, sy: int, c: int, w: int, h: int)
    requires
        0 <= sx < w,
        0 <= sy < h,
        0 <= c < 4,
    ensures
        0 <= pixel_offset(w, sx, sy) + c < w * h * 4,
{
    assert(sy * w <= (h - 1) * w) by (nonlinear_arith)
        requires
            0 <= sy <= h - 1,
            0 <= w,
    ;
    assert(0 <= sy * w) by (nonlinear_arith)
        requires
            0 <= sy,
            0 <= w,
    ;
    assert((h - 1) * w + w == w * h) by (nonlinear_arith);
}

/// Scale a BGRA frame by nearest neighbour.
pub fn scale_frame(data: &[u8], w: u32, h: u32, ow: u32, oh: u32) -> (out: Vec<u8>)
    requires
        scalable(data@.len() as int, w, h, ow, oh),
    ensures
        out@ == scaled(data@, w, h, ow, oh),
{
    let len = data.len();
    let mut out: Vec<u8> = Vec::new();
    let mut y: u32 = 0;
    while y < oh
        invariant
            y <= oh,
            len == data@.len(),
            scalable(len as int, w, h, ow, oh),
            out@ == scaled_rows(data@, w as int, h as int, ow as int, oh as int, y as nat),
        decreases oh - y,
    {
        proof {
            lemma_source_coordinate(y as int, h as int, oh as int);
        }
        assert(y as int * h as int <= 0xffff_ffff * 0xffff_ffff) by (nonlinear_arith)
            requires
                y <= 0xffff_ffff,
                h <= 0xffff_ffff,
        ;
        let sy: u64 = (y as u64 * h as u64) / (oh as u64);
        let row_bytes: u64 = ow as u64 * 4;
        let ghost before = out@;
        let ghost row = scaled_row(data@, w as int, h as int, ow as int, oh as int, y as int);
        let mut i: u64 = 0;
        while i < row_bytes
            invariant
                i <= row_bytes,
                row_bytes == ow * 4,
                len == data@.len(),
                scalable(len as int, w, h, ow, oh),
                sy == (y as int * h as int) / (oh as int),
                0 <= sy < h,
                row == scaled_row(data@, w as int, h as int, ow as int, oh as int, y as int),
                out@ == before + row.subrange(0, i as int),
            decreases row_bytes - i,
        {
            let x: u64 = i / 4;
            let c: u64 = i % 4;
            proof {
                lemma_source_coordinate(x as int, w as int, ow as int);
            }
            assert(x as int * w as int <= 0xffff_ffff * 0xffff_ffff) by (nonlinear_arith)
                requires
                    x < 0xffff_ffff,
                    w <= 0xffff_ffff,
            ;
            let sx: u64 = (x * w as u64) / (ow as u64);
            proof {
                lemma_source_offset_in_frame(sx as int, sy as int, c as int, w as int, h as int);
                assert(sy as int * w as int <= 0xffff_ffff * 0xffff_ffff) by (nonlinear_arith)
                    requires
                        sy < 0xffff_ffff,
                        w <= 0xffff_ffff,
                ;
            }
            let idx: u64 = (sy * w as u64 + sx) * 4 + c;
            out.push(data[idx as usize]);
            assert(row[i as int] == data@[idx as int]);
            i = i + 1;
            assert(out@ =~= before + row.subrange(0, i as int));
        }
        y = y + 1;
        assert(row.subrange(0, row_bytes as int) =~= row);
        assert(out@ =~= scaled_rows(data@, w as int, h as int, ow as int, oh as int, y as nat));
    }
    out
}

/// The frame handed to the encoder: scaled to `target` when a size is set and the
/// frame can be scaled, as it is otherwise.
pub fn frame_for_encoder(frame: RawFrame, target: Option<(u32, u32)>) -> (f: RawFrame)
    ensures
        f.ts_us == frame.ts_us,
        match target {
            Some((ow, oh)) => if scalable(frame.data@.len() as int, frame.width, frame.height, ow, oh) {
                &&& f.data@ == scaled(frame.data@, frame.width, frame.height, ow, oh)
                &&& f.width == ow
                &&& f.height == oh
            } else {
                f.data@ == frame.data@ && f.width == frame.width && f.height == frame.height
            },
            None => f.data@ == frame.data@ && f.width == frame.width && f.height == frame.height,
        },
{
    match target {
        Some((ow, oh)) => {
            let w = frame.width;
            let h = frame.height;
            assert(w as int * h as int <= 0xffff_ffff * 0xffff_ffff) by (nonlinear_arith)
                requires
                    w <= 0xffff_ffff,
                    h <= 0xffff_ffff,
            ;
            if w >= 1 && h >= 1 && ow >= 1 && oh >= 1 && frame.data.len() as u128 >= w as u128 * h as u128 * 4 {
                let data = scale_frame(&frame.data, w, h, ow, oh);
                RawFrame { data, width: ow, height: oh, ts_us: frame.ts_us }
            } else {
                frame
            }
        },
        None => frame,
    }
}


proof fn lemma_scaled_rows(data: Seq<u8>, w: int, h: int, ow: int, oh: int, n: nat)
    requires
        1 <= ow,
    ensures
        scaled_rows(data, w, h, ow, oh, n).len() == n * (ow * 4),
        forall|r: int, i: int|
            0 <= r < n && 0 <= i < ow * 4 ==> #[trigger] scaled_rows(data, w, h, ow, oh, n)[r * (ow * 4) + i]
                == scaled_row(data, w, h, ow, oh, r)[i],
    decreases n,
{
    if n == 0 {
        assert(n * (ow * 4) == 0) by (nonlinear_arith)
            requires
                n == 0,
        ;
    } else {
        let m = (n - 1) as nat;
        lemma_scaled_rows(data, w, h, ow, oh, m);
        assert(n * (ow * 4) == m * (ow * 4) + ow * 4) by (nonlinear_arith)
            requires
                n == m + 1,
        ;
        assert forall|r: int, i: int| 0 <= r < n && 0 <= i < ow * 4 implies #[trigger] scaled_rows(
            data,
            w,
            h,
            ow,
            oh,
            n,
        )[r * (ow * 4) + i] == scaled_row(data, w, h, ow, oh, r)[i] by {
            if r < m {
                assert(r * (ow * 4) + i < m * (ow * 4)) by (nonlinear_arith)
                    requires
                        0 <= r < m,
                        0 <= i < ow * 4,
                ;
                assert(0 <= r * (ow * 4)) by (nonlinear_arith)
                    requires
                        0 <= r,
                        1 <= ow,
                ;
            } else {
                assert(r * (ow * 4) == m * (ow * 4));
            }
        }
    }
}

/// Scaling picks the nearest source pixel: the result holds `ow * oh` pixels, and
/// byte `c` of output pixel (x, y) is byte `c` of source pixel (x * w / ow, y * h / oh),
/// which lies inside the source frame.
pub proof fn law_scaling_picks_source_pixels(data: Seq<u8>, w: u32, h: u32, ow: u32, oh: u32)
    requires
        scalable(data.len() as int, w, h, ow, oh),
    ensures
        scaled(data, w, h, ow, oh).len() == ow * oh * 4,
        forall|x: int, y: int|
            0 <= x < ow && 0 <= y < oh ==> 0 <= #[trigger] (x * w / (ow as int)) < w && 0 <= #[trigger] (y * h
                / (oh as int)) < h,
        forall|x: int, y: int, c: int|
            0 <= x < ow && 0 <= y < oh && 0 <= c < 4 ==> #[trigger] scaled(data, w, h, ow, oh)[(y * ow + x) * 4
                + c] == data[pixel_offset(w as int, x * w / (ow as int), y * h / (oh as int)) + c],
{
    lemma_scaled_rows(data, w as int, h as int, ow as int, oh as int, oh as nat);
    assert(oh * (ow * 4) == ow * oh * 4) by (nonlinear_arith);
    assert forall|x: int, y: int| 0 <= x < ow && 0 <= y < oh implies 0 <= #[trigger] (x * w / (ow as int)) < w
        && 0 <= #[trigger] (y * h / (oh as int)) < h by {
        lemma_source_coordinate(x, w as int, ow as int);
        lemma_source_coordinate(y, h as int, oh as int);
    }
    assert forall|x: int, y: int, c: int| 0 <= x < ow && 0 <= y < oh && 0 <= c < 4 implies #[trigger] scaled(
        data,
        w,
        h,
        ow,
        oh,
    )[(y * ow + x) * 4 + c] == data[pixel_offset(w as int, x * w / (ow as int), y * h / (oh as int)) + c] by {
        let i = x * 4 + c;
        assert((y * ow + x) * 4 + c == y * (ow * 4) + i) by (nonlinear_arith)
            requires
                i == x * 4 + c,
        ;
        assert(i / 4 == x && i % 4 == c);
        assert(i < ow * 4);
    }
}

} // verus!
