//! What the clipboard watcher makes of clipboard contents: the events it emits,
//! their content hashes, and the conversion of a device-independent bitmap.
use vstd::prelude::*;

use crate::db::{EntryKind, kind_name};
use crate::image_codec::{ImageCodec, decode_image, decoded_image};
use crate::text::{
    any_whitespace, ascii_lowercase, chars_of, decimal, equals, extend_chars,
    format_u64, has_prefix, has_space, join, join_with, starts_with, string_of, strings_view,
    to_ascii_lowercase, trim, trimmed, chars_of_strings,
};
use vstd::utf8::encode_utf8;
use sha2::Digest;

verus! {

/// What the SHA-256 digest of some bytes is.
pub uninterp spec fn sha256(data: Seq<u8>) -> Seq<u8>;

/// The SHA-256 digest of `data` (`sha2::Sha256::digest`): 32 bytes.
#[verifier::external_body]
fn sha256_digest(data: &[u8]) -> (res: Vec<u8>)
    ensures
        res@ == sha256(data@),
        res@.len() == 32,
{
    sha2::Sha256::digest(data).to_vec()
}

/// The lower-case hexadecimal digit of a value below 16.
pub open spec fn hex_digit(d: int) -> char {
    if d < 10 {
        (48 + d) as char
    } else {
        (87 + d) as char
    }
}

/// Bytes written as lower-case hexadecimal, two digits each (`{:x}` of a digest).
pub open spec fn hex_lower(bytes: Seq<u8>) -> Seq<char>
    decreases bytes.len(),
{
    if bytes.len() == 0 {
        Seq::empty()
    } else {
        hex_lower(bytes.drop_last()) + seq![
            hex_digit(bytes.last() as int / 16),
            hex_digit(bytes.last() as int % 16),
        ]
    }
}

/// The hexadecimal digit of a value below 16.
fn hex_char(d: u8) -> (c: char)
    requires
        d < 16,
    ensures
        c == hex_digit(d as int),
{
    if d < 10 {
        (48 + d) as char
    } else {
        (87 + d) as char
    }
}

/// Bytes written as lower-case hexadecimal.
pub fn to_hex(bytes: &Vec<u8>) -> (res: String)
    ensures
        res@ == hex_lower(bytes@),
{
    let mut out: Vec<char> = Vec::new();
    let mut i: usize = 0;
    while i < bytes.len()
        invariant
            i <= bytes.len(),
            out@ == hex_lower(bytes@.take(i as int)),
        decreases bytes.len() - i,
    {
        let b = bytes[i];
        out.push(hex_char(b / 16));
        out.push(hex_char(b % 16));
        proof {
            let t = bytes@.take(i + 1);
            assert(t.drop_last() =~= bytes@.take(i as int));
            assert(t.last() == b);
            assert(out@ =~= hex_lower(t));
        }
        i += 1;
    }
    assert(bytes@.take(bytes.len() as int) =~= bytes@);
    string_of(&out)
}

/// Appends bytes to a buffer.
pub fn extend_bytes(out: &mut Vec<u8>, more: &[u8])
    ensures
        final(out)@ == old(out)@ + more@,
{
    let mut i: usize = 0;
    while i < more.len()
        invariant
            i <= more.len(),
            out@ == old(out)@ + more@.take(i as int),
        decreases more.len() - i,
    {
        out.push(more[i]);
        assert(old(out)@ + more@.take(i + 1) =~= (old(out)@ + more@.take(i as int)).push(more@[i as int]));
        i += 1;
    }
    assert(more@.take(more.len() as int) =~= more@);
}

/// The four little-endian bytes of a 32-bit value.
pub open spec fn le_u32_bytes(v: u32) -> Seq<u8> {
    seq![
        (v % 256) as u8,
        ((v / 256) % 256) as u8,
        ((v / 65536) % 256) as u8,
        ((v / 16777216) % 256) as u8,
    ]
}

/// The four little-endian bytes of a 32-bit value (`u32::to_le_bytes`).
pub fn u32_le_bytes(v: u32) -> (res: Vec<u8>)
    ensures
        res@ == le_u32_bytes(v),
{
    let mut res = Vec::new();
    res.push((v % 256) as u8);
    res.push(((v / 256) % 256) as u8);
    res.push(((v / 65536) % 256) as u8);
    res.push(((v / 16777216) % 256) as u8);
    assert(res@ =~= le_u32_bytes(v));
    res
}

/// The hash of a captured entry: the lower-case hexadecimal SHA-256 of the kind's
/// name, a zero byte, the content's UTF-8 bytes, a zero byte, and any other bytes.
pub open spec fn parts_hash(kind: EntryKind, content: Seq<char>, bytes: Seq<u8>) -> Seq<char> {
    hex_lower(
        sha256(encode_utf8(kind_name(kind)) + seq![0u8] + encode_utf8(content) + seq![0u8] + bytes),
    )
}

/// The hash of a captured entry's kind, content and other bytes.
pub fn hash_parts(kind: EntryKind, content: &str, bytes: &[u8]) -> (res: String)
    ensures
        res@ == parts_hash(kind, content@, bytes@),
{
    let mut data: Vec<u8> = Vec::new();
    extend_bytes(&mut data, kind.as_str().as_bytes());
    data.push(0);
    extend_bytes(&mut data, content.as_bytes());
    data.push(0);
    extend_bytes(&mut data, bytes);
    proof {
        assert(data@ =~= encode_utf8(kind_name(kind)) + seq![0u8] + encode_utf8(content@) + seq![0u8] + bytes@);
    }
    let digest = sha256_digest(data.as_slice());
    to_hex(&digest)
}

/// The hash of a text entry.
pub fn hash_text(kind: EntryKind, content: &str) -> (res: String)
    ensures
        res@ == parts_hash(kind, content@, Seq::empty()),
{
    let empty: Vec<u8> = Vec::new();
    hash_parts(kind, content, empty.as_slice())
}

/// The hash of an image: the lower-case hexadecimal SHA-256 of `prefix`, the width
/// and height as little-endian 32-bit values, and the RGBA pixels.
pub open spec fn image_hash(prefix: Seq<u8>, width: u32, height: u32, rgba: Seq<u8>) -> Seq<char> {
    hex_lower(sha256(prefix + le_u32_bytes(width) + le_u32_bytes(height) + rgba))
}

/// The hash of an image's dimensions and pixels, after `prefix`.
pub fn image_digest(prefix: &[u8], width: u32, height: u32, rgba: &[u8]) -> (res: String)
    ensures
        res@ == image_hash(prefix@, width, height, rgba@),
{
    let mut data: Vec<u8> = Vec::new();
    extend_bytes(&mut data, prefix);
    let w = u32_le_bytes(width);
    extend_bytes(&mut data, w.as_slice());
    let h = u32_le_bytes(height);
    extend_bytes(&mut data, h.as_slice());
    extend_bytes(&mut data, rgba);
    proof {
        assert(data@ =~= prefix@ + le_u32_bytes(width) + le_u32_bytes(height) + rgba@);
    }
    let digest = sha256_digest(data.as_slice());
    to_hex(&digest)
}

/// An event of the clipboard watcher.
#[derive(Debug)]
pub enum ClipboardEvent {
    /// New clipboard contents.
    Item {
        kind: EntryKind,
        content: String,
        hash: String,
        image_width: Option<u32>,
        image_height: Option<u32>,
        image_rgba: Option<Vec<u8>>,
    },
    /// The history limits were changed.
    ReloadLimits { max_history: usize, max_image_bytes: u64 },
}

/// The model of a clipboard event.
pub enum EventView {
    Item {
        kind: EntryKind,
        content: Seq<char>,
        hash: Seq<char>,
        image_width: Option<u32>,
        image_height: Option<u32>,
        image_rgba: Option<Seq<u8>>,
    },
    ReloadLimits { max_history: usize, max_image_bytes: u64 },
}

/// The model of optional bytes.
pub open spec fn opt_bytes(b: Option<Vec<u8>>) -> Option<Seq<u8>> {
    match b {
        Some(b) => Some(b@),
        None => None,
    }
}

impl View for ClipboardEvent {
    type V = EventView;

    open spec fn view(&self) -> EventView {
        match self {
            ClipboardEvent::Item { kind, content, hash, image_width, image_height, image_rgba } =>
                EventView::Item {
                kind: *kind,
                content: content@,
                hash: hash@,
                image_width: *image_width,
                image_height: *image_height,
                image_rgba: opt_bytes(*image_rgba),
            },
            ClipboardEvent::ReloadLimits { max_history, max_image_bytes } =>
                EventView::ReloadLimits { max_history: *max_history, max_image_bytes: *max_image_bytes },
        }
    }
}

/// The model of an optional event.
pub open spec fn event_view(e: Option<ClipboardEvent>) -> Option<EventView> {
    match e {
        Some(e) => Some(e@),
        None => None,
    }
}

/// The kind of copied text: a URL when, once trimmed, it starts with `https://` or
/// `http://` in any ASCII case and holds no white space; text otherwise.
pub open spec fn text_kind(content: Seq<char>) -> EntryKind {
    let t = trimmed(content);
    let lower = ascii_lowercase(t);
    if (has_prefix(lower, "https://"@) || has_prefix(lower, "http://"@)) && !has_space(t) {
        EntryKind::Url
    } else {
        EntryKind::Text
    }
}

/// Classifies copied text as a URL or plain text.
pub fn classify_text_kind(content: &str) -> (kind: EntryKind)
    ensures
        kind == text_kind(content@),
        (has_prefix(ascii_lowercase(trimmed(content@)), "http://"@) || has_prefix(
            ascii_lowercase(trimmed(content@)),
            "https://"@,
        )) && !has_space(trimmed(content@)) ==> kind == EntryKind::Url,
        has_space(trimmed(content@)) ==> kind == EntryKind::Text,
{
    let c = chars_of(content);
    let t = trim(&c);
    let lower = to_ascii_lowercase(&t);
    if (starts_with(&lower, "https://") || starts_with(&lower, "http://")) && !any_whitespace(&t) {
        EntryKind::Url
    } else {
        EntryKind::Text
    }
}

/// The event for copied text: none when it is only white space; otherwise its kind,
/// the text itself, and the hash of kind and text.
pub open spec fn text_event_of(content: Seq<char>) -> Option<EventView> {
    if trimmed(content).len() == 0 {
        None
    } else {
        let kind = text_kind(content);
        Some(
            EventView::Item {
                kind,
                content,
                hash: parts_hash(kind, content, Seq::empty()),
                image_width: None,
                image_height: None,
                image_rgba: None,
            },
        )
    }
}

/// The event for copied text.
pub fn text_event(content: String) -> (res: Option<ClipboardEvent>)
    ensures
        event_view(res) == text_event_of(content@),
{
    let c = chars_of(content.as_str());
    let t = trim(&c);
    if t.len() == 0 {
        return None;
    }
    let kind = classify_text_kind(content.as_str());
    let hash = hash_text(kind, content.as_str());
    Some(
        ClipboardEvent::Item {
            kind,
            content,
            hash,
            image_width: None,
            image_height: None,
            image_rgba: None,
        },
    )
}

/// The event for an image of `width` by `height` RGBA pixels: its content reads
/// `Image {width}x{height} [{hash}]`, its hash covers the dimensions and the pixels,
/// and it keeps the original dimensions and pixels.
pub open spec fn image_event_of(width: u32, height: u32, rgba: Seq<u8>) -> EventView {
    let hash = image_hash(Seq::empty(), width, height, rgba);
    EventView::Item {
        kind: EntryKind::Image,
        content: "Image "@ + decimal(width as nat) + "x"@ + decimal(height as nat) + " ["@ + hash
            + "]"@,
        hash,
        image_width: Some(width),
        image_height: Some(height),
        image_rgba: Some(rgba),
    }
}

/// The event for an image of RGBA pixels.
pub fn rgba_image_event(width: u32, height: u32, rgba: Vec<u8>) -> (res: ClipboardEvent)
    ensures
        res@ == image_event_of(width, height, rgba@),
{
    let empty: Vec<u8> = Vec::new();
    let hash = image_digest(empty.as_slice(), width, height, rgba.as_slice());
    let mut content: Vec<char> = chars_of("Image ");
    extend_chars(&mut content, &format_u64(width as u64));
    extend_chars(&mut content, &chars_of("x"));
    extend_chars(&mut content, &format_u64(height as u64));
    extend_chars(&mut content, &chars_of(" ["));
    extend_chars(&mut content, &chars_of(hash.as_str()));
    extend_chars(&mut content, &chars_of("]"));
    assert(empty@ =~= Seq::<u8>::empty());
    ClipboardEvent::Item {
        kind: EntryKind::Image,
        content: string_of(&content),
        hash,
        image_width: Some(width),
        image_height: Some(height),
        image_rgba: Some(rgba),
    }
}

/// Whether `len` bytes hold `width` by `height` RGBA pixels, and their count fits
/// in a `usize` (`RgbaImage::from_raw` accepts a longer buffer too).
pub open spec fn rgba_fits(width: u32, height: u32, len: int) -> bool {
    4 * (width * height) <= usize::MAX && 4 * (width * height) <= len
}

/// The event for an image read from the clipboard with its dimensions given as
/// `usize`: they are taken as 32-bit values, and the pixels must fill them.
pub open spec fn raw_image_event_of(width: usize, height: usize, rgba: Seq<u8>) -> Option<EventView> {
    if rgba_fits(width as u32, height as u32, rgba.len() as int) {
        Some(image_event_of(width as u32, height as u32, rgba))
    } else {
        None
    }
}

/// The event for an image read from the clipboard.
pub fn raw_image_event(width: usize, height: usize, rgba: Vec<u8>) -> (res: Option<ClipboardEvent>)
    ensures
        event_view(res) == raw_image_event_of(width, height, rgba@),
{
    let w = width as u32;
    let h = height as u32;
    let ww = w as u128;
    let hh = h as u128;
    assert(ww * hh <= 0xffff_ffff * 0xffff_ffff) by (nonlinear_arith)
        requires
            ww <= 0xffff_ffff,
            hh <= 0xffff_ffff,
    ;
    let needed: u128 = 4 * (ww * hh);
    if needed > usize::MAX as u128 || needed > rgba.len() as u128 {
        return None;
    }
    Some(rgba_image_event(w, h, rgba))
}

/// The event for a list of copied files: none for an empty list; otherwise the
/// paths one per line, the hash of the kind, the paths and any thumbnail pixels,
/// and the thumbnail of the first image among them, if any.
pub open spec fn file_paths_event_of(paths: Seq<Seq<char>>, thumbnail: Option<(u32, u32, Seq<u8>)>) -> Option<
    EventView,
> {
    if paths.len() == 0 {
        None
    } else {
        let content = join(paths, "\n"@);
        let bytes = match thumbnail {
            Some(t) => t.2,
            None => Seq::empty(),
        };
        Some(
            EventView::Item {
                kind: EntryKind::FilePaths,
                content,
                hash: parts_hash(EntryKind::FilePaths, content, bytes),
                image_width: match thumbnail {
                    Some(t) => Some(t.0),
                    None => None,
                },
                image_height: match thumbnail {
                    Some(t) => Some(t.1),
                    None => None,
                },
                image_rgba: match thumbnail {
                    Some(t) => Some(t.2),
                    None => None,
                },
            },
        )
    }
}

/// The model of an optional thumbnail.
pub open spec fn thumbnail_view(t: Option<(u32, u32, Vec<u8>)>) -> Option<(u32, u32, Seq<u8>)> {
    match t {
        Some(t) => Some((t.0, t.1, t.2@)),
        None => None,
    }
}

/// The event for a list of copied files.
pub fn file_paths_event(paths: &Vec<String>, thumbnail: Option<(u32, u32, Vec<u8>)>) -> (res: Option<
    ClipboardEvent,
>)
    ensures
        event_view(res) == file_paths_event_of(strings_view(paths@), thumbnail_view(thumbnail)),
{
    if paths.len() == 0 {
        return None;
    }
    let parts = chars_of_strings(paths);
    let sep = chars_of("\n");
    let joined = join_with(&parts, &sep);
    let content = string_of(&joined);
    let empty: Vec<u8> = Vec::new();
    let hash = match &thumbnail {
        Some(t) => hash_parts(EntryKind::FilePaths, content.as_str(), t.2.as_slice()),
        None => hash_parts(EntryKind::FilePaths, content.as_str(), empty.as_slice()),
    };
    let (image_width, image_height, image_rgba) = match thumbnail {
        Some(t) => (Some(t.0), Some(t.1), Some(t.2)),
        None => (None, None, None),
    };
    Some(
        ClipboardEvent::Item {
            kind: EntryKind::FilePaths,
            content,
            hash,
            image_width,
            image_height,
            image_rgba,
        },
    )
}

/// The little-endian 16-bit value at `offset`, if the bytes reach that far.
pub open spec fn le_u16_at(bytes: Seq<u8>, offset: int) -> Option<u16> {
    if offset + 2 <= bytes.len() {
        Some((bytes[offset] + 256 * bytes[offset + 1]) as u16)
    } else {
        None
    }
}

/// The little-endian 32-bit value at `offset`, if the bytes reach that far.
pub open spec fn le_u32_at(bytes: Seq<u8>, offset: int) -> Option<u32> {
    if offset + 4 <= bytes.len() {
        Some(
            (bytes[offset] + 256 * bytes[offset + 1] + 65536 * bytes[offset + 2] + 16777216
                * bytes[offset + 3]) as u32,
        )
    } else {
        None
    }
}

/// Reads a little-endian 16-bit value at `offset`.
pub fn read_u16_le(bytes: &[u8], offset: usize) -> (res: Option<u16>)
    requires
        offset + 2 <= usize::MAX,
    ensures
        res == le_u16_at(bytes@, offset as int),
{
    if offset + 2 > bytes.len() {
        return None;
    }
    Some((bytes[offset] as u16) + 256 * (bytes[offset + 1] as u16))
}

/// Reads a little-endian 32-bit value at `offset`.
pub fn read_u32_le(bytes: &[u8], offset: usize) -> (res: Option<u32>)
    requires
        offset + 4 <= usize::MAX,
    ensures
        res == le_u32_at(bytes@, offset as int),
{
    if offset + 4 > bytes.len() {
        return None;
    }
    Some(
        (bytes[offset] as u32) + 256 * (bytes[offset + 1] as u32) + 65536 * (bytes[offset + 2] as u32)
            + 16777216 * (bytes[offset + 3] as u32),
    )
}

/// The bytes of the colour masks that follow a 40-byte header with bit-field
/// compression (3) or alpha bit-field compression (6).
pub open spec fn dib_mask_bytes(header_size: u32, compression: u32) -> int {
    if header_size == 40 {
        if compression == 3 {
            12
        } else if compression == 6 {
            16
        } else {
            0
        }
    } else {
        0
    }
}

/// The number of palette colours: for 8 bits per pixel or fewer, the colours used,
/// or `2^bits` when that count is 0; none for deeper pixels.
pub open spec fn dib_color_count(bit_count: u16, colors_used: u32) -> int {
    if bit_count <= 8 {
        if colors_used == 0 {
            vstd::arithmetic::power2::pow2(bit_count as nat) as int
        } else {
            colors_used as int
        }
    } else {
        0
    }
}

/// Where the pixels of a bitmap file start: after the 14-byte file header, the
/// bitmap header, the colour masks and the palette.
pub open spec fn dib_pixel_offset(dib: Seq<u8>) -> int {
    let header_size = le_u32_at(dib, 0).unwrap();
    14 + header_size + dib_mask_bytes(header_size, le_u32_at(dib, 16).unwrap()) + 4
        * dib_color_count(le_u16_at(dib, 14).unwrap(), le_u32_at(dib, 32).unwrap())
}

/// The bitmap file for a clipboard bitmap (a bitmap header followed by its data):
/// `BM`, the file size, four zero bytes, the pixel offset, then the bitmap itself.
/// None when the bitmap is shorter than 40 bytes or a size does not fit in a `usize`.
pub open spec fn dib_to_bmp_spec(dib: Seq<u8>) -> Option<Seq<u8>> {
    if dib.len() < 40 {
        None
    } else {
        let offset = dib_pixel_offset(dib);
        let color_count = dib_color_count(le_u16_at(dib, 14).unwrap(), le_u32_at(dib, 32).unwrap());
        if offset > usize::MAX || 4 * color_count > usize::MAX || 14 + dib.len() > usize::MAX {
            None
        } else {
            Some(
                seq![66u8, 77u8] + le_u32_bytes((14 + dib.len()) as u32) + seq![0u8, 0u8, 0u8, 0u8]
                    + le_u32_bytes(offset as u32) + dib,
            )
        }
    }
}

/// Turns a clipboard bitmap into a bitmap file.
pub fn dib_to_bmp(dib: &[u8]) -> (res: Option<Vec<u8>>)
    ensures
        opt_bytes(res) == dib_to_bmp_spec(dib@),
{
    if dib.len() < 40 {
        return None;
    }
    let header_size = match read_u32_le(dib, 0) {
        Some(v) => v,
        None => {
            return None;
        },
    };
    let bit_count = match read_u16_le(dib, 14) {
        Some(v) => v,
        None => {
            return None;
        },
    };
    let compression = match read_u32_le(dib, 16) {
        Some(v) => v,
        None => {
            return None;
        },
    };
    let mask_bytes: u64 = if header_size == 40 {
        if compression == 3 {
            12
        } else if compression == 6 {
            16
        } else {
            0
        }
    } else {
        0
    };
    let colors_used = match read_u32_le(dib, 32) {
        Some(v) => v,
        None => 0,
    };
    let color_count: u64 = if bit_count <= 8 {
        if colors_used == 0 {
            proof {
                vstd::arithmetic::power2::lemma2_to64();
                assert(bit_count <= 8);
            }
            let p = power_of_two(bit_count as u64);
            p
        } else {
            colors_used as u64
        }
    } else {
        0
    };
    let offset: u128 = 14 + header_size as u128 + mask_bytes as u128 + 4 * color_count as u128;
    if offset > usize::MAX as u128 || 4 * color_count as u128 > usize::MAX as u128 || 14 + dib.len() as u128 > usize::MAX as u128 {
        return None;
    }
    let file_size = 14 + dib.len();
    let mut bmp: Vec<u8> = Vec::new();
    bmp.push(66);
    bmp.push(77);
    extend_bytes(&mut bmp, u32_le_bytes(file_size as u32).as_slice());
    extend_bytes(&mut bmp, [0u8, 0u8, 0u8, 0u8].as_slice());
    extend_bytes(&mut bmp, u32_le_bytes(offset as u32).as_slice());
    extend_bytes(&mut bmp, dib);
    proof {
        assert(bmp@ =~= seq![66u8, 77u8] + le_u32_bytes((14 + dib@.len()) as u32) + seq![0u8, 0u8, 0u8, 0u8]
            + le_u32_bytes(dib_pixel_offset(dib@) as u32) + dib@);
    }
    Some(bmp)
}

/// Two to the power `n`, for `n` at most 8.
fn power_of_two(n: u64) -> (p: u64)
    requires
        n <= 8,
    ensures
        p == vstd::arithmetic::power2::pow2(n as nat),
{
    proof {
        vstd::arithmetic::power2::lemma2_to64();
    }
    if n == 0 {
        1
    } else if n == 1 {
        2
    } else if n == 2 {
        4
    } else if n == 3 {
        8
    } else if n == 4 {
        16
    } else if n == 5 {
        32
    } else if n == 6 {
        64
    } else if n == 7 {
        128
    } else {
        256
    }
}


/// The event for a bitmap read from the clipboard: the bitmap as a bitmap file,
/// decoded to RGBA pixels with their dimensions.
pub open spec fn dib_image_event_of(dib: Seq<u8>) -> Option<EventView> {
    match dib_to_bmp_spec(dib) {
        None => None,
        Some(bmp) => match decoded_image(ImageCodec::Bmp, bmp) {
            None => None,
            Some(image) => Some(image_event_of(image.0, image.1, image.2)),
        },
    }
}

/// The event for a bitmap read from the clipboard.
pub fn dib_image_event(dib: &[u8]) -> (res: Option<ClipboardEvent>)
    ensures
        event_view(res) == dib_image_event_of(dib@),
        dib_to_bmp_spec(dib@) is Some && decoded_image(ImageCodec::Bmp, dib_to_bmp_spec(dib@)->0) is Some
            ==> ({
            let decoded = decoded_image(ImageCodec::Bmp, dib_to_bmp_spec(dib@)->0)->0;
            event_view(res) matches Some(
                EventView::Item { kind, image_width, image_height, image_rgba, .. },
            ) && kind == EntryKind::Image && image_width == Some(decoded.0) && image_height == Some(
                decoded.1,
            ) && image_rgba == Some(decoded.2)
        }),
{
    let bmp = match dib_to_bmp(dib) {
        Some(b) => b,
        None => {
            return None;
        },
    };
    match decode_image(ImageCodec::Bmp, bmp.as_slice()) {
        Some((w, h, rgba)) => Some(rgba_image_event(w, h, rgba)),
        None => None,
    }
}

/// One step of the watcher, from the hash of the last emitted item and an event to
/// whether the event is emitted and the new last hash: an item whose hash equals the
/// last is not emitted; any other item is, and its hash becomes the last; the watcher
/// emits nothing but items.
pub open spec fn watcher_step(last: Seq<char>, event: EventView) -> (bool, Seq<char>) {
    match event {
        EventView::Item { hash, .. } => (hash != last, hash),
        EventView::ReloadLimits { .. } => (false, last),
    }
}

/// The state of the clipboard watcher: the hash of the last item it emitted.
pub struct WatcherState {
    last_hash: String,
    last_sequence: u32,
}

impl WatcherState {
    /// The hash of the last emitted item (empty before any).
    pub closed spec fn spec_last_hash(&self) -> Seq<char> {
        self.last_hash@
    }

    /// The clipboard's sequence number when it was last read (0 when unknown).
    pub closed spec fn spec_last_sequence(&self) -> u32 {
        self.last_sequence
    }

    /// A watcher that has emitted nothing.
    pub fn new() -> (w: WatcherState)
        ensures
            w.spec_last_hash() == Seq::<char>::empty(),
            w.spec_last_sequence() == 0,
    {
        WatcherState { last_hash: String::new(), last_sequence: 0 }
    }

    /// Whether the clipboard must be read, given its sequence number: not when the
    /// number is known and unchanged. A number that is read is remembered.
    pub fn clipboard_changed(&mut self, sequence: u32) -> (read: bool)
        ensures
            read == !(sequence != 0 && sequence == old(self).spec_last_sequence()),
            final(self).spec_last_sequence() == sequence,
            final(self).spec_last_hash() == old(self).spec_last_hash(),
    {
        if sequence != 0 && sequence == self.last_sequence {
            return false;
        }
        self.last_sequence = sequence;
        true
    }

    /// Forgets the sequence number, after the clipboard could not be read.
    pub fn forget_sequence(&mut self)
        ensures
            final(self).spec_last_sequence() == 0,
            final(self).spec_last_hash() == old(self).spec_last_hash(),
    {
        self.last_sequence = 0;
    }

    /// Whether an event should be emitted; see `watcher_step`.
    pub fn observe(&mut self, event: &ClipboardEvent) -> (emit: bool)
        ensures
            (emit, final(self).spec_last_hash()) == watcher_step(old(self).spec_last_hash(), event@),
            final(self).spec_last_sequence() == old(self).spec_last_sequence(),
    {
        match event {
            ClipboardEvent::Item { hash, .. } => {
                if equals(hash.as_str(), self.last_hash.as_str()) {
                    false
                } else {
                    self.last_hash = hash.clone();
                    true
                }
            },
            ClipboardEvent::ReloadLimits { .. } => false,
        }
    }
}

/// Whether a file extension names an image format whose first file in a copied list
/// gives the list its thumbnail: bmp, gif, jpeg, jpg, png or webp, in any ASCII case.
pub open spec fn supported_image_extension(extension: Option<Seq<char>>) -> bool {
    match extension {
        Some(e) => {
            let l = ascii_lowercase(e);
            l == "bmp"@ || l == "gif"@ || l == "jpeg"@ || l == "jpg"@ || l == "png"@ || l == "webp"@
        },
        None => false,
    }
}

/// Whether a file, by its extension, is an image that can give a thumbnail.
pub fn is_supported_image_extension(extension: Option<&str>) -> (res: bool)
    ensures
        res == supported_image_extension(match extension {
            Some(e) => Some(e@),
            None => None,
        }),
{
    let e = match extension {
        Some(e) => e,
        None => {
            return false;
        },
    };
    let cs = chars_of(e);
    let lower = string_of(&to_ascii_lowercase(&cs));
    let l = lower.as_str();
    equals(l, "bmp") || equals(l, "gif") || equals(l, "jpeg") || equals(l, "jpg") || equals(l, "png")
        || equals(l, "webp")
}

/// Copied web addresses are URLs: once trimmed, text that starts with `http://` or
/// `https://` in any ASCII case and holds no white space is a URL, and its event
/// carries the URL kind with the hash of a URL. Text holding white space, or not
/// starting with `http`, is plain text.
pub proof fn law_web_addresses_are_urls(content: Seq<char>)
    ensures
        has_prefix(ascii_lowercase(trimmed(content)), "http://"@) && !has_space(trimmed(content))
            ==> text_kind(content) == EntryKind::Url,
        has_prefix(ascii_lowercase(trimmed(content)), "https://"@) && !has_space(trimmed(content))
            ==> text_kind(content) == EntryKind::Url,
        has_space(trimmed(content)) ==> text_kind(content) == EntryKind::Text,
        !has_prefix(ascii_lowercase(trimmed(content)), "http"@) ==> text_kind(content)
            == EntryKind::Text,
        text_kind(content) == EntryKind::Url ==> (text_event_of(content) matches Some(
            EventView::Item { kind, hash, image_width, .. },
        ) && kind == EntryKind::Url && hash == parts_hash(EntryKind::Url, content, Seq::empty())
            && image_width is None),
{
    reveal_strlit("http");
    reveal_strlit("http://");
    reveal_strlit("https://");
    let lower = ascii_lowercase(trimmed(content));
    if has_prefix(lower, "http://"@) {
        assert(lower.take(4) =~= lower.take(7).take(4));
        assert("http://"@.take(4) =~= "http"@);
    }
    if has_prefix(lower, "https://"@) {
        assert(lower.take(4) =~= lower.take(8).take(4));
        assert("https://"@.take(4) =~= "http"@);
    }
    if text_kind(content) == EntryKind::Url {
        assert(lower.len() >= 4);
        assert(trimmed(content).len() == lower.len());
    }
}

/// A bitmap copied to the clipboard is recorded as the image it decodes to, in the
/// same orientation: the event carries the decoded width and height, in that order,
/// and the decoded pixels, and its text names the size as width `x` height. A bitmap
/// that cannot be converted or decoded gives no event.
pub proof fn law_bitmap_keeps_its_dimensions(dib: Seq<u8>, width: u32, height: u32, pixels: Seq<u8>)
    ensures
        dib_to_bmp_spec(dib) is Some && decoded_image(ImageCodec::Bmp, dib_to_bmp_spec(dib)->0) == Some(
            (width, height, pixels),
        ) ==> (dib_image_event_of(dib) matches Some(
            EventView::Item { kind, content, image_width, image_height, image_rgba, .. },
        ) && kind == EntryKind::Image && image_width == Some(width) && image_height == Some(height)
            && image_rgba == Some(pixels) && content.take(
            (6 + decimal(width as nat).len() + 1 + decimal(height as nat).len()) as int,
        ) == "Image "@ + decimal(width as nat) + "x"@ + decimal(height as nat)),
        dib_to_bmp_spec(dib) is None ==> dib_image_event_of(dib) is None,
        dib_to_bmp_spec(dib) is Some && decoded_image(ImageCodec::Bmp, dib_to_bmp_spec(dib)->0) is None
            ==> dib_image_event_of(dib) is None,
{
    reveal_strlit("Image ");
    reveal_strlit("x");
    if let Some(bmp) = dib_to_bmp_spec(dib) {
        if let Some((w, h, px)) = decoded_image(ImageCodec::Bmp, bmp) {
            let head = "Image "@ + decimal(w as nat) + "x"@ + decimal(h as nat);
            let hash = image_hash(Seq::empty(), w, h, px);
            let content = head + " ["@ + hash + "]"@;
            assert(content.take(head.len() as int) =~= head);
        }
    }
}

/// Consecutive copies of the same contents are emitted once: whatever the state,
/// after an item is observed, observing it again emits nothing and keeps the state.
pub proof fn law_repeated_item_is_suppressed(last: Seq<char>, event: EventView)
    requires
        event is Item,
    ensures
        ({
            let (_, after) = watcher_step(last, event);
            let (emit_again, after_again) = watcher_step(after, event);
            &&& !emit_again
            &&& after_again == after
        }),
{
}

} // verus!
