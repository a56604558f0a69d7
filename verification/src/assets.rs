//! Where the image files of the history live, and where a stored image's pixels
//! are read back from.
use vstd::prelude::*;

use crate::db::{ClipboardEntry, EntryKind, HistoryError, HistoryTable, RowView, ids_unique, opt_string_view};
use crate::clipboard::{image_digest, image_hash};
use crate::image_codec::{EncodeError, ImageCodec, decode_image, decoded_image, encode_png, png_of};
use crate::text::{chars_of, equals, extend_chars, string_of};
use vstd::utf8::encode_utf8;

verus! {

/// The two files kept for an image asset.
#[derive(Clone, Copy, Debug, PartialEq, Eq, Structural)]
pub enum AssetKind {
    /// The full-size lossless image.
    Original,
    /// The small preview.
    Preview,
}

/// The directory name of an asset kind.
pub open spec fn asset_kind_name(kind: AssetKind) -> Seq<char> {
    match kind {
        AssetKind::Original => "original"@,
        AssetKind::Preview => "preview"@,
    }
}

impl AssetKind {
    /// The directory name of this kind.
    pub fn as_str(self) -> (name: &'static str)
        ensures
            name@ == asset_kind_name(self),
    {
        match self {
            AssetKind::Original => "original",
            AssetKind::Preview => "preview",
        }
    }
}

/// The number of bytes a character takes in UTF-8.
pub open spec fn utf8_width(c: char) -> int {
    if (c as u32) < 0x80 {
        1
    } else if (c as u32) < 0x800 {
        2
    } else if (c as u32) < 0x10000 {
        3
    } else {
        4
    }
}

/// The bucket directory of a hash: its first two bytes when they end on a character
/// boundary, and `00` otherwise.
pub open spec fn bucket_of(hash: Seq<char>) -> Seq<char> {
    if hash.len() >= 1 && utf8_width(hash[0]) == 2 {
        hash.take(1)
    } else if hash.len() >= 2 && utf8_width(hash[0]) == 1 && utf8_width(hash[1]) == 1 {
        hash.take(2)
    } else {
        "00"@
    }
}

/// The bucket directory that an asset with the given hash is filed under.
pub fn asset_bucket(hash: &str) -> (res: String)
    ensures
        res@ == bucket_of(hash@),
{
    let cs = chars_of(hash);
    if cs.len() >= 1 {
        let first = cs[0] as u32;
        if 0x80 <= first && first < 0x800 {
            let mut out: Vec<char> = Vec::new();
            out.push(cs[0]);
            assert(out@ =~= hash@.take(1));
            return string_of(&out);
        }
        if cs.len() >= 2 && first < 0x80 && (cs[1] as u32) < 0x80 {
            let mut out: Vec<char> = Vec::new();
            out.push(cs[0]);
            out.push(cs[1]);
            assert(out@ =~= hash@.take(2));
            return string_of(&out);
        }
    }
    proof {
        reveal_strlit("00");
    }
    "00".to_owned()
}

/// The file name of an asset: its hash and the PNG extension.
pub open spec fn asset_file_name(hash: Seq<char>) -> Seq<char> {
    hash + ".png"@
}

/// The path of an asset below the asset root, as its components: the kind's
/// directory, the bucket, and the file name.
pub open spec fn asset_components(kind: AssetKind, hash: Seq<char>) -> Seq<Seq<char>> {
    seq![asset_kind_name(kind), bucket_of(hash), asset_file_name(hash)]
}

/// The models of a list of strings.
pub open spec fn components_view(list: Seq<String>) -> Seq<Seq<char>> {
    list.map_values(|s: String| s@)
}

/// The path of an asset below the asset root, as its components.
pub fn asset_path(kind: AssetKind, hash: &str) -> (res: Vec<String>)
    ensures
        components_view(res@) == asset_components(kind, hash@),
{
    let mut name = chars_of(hash);
    let ext = chars_of(".png");
    extend_chars(&mut name, &ext);
    let mut res: Vec<String> = Vec::new();
    res.push(kind.as_str().to_owned());
    res.push(asset_bucket(hash));
    res.push(string_of(&name));
    assert(components_view(res@) =~= asset_components(kind, hash@));
    res
}

/// The path of an entry's preview below the asset root, when it has an asset.
pub fn preview_path(entry: &ClipboardEntry) -> (res: Option<Vec<String>>)
    ensures
        match opt_string_view(entry.asset_hash) {
            Some(h) => res matches Some(p) && components_view(p@) == asset_components(AssetKind::Preview, h),
            None => res is None,
        },
{
    match &entry.asset_hash {
        Some(h) => Some(asset_path(AssetKind::Preview, h.as_str())),
        None => None,
    }
}

/// Where the full pixels of a stored image are read from.
#[derive(Debug)]
pub enum ImageSource {
    /// An asset file, in PNG.
    File { kind: AssetKind, hash: String },
    /// Pixels kept inline by an older schema.
    Pixels { width: u32, height: u32, rgba: Vec<u8> },
}

/// Where a stored image's preview is read from.
#[derive(Debug)]
pub enum PreviewSource {
    /// The preview file of the asset, in PNG.
    File { hash: String },
    /// Pixels kept inline by an older schema, to be encoded as PNG.
    Pixels { width: u32, height: u32, rgba: Vec<u8> },
}

/// The model of an image source.
pub enum SourceView {
    File { kind: AssetKind, hash: Seq<char> },
    Pixels { width: u32, height: u32, rgba: Seq<u8> },
}

impl View for ImageSource {
    type V = SourceView;

    open spec fn view(&self) -> SourceView {
        match self {
            ImageSource::File { kind, hash } => SourceView::File { kind: *kind, hash: hash@ },
            ImageSource::Pixels { width, height, rgba } => SourceView::Pixels {
                width: *width,
                height: *height,
                rgba: rgba@,
            },
        }
    }
}

impl View for PreviewSource {
    type V = SourceView;

    open spec fn view(&self) -> SourceView {
        match self {
            PreviewSource::File { hash } => SourceView::File { kind: AssetKind::Preview, hash: hash@ },
            PreviewSource::Pixels { width, height, rgba } => SourceView::Pixels {
                width: *width,
                height: *height,
                rgba: rgba@,
            },
        }
    }
}

/// Where a row's full image is read from: the original file of its asset (only the
/// preview when the asset was recovered from an old thumbnail); otherwise its inline
/// pixels when their length matches its size; otherwise nowhere.
pub open spec fn image_source_of(r: RowView) -> Option<SourceView> {
    match r.asset {
        Some(a) => Some(
            SourceView::File {
                kind: if r.legacy_only {
                    AssetKind::Preview
                } else {
                    AssetKind::Original
                },
                hash: a.hash,
            },
        ),
        None => match (r.image_width, r.image_height, r.inline_rgba) {
            (Some(w), Some(h), Some(b)) => if b.len() == w * h * 4 {
                Some(SourceView::Pixels { width: w, height: h, rgba: b })
            } else {
                None
            },
            _ => None,
        },
    }
}

/// Where a row's preview is read from: the preview file of its asset; otherwise its
/// inline pixels, whatever their length; otherwise nowhere.
pub open spec fn preview_source_of(r: RowView) -> Option<SourceView> {
    match r.asset {
        Some(a) => Some(SourceView::File { kind: AssetKind::Preview, hash: a.hash }),
        None => match (r.image_width, r.image_height, r.inline_rgba) {
            (Some(w), Some(h), Some(b)) => Some(SourceView::Pixels { width: w, height: h, rgba: b }),
            _ => None,
        },
    }
}

/// The row with the given id, when there is one.
pub open spec fn row_with_id(rows: Seq<RowView>, id: i64) -> Option<RowView> {
    if exists|i: int| 0 <= i < rows.len() && #[trigger] rows[i].id == id {
        Some(rows[choose|i: int| 0 <= i < rows.len() && #[trigger] rows[i].id == id])
    } else {
        None
    }
}

/// In a table whose ids are unique, the row found at an id is the row with that id.
pub proof fn lemma_row_with_id(rows: Seq<RowView>, id: i64, k: int)
    requires
        ids_unique(rows),
        0 <= k < rows.len(),
        rows[k].id == id,
    ensures
        row_with_id(rows, id) == Some(rows[k]),
{
    assert(rows[k].id == id);
    let c = choose|i: int| 0 <= i < rows.len() && #[trigger] rows[i].id == id;
    assert(rows[c].id == rows[k].id);
}

/// A copy of a byte vector.
fn copy_bytes(v: &Vec<u8>) -> (res: Vec<u8>)
    ensures
        res@ == v@,
{
    let mut out: Vec<u8> = Vec::new();
    let mut i: usize = 0;
    while i < v.len()
        invariant
            i <= v.len(),
            out@ == v@.take(i as int),
        decreases v.len() - i,
    {
        out.push(v[i]);
        assert(out@ =~= v@.take(i + 1));
        i += 1;
    }
    assert(out@ =~= v@);
    out
}

impl HistoryTable {
    /// Where the full pixels of the entry with the given id are read from; `None`
    /// when there is no such entry or it holds no usable pixels.
    pub fn image_source(&self, id: i64) -> (res: Option<ImageSource>)
        requires
            self.wf(),
        ensures
            match row_with_id(self.spec_rows(), id) {
                Some(r) => match image_source_of(r) {
                    Some(s) => res matches Some(x) && x@ == s,
                    None => res is None,
                },
                None => res is None,
            },
    {
        match self.find_row(id) {
            None => None,
            Some(k) => {
                let row = self.row_at(k);
                proof {
                    lemma_row_with_id(self.spec_rows(), id, k as int);
                }
                match &row.asset {
                    Some(a) => {
                        let kind = if row.legacy_only {
                            AssetKind::Preview
                        } else {
                            AssetKind::Original
                        };
                        Some(ImageSource::File { kind, hash: a.hash.clone() })
                    },
                    None => match (row.image_width, row.image_height, &row.inline_rgba) {
                        (Some(w), Some(h), Some(b)) => {
                            let ww = w as u128;
                            let hh = h as u128;
                            assert(ww * hh <= 0xffff_ffff * 0xffff_ffff) by (nonlinear_arith)
                                requires
                                    ww <= 0xffff_ffff,
                                    hh <= 0xffff_ffff,
                            ;
                            if b.len() as u128 == ww * hh * 4 {
                                Some(ImageSource::Pixels { width: w, height: h, rgba: copy_bytes(b) })
                            } else {
                                None
                            }
                        },
                        _ => None,
                    },
                }
            },
        }
    }

    /// Where the preview of the entry with the given id is read from; `None` when
    /// there is no such entry or it holds no pixels.
    pub fn preview_source(&self, id: i64) -> (res: Option<PreviewSource>)
        requires
            self.wf(),
        ensures
            match row_with_id(self.spec_rows(), id) {
                Some(r) => match preview_source_of(r) {
                    Some(s) => res matches Some(x) && x@ == s,
                    None => res is None,
                },
                None => res is None,
            },
    {
        match self.find_row(id) {
            None => None,
            Some(k) => {
                let row = self.row_at(k);
                proof {
                    lemma_row_with_id(self.spec_rows(), id, k as int);
                }
                match &row.asset {
                    Some(a) => Some(PreviewSource::File { hash: a.hash.clone() }),
                    None => match (row.image_width, row.image_height, &row.inline_rgba) {
                        (Some(w), Some(h), Some(b)) => Some(
                            PreviewSource::Pixels { width: w, height: h, rgba: copy_bytes(b) },
                        ),
                        _ => None,
                    },
                }
            },
        }
    }
}

/// Reads back the pixels of an asset file: the PNG decoded to RGBA with its width
/// and height, or nothing when the data does not decode.
pub fn decode_asset(png: &[u8]) -> (res: Option<(u32, u32, Vec<u8>)>)
    ensures
        match res {
            Some((w, h, rgba)) => decoded_image(ImageCodec::Png, png@) == Some((w, h, rgba@)),
            None => decoded_image(ImageCodec::Png, png@) is None,
        },
{
    decode_image(ImageCodec::Png, png)
}

/// A row still holding an old inline thumbnail that migration moves to a file: an
/// image or a file list with inline pixels and no asset.
pub open spec fn legacy_candidate(r: RowView) -> bool {
    (r.kind == EntryKind::Image || r.kind == EntryKind::FilePaths) && r.asset is None
        && r.inline_rgba is Some
}

/// Whether `id` is the id of a candidate row.
pub open spec fn candidate_id(rows: Seq<RowView>, id: i64) -> bool {
    exists|j: int| 0 <= j < rows.len() && #[trigger] rows[j].id == id && legacy_candidate(rows[j])
}

/// `ids` are, in increasing order, exactly the candidate ids up to the last of them.
pub open spec fn legacy_prefix(rows: Seq<RowView>, ids: Seq<i64>) -> bool {
    &&& forall|a: int, b: int| 0 <= a < b < ids.len() ==> #[trigger] ids[a] < #[trigger] ids[b]
    &&& forall|i: int| 0 <= i < ids.len() ==> candidate_id(rows, #[trigger] ids[i])
    &&& forall|j: int|
        0 <= j < rows.len() && legacy_candidate(#[trigger] rows[j]) && ids.len() > 0 && rows[j].id
            <= ids.last() ==> ids.contains(rows[j].id)
}

/// `ids` are the ids of the at most `limit` candidates with the smallest ids, in
/// increasing order.
pub open spec fn legacy_batch(rows: Seq<RowView>, limit: int, ids: Seq<i64>) -> bool {
    &&& legacy_prefix(rows, ids)
    &&& ids.len() <= limit
    &&& ids.len() < limit ==> forall|j: int|
        0 <= j < rows.len() && legacy_candidate(#[trigger] rows[j]) ==> ids.contains(rows[j].id)
}

/// An old inline thumbnail to move to a file.
#[derive(Debug)]
pub struct LegacyImage {
    pub id: i64,
    pub width: u32,
    pub height: u32,
    pub rgba: Vec<u8>,
}

/// The ids of a list of old thumbnails.
pub open spec fn legacy_ids(list: Seq<LegacyImage>) -> Seq<i64> {
    list.map_values(|x: LegacyImage| x.id)
}

/// Whether a thumbnail carries the size and pixels of the row with its id.
pub open spec fn legacy_matches_row(rows: Seq<RowView>, x: LegacyImage) -> bool {
    exists|j: int|
        0 <= j < rows.len() && #[trigger] rows[j].id == x.id && rows[j].image_width == Some(x.width)
            && rows[j].image_height == Some(x.height) && rows[j].inline_rgba == Some(x.rgba@)
}

/// Whether the row with `id` lacks its width or height.
pub open spec fn size_missing(rows: Seq<RowView>, id: i64) -> bool {
    exists|j: int|
        0 <= j < rows.len() && #[trigger] rows[j].id == id && (rows[j].image_width is None
            || rows[j].image_height is None)
}

impl HistoryTable {
    /// Picks the next batch of old inline thumbnails to move to files: the at most
    /// `limit` candidates with the smallest ids, in increasing id order. Fails when
    /// one of them lacks its width or height.
    pub fn legacy_images(&self, limit: usize) -> (res: Result<Vec<LegacyImage>, HistoryError>)
        requires
            self.wf(),
        ensures
            match res {
                Ok(list) => {
                    &&& legacy_batch(self.spec_rows(), limit as int, legacy_ids(list@))
                    &&& forall|i: int|
                        0 <= i < list@.len() ==> legacy_matches_row(self.spec_rows(), #[trigger] list@[i])
                    &&& forall|p: Seq<i64>|
                        legacy_prefix(self.spec_rows(), p) && 0 < p.len() <= limit ==> !size_missing(
                            self.spec_rows(),
                            #[trigger] p.last(),
                        )
                },
                Err(e) => e == HistoryError::MissingPixels && exists|ids: Seq<i64>|
                    legacy_prefix(self.spec_rows(), ids) && 0 < ids.len() <= limit && size_missing(
                        self.spec_rows(),
                        #[trigger] ids.last(),
                    ),
            },
    {
        let ghost rows = self.spec_rows();
        let n = self.len();
        let mut out: Vec<LegacyImage> = Vec::new();
        let mut last: i64 = 0;
        while out.len() < limit
            invariant
                rows == self.spec_rows(),
                n == rows.len(),
                self.wf(),
                out@.len() <= limit,
                out@.len() > 0 ==> last == out@.last().id,
                legacy_prefix(rows, legacy_ids(out@)),
                forall|i: int| 0 <= i < out@.len() ==> legacy_matches_row(rows, #[trigger] out@[i]),
            decreases limit - out@.len(),
        {
            let ghost ids = legacy_ids(out@);
            let mut best: Option<usize> = None;
            let mut j: usize = 0;
            while j < n
                invariant
                    rows == self.spec_rows(),
                    n == rows.len(),
                    j <= n,
                    match best {
                        Some(b) => b < j && legacy_candidate(rows[b as int]) && (out@.len() == 0
                            || rows[b as int].id > last),
                        None => true,
                    },
                    forall|q: int|
                        0 <= q < j && legacy_candidate(#[trigger] rows[q]) && (out@.len() == 0
                            || rows[q].id > last) ==> best is Some && rows[best->0 as int].id <= rows[q].id,
                decreases n - j,
            {
                let row = self.row_at(j);
                let candidate = match row.kind {
                    EntryKind::Image => true,
                    EntryKind::FilePaths => true,
                    _ => false,
                } && row.asset.is_none() && row.inline_rgba.is_some();
                if candidate && (out.len() == 0 || row.id > last) {
                    let better = match best {
                        None => true,
                        Some(b) => row.id < self.row_at(b).id,
                    };
                    if better {
                        best = Some(j);
                    }
                }
                j += 1;
            }
            let b = match best {
                None => {
                    proof {
                        assert forall|q: int| 0 <= q < rows.len() && legacy_candidate(#[trigger] rows[q]) implies ids.contains(
                            rows[q].id,
                        ) by {
                            assert(out@.len() > 0 && rows[q].id <= last);
                        }
                        lemma_batch_sizes_complete(rows, limit as int, out@);
                    }
                    return Ok(out);
                },
                Some(b) => b,
            };
            let row = self.row_at(b);
            let ghost rb = rows[b as int];
            proof {
                assert(candidate_id(rows, rb.id));
            }
            match (row.image_width, row.image_height, &row.inline_rgba) {
                (Some(w), Some(h), Some(px)) => {
                    let x = LegacyImage { id: row.id, width: w, height: h, rgba: copy_bytes(px) };
                    out.push(x);
                    last = row.id;
                    proof {
                        assert(legacy_ids(out@) =~= ids.push(rb.id));
                        assert(legacy_matches_row(rows, x));
                        assert(legacy_ids(out@).last() == last);
                        assert forall|q: int|
                            0 <= q < rows.len() && legacy_candidate(#[trigger] rows[q]) && rows[q].id
                                <= last implies legacy_ids(out@).contains(rows[q].id) by {
                            if rows[q].id == rb.id {
                                assert(legacy_ids(out@)[ids.len() as int] == rb.id);
                            } else if ids.len() > 0 && rows[q].id <= ids.last() {
                                assert(ids.contains(rows[q].id));
                                let p = choose|p: int| 0 <= p < ids.len() && ids[p] == rows[q].id;
                                assert(legacy_ids(out@)[p] == rows[q].id);
                            } else {
                                assert(rb.id <= rows[q].id);
                            }
                        }
                    }
                },
                _ => {
                    proof {
                        let full = ids.push(rb.id);
                        assert(size_missing(rows, rb.id));
                        assert(full.last() == rb.id);
                        assert forall|q: int|
                            0 <= q < rows.len() && legacy_candidate(#[trigger] rows[q]) && rows[q].id
                                <= full.last() implies full.contains(rows[q].id) by {
                            if rows[q].id == rb.id {
                                assert(full[ids.len() as int] == rb.id);
                            } else if ids.len() > 0 && rows[q].id <= ids.last() {
                                assert(ids.contains(rows[q].id));
                                let p = choose|p: int| 0 <= p < ids.len() && ids[p] == rows[q].id;
                                assert(full[p] == rows[q].id);
                            } else {
                                assert(rb.id <= rows[q].id);
                            }
                        }
                        assert(legacy_prefix(rows, full));
                    }
                    return Err(HistoryError::MissingPixels);
                },
            }
        }
        proof {
            lemma_batch_sizes_complete(rows, limit as int, out@);
        }
        Ok(out)
    }
}

/// The hash under which an old thumbnail's preview is filed.
pub open spec fn legacy_preview_hash(width: u32, height: u32, rgba: Seq<u8>) -> Seq<char> {
    image_hash(encode_utf8("legacy-preview"@), width, height, rgba)
}

/// The hash and the PNG of the preview file that an old thumbnail becomes.
pub fn legacy_preview(image: &LegacyImage) -> (res: Result<(String, Vec<u8>), EncodeError>)
    requires
        4 * (image.width * image.height) <= usize::MAX ==> image.rgba@.len() <= 4 * (image.width
            * image.height),
    ensures
        match png_of(image.width, image.height, image.rgba@) {
            Ok(png) => res matches Ok((h, p)) && h@ == legacy_preview_hash(image.width, image.height, image.rgba@)
                && p@ == png,
            Err(e) => res == Err::<(String, Vec<u8>), EncodeError>(e),
        },
{
    let hash = image_digest("legacy-preview".as_bytes(), image.width, image.height, image.rgba.as_slice());
    match encode_png(image.width, image.height, copy_bytes(&image.rgba)) {
        Ok(png) => Ok((hash, png)),
        Err(e) => Err(e),
    }
}

/// The hash under which an entry is stored: for an image, the hash of its size and
/// pixels (none when any is missing); for anything else, the hash it was captured
/// with.
pub open spec fn stored_hash(
    kind: EntryKind,
    hash: Seq<char>,
    width: Option<u32>,
    height: Option<u32>,
    rgba: Option<Seq<u8>>,
) -> Option<Seq<char>> {
    if kind == EntryKind::Image {
        match (width, height, rgba) {
            (Some(w), Some(h), Some(px)) => Some(image_hash(Seq::empty(), w, h, px)),
            _ => None,
        }
    } else {
        Some(hash)
    }
}

/// The model of optional borrowed bytes.
pub open spec fn opt_slice_view(bytes: Option<&[u8]>) -> Option<Seq<u8>> {
    match bytes {
        Some(b) => Some(b@),
        None => None,
    }
}

/// The hash under which an entry is stored. An image without its size or pixels is
/// refused.
pub fn entry_hash(
    kind: EntryKind,
    hash: &str,
    width: Option<u32>,
    height: Option<u32>,
    rgba: Option<&[u8]>,
) -> (res: Result<String, HistoryError>)
    ensures
        match stored_hash(kind, hash@, width, height, opt_slice_view(rgba)) {
            Some(h) => res matches Ok(s) && s@ == h,
            None => res == Err::<String, HistoryError>(HistoryError::MissingPixels),
        },
{
    match kind {
        EntryKind::Image => match (width, height, rgba) {
            (Some(w), Some(h), Some(px)) => {
                let empty: Vec<u8> = Vec::new();
                assert(empty@ =~= Seq::<u8>::empty());
                Ok(image_digest(empty.as_slice(), w, h, px))
            },
            _ => Err(HistoryError::MissingPixels),
        },
        _ => Ok(hash.to_owned()),
    }
}

/// The hash under which a file list's preview is filed.
pub open spec fn preview_only_hash(width: u32, height: u32, rgba: Seq<u8>) -> Seq<char> {
    image_hash(encode_utf8("preview-only"@), width, height, rgba)
}

/// The hash of a file list's preview.
pub fn preview_asset_hash(width: u32, height: u32, rgba: &[u8]) -> (res: String)
    ensures
        res@ == preview_only_hash(width, height, rgba@),
{
    image_digest("preview-only".as_bytes(), width, height, rgba)
}

/// Whether a file in an asset bucket is left over: an interrupted write (`tmp`
/// extension), or a PNG whose name is no known asset hash.
pub open spec fn orphan_file(stem: Option<Seq<char>>, extension: Option<Seq<char>>, known: Seq<Seq<char>>) -> bool {
    extension == Some("tmp"@) || (extension == Some("png"@) && match stem {
        Some(h) => !known.contains(h),
        None => false,
    })
}

/// Whether a file in an asset bucket, by its name's stem and extension, is left
/// over and can be removed.
pub fn is_orphan_asset(stem: Option<&str>, extension: Option<&str>, known: &Vec<String>) -> (res: bool)
    ensures
        res == orphan_file(
            match stem {
                Some(s) => Some(s@),
                None => None,
            },
            match extension {
                Some(e) => Some(e@),
                None => None,
            },
            components_view(known@),
        ),
{
    proof {
        reveal_strlit("tmp");
        reveal_strlit("png");
    }
    let ext = match extension {
        Some(e) => e,
        None => {
            return false;
        },
    };
    if equals(ext, "tmp") {
        return true;
    }
    if !equals(ext, "png") {
        return false;
    }
    let h = match stem {
        Some(h) => h,
        None => {
            return false;
        },
    };
    let mut i: usize = 0;
    while i < known.len()
        invariant
            i <= known.len(),
            extension == Some(ext),
            stem == Some(h),
            ext@ == "png"@,
            ext@ != "tmp"@,
            forall|k: int| 0 <= k < i ==> #[trigger] known@[k]@ != h@,
        decreases known.len() - i,
    {
        if equals(known[i].as_str(), h) {
            assert(components_view(known@)[i as int] == h@);
            assert(components_view(known@).contains(h@));
            return false;
        }
        i += 1;
    }
    assert forall|k: int| 0 <= k < known@.len() implies #[trigger] components_view(known@)[k] != h@ by {
        assert(known@[k]@ != h@);
    }
    true
}

/// Two candidate prefixes agree position by position as far as both reach: each
/// lists the candidate ids in increasing order from the smallest.
proof fn lemma_prefixes_agree(rows: Seq<RowView>, a: Seq<i64>, b: Seq<i64>, k: int)
    requires
        legacy_prefix(rows, a),
        legacy_prefix(rows, b),
        0 <= k < a.len(),
        k < b.len(),
    ensures
        a[k] == b[k],
    decreases k,
{
    if k > 0 {
        lemma_prefixes_agree(rows, a, b, k - 1);
    }
    assert forall|i: int| 0 <= i < k implies a[i] == b[i] by {
        lemma_prefixes_agree(rows, a, b, i);
    }
    if a[k] < b[k] {
        assert(candidate_id(rows, a[k]));
        let j = choose|j: int| 0 <= j < rows.len() && #[trigger] rows[j].id == a[k] && legacy_candidate(rows[j]);
        assert(b[k] <= b.last());
        assert(b.contains(rows[j].id));
        let q = choose|q: int| 0 <= q < b.len() && b[q] == a[k];
        if q >= k {
            if q > k {
                assert(b[k] < b[q]);
            }
        } else {
            assert(a[q] == b[q]);
            assert(a[q] < a[k]);
        }
    } else if b[k] < a[k] {
        assert(candidate_id(rows, b[k]));
        let j = choose|j: int| 0 <= j < rows.len() && #[trigger] rows[j].id == b[k] && legacy_candidate(rows[j]);
        assert(a[k] <= a.last());
        assert(a.contains(rows[j].id));
        let q = choose|q: int| 0 <= q < a.len() && a[q] == b[k];
        if q >= k {
            if q > k {
                assert(a[k] < a[q]);
            }
        } else {
            assert(a[q] == b[q]);
            assert(b[q] < b[k]);
        }
    }
}

/// Migration's batch is determined by the rows and the limit: two batches for the
/// same rows and limit are the same.
pub proof fn law_legacy_batch_is_unique(rows: Seq<RowView>, limit: int, a: Seq<i64>, b: Seq<i64>)
    requires
        legacy_batch(rows, limit, a),
        legacy_batch(rows, limit, b),
    ensures
        a == b,
{
    assert forall|i: int| 0 <= i < a.len() && i < b.len() implies a[i] == b[i] by {
        lemma_prefixes_agree(rows, a, b, i);
    }
    if a.len() < b.len() {
        let c = b[a.len() as int];
        assert(candidate_id(rows, c));
        let j = choose|j: int| 0 <= j < rows.len() && #[trigger] rows[j].id == c && legacy_candidate(rows[j]);
        assert(a.contains(rows[j].id));
        let q = choose|q: int| 0 <= q < a.len() && a[q] == c;
        assert(b[q] == c);
        assert(b[q] < b[a.len() as int]);
    } else if b.len() < a.len() {
        let c = a[b.len() as int];
        assert(candidate_id(rows, c));
        let j = choose|j: int| 0 <= j < rows.len() && #[trigger] rows[j].id == c && legacy_candidate(rows[j]);
        assert(b.contains(rows[j].id));
        let q = choose|q: int| 0 <= q < b.len() && b[q] == c;
        assert(a[q] == c);
        assert(a[q] < a[b.len() as int]);
    }
    assert(a =~= b);
}

/// A candidate that some prefix of at most `limit` ids ends with belongs to the batch,
/// so migration fails exactly when a row of its batch lacks its size.
pub proof fn law_legacy_prefix_is_in_batch(rows: Seq<RowView>, limit: int, batch: Seq<i64>, p: Seq<i64>)
    requires
        legacy_batch(rows, limit, batch),
        legacy_prefix(rows, p),
        0 < p.len() <= limit,
    ensures
        batch.contains(p.last()),
{
    let c = p.last();
    if p.len() <= batch.len() {
        lemma_prefixes_agree(rows, p, batch, p.len() - 1);
        assert(batch[p.len() - 1] == c);
    } else {
        assert(candidate_id(rows, c));
        let j = choose|j: int| 0 <= j < rows.len() && #[trigger] rows[j].id == c && legacy_candidate(rows[j]);
        assert(batch.contains(rows[j].id));
    }
}

/// When every row of a batch has its size, no prefix within the limit ends at a row
/// without one.
proof fn lemma_batch_sizes_complete(rows: Seq<RowView>, limit: int, list: Seq<LegacyImage>)
    requires
        ids_unique(rows),
        legacy_batch(rows, limit, legacy_ids(list)),
        forall|i: int| 0 <= i < list.len() ==> legacy_matches_row(rows, #[trigger] list[i]),
    ensures
        forall|p: Seq<i64>|
            legacy_prefix(rows, p) && 0 < p.len() <= limit ==> !size_missing(rows, #[trigger] p.last()),
{
    assert forall|p: Seq<i64>| legacy_prefix(rows, p) && 0 < p.len() <= limit implies !size_missing(
        rows,
        #[trigger] p.last(),
    ) by {
        law_legacy_prefix_is_in_batch(rows, limit, legacy_ids(list), p);
        let ids = legacy_ids(list);
        let q = choose|q: int| 0 <= q < ids.len() && ids[q] == p.last();
        let x = list[q];
        assert(legacy_matches_row(rows, x));
        let j = choose|j: int|
            0 <= j < rows.len() && #[trigger] rows[j].id == x.id && rows[j].image_width == Some(x.width)
                && rows[j].image_height == Some(x.height) && rows[j].inline_rgba == Some(x.rgba@);
        if size_missing(rows, p.last()) {
            let m = choose|m: int|
                0 <= m < rows.len() && #[trigger] rows[m].id == p.last() && (rows[m].image_width is None
                    || rows[m].image_height is None);
            assert(rows[m].id == rows[j].id);
        }
    }
}

} // verus!
