//! The clipboard history table: its rows, the order in which they are read back,
//! de-duplication by content hash, and the limits that bound it.
//!
//! `HistoryTable` holds the rows of the history in recency order (most recent first).
//! Every operation of the history store is decided here; a persistence layer only
//! stores what these operations produce.
use vstd::prelude::*;

use crate::text::{
    chars_of, char_vecs_view, contains, contains_seq, equals, lowercase, split_whitespace, string_of,
    strings_view, to_lowercase, words,
};

verus! {

/// The kind of a clipboard history entry.
#[derive(Clone, Copy, Debug, PartialEq, Eq, Structural)]
pub enum EntryKind {
    Text,
    Url,
    FilePaths,
    Image,
}

/// The name under which a kind is stored.
pub open spec fn kind_name(kind: EntryKind) -> Seq<char> {
    match kind {
        EntryKind::Text => "text"@,
        EntryKind::Url => "url"@,
        EntryKind::FilePaths => "file_paths"@,
        EntryKind::Image => "image"@,
    }
}

/// The kind that a stored name denotes; an unknown name reads as text.
pub open spec fn kind_from_name(name: Seq<char>) -> EntryKind {
    if name == "url"@ {
        EntryKind::Url
    } else if name == "file_paths"@ {
        EntryKind::FilePaths
    } else if name == "image"@ {
        EntryKind::Image
    } else {
        EntryKind::Text
    }
}

impl EntryKind {
    /// The stored name of this kind.
    pub fn as_str(self) -> (name: &'static str)
        ensures
            name@ == kind_name(self),
    {
        match self {
            EntryKind::Text => "text",
            EntryKind::Url => "url",
            EntryKind::FilePaths => "file_paths",
            EntryKind::Image => "image",
        }
    }

    /// The kind stored under `value`; any name other than the four kind names is text.
    pub fn from_str(value: &str) -> (kind: EntryKind)
        ensures
            kind == kind_from_name(value@),
    {
        if equals(value, "url") {
            EntryKind::Url
        } else if equals(value, "file_paths") {
            EntryKind::FilePaths
        } else if equals(value, "image") {
            EntryKind::Image
        } else {
            EntryKind::Text
        }
    }
}

/// Whether an insert was stored or refused because the image alone exceeds the budget.
#[derive(Clone, Copy, Debug, PartialEq, Eq, Structural)]
pub enum InsertOutcome {
    Stored,
    ImageTooLarge,
}

/// The image files that belong to an entry: an original and a preview, addressed by hash.
#[derive(Debug)]
pub struct AssetRecord {
    pub hash: String,
    pub preview_width: u32,
    pub preview_height: u32,
    pub original_bytes: u64,
    pub preview_bytes: u64,
}

/// The model of an asset record.
pub struct AssetView {
    pub hash: Seq<char>,
    pub preview_width: u32,
    pub preview_height: u32,
    pub original_bytes: u64,
    pub preview_bytes: u64,
}

impl View for AssetRecord {
    type V = AssetView;

    open spec fn view(&self) -> AssetView {
        AssetView {
            hash: self.hash@,
            preview_width: self.preview_width,
            preview_height: self.preview_height,
            original_bytes: self.original_bytes,
            preview_bytes: self.preview_bytes,
        }
    }
}

/// The model of an optional asset record.
pub open spec fn asset_view(asset: Option<AssetRecord>) -> Option<AssetView> {
    match asset {
        Some(a) => Some(a@),
        None => None,
    }
}

/// One row of the history table.
#[derive(Debug)]
pub struct HistoryRow {
    pub id: i64,
    pub kind: EntryKind,
    pub content: String,
    pub hash: String,
    pub image_width: Option<u32>,
    pub image_height: Option<u32>,
    /// Pixels kept inline by an older schema, before assets were moved to files.
    pub inline_rgba: Option<Vec<u8>>,
    pub created_at: i64,
    pub updated_at: i64,
    pub asset: Option<AssetRecord>,
    /// The asset holds only a preview recovered from an old thumbnail.
    pub legacy_only: bool,
}

/// The model of a history row.
pub struct RowView {
    pub id: i64,
    pub kind: EntryKind,
    pub content: Seq<char>,
    pub hash: Seq<char>,
    pub image_width: Option<u32>,
    pub image_height: Option<u32>,
    pub inline_rgba: Option<Seq<u8>>,
    pub created_at: i64,
    pub updated_at: i64,
    pub asset: Option<AssetView>,
    pub legacy_only: bool,
}

/// The model of optional inline pixels.
pub open spec fn bytes_view(bytes: Option<Vec<u8>>) -> Option<Seq<u8>> {
    match bytes {
        Some(b) => Some(b@),
        None => None,
    }
}

impl View for HistoryRow {
    type V = RowView;

    open spec fn view(&self) -> RowView {
        RowView {
            id: self.id,
            kind: self.kind,
            content: self.content@,
            hash: self.hash@,
            image_width: self.image_width,
            image_height: self.image_height,
            inline_rgba: bytes_view(self.inline_rgba),
            created_at: self.created_at,
            updated_at: self.updated_at,
            asset: asset_view(self.asset),
            legacy_only: self.legacy_only,
        }
    }
}

/// A history entry as the rest of the program sees it.
#[derive(Clone, Debug)]
pub struct ClipboardEntry {
    pub id: i64,
    pub kind: EntryKind,
    pub content: String,
    pub image_width: Option<u32>,
    pub image_height: Option<u32>,
    pub image_rgba: Option<Vec<u8>>,
    pub created_at: i64,
    pub updated_at: i64,
    pub asset_hash: Option<String>,
    pub legacy_preview: bool,
}

/// The model of a history entry.
pub struct EntryView {
    pub id: i64,
    pub kind: EntryKind,
    pub content: Seq<char>,
    pub image_width: Option<u32>,
    pub image_height: Option<u32>,
    pub image_rgba: Option<Seq<u8>>,
    pub created_at: i64,
    pub updated_at: i64,
    pub asset_hash: Option<Seq<char>>,
    pub legacy_preview: bool,
}

/// The model of an optional string.
pub open spec fn opt_string_view(s: Option<String>) -> Option<Seq<char>> {
    match s {
        Some(s) => Some(s@),
        None => None,
    }
}

impl View for ClipboardEntry {
    type V = EntryView;

    open spec fn view(&self) -> EntryView {
        EntryView {
            id: self.id,
            kind: self.kind,
            content: self.content@,
            image_width: self.image_width,
            image_height: self.image_height,
            image_rgba: bytes_view(self.image_rgba),
            created_at: self.created_at,
            updated_at: self.updated_at,
            asset_hash: opt_string_view(self.asset_hash),
            legacy_preview: self.legacy_preview,
        }
    }
}

/// The hash of a row's asset, if it has one.
pub open spec fn asset_hash_of(r: RowView) -> Option<Seq<char>> {
    match r.asset {
        Some(a) => Some(a.hash),
        None => None,
    }
}

/// How a stored row reads back as an entry: pixels are never read inline, and an
/// image whose asset is missing or only a recovered preview is marked as such.
pub open spec fn entry_of(r: RowView) -> EntryView {
    EntryView {
        id: r.id,
        kind: r.kind,
        content: r.content,
        image_width: r.image_width,
        image_height: r.image_height,
        image_rgba: None,
        created_at: r.created_at,
        updated_at: r.updated_at,
        asset_hash: asset_hash_of(r),
        legacy_preview: r.kind == EntryKind::Image && (r.asset is None || r.legacy_only),
    }
}

/// `a` is more recent than `b`: later update time, or the same time and a larger id.
pub open spec fn newer(a: RowView, b: RowView) -> bool {
    a.updated_at > b.updated_at || (a.updated_at == b.updated_at && a.id > b.id)
}

/// Rows are in strictly decreasing recency.
pub open spec fn recency_sorted(rows: Seq<RowView>) -> bool {
    forall|i: int, j: int| 0 <= i < j < rows.len() ==> newer(#[trigger] rows[i], #[trigger] rows[j])
}

/// No two rows share an id.
pub open spec fn ids_unique(rows: Seq<RowView>) -> bool {
    forall|i: int, j: int|
        0 <= i < rows.len() && 0 <= j < rows.len() && i != j ==> #[trigger] rows[i].id
            != #[trigger] rows[j].id
}

/// No two rows share a content hash.
pub open spec fn hashes_unique(rows: Seq<RowView>) -> bool {
    forall|i: int, j: int|
        0 <= i < rows.len() && 0 <= j < rows.len() && i != j ==> #[trigger] rows[i].hash
            != #[trigger] rows[j].hash
}

/// Every id is below the next id to be assigned.
pub open spec fn ids_below(rows: Seq<RowView>, next_id: i64) -> bool {
    forall|i: int| 0 <= i < rows.len() ==> #[trigger] rows[i].id < next_id
}

/// The well-formedness of a table's rows.
pub open spec fn table_wf(rows: Seq<RowView>, next_id: i64) -> bool {
    &&& recency_sorted(rows)
    &&& ids_unique(rows)
    &&& hashes_unique(rows)
    &&& ids_below(rows, next_id)
    &&& next_id >= 1
}

/// The entries of the `n` most recent rows, most recent first.
pub open spec fn recent_entries(rows: Seq<RowView>, n: int) -> Seq<EntryView> {
    rows.take(n).map_values(|r: RowView| entry_of(r))
}

/// The smaller of two counts.
pub open spec fn min_len(a: int, b: int) -> int {
    if a < b { a } else { b }
}

/// Whether some row has the given id.
pub open spec fn has_id(rows: Seq<RowView>, id: i64) -> bool {
    exists|i: int| 0 <= i < rows.len() && #[trigger] rows[i].id == id
}

/// Whether some row's asset has the given hash.
pub open spec fn asset_referenced(rows: Seq<RowView>, hash: Seq<char>) -> bool {
    exists|i: int| 0 <= i < rows.len() && #[trigger] asset_hash_of(rows[i]) == Some(hash)
}

/// Whether one of the first `n` rows refers to the asset with the given hash.
pub open spec fn referenced_before(rows: Seq<RowView>, n: int, hash: Seq<char>) -> bool {
    exists|k: int| 0 <= k < n && #[trigger] asset_hash_of(rows[k]) == Some(hash)
}

/// Whether a list of strings holds the given one.
pub open spec fn listed(list: Seq<String>, s: Seq<char>) -> bool {
    exists|m: int| 0 <= m < list.len() && #[trigger] list[m]@ == s
}

/// The search terms of a query: its white-space-separated words, each in lower case.
pub open spec fn search_terms(query: Seq<char>) -> Seq<Seq<char>> {
    words(query).map_values(|w: Seq<char>| lowercase(w))
}

/// An entry matches when its lower-cased content contains every term.
pub open spec fn entry_matches(e: EntryView, terms: Seq<Seq<char>>) -> bool {
    forall|k: int| 0 <= k < terms.len() ==> contains_seq(lowercase(e.content), #[trigger] terms[k])
}

/// The entries that match the terms, in order.
pub open spec fn matching(entries: Seq<EntryView>, terms: Seq<Seq<char>>) -> Seq<EntryView>
    decreases entries.len(),
{
    if entries.len() == 0 {
        Seq::empty()
    } else {
        let m = matching(entries.drop_last(), terms);
        if entry_matches(entries.last(), terms) {
            m.push(entries.last())
        } else {
            m
        }
    }
}

/// What a search returns: with no terms, the `limit` most recent entries; otherwise
/// the first `limit` of the `max_history` most recent entries that match every term.
pub open spec fn search_result(rows: Seq<RowView>, query: Seq<char>, limit: int, max_history: int) -> Seq<
    EntryView,
> {
    let terms = search_terms(query);
    if terms.len() == 0 {
        recent_entries(rows, min_len(limit, rows.len() as int))
    } else {
        let found = matching(recent_entries(rows, min_len(max_history, rows.len() as int)), terms);
        found.take(min_len(limit, found.len() as int))
    }
}

/// The models of a list of entries.
pub open spec fn entries_view(list: Seq<ClipboardEntry>) -> Seq<EntryView> {
    list.map_values(|e: ClipboardEntry| e@)
}

/// A copy of an optional string.
fn clone_opt_string(s: &Option<String>) -> (res: Option<String>)
    ensures
        opt_string_view(res) == opt_string_view(*s),
{
    match s {
        Some(s) => Some(s.clone()),
        None => None,
    }
}

impl ClipboardEntry {
    /// A copy of this entry.
    pub fn to_entry_copy(&self) -> (e: ClipboardEntry)
        ensures
            e@ == self@,
    {
        let image_rgba = match &self.image_rgba {
            Some(b) => Some(b.clone()),
            None => None,
        };
        ClipboardEntry {
            id: self.id,
            kind: self.kind,
            content: self.content.clone(),
            image_width: self.image_width,
            image_height: self.image_height,
            image_rgba,
            created_at: self.created_at,
            updated_at: self.updated_at,
            asset_hash: clone_opt_string(&self.asset_hash),
            legacy_preview: self.legacy_preview,
        }
    }
}

impl HistoryRow {
    /// The entry this row reads back as.
    pub fn to_entry(&self) -> (e: ClipboardEntry)
        ensures
            e@ == entry_of(self@),
            e.id == self.id,
            e.kind == self.kind,
            e.content@ == self.content@,
            e.image_width == self.image_width,
            e.image_height == self.image_height,
            e.created_at == self.created_at,
            e.updated_at == self.updated_at,
    {
        let asset_hash = match &self.asset {
            Some(a) => Some(a.hash.clone()),
            None => None,
        };
        let legacy_preview = match self.kind {
            EntryKind::Image => match &self.asset {
                None => true,
                Some(_) => self.legacy_only,
            },
            _ => false,
        };
        ClipboardEntry {
            id: self.id,
            kind: self.kind,
            content: self.content.clone(),
            image_width: self.image_width,
            image_height: self.image_height,
            image_rgba: None,
            created_at: self.created_at,
            updated_at: self.updated_at,
            asset_hash,
            legacy_preview,
        }
    }
}

/// The row after its old thumbnail moved to a preview file.
pub open spec fn with_legacy_preview(r: RowView, asset: AssetView) -> RowView {
    RowView {
        id: r.id,
        kind: r.kind,
        content: r.content,
        hash: r.hash,
        image_width: r.image_width,
        image_height: r.image_height,
        inline_rgba: None,
        created_at: r.created_at,
        updated_at: r.updated_at,
        asset: Some(asset),
        legacy_only: r.kind == EntryKind::Image,
    }
}

/// Changing a row without touching its id, hash or update time keeps a well-formed
/// table well-formed.
proof fn lemma_update_wf(rows: Seq<RowView>, k: int, r: RowView, next_id: i64)
    requires
        table_wf(rows, next_id),
        0 <= k < rows.len(),
        r.id == rows[k].id,
        r.hash == rows[k].hash,
        r.updated_at == rows[k].updated_at,
    ensures
        table_wf(rows.update(k, r), next_id),
{
    let s = rows.update(k, r);
    assert forall|i: int, j: int| 0 <= i < j < s.len() implies newer(#[trigger] s[i], #[trigger] s[j]) by {
        assert(newer(rows[i], rows[j]));
    }
    assert forall|i: int, j: int|
        0 <= i < s.len() && 0 <= j < s.len() && i != j implies #[trigger] s[i].id != #[trigger] s[j].id by {
        assert(rows[i].id != rows[j].id);
    }
    assert forall|i: int, j: int|
        0 <= i < s.len() && 0 <= j < s.len() && i != j implies #[trigger] s[i].hash != #[trigger] s[j].hash by {
        assert(rows[i].hash != rows[j].hash);
    }
    assert forall|i: int| 0 <= i < s.len() implies #[trigger] s[i].id < next_id by {
        assert(rows[i].id < next_id);
    }
}

/// Removing a row keeps a well-formed table well-formed.
proof fn lemma_remove_wf(rows: Seq<RowView>, k: int, next_id: i64)
    requires
        table_wf(rows, next_id),
        0 <= k < rows.len(),
    ensures
        table_wf(rows.remove(k), next_id),
{
    let r = rows.remove(k);
    assert forall|i: int, j: int| 0 <= i < j < r.len() implies newer(#[trigger] r[i], #[trigger] r[j]) by {
        let a = if i < k { i } else { i + 1 };
        let b = if j < k { j } else { j + 1 };
        assert(r[i] == rows[a] && r[j] == rows[b]);
        assert(newer(rows[a], rows[b]));
    }
    assert forall|i: int, j: int|
        0 <= i < r.len() && 0 <= j < r.len() && i != j implies #[trigger] r[i].id != #[trigger] r[j].id by {
        let a = if i < k { i } else { i + 1 };
        let b = if j < k { j } else { j + 1 };
        assert(r[i] == rows[a] && r[j] == rows[b]);
    }
    assert forall|i: int, j: int|
        0 <= i < r.len() && 0 <= j < r.len() && i != j implies #[trigger] r[i].hash != #[trigger] r[j].hash by {
        let a = if i < k { i } else { i + 1 };
        let b = if j < k { j } else { j + 1 };
        assert(r[i] == rows[a] && r[j] == rows[b]);
    }
    assert forall|i: int| 0 <= i < r.len() implies #[trigger] r[i].id < next_id by {
        let a = if i < k { i } else { i + 1 };
        assert(r[i] == rows[a]);
    }
}

/// Why a change to the history table was refused.
#[derive(Clone, Copy, Debug, PartialEq, Eq, Structural)]
pub enum HistoryError {
    /// Every row id has been used.
    IdsExhausted,
    /// The sizes of the stored assets add up to more than a 64-bit signed count.
    SizeOverflow,
    /// An image entry came without its pixels.
    MissingPixels,
}

/// Whether some row has the given content hash.
pub open spec fn has_hash(rows: Seq<RowView>, hash: Seq<char>) -> bool {
    exists|k: int| 0 <= k < rows.len() && #[trigger] rows[k].hash == hash
}

/// The index of the row with the given content hash (meaningful when there is one).
pub open spec fn hash_index(rows: Seq<RowView>, hash: Seq<char>) -> int {
    choose|k: int| 0 <= k < rows.len() && #[trigger] rows[k].hash == hash
}

/// The row that an upsert of `hash` leaves: a row that already has the hash keeps
/// its id and creation time and takes everything else from the new values.
pub open spec fn upserted_row(
    rows: Seq<RowView>,
    next_id: i64,
    kind: EntryKind,
    content: Seq<char>,
    hash: Seq<char>,
    image_width: Option<u32>,
    image_height: Option<u32>,
    asset: Option<AssetView>,
    now: i64,
) -> RowView {
    let found = has_hash(rows, hash);
    RowView {
        id: if found { rows[hash_index(rows, hash)].id } else { next_id },
        kind,
        content,
        hash,
        image_width,
        image_height,
        inline_rgba: None,
        created_at: if found { rows[hash_index(rows, hash)].created_at } else { now },
        updated_at: now,
        asset,
        legacy_only: false,
    }
}

/// `rows` with `r` placed before the first row that it is more recent than.
pub open spec fn insert_sorted(rows: Seq<RowView>, r: RowView) -> Seq<RowView>
    decreases rows.len(),
{
    if rows.len() == 0 {
        seq![r]
    } else if newer(rows[0], r) {
        seq![rows[0]] + insert_sorted(rows.drop_first(), r)
    } else {
        seq![r] + rows
    }
}

/// `rows` without the row that has the given content hash.
pub open spec fn without_hash(rows: Seq<RowView>, hash: Seq<char>) -> Seq<RowView> {
    if has_hash(rows, hash) {
        rows.remove(hash_index(rows, hash))
    } else {
        rows
    }
}

/// The rows after an upsert of `r` under its hash.
pub open spec fn upserted_rows(rows: Seq<RowView>, r: RowView) -> Seq<RowView> {
    insert_sorted(without_hash(rows, r.hash), r)
}

/// Inserting at the position that keeps recency order is `insert_sorted`.
proof fn lemma_insert_sorted(rows: Seq<RowView>, p: int, r: RowView)
    requires
        0 <= p <= rows.len(),
        forall|i: int| 0 <= i < p ==> newer(#[trigger] rows[i], r),
        forall|i: int| p <= i < rows.len() ==> newer(r, #[trigger] rows[i]),
    ensures
        rows.insert(p, r) == insert_sorted(rows, r),
    decreases rows.len(),
{
    if rows.len() == 0 {
        assert(rows.insert(p, r) =~= seq![r]);
    } else if p == 0 {
        assert(newer(r, rows[0]));
        assert(!newer(rows[0], r));
        assert(rows.insert(0, r) =~= seq![r] + rows);
    } else {
        let t = rows.drop_first();
        assert forall|i: int| 0 <= i < p - 1 implies newer(#[trigger] t[i], r) by {
            assert(t[i] == rows[i + 1]);
        }
        assert forall|i: int| p - 1 <= i < t.len() implies newer(r, #[trigger] t[i]) by {
            assert(t[i] == rows[i + 1]);
        }
        lemma_insert_sorted(t, p - 1, r);
        assert(newer(rows[0], r));
        assert(rows.insert(p, r) =~= seq![rows[0]] + t.insert(p - 1, r));
    }
}

/// The rows that the history limit keeps.
pub open spec fn kept_by_limit(rows: Seq<RowView>, max_history: int) -> Seq<RowView> {
    rows.take(min_len(max_history, rows.len() as int))
}

/// The rows that the history limit drops.
pub open spec fn dropped_by_limit(rows: Seq<RowView>, max_history: int) -> Seq<RowView> {
    rows.skip(min_len(max_history, rows.len() as int))
}

/// Whether the asset sizes of the rows kept by the history limit overflow a
/// 64-bit signed count.
pub open spec fn prune_overflows(rows: Seq<RowView>, max_history: int) -> bool {
    total_asset_bytes(kept_by_limit(rows, max_history)) > i64::MAX
}

/// The rows that remain after pruning to a history limit and an image budget.
pub open spec fn pruned_rows(rows: Seq<RowView>, max_history: int, max_bytes: int) -> Seq<RowView> {
    budget_kept(kept_by_limit(rows, max_history), max_bytes)
}

/// The ids that pruning deletes, in order: first those beyond the history limit,
/// then those that the image budget evicts.
pub open spec fn pruned_ids(rows: Seq<RowView>, max_history: int, max_bytes: int) -> Seq<i64> {
    row_ids(dropped_by_limit(rows, max_history)) + row_ids(
        budget_evicted(kept_by_limit(rows, max_history), max_bytes),
    )
}

/// The asset hashes of the rows that pruning deletes, in the same order.
pub open spec fn pruned_hashes(rows: Seq<RowView>, max_history: int, max_bytes: int) -> Seq<
    Seq<char>,
> {
    asset_hashes(dropped_by_limit(rows, max_history)) + asset_hashes(
        budget_evicted(kept_by_limit(rows, max_history), max_bytes),
    )
}

/// Whether an image's asset alone exceeds the image budget.
pub open spec fn image_too_large(kind: EntryKind, asset: Option<AssetView>, max_bytes: int) -> bool {
    kind == EntryKind::Image && match asset {
        Some(a) => a.original_bytes + a.preview_bytes > max_bytes,
        None => false,
    }
}

/// The asset that a stored row keeps: an image keeps its asset, a file list keeps a
/// preview that fits in the budget, and other kinds keep none.
pub open spec fn stored_asset(kind: EntryKind, asset: Option<AssetView>, max_bytes: int) -> Option<
    AssetView,
> {
    match kind {
        EntryKind::Image => asset,
        EntryKind::FilePaths => match asset {
            Some(a) => if a.preview_bytes <= max_bytes {
                Some(a)
            } else {
                None
            },
            None => None,
        },
        _ => None,
    }
}

/// The result of storing an entry.
#[derive(Debug)]
pub enum InsertReport {
    /// The image alone exceeds the budget; nothing was stored.
    TooLarge,
    /// The entry was stored under `id`; pruning then removed what `pruned` lists.
    Stored { id: i64, pruned: PruneOutcome },
}

impl InsertReport {
    /// Whether the entry was stored.
    pub fn outcome(&self) -> (o: InsertOutcome)
        ensures
            o == (match self {
                InsertReport::TooLarge => InsertOutcome::ImageTooLarge,
                InsertReport::Stored { .. } => InsertOutcome::Stored,
            }),
    {
        match self {
            InsertReport::TooLarge => InsertOutcome::ImageTooLarge,
            InsertReport::Stored { .. } => InsertOutcome::Stored,
        }
    }
}

/// The largest history length that can be configured.
pub const MAX_HISTORY_LIMIT: usize = 100_000;

/// The smallest history length that can be configured.
pub const MIN_HISTORY_LIMIT: usize = 20;

/// The smallest image budget that can be configured: one mebibyte.
pub const MIN_IMAGE_BUDGET: u64 = 1_048_576;

/// The limits that bound the history: how many rows it keeps and how many bytes
/// of image assets it may hold.
pub struct Limits {
    max_history: usize,
    max_image_bytes: u64,
}

/// The history length that a requested one is brought to.
pub open spec fn clamp_history(requested: usize) -> usize {
    if requested < MIN_HISTORY_LIMIT {
        MIN_HISTORY_LIMIT
    } else if requested > MAX_HISTORY_LIMIT {
        MAX_HISTORY_LIMIT
    } else {
        requested
    }
}

/// The image budget that a requested one is brought to.
pub open spec fn clamp_image_budget(requested: u64) -> u64 {
    if requested < MIN_IMAGE_BUDGET {
        MIN_IMAGE_BUDGET
    } else {
        requested
    }
}

impl Limits {
    #[verifier::type_invariant]
    spec fn inv(self) -> bool {
        &&& MIN_HISTORY_LIMIT <= self.max_history <= MAX_HISTORY_LIMIT
        &&& self.max_image_bytes >= MIN_IMAGE_BUDGET
    }

    /// The configured history length.
    pub closed spec fn spec_max_history(self) -> usize {
        self.max_history
    }

    /// The configured image budget in bytes.
    pub closed spec fn spec_max_image_bytes(self) -> u64 {
        self.max_image_bytes
    }

    /// Limits from requested values: the history length is brought into
    /// `20..=100000`, and the image budget up to at least one mebibyte.
    pub fn new(max_history: usize, max_image_bytes: u64) -> (l: Limits)
        ensures
            l.spec_max_history() == clamp_history(max_history),
            l.spec_max_image_bytes() == clamp_image_budget(max_image_bytes),
    {
        let h = if max_history < MIN_HISTORY_LIMIT {
            MIN_HISTORY_LIMIT
        } else if max_history > MAX_HISTORY_LIMIT {
            MAX_HISTORY_LIMIT
        } else {
            max_history
        };
        let b = if max_image_bytes < MIN_IMAGE_BUDGET {
            MIN_IMAGE_BUDGET
        } else {
            max_image_bytes
        };
        Limits { max_history: h, max_image_bytes: b }
    }

    /// The configured history length.
    pub fn max_history(&self) -> (n: usize)
        ensures
            n == self.spec_max_history(),
            MIN_HISTORY_LIMIT <= n <= MAX_HISTORY_LIMIT,
    {
        proof {
            use_type_invariant(self);
        }
        self.max_history
    }

    /// The configured image budget in bytes.
    pub fn max_image_bytes(&self) -> (n: u64)
        ensures
            n == self.spec_max_image_bytes(),
            n >= MIN_IMAGE_BUDGET,
    {
        proof {
            use_type_invariant(self);
        }
        self.max_image_bytes
    }
}

/// The bytes that a row's asset occupies: its original and its preview.
pub open spec fn asset_total(r: RowView) -> int {
    match r.asset {
        Some(a) => a.original_bytes + a.preview_bytes,
        None => 0,
    }
}

/// The bytes that the assets of all the rows occupy.
pub open spec fn total_asset_bytes(rows: Seq<RowView>) -> int
    decreases rows.len(),
{
    if rows.len() == 0 {
        0
    } else {
        total_asset_bytes(rows.drop_last()) + asset_total(rows.last())
    }
}

/// The index of the last (oldest) row that has an asset, or -1.
pub open spec fn last_asset_index(rows: Seq<RowView>) -> int
    decreases rows.len(),
{
    if rows.len() == 0 {
        -1
    } else if rows.last().asset is Some {
        rows.len() - 1
    } else {
        last_asset_index(rows.drop_last())
    }
}

/// `last_asset_index` points at the oldest row with an asset.
pub proof fn lemma_last_asset_index(rows: Seq<RowView>)
    ensures
        -1 <= last_asset_index(rows) < rows.len(),
        last_asset_index(rows) >= 0 ==> rows[last_asset_index(rows)].asset is Some,
        forall|i: int| last_asset_index(rows) < i < rows.len() ==> #[trigger] rows[i].asset is None,
    decreases rows.len(),
{
    if rows.len() > 0 && rows.last().asset is None {
        lemma_last_asset_index(rows.drop_last());
        assert forall|i: int| last_asset_index(rows) < i < rows.len() implies #[trigger] rows[i].asset is None by {
            if i < rows.len() - 1 {
                assert(rows.drop_last()[i] == rows[i]);
            }
        }
    }
}

/// The rows that remain after the image budget evicts, oldest first, rows with
/// assets until the assets fit in `max` bytes.
pub open spec fn budget_kept(rows: Seq<RowView>, max: int) -> Seq<RowView>
    decreases rows.len(),
{
    if total_asset_bytes(rows) <= max {
        rows
    } else {
        let j = last_asset_index(rows);
        if j < 0 {
            rows
        } else {
            proof {
                lemma_last_asset_index(rows);
            }
            budget_kept(rows.remove(j), max)
        }
    }
}

/// The rows that the image budget evicts, in the order of eviction.
pub open spec fn budget_evicted(rows: Seq<RowView>, max: int) -> Seq<RowView>
    decreases rows.len(),
{
    if total_asset_bytes(rows) <= max {
        Seq::empty()
    } else {
        let j = last_asset_index(rows);
        if j < 0 {
            Seq::empty()
        } else {
            proof {
                lemma_last_asset_index(rows);
            }
            seq![rows[j]] + budget_evicted(rows.remove(j), max)
        }
    }
}

/// The asset hashes of the rows that have assets, in order.
pub open spec fn asset_hashes(rows: Seq<RowView>) -> Seq<Seq<char>>
    decreases rows.len(),
{
    if rows.len() == 0 {
        Seq::empty()
    } else {
        match rows.last().asset {
            Some(a) => asset_hashes(rows.drop_last()).push(a.hash),
            None => asset_hashes(rows.drop_last()),
        }
    }
}

/// The ids of the rows, in order.
pub open spec fn row_ids(rows: Seq<RowView>) -> Seq<i64> {
    rows.map_values(|r: RowView| r.id)
}


/// Removing a row takes its asset's bytes out of the total.
pub proof fn lemma_total_remove(rows: Seq<RowView>, j: int)
    requires
        0 <= j < rows.len(),
    ensures
        total_asset_bytes(rows.remove(j)) == total_asset_bytes(rows) - asset_total(rows[j]),
    decreases rows.len(),
{
    if j < rows.len() - 1 {
        lemma_total_remove(rows.drop_last(), j);
        assert(rows.remove(j).drop_last() =~= rows.drop_last().remove(j));
        assert(rows.remove(j).last() == rows.last());
    } else {
        assert(rows.remove(j) =~= rows.drop_last());
    }
}

/// The total grows by one row's bytes when the prefix grows by that row.
pub proof fn lemma_total_take(rows: Seq<RowView>, i: int)
    requires
        0 <= i < rows.len(),
    ensures
        total_asset_bytes(rows.take(i + 1)) == total_asset_bytes(rows.take(i)) + asset_total(rows[i]),
{
    assert(rows.take(i + 1).drop_last() =~= rows.take(i));
}

/// Every asset total is non-negative.
pub proof fn lemma_total_nonneg(rows: Seq<RowView>)
    ensures
        total_asset_bytes(rows) >= 0,
    decreases rows.len(),
{
    if rows.len() > 0 {
        lemma_total_nonneg(rows.drop_last());
    }
}

/// A prefix of a well-formed table is well-formed.
pub proof fn lemma_take_wf(rows: Seq<RowView>, k: int, next_id: i64)
    requires
        table_wf(rows, next_id),
        0 <= k <= rows.len(),
    ensures
        table_wf(rows.take(k), next_id),
{
    let t = rows.take(k);
    assert forall|i: int, j: int| 0 <= i < j < t.len() implies newer(#[trigger] t[i], #[trigger] t[j]) by {
        assert(t[i] == rows[i] && t[j] == rows[j]);
    }
    assert forall|i: int, j: int|
        0 <= i < t.len() && 0 <= j < t.len() && i != j implies #[trigger] t[i].id != #[trigger] t[j].id by {
        assert(t[i] == rows[i] && t[j] == rows[j]);
    }
    assert forall|i: int, j: int|
        0 <= i < t.len() && 0 <= j < t.len() && i != j implies #[trigger] t[i].hash != #[trigger] t[j].hash by {
        assert(t[i] == rows[i] && t[j] == rows[j]);
    }
    assert forall|i: int| 0 <= i < t.len() implies #[trigger] t[i].id < next_id by {
        assert(t[i] == rows[i]);
    }
}

/// What pruning removed: the ids of the deleted rows and the hashes of the assets
/// they referred to, in the order of deletion.
#[derive(Debug)]
pub struct PruneOutcome {
    pub deleted_ids: Vec<i64>,
    pub removed_hashes: Vec<String>,
}

/// Inserting a row at a position that keeps recency order keeps the table well-formed.
proof fn lemma_insert_wf(rows: Seq<RowView>, p: int, r: RowView, next_id: i64)
    requires
        table_wf(rows, next_id),
        0 <= p <= rows.len(),
        forall|i: int| 0 <= i < p ==> newer(#[trigger] rows[i], r),
        forall|i: int| p <= i < rows.len() ==> newer(r, #[trigger] rows[i]),
        forall|i: int| 0 <= i < rows.len() ==> #[trigger] rows[i].id != r.id,
        forall|i: int| 0 <= i < rows.len() ==> #[trigger] rows[i].hash != r.hash,
        r.id < next_id,
    ensures
        table_wf(rows.insert(p, r), next_id),
{
    let s = rows.insert(p, r);
    assert forall|i: int, j: int| 0 <= i < j < s.len() implies newer(#[trigger] s[i], #[trigger] s[j]) by {
        if i < p && j < p {
            assert(newer(rows[i], rows[j]));
        } else if i < p && j == p {
        } else if i < p && j > p {
            assert(s[j] == rows[j - 1]);
        } else if i == p {
            assert(s[j] == rows[j - 1]);
        } else {
            assert(s[i] == rows[i - 1] && s[j] == rows[j - 1]);
            assert(newer(rows[i - 1], rows[j - 1]));
        }
    }
    assert forall|i: int, j: int|
        0 <= i < s.len() && 0 <= j < s.len() && i != j implies #[trigger] s[i].id != #[trigger] s[j].id by {
        if i != p && j != p {
            let a = if i < p { i } else { i - 1 };
            let b = if j < p { j } else { j - 1 };
            assert(s[i] == rows[a] && s[j] == rows[b]);
        } else if i == p {
            let b = if j < p { j } else { j - 1 };
            assert(s[j] == rows[b]);
        } else {
            let a = if i < p { i } else { i - 1 };
            assert(s[i] == rows[a]);
        }
    }
    assert forall|i: int, j: int|
        0 <= i < s.len() && 0 <= j < s.len() && i != j implies #[trigger] s[i].hash != #[trigger] s[j].hash by {
        if i != p && j != p {
            let a = if i < p { i } else { i - 1 };
            let b = if j < p { j } else { j - 1 };
            assert(s[i] == rows[a] && s[j] == rows[b]);
        } else if i == p {
            let b = if j < p { j } else { j - 1 };
            assert(s[j] == rows[b]);
        } else {
            let a = if i < p { i } else { i - 1 };
            assert(s[i] == rows[a]);
        }
    }
    assert forall|i: int| 0 <= i < s.len() implies #[trigger] s[i].id < next_id by {
        if i < p {
        } else if i > p {
            assert(s[i] == rows[i - 1]);
        }
    }
}

/// Two rows with different ids are ordered one way or the other.
proof fn lemma_newer_total(a: RowView, b: RowView)
    requires
        a.id != b.id,
    ensures
        newer(a, b) || newer(b, a),
{
}

/// The history table: rows in recency order, and the id the next new row receives.
pub struct HistoryTable {
    rows: Vec<HistoryRow>,
    next_id: i64,
}

impl HistoryTable {
    /// The rows, most recent first.
    pub closed spec fn spec_rows(&self) -> Seq<RowView> {
        self.rows@.map_values(|r: HistoryRow| r@)
    }

    /// The id that the next new row receives.
    pub closed spec fn spec_next_id(&self) -> i64 {
        self.next_id
    }

    /// The table's invariant.
    pub open spec fn wf(&self) -> bool {
        table_wf(self.spec_rows(), self.spec_next_id())
    }

    /// An empty table.
    pub fn new() -> (t: HistoryTable)
        ensures
            t.wf(),
            t.spec_rows() == Seq::<RowView>::empty(),
            t.spec_next_id() == 1,
    {
        let t = HistoryTable { rows: Vec::new(), next_id: 1 };
        assert(t.spec_rows() =~= Seq::<RowView>::empty());
        t
    }

    /// The number of rows.
    pub fn len(&self) -> (n: usize)
        ensures
            n == self.spec_rows().len(),
    {
        self.rows.len()
    }

    /// The `limit` most recent entries, most recent first.
    pub fn list_recent(&self, limit: usize) -> (res: Vec<ClipboardEntry>)
        ensures
            res@.len() == min_len(limit as int, self.spec_rows().len() as int),
            forall|i: int| 0 <= i < res@.len() ==> #[trigger] res@[i]@ == entry_of(self.spec_rows()[i]),
    {
        let n = if limit < self.rows.len() { limit } else { self.rows.len() };
        let mut res: Vec<ClipboardEntry> = Vec::new();
        let mut i: usize = 0;
        while i < n
            invariant
                n <= self.rows.len(),
                n == min_len(limit as int, self.spec_rows().len() as int),
                i <= n,
                res@.len() == i,
                forall|k: int| 0 <= k < i ==> #[trigger] res@[k]@ == entry_of(self.spec_rows()[k]),
            decreases n - i,
        {
            let e = self.rows[i].to_entry();
            proof {
                assert(self.spec_rows()[i as int] == self.rows@[i as int]@);
            }
            res.push(e);
            i += 1;
        }
        res
    }

    /// The index of the row with the given id.
    pub fn find_row(&self, id: i64) -> (res: Option<usize>)
        ensures
            match res {
                Some(k) => k < self.spec_rows().len() && self.spec_rows()[k as int].id == id,
                None => !has_id(self.spec_rows(), id),
            },
    {
        let mut i: usize = 0;
        while i < self.rows.len()
            invariant
                i <= self.rows.len(),
                forall|k: int| 0 <= k < i ==> #[trigger] self.spec_rows()[k].id != id,
            decreases self.rows.len() - i,
        {
            proof {
                assert(self.spec_rows()[i as int] == self.rows@[i as int]@);
            }
            if self.rows[i].id == id {
                return Some(i);
            }
            i += 1;
        }
        None
    }

    /// The row at an index, most recent first.
    pub fn row_at(&self, k: usize) -> (row: &HistoryRow)
        requires
            k < self.spec_rows().len(),
        ensures
            row@ == self.spec_rows()[k as int],
    {
        &self.rows[k]
    }

    /// Moves the old thumbnail of the row with `id` to a preview file, when the row
    /// has no asset yet: the row then refers to the preview (an image is marked as
    /// holding only a thumbnail) and drops its inline pixels. Returns whether a row
    /// changed.
    pub fn attach_legacy_preview(&mut self, id: i64, hash: String, png_bytes: u64, width: u32, height: u32) -> (changed: bool)
        requires
            old(self).wf(),
        ensures
            final(self).wf(),
            final(self).spec_next_id() == old(self).spec_next_id(),
            ({
                let rows = old(self).spec_rows();
                let asset = AssetView {
                    hash: hash@,
                    preview_width: width,
                    preview_height: height,
                    original_bytes: 0,
                    preview_bytes: png_bytes,
                };
                if exists|k: int| 0 <= k < rows.len() && #[trigger] rows[k].id == id && rows[k].asset is None {
                    &&& changed
                    &&& exists|k: int|
                        0 <= k < rows.len() && #[trigger] rows[k].id == id && final(self).spec_rows()
                            == rows.update(k, with_legacy_preview(rows[k], asset))
                } else {
                    !changed && final(self).spec_rows() == rows
                }
            }),
    {
        let ghost rows = old(self).spec_rows();
        let k = match self.find_row(id) {
            Some(k) => k,
            None => {
                return false;
            },
        };
        if self.rows[k].asset.is_some() {
            proof {
                assert(rows[k as int] == self.rows@[k as int]@);
                assert forall|j: int| 0 <= j < rows.len() && #[trigger] rows[j].id == id implies rows[j].asset is Some by {
                    assert(rows[j].id == rows[k as int].id);
                }
            }
            return false;
        }
        let row = self.rows.remove(k);
        let new_row = HistoryRow {
            id: row.id,
            kind: row.kind,
            content: row.content,
            hash: row.hash,
            image_width: row.image_width,
            image_height: row.image_height,
            inline_rgba: None,
            created_at: row.created_at,
            updated_at: row.updated_at,
            legacy_only: match row.kind {
                EntryKind::Image => true,
                _ => false,
            },
            asset: Some(AssetRecord {
                hash,
                preview_width: width,
                preview_height: height,
                original_bytes: 0,
                preview_bytes: png_bytes,
            }),
        };
        self.rows.insert(k, new_row);
        proof {
            assert(row@ == rows[k as int]);
            assert(self.spec_rows() =~= rows.update(k as int, new_row@));
            lemma_update_wf(rows, k as int, new_row@, self.next_id);
        }
        true
    }

    /// The entry with the given id, if there is one.
    pub fn get_by_id(&self, id: i64) -> (res: Option<ClipboardEntry>)
        ensures
            res is Some <==> has_id(self.spec_rows(), id),
            res matches Some(e) ==> exists|i: int|
                0 <= i < self.spec_rows().len() && self.spec_rows()[i].id == id && e@ == entry_of(
                    #[trigger] self.spec_rows()[i],
                ),
    {
        let mut i: usize = 0;
        while i < self.rows.len()
            invariant
                i <= self.rows.len(),
                forall|k: int| 0 <= k < i ==> #[trigger] self.spec_rows()[k].id != id,
            decreases self.rows.len() - i,
        {
            proof {
                assert(self.spec_rows()[i as int] == self.rows@[i as int]@);
            }
            if self.rows[i].id == id {
                return Some(self.rows[i].to_entry());
            }
            i += 1;
        }
        None
    }

    /// Whether some row still refers to the asset with the given hash.
    pub fn asset_in_use(&self, hash: &str) -> (res: bool)
        ensures
            res == asset_referenced(self.spec_rows(), hash@),
    {
        let mut i: usize = 0;
        while i < self.rows.len()
            invariant
                i <= self.rows.len(),
                forall|k: int| 0 <= k < i ==> #[trigger] asset_hash_of(self.spec_rows()[k]) != Some(
                    hash@,
                ),
            decreases self.rows.len() - i,
        {
            proof {
                assert(self.spec_rows()[i as int] == self.rows@[i as int]@);
            }
            match &self.rows[i].asset {
                Some(a) => {
                    if equals(a.hash.as_str(), hash) {
                        assert(asset_hash_of(self.spec_rows()[i as int]) == Some(hash@));
                        return true;
                    }
                },
                None => {},
            }
            i += 1;
        }
        assert(self.spec_rows().len() == self.rows@.len());
        false
    }

    /// Deletes the row with the given id. Returns whether it existed, and the hash of
    /// its asset.
    pub fn delete_entry(&mut self, id: i64) -> (res: (bool, Option<String>))
        requires
            old(self).wf(),
        ensures
            final(self).wf(),
            final(self).spec_next_id() == old(self).spec_next_id(),
            res.0 == has_id(old(self).spec_rows(), id),
            !res.0 ==> final(self).spec_rows() == old(self).spec_rows() && res.1 is None,
            res.0 ==> exists|k: int|
                0 <= k < old(self).spec_rows().len() && #[trigger] old(self).spec_rows()[k].id == id
                    && final(self).spec_rows() == old(self).spec_rows().remove(k)
                    && opt_string_view(res.1) == asset_hash_of(old(self).spec_rows()[k]),
    {
        let ghost old_rows = old(self).spec_rows();
        let mut i: usize = 0;
        while i < self.rows.len()
            invariant
                self.spec_rows() == old_rows,
                old_rows == old(self).spec_rows(),
                self.spec_next_id() == old(self).spec_next_id(),
                self.wf(),
                i <= self.rows.len(),
                forall|k: int| 0 <= k < i ==> #[trigger] old_rows[k].id != id,
            decreases self.rows.len() - i,
        {
            proof {
                assert(self.spec_rows()[i as int] == self.rows@[i as int]@);
            }
            if self.rows[i].id == id {
                let row = self.rows.remove(i);
                let hash = match row.asset {
                    Some(a) => Some(a.hash),
                    None => None,
                };
                proof {
                    lemma_remove_wf(old_rows, i as int, self.next_id);
                    assert(self.spec_rows() =~= old_rows.remove(i as int));
                    assert(row@ == old_rows[i as int]);
                    assert(old_rows[i as int].id == id);
                }
                return (true, hash);
            }
            i += 1;
        }
        assert(self.spec_rows().len() == self.rows@.len());
        (false, None)
    }

    /// Deletes every row. Returns how many there were, and each asset hash that
    /// rows referred to, once.
    pub fn delete_all(&mut self) -> (res: (usize, Vec<String>))
        requires
            old(self).wf(),
        ensures
            final(self).wf(),
            final(self).spec_next_id() == old(self).spec_next_id(),
            final(self).spec_rows() == Seq::<RowView>::empty(),
            res.0 == old(self).spec_rows().len(),
            forall|h: Seq<char>| #[trigger] asset_referenced(old(self).spec_rows(), h) <==> listed(res.1@, h),
            forall|i: int, j: int| 0 <= i < j < res.1@.len() ==> #[trigger] res.1@[i]@ != #[trigger] res.1@[j]@,
    {
        let ghost old_rows = old(self).spec_rows();
        let mut hashes: Vec<String> = Vec::new();
        let n = self.rows.len();
        let mut i: usize = 0;
        while i < n
            invariant
                n == self.rows.len(),
                self.spec_rows() == old_rows,
                old_rows == old(self).spec_rows(),
                self.spec_next_id() == old(self).spec_next_id(),
                self.wf(),
                i <= n,
                forall|h: Seq<char>| #[trigger] referenced_before(old_rows, i as int, h) <==> listed(hashes@, h),
                forall|a: int, b: int| 0 <= a < b < hashes@.len() ==> #[trigger] hashes@[a]@ != #[trigger] hashes@[b]@,
            decreases n - i,
        {
            proof {
                assert(old_rows[i as int] == self.rows@[i as int]@);
            }
            let ghost before = hashes@;
            match &self.rows[i].asset {
                Some(a) => {
                    let mut seen = false;
                    let mut m: usize = 0;
                    while m < hashes.len()
                        invariant
                            m <= hashes.len(),
                            seen == exists|q: int| 0 <= q < m && #[trigger] hashes@[q]@ == a.hash@,
                        decreases hashes.len() - m,
                    {
                        if equals(hashes[m].as_str(), a.hash.as_str()) {
                            seen = true;
                        }
                        m += 1;
                    }
                    if !seen {
                        hashes.push(a.hash.clone());
                        proof {
                            assert(hashes@[before.len() as int]@ == a.hash@);
                            assert forall|h: Seq<char>| #[trigger] referenced_before(old_rows, i + 1, h) implies listed(hashes@, h) by {
                                let k = choose|k: int| 0 <= k < i + 1 && #[trigger] asset_hash_of(old_rows[k]) == Some(h);
                                if k < i {
                                    assert(referenced_before(old_rows, i as int, h));
                                    let q = choose|q: int| 0 <= q < before.len() && #[trigger] before[q]@ == h;
                                    assert(hashes@[q] == before[q]);
                                }
                            }
                            assert forall|h: Seq<char>| listed(hashes@, h) implies #[trigger] referenced_before(old_rows, i + 1, h) by {
                                let q = choose|q: int| 0 <= q < hashes@.len() && #[trigger] hashes@[q]@ == h;
                                if q < before.len() {
                                    assert(before[q]@ == h);
                                    assert(listed(before, h));
                                    assert(referenced_before(old_rows, i as int, h));
                                } else {
                                    assert(asset_hash_of(old_rows[i as int]) == Some(h));
                                }
                            }
                        }
                    } else {
                        proof {
                            assert(listed(hashes@, a.hash@));
                            assert forall|h: Seq<char>| #[trigger] referenced_before(old_rows, i + 1, h) implies listed(hashes@, h) by {
                                let k = choose|k: int| 0 <= k < i + 1 && #[trigger] asset_hash_of(old_rows[k]) == Some(h);
                                if k < i {
                                    assert(referenced_before(old_rows, i as int, h));
                                }
                            }
                            assert forall|h: Seq<char>| listed(hashes@, h) implies #[trigger] referenced_before(old_rows, i + 1, h) by {
                                assert(referenced_before(old_rows, i as int, h));
                            }
                        }
                    }
                },
                None => {
                    proof {
                        assert forall|h: Seq<char>| #[trigger] referenced_before(old_rows, i + 1, h) implies listed(hashes@, h) by {
                            let k = choose|k: int| 0 <= k < i + 1 && #[trigger] asset_hash_of(old_rows[k]) == Some(h);
                            assert(k < i);
                            assert(referenced_before(old_rows, i as int, h));
                        }
                        assert forall|h: Seq<char>| listed(hashes@, h) implies #[trigger] referenced_before(old_rows, i + 1, h) by {
                            assert(referenced_before(old_rows, i as int, h));
                        }
                    }
                },
            }
            i += 1;
        }
        let count = self.rows.len();
        self.rows = Vec::new();
        proof {
            assert(self.spec_rows() =~= Seq::<RowView>::empty());
            assert(old_rows.len() == n);
            assert forall|h: Seq<char>| #[trigger] asset_referenced(old_rows, h) <==> listed(hashes@, h) by {
                assert(asset_referenced(old_rows, h) == referenced_before(old_rows, n as int, h));
            }
        }
        (count, hashes)
    }

    /// The index of the row with the given content hash.
    fn position_of_hash(&self, hash: &str) -> (res: Option<usize>)
        ensures
            match res {
                Some(k) => k < self.spec_rows().len() && self.spec_rows()[k as int].hash == hash@,
                None => !has_hash(self.spec_rows(), hash@),
            },
    {
        let mut k: usize = 0;
        while k < self.rows.len()
            invariant
                k <= self.rows.len(),
                forall|j: int| 0 <= j < k ==> #[trigger] self.spec_rows()[j].hash != hash@,
            decreases self.rows.len() - k,
        {
            proof {
                assert(self.spec_rows()[k as int] == self.rows@[k as int]@);
            }
            if equals(self.rows[k].hash.as_str(), hash) {
                return Some(k);
            }
            k += 1;
        }
        assert(self.spec_rows().len() == self.rows@.len());
        None
    }

    /// Where a row goes so that recency order is kept.
    fn insert_position(&self, row: &HistoryRow) -> (p: usize)
        requires
            recency_sorted(self.spec_rows()),
            forall|i: int| 0 <= i < self.spec_rows().len() ==> #[trigger] self.spec_rows()[i].id != row.id,
        ensures
            p <= self.spec_rows().len(),
            forall|i: int| 0 <= i < p ==> newer(#[trigger] self.spec_rows()[i], row@),
            forall|i: int| p <= i < self.spec_rows().len() ==> newer(row@, #[trigger] self.spec_rows()[i]),
    {
        let mut p: usize = 0;
        while p < self.rows.len()
            invariant
                p <= self.rows.len(),
                self.spec_rows().len() == self.rows@.len(),
                recency_sorted(self.spec_rows()),
                forall|i: int| 0 <= i < self.spec_rows().len() ==> #[trigger] self.spec_rows()[i].id != row.id,
                forall|i: int| 0 <= i < p ==> newer(#[trigger] self.spec_rows()[i], row@),
            decreases self.rows.len() - p,
        {
            let r = &self.rows[p];
            proof {
                assert(self.spec_rows()[p as int] == self.rows@[p as int]@);
            }
            if !(r.updated_at > row.updated_at || (r.updated_at == row.updated_at && r.id > row.id)) {
                proof {
                    lemma_newer_total(self.spec_rows()[p as int], row@);
                    assert forall|i: int| p <= i < self.spec_rows().len() implies newer(row@, #[trigger] self.spec_rows()[i]) by {
                        if i > p {
                            assert(newer(self.spec_rows()[p as int], self.spec_rows()[i]));
                        }
                    }
                }
                return p;
            }
            p += 1;
        }
        p
    }

    /// Stores an entry under its content hash. A row that already has the hash keeps
    /// its id and creation time and takes the new content, kind, sizes, asset and
    /// update time; otherwise a new row takes the next id. Fails only when no id is
    /// left for a new row, and then changes nothing.
    #[verifier::rlimit(50)]
    pub fn upsert(
        &mut self,
        kind: EntryKind,
        content: &str,
        hash: &str,
        image_width: Option<u32>,
        image_height: Option<u32>,
        asset: Option<AssetRecord>,
        now: i64,
    ) -> (res: Result<i64, HistoryError>)
        requires
            old(self).wf(),
        ensures
            final(self).wf(),
            res is Err <==> (!has_hash(old(self).spec_rows(), hash@) && old(self).spec_next_id()
                == i64::MAX),
            res is Err ==> final(self).spec_rows() == old(self).spec_rows()
                && final(self).spec_next_id() == old(self).spec_next_id()
                && res == Err::<i64, HistoryError>(HistoryError::IdsExhausted),
            res matches Ok(id) ==> ({
                let r = upserted_row(
                    old(self).spec_rows(),
                    old(self).spec_next_id(),
                    kind,
                    content@,
                    hash@,
                    image_width,
                    image_height,
                    asset_view(asset),
                    now,
                );
                &&& id == r.id
                &&& final(self).spec_rows() == upserted_rows(old(self).spec_rows(), r)
                &&& forall|x: RowView| #[trigger] final(self).spec_rows().contains(x) <==> ((old(
                    self,
                ).spec_rows().contains(x) && x.hash != hash@) || x == r)
                &&& final(self).spec_next_id() == if has_hash(old(self).spec_rows(), hash@) {
                    old(self).spec_next_id()
                } else {
                    (old(self).spec_next_id() + 1) as i64
                }
            }),
    {
        let ghost old_rows = old(self).spec_rows();
        let ghost old_next = old(self).spec_next_id();
        let pos = self.position_of_hash(hash);
        let ghost mid: Seq<RowView>;
        let (id, created_at) = match pos {
            Some(k) => {
                let old_row = self.rows.remove(k);
                proof {
                    mid = old_rows.remove(k as int);
                    assert(self.spec_rows() =~= mid);
                    assert(old_row@ == old_rows[k as int]);
                    lemma_remove_wf(old_rows, k as int, old_next);
                    assert(has_hash(old_rows, hash@));
                    assert(hash_index(old_rows, hash@) == k) by {
                        let c = hash_index(old_rows, hash@);
                        assert(old_rows[c].hash == hash@);
                    }
                    assert forall|i: int| 0 <= i < mid.len() implies #[trigger] mid[i].id != old_row.id && mid[i].hash != hash@ by {
                        let a = if i < k { i } else { i + 1 };
                        assert(mid[i] == old_rows[a]);
                    }
                }
                (old_row.id, old_row.created_at)
            },
            None => {
                if self.next_id == i64::MAX {
                    return Err(HistoryError::IdsExhausted);
                }
                let id = self.next_id;
                self.next_id = id + 1;
                proof {
                    mid = old_rows;
                    assert forall|i: int| 0 <= i < mid.len() implies #[trigger] mid[i].id != id && mid[i].hash != hash@ by {
                        assert(mid[i].id < old_next);
                    }
                }
                (id, now)
            },
        };
        let row = HistoryRow {
            id,
            kind,
            content: content.to_owned(),
            hash: hash.to_owned(),
            image_width,
            image_height,
            inline_rgba: None,
            created_at,
            updated_at: now,
            asset,
            legacy_only: false,
        };
        let ghost r = row@;
        proof {
            assert(r == upserted_row(old_rows, old_next, kind, content@, hash@, image_width, image_height, asset_view(asset), now));
            assert(table_wf(mid, self.next_id));
        }
        let p = self.insert_position(&row);
        self.rows.insert(p, row);
        proof {
            lemma_insert_wf(mid, p as int, r, self.next_id);
            assert(self.spec_rows() =~= mid.insert(p as int, r));
            lemma_insert_sorted(mid, p as int, r);
            assert(mid == without_hash(old_rows, hash@));
            assert forall|x: RowView| #[trigger] self.spec_rows().contains(x) <==> ((old_rows.contains(x) && x.hash != hash@) || x == r) by {
                let s = self.spec_rows();
                if s.contains(x) {
                    let i = choose|i: int| 0 <= i < s.len() && s[i] == x;
                    if i < p {
                        assert(s[i] == mid[i]);
                    } else if i > p {
                        assert(s[i] == mid[i - 1]);
                    }
                    if x != r {
                        let m = choose|m: int| 0 <= m < mid.len() && mid[m] == x;
                        match pos {
                            Some(k) => {
                                let a = if m < k { m } else { m + 1 };
                                assert(old_rows[a] == mid[m]);
                            },
                            None => {},
                        }
                        assert(mid[m].hash != hash@);
                    }
                }
                if old_rows.contains(x) && x.hash != hash@ {
                    let a = choose|a: int| 0 <= a < old_rows.len() && old_rows[a] == x;
                    let m: int = match pos {
                        Some(k) => if a < k as int { a } else { a - 1 },
                        None => a,
                    };
                    match pos {
                        Some(k) => {
                            assert(a != k);
                            assert(mid[m] == x);
                        },
                        None => {},
                    }
                    let i = if m < p { m } else { m + 1 };
                    assert(s[i] == x);
                }
                if x == r {
                    assert(s[p as int] == r);
                }
            }
        }
        Ok(id)
    }

    /// The bytes of a row's asset, exactly.
    fn row_asset_total(row: &HistoryRow) -> (n: u128)
        ensures
            n == asset_total(row@),
    {
        match &row.asset {
            Some(a) => a.original_bytes as u128 + a.preview_bytes as u128,
            None => 0,
        }
    }

    /// The index of the oldest row that has an asset.
    fn oldest_asset_index(&self) -> (res: Option<usize>)
        ensures
            match res {
                Some(j) => j as int == last_asset_index(self.spec_rows()),
                None => last_asset_index(self.spec_rows()) == -1,
            },
    {
        let ghost v = self.spec_rows();
        proof {
            lemma_last_asset_index(v);
        }
        let mut j: usize = self.rows.len();
        while j > 0
            invariant
                j <= self.rows.len(),
                v == self.spec_rows(),
                v.len() == self.rows@.len(),
                forall|i: int| j <= i < v.len() ==> #[trigger] v[i].asset is None,
                -1 <= last_asset_index(v) < v.len(),
                last_asset_index(v) >= 0 ==> v[last_asset_index(v)].asset is Some,
                forall|i: int| last_asset_index(v) < i < v.len() ==> #[trigger] v[i].asset is None,
            decreases j,
        {
            proof {
                assert(v[j - 1] == self.rows@[j - 1]@);
            }
            if self.rows[j - 1].asset.is_some() {
                proof {
                    let l = last_asset_index(v);
                    if l < j - 1 {
                        assert(v[j - 1].asset is None);
                    }
                    if l > j - 1 {
                        assert(v[l].asset is None);
                    }
                }
                return Some(j - 1);
            }
            j -= 1;
        }
        proof {
            let l = last_asset_index(v);
            if l >= 0 {
                assert(v[l].asset is None);
            }
        }
        None
    }

    /// Brings the table within its limits. The rows beyond the `max_history` most
    /// recent are deleted; then, while the assets of the remaining rows occupy more
    /// than the image budget, the oldest row with an asset is deleted. Fails, changing
    /// nothing, when the asset sizes of the kept rows add up to more than `i64::MAX`.
    pub fn prune(&mut self, limits: &Limits) -> (res: Result<PruneOutcome, HistoryError>)
        requires
            old(self).wf(),
        ensures
            final(self).wf(),
            final(self).spec_next_id() == old(self).spec_next_id(),
            ({
                let rows = old(self).spec_rows();
                let mh = limits.spec_max_history() as int;
                let max = limits.spec_max_image_bytes() as int;
                &&& res is Err <==> prune_overflows(rows, mh)
                &&& res is Err ==> final(self).spec_rows() == rows && res == Err::<
                    PruneOutcome,
                    HistoryError,
                >(HistoryError::SizeOverflow)
                &&& res matches Ok(out) ==> {
                    &&& final(self).spec_rows() == pruned_rows(rows, mh, max)
                    &&& out.deleted_ids@ == pruned_ids(rows, mh, max)
                    &&& strings_view(out.removed_hashes@) == pruned_hashes(rows, mh, max)
                }
            }),
    {
        let ghost rows0 = old(self).spec_rows();
        let max_history = limits.max_history();
        let max_bytes = limits.max_image_bytes();
        let len = self.rows.len();
        let keep = if max_history < len { max_history } else { len };
        let ghost kept = rows0.take(keep as int);
        let ghost dropped = rows0.skip(keep as int);
        let mut used: u128 = 0;
        let mut i: usize = 0;
        while i < keep
            invariant
                self.spec_rows() == rows0,
                rows0.len() == len,
                self.rows@.len() == len,
                keep <= len,
                keep <= MAX_HISTORY_LIMIT,
                i <= keep,
                used == total_asset_bytes(rows0.take(i as int)),
                used <= i * 0x3_0000_0000_0000_0000,
            decreases keep - i,
        {
            let t = Self::row_asset_total(&self.rows[i]);
            proof {
                assert(rows0[i as int] == self.rows@[i as int]@);
                lemma_total_take(rows0, i as int);
            }
            used = used + t;
            i += 1;
        }
        assert(rows0.take(keep as int) =~= kept);
        if used > 0x7fff_ffff_ffff_ffff {
            return Err(HistoryError::SizeOverflow);
        }
        let mut deleted_ids: Vec<i64> = Vec::new();
        let mut removed: Vec<String> = Vec::new();
        let mut d: usize = keep;
        while d < len
            invariant
                self.spec_rows() == rows0,
                rows0.len() == len,
                self.rows@.len() == len,
                keep <= d <= len,
                dropped == rows0.skip(keep as int),
                deleted_ids@ == row_ids(dropped.take(d - keep)),
                strings_view(removed@) == asset_hashes(dropped.take(d - keep)),
            decreases len - d,
        {
            let ghost t = (d - keep) as int;
            proof {
                assert(rows0[d as int] == self.rows@[d as int]@);
                assert(dropped[t] == rows0[d as int]);
                assert(dropped.take(t + 1).drop_last() =~= dropped.take(t));
                assert(dropped.take(t + 1).last() == dropped[t]);
            }
            deleted_ids.push(self.rows[d].id);
            match &self.rows[d].asset {
                Some(a) => {
                    removed.push(a.hash.clone());
                },
                None => {},
            }
            proof {
                assert(deleted_ids@ =~= row_ids(dropped.take(t + 1)));
                assert(strings_view(removed@) =~= asset_hashes(dropped.take(t + 1)));
            }
            d += 1;
        }
        proof {
            assert(dropped.take(len - keep) =~= dropped);
            lemma_take_wf(rows0, keep as int, self.next_id);
        }
        self.rows.truncate(keep);
        assert(self.spec_rows() =~= kept);
        let mut used64: u64 = used as u64;
        let ghost mut evicted: Seq<RowView> = Seq::empty();
        let ghost max = max_bytes as int;
        loop
            invariant
                table_wf(self.spec_rows(), self.next_id),
                self.next_id == old(self).spec_next_id(),
                max == max_bytes as int,
                used64 == total_asset_bytes(self.spec_rows()),
                budget_kept(self.spec_rows(), max) == budget_kept(kept, max),
                evicted + budget_evicted(self.spec_rows(), max) == budget_evicted(kept, max),
                deleted_ids@ == row_ids(dropped) + row_ids(evicted),
                strings_view(removed@) == asset_hashes(dropped) + asset_hashes(evicted),
            ensures
                table_wf(self.spec_rows(), self.next_id),
                self.next_id == old(self).spec_next_id(),
                self.spec_rows() == budget_kept(kept, max),
                evicted == budget_evicted(kept, max),
                deleted_ids@ == row_ids(dropped) + row_ids(evicted),
                strings_view(removed@) == asset_hashes(dropped) + asset_hashes(evicted),
            decreases self.rows@.len(),
        {
            let ghost cur = self.spec_rows();
            if used64 <= max_bytes {
                assert(evicted + Seq::<RowView>::empty() =~= evicted);
                break;
            }
            match self.oldest_asset_index() {
                None => {
                    assert(evicted + Seq::<RowView>::empty() =~= evicted);
                    break;
                },
                Some(j) => {
                    proof {
                        lemma_last_asset_index(cur);
                        assert(cur[j as int] == self.rows@[j as int]@);
                    }
                    let row = self.rows.remove(j);
                    let t = Self::row_asset_total(&row);
                    proof {
                        lemma_total_remove(cur, j as int);
                        lemma_total_nonneg(cur.remove(j as int));
                        lemma_remove_wf(cur, j as int, self.next_id);
                        assert(self.spec_rows() =~= cur.remove(j as int));
                        assert(row@ == cur[j as int]);
                    }
                    used64 = used64 - (t as u64);
                    deleted_ids.push(row.id);
                    let ghost before = removed@;
                    match row.asset {
                        Some(a) => {
                            removed.push(a.hash);
                            proof {
                                assert(strings_view(removed@) =~= strings_view(before).push(
                                    cur[j as int].asset->Some_0.hash,
                                ));
                            }
                        },
                        None => {},
                    }
                    proof {
                        let x = cur[j as int];
                        let ev2 = evicted.push(x);
                        assert(budget_evicted(cur, max) == seq![x] + budget_evicted(cur.remove(j as int), max));
                        assert(ev2 + budget_evicted(self.spec_rows(), max) =~= evicted + budget_evicted(cur, max));
                        assert(row_ids(ev2) =~= row_ids(evicted).push(x.id));
                        assert(ev2.drop_last() =~= evicted);
                        assert(asset_hashes(ev2) == asset_hashes(evicted).push(x.asset->Some_0.hash));
                        assert(deleted_ids@ =~= row_ids(dropped) + row_ids(ev2));
                        assert(strings_view(removed@) =~= asset_hashes(dropped) + asset_hashes(ev2));
                        evicted = ev2;
                    }
                },
            }
        }
        Ok(PruneOutcome { deleted_ids, removed_hashes: removed })
    }

    /// Stores a captured entry under its content hash (for an image, the hash of its
    /// pixels), then prunes to the limits. An image needs its asset; an image whose
    /// asset alone exceeds the image budget is refused and nothing changes. A file
    /// list keeps its preview only when the preview fits in the budget; text and URLs
    /// keep no asset. When pruning fails, the table holds the upserted rows and the
    /// caller discards them.
    pub fn insert_entry(
        &mut self,
        limits: &Limits,
        kind: EntryKind,
        content: &str,
        hash: &str,
        image_width: Option<u32>,
        image_height: Option<u32>,
        asset: Option<AssetRecord>,
        now: i64,
    ) -> (res: Result<InsertReport, HistoryError>)
        requires
            old(self).wf(),
        ensures
            final(self).wf(),
            ({
                let rows = old(self).spec_rows();
                let next = old(self).spec_next_id();
                let mh = limits.spec_max_history() as int;
                let max = limits.spec_max_image_bytes() as int;
                let a = asset_view(asset);
                let r = upserted_row(
                    rows,
                    next,
                    kind,
                    content@,
                    hash@,
                    image_width,
                    image_height,
                    stored_asset(kind, a, max),
                    now,
                );
                let up = upserted_rows(rows, r);
                let missing = kind == EntryKind::Image && a is None;
                let exhausted = !has_hash(rows, hash@) && next == i64::MAX;
                &&& missing ==> res == Err::<InsertReport, HistoryError>(HistoryError::MissingPixels)
                    && final(self).spec_rows() == rows
                &&& !missing && image_too_large(kind, a, max) ==> (res matches Ok(InsertReport::TooLarge))
                    && final(self).spec_rows() == rows && final(self).spec_next_id() == next
                &&& !missing && !image_too_large(kind, a, max) ==> {
                    &&& exhausted ==> res == Err::<InsertReport, HistoryError>(HistoryError::IdsExhausted)
                        && final(self).spec_rows() == rows
                    &&& !exhausted && prune_overflows(up, mh) ==> res == Err::<
                        InsertReport,
                        HistoryError,
                    >(HistoryError::SizeOverflow) && final(self).spec_rows() == up
                    &&& !exhausted && !prune_overflows(up, mh) ==> {
                        &&& (res matches Ok(InsertReport::Stored { id, pruned }) && id == r.id
                            && pruned.deleted_ids@ == pruned_ids(up, mh, max) && strings_view(
                            pruned.removed_hashes@,
                        ) == pruned_hashes(up, mh, max))
                        &&& final(self).spec_rows() == pruned_rows(up, mh, max)
                    }
                }
            }),
    {
        let max = limits.max_image_bytes();
        let stored = match kind {
            EntryKind::Image => match asset {
                None => {
                    return Err(HistoryError::MissingPixels);
                },
                Some(a) => {
                    if a.original_bytes as u128 + a.preview_bytes as u128 > max as u128 {
                        return Ok(InsertReport::TooLarge);
                    }
                    Some(a)
                },
            },
            EntryKind::FilePaths => match asset {
                Some(a) => {
                    if a.preview_bytes <= max {
                        Some(a)
                    } else {
                        None
                    }
                },
                None => None,
            },
            _ => None,
        };
        assert(asset_view(stored) == stored_asset(kind, asset_view(asset), max as int));
        let id = match self.upsert(kind, content, hash, image_width, image_height, stored, now) {
            Ok(id) => id,
            Err(e) => {
                return Err(e);
            },
        };
        match self.prune(limits) {
            Ok(pruned) => Ok(InsertReport::Stored { id, pruned }),
            Err(e) => Err(e),
        }
    }

    /// Whether an entry's lower-cased content contains every term.
    fn matches_terms(entry: &ClipboardEntry, terms: &Vec<Vec<char>>, ghost_terms: Ghost<Seq<Seq<char>>>) -> (res: bool)
        requires
            char_vecs_view(terms@) == ghost_terms@,
        ensures
            res == entry_matches(entry@, ghost_terms@),
    {
        let lower = to_lowercase(entry.content.as_str());
        let hay = chars_of(lower.as_str());
        let mut k: usize = 0;
        while k < terms.len()
            invariant
                char_vecs_view(terms@) == ghost_terms@,
                hay@ == lowercase(entry.content@),
                k <= terms.len(),
                forall|j: int| 0 <= j < k ==> contains_seq(lowercase(entry@.content), #[trigger] ghost_terms@[j]),
            decreases terms.len() - k,
        {
            assert(ghost_terms@[k as int] == terms@[k as int]@);
            if !contains(&hay, &terms[k]) {
                return false;
            }
            k += 1;
        }
        true
    }

    /// Searches the history. The query's white-space-separated words, each in lower
    /// case, must all occur in an entry's lower-cased content; with no words, the most
    /// recent entries are returned. At most `limit` entries are returned, most recent
    /// first, taken from the `max_history` most recent.
    pub fn search(&self, query: &str, limit: usize, max_history: usize) -> (res: Vec<ClipboardEntry>)
        ensures
            entries_view(res@) == search_result(self.spec_rows(), query@, limit as int, max_history as int),
    {
        let q = chars_of(query);
        let ws = split_whitespace(&q);
        let mut terms: Vec<Vec<char>> = Vec::new();
        let mut i: usize = 0;
        while i < ws.len()
            invariant
                char_vecs_view(ws@) == words(query@),
                i <= ws.len(),
                char_vecs_view(terms@) == words(query@).take(i as int).map_values(|w: Seq<char>| lowercase(w)),
            decreases ws.len() - i,
        {
            let word = string_of(&ws[i]);
            let lower = to_lowercase(word.as_str());
            let ghost before = terms@;
            terms.push(chars_of(lower.as_str()));
            proof {
                assert(ws@[i as int]@ == words(query@)[i as int]);
                assert(char_vecs_view(terms@) =~= char_vecs_view(before).push(lowercase(ws@[i as int]@)));
                assert(words(query@).take(i + 1).map_values(|w: Seq<char>| lowercase(w)) =~= words(query@).take(i as int).map_values(|w: Seq<char>| lowercase(w)).push(lowercase(words(query@)[i as int])));
            }
            i += 1;
        }
        proof {
            assert(words(query@).take(ws.len() as int) =~= words(query@));
        }
        let ghost gterms = search_terms(query@);
        if terms.len() == 0 {
            let res = self.list_recent(limit);
            proof {
                assert(entries_view(res@) =~= recent_entries(self.spec_rows(), min_len(limit as int, self.spec_rows().len() as int)));
            }
            return res;
        }
        let recent = self.list_recent(max_history);
        let ghost es = recent_entries(self.spec_rows(), min_len(max_history as int, self.spec_rows().len() as int));
        proof {
            assert(entries_view(recent@) =~= es);
        }
        let mut found: Vec<ClipboardEntry> = Vec::new();
        let mut j: usize = 0;
        while j < recent.len()
            invariant
                entries_view(recent@) == es,
                char_vecs_view(terms@) == gterms,
                j <= recent.len(),
                entries_view(found@) == matching(es.take(j as int), gterms),
            decreases recent.len() - j,
        {
            proof {
                assert(es.take(j + 1).drop_last() =~= es.take(j as int));
                assert(es.take(j + 1).last() == recent@[j as int]@);
            }
            if Self::matches_terms(&recent[j], &terms, Ghost(gterms)) {
                let ghost before = found@;
                let e = recent[j].to_entry_copy();
                found.push(e);
                proof {
                    assert(entries_view(found@) =~= entries_view(before).push(recent@[j as int]@));
                }
            }
            j += 1;
        }
        proof {
            assert(es.take(recent.len() as int) =~= es);
        }
        let ghost all = entries_view(found@);
        found.truncate(limit);
        proof {
            assert(entries_view(found@) =~= all.take(min_len(limit as int, all.len() as int)));
        }
        found
    }

    /// Builds a table from rows read back from storage, most recent first. The
    /// next id is one past the largest id ever assigned (`last_assigned_id`).
    /// Returns `None` when the rows break the table's invariant.
    pub fn from_rows(rows: Vec<HistoryRow>, last_assigned_id: i64) -> (t: Option<HistoryTable>)
        ensures
            t is Some <==> (last_assigned_id < i64::MAX && last_assigned_id >= 0 && table_wf(
                rows@.map_values(|r: HistoryRow| r@),
                (last_assigned_id + 1) as i64,
            )),
            t matches Some(t) ==> t.spec_rows() == rows@.map_values(|r: HistoryRow| r@)
                && t.spec_next_id() == last_assigned_id + 1,
    {
        if last_assigned_id >= i64::MAX || last_assigned_id < 0 {
            return None;
        }
        let next_id = last_assigned_id + 1;
        let ghost v = rows@.map_values(|r: HistoryRow| r@);
        let n = rows.len();
        let mut i: usize = 0;
        while i < n
            invariant
                n == rows.len(),
                v == rows@.map_values(|r: HistoryRow| r@),
                0 <= last_assigned_id < i64::MAX,
                next_id == last_assigned_id + 1,
                i <= n,
                forall|a: int, b: int| 0 <= a < b < i ==> newer(#[trigger] v[a], #[trigger] v[b]),
                forall|a: int, b: int|
                    0 <= a < i && 0 <= b < i && a != b ==> #[trigger] v[a].id != #[trigger] v[b].id,
                forall|a: int, b: int|
                    0 <= a < i && 0 <= b < i && a != b ==> #[trigger] v[a].hash
                        != #[trigger] v[b].hash,
                forall|a: int| 0 <= a < i ==> #[trigger] v[a].id < next_id,
            decreases n - i,
        {
            assert(v[i as int] == rows@[i as int]@);
            if rows[i].id >= next_id {
                assert(v[i as int].id >= next_id);
                assert(!ids_below(v, next_id)) by {
                    if ids_below(v, next_id) {
                        assert(v[i as int].id < next_id);
                    }
                }
                return None;
            }
            if i > 0 {
                let a = &rows[i - 1];
                let b = &rows[i];
                assert(v[i - 1] == rows@[i - 1]@);
                if !(a.updated_at > b.updated_at || (a.updated_at == b.updated_at && a.id > b.id)) {
                    assert(!newer(v[i - 1], v[i as int]));
                    assert(!recency_sorted(v)) by {
                        if recency_sorted(v) {
                            assert(newer(v[i - 1], v[i as int]));
                        }
                    }
                    return None;
                }
            }
            let mut j: usize = 0;
            while j < i
                invariant
                    n == rows.len(),
                    v == rows@.map_values(|r: HistoryRow| r@),
                    j <= i < n,
                    forall|b: int| 0 <= b < j ==> #[trigger] v[b].id != v[i as int].id,
                    forall|b: int| 0 <= b < j ==> #[trigger] v[b].hash != v[i as int].hash,
                decreases i - j,
            {
                assert(v[j as int] == rows@[j as int]@);
                assert(v[i as int] == rows@[i as int]@);
                if rows[j].id == rows[i].id {
                    assert(v[j as int].id == v[i as int].id);
                    assert(!ids_unique(v));
                    return None;
                }
                if equals(rows[j].hash.as_str(), rows[i].hash.as_str()) {
                    assert(v[j as int].hash == v[i as int].hash);
                    assert(!hashes_unique(v));
                    return None;
                }
                j += 1;
            }
            proof {
                if i > 0 {
                    assert(newer(v[i - 1], v[i as int]));
                    assert forall|a: int, b: int| 0 <= a < b < i + 1 implies newer(
                        #[trigger] v[a],
                        #[trigger] v[b],
                    ) by {
                        if b == i && a < i - 1 {
                            assert(newer(v[a], v[i - 1]));
                        }
                    }
                }
            }
            i += 1;
        }
        Some(HistoryTable { rows, next_id })
    }
}


/// `insert_sorted` adds exactly one row, `r`.
proof fn lemma_insert_sorted_len(rows: Seq<RowView>, r: RowView)
    ensures
        insert_sorted(rows, r).len() == rows.len() + 1,
        insert_sorted(rows, r).contains(r),
    decreases rows.len(),
{
    if rows.len() == 0 {
        assert(insert_sorted(rows, r)[0] == r);
    } else if newer(rows[0], r) {
        lemma_insert_sorted_len(rows.drop_first(), r);
        let t = insert_sorted(rows.drop_first(), r);
        let k = choose|k: int| 0 <= k < t.len() && t[k] == r;
        assert(insert_sorted(rows, r)[k + 1] == r);
    } else {
        assert(insert_sorted(rows, r)[0] == r);
    }
}

/// Storing content whose hash is already in the history updates that entry in place:
/// it keeps its id and creation time, and the history keeps its length.
pub proof fn law_duplicate_keeps_identity(
    rows: Seq<RowView>,
    next_id: i64,
    kind: EntryKind,
    content: Seq<char>,
    hash: Seq<char>,
    image_width: Option<u32>,
    image_height: Option<u32>,
    asset: Option<AssetView>,
    now: i64,
)
    requires
        table_wf(rows, next_id),
        has_hash(rows, hash),
    ensures
        ({
            let r = upserted_row(rows, next_id, kind, content, hash, image_width, image_height, asset, now);
            let k = hash_index(rows, hash);
            &&& r.id == rows[k].id
            &&& r.created_at == rows[k].created_at
            &&& upserted_rows(rows, r).len() == rows.len()
            &&& upserted_rows(rows, r).contains(r)
        }),
{
    let r = upserted_row(rows, next_id, kind, content, hash, image_width, image_height, asset, now);
    lemma_insert_sorted_len(without_hash(rows, hash), r);
}

/// The entry just written is read back first: when every stored entry was last
/// updated before `now` (or, for content not yet stored, no later than `now`), the
/// stored row heads the history.
pub proof fn law_latest_write_is_listed_first(
    rows: Seq<RowView>,
    next_id: i64,
    kind: EntryKind,
    content: Seq<char>,
    hash: Seq<char>,
    image_width: Option<u32>,
    image_height: Option<u32>,
    asset: Option<AssetView>,
    now: i64,
)
    requires
        table_wf(rows, next_id),
        forall|i: int|
            0 <= i < rows.len() ==> #[trigger] rows[i].updated_at < now || (rows[i].updated_at == now
                && !has_hash(rows, hash)),
    ensures
        ({
            let r = upserted_row(rows, next_id, kind, content, hash, image_width, image_height, asset, now);
            &&& upserted_rows(rows, r)[0] == r
            &&& recent_entries(upserted_rows(rows, r), 1) == seq![entry_of(r)]
        }),
{
    let r = upserted_row(rows, next_id, kind, content, hash, image_width, image_height, asset, now);
    let ws = without_hash(rows, hash);
    if ws.len() > 0 {
        if has_hash(rows, hash) {
            let k = hash_index(rows, hash);
            let j = if k == 0 { 1int } else { 0int };
            assert(ws[0] == rows[j]);
            assert(rows[j].updated_at < now);
        } else {
            assert(ws[0] == rows[0]);
            assert(rows[0].id < next_id);
        }
        assert(newer(r, ws[0]));
        assert(!newer(ws[0], r));
    }
    let up = upserted_rows(rows, r);
    assert(up[0] == r);
    lemma_insert_sorted_len(ws, r);
    assert(recent_entries(up, 1) =~= seq![entry_of(r)]);
}

/// Reading a row back keeps what was stored: the entry has the row's id, kind,
/// content, width and height (in that order), times and asset, and carries no pixels.
pub proof fn law_read_back_keeps_stored_fields(r: RowView)
    ensures
        entry_of(r).id == r.id,
        entry_of(r).kind == r.kind,
        entry_of(r).content == r.content,
        entry_of(r).image_width == r.image_width,
        entry_of(r).image_height == r.image_height,
        entry_of(r).image_rgba is None,
        entry_of(r).created_at == r.created_at,
        entry_of(r).updated_at == r.updated_at,
        entry_of(r).asset_hash == match r.asset {
            Some(a) => Some(a.hash),
            None => None::<Seq<char>>,
        },
{
}

/// What is written is what is read back: under the conditions of
/// `law_latest_write_is_listed_first`, the first listed entry after a write has the
/// written kind, content, width and height, and the write's time as its update time.
pub proof fn law_written_entry_reads_back(
    rows: Seq<RowView>,
    next_id: i64,
    kind: EntryKind,
    content: Seq<char>,
    hash: Seq<char>,
    image_width: Option<u32>,
    image_height: Option<u32>,
    asset: Option<AssetView>,
    now: i64,
)
    requires
        table_wf(rows, next_id),
        forall|i: int|
            0 <= i < rows.len() ==> #[trigger] rows[i].updated_at < now || (rows[i].updated_at == now
                && !has_hash(rows, hash)),
    ensures
        ({
            let r = upserted_row(rows, next_id, kind, content, hash, image_width, image_height, asset, now);
            let e = recent_entries(upserted_rows(rows, r), 1)[0];
            &&& recent_entries(upserted_rows(rows, r), 1).len() == 1
            &&& e.kind == kind
            &&& e.content == content
            &&& e.image_width == image_width
            &&& e.image_height == image_height
            &&& e.updated_at == now
        }),
{
    law_latest_write_is_listed_first(rows, next_id, kind, content, hash, image_width, image_height, asset, now);
}

/// When no row has an asset, the assets occupy nothing.
proof fn lemma_no_assets_total(rows: Seq<RowView>)
    requires
        last_asset_index(rows) < 0,
    ensures
        total_asset_bytes(rows) == 0,
    decreases rows.len(),
{
    if rows.len() > 0 {
        lemma_last_asset_index(rows);
        assert(rows.last().asset is None);
        lemma_no_assets_total(rows.drop_last());
    }
}

/// The image budget only removes rows, and what it keeps fits in the budget.
proof fn lemma_budget_kept_fits(rows: Seq<RowView>, max: int)
    requires
        0 <= max,
    ensures
        budget_kept(rows, max).len() <= rows.len(),
        total_asset_bytes(budget_kept(rows, max)) <= max,
        forall|x: RowView| budget_kept(rows, max).contains(x) ==> rows.contains(x),
    decreases rows.len(),
{
    if total_asset_bytes(rows) > max {
        let j = last_asset_index(rows);
        if j < 0 {
            lemma_no_assets_total(rows);
        } else {
            lemma_last_asset_index(rows);
            let s = rows.remove(j);
            lemma_budget_kept_fits(s, max);
            assert forall|x: RowView| budget_kept(rows, max).contains(x) implies rows.contains(x) by {
                assert(s.contains(x));
                let i = choose|i: int| 0 <= i < s.len() && s[i] == x;
                if i < j {
                    assert(rows[i] == x);
                } else {
                    assert(rows[i + 1] == x);
                }
            }
        }
    }
}

/// Pruning brings the history within its limits: at most `max_history` rows remain,
/// and their assets occupy at most `max_bytes`.
pub proof fn law_prune_respects_limits(rows: Seq<RowView>, max_history: int, max_bytes: int)
    requires
        0 <= max_history,
        0 <= max_bytes,
    ensures
        pruned_rows(rows, max_history, max_bytes).len() <= max_history,
        total_asset_bytes(pruned_rows(rows, max_history, max_bytes)) <= max_bytes,
{
    lemma_budget_kept_fits(kept_by_limit(rows, max_history), max_bytes);
}

/// Pruning twice with the same limits prunes nothing more.
pub proof fn law_prune_is_idempotent(rows: Seq<RowView>, max_history: int, max_bytes: int)
    requires
        0 <= max_history,
        0 <= max_bytes,
    ensures
        pruned_rows(pruned_rows(rows, max_history, max_bytes), max_history, max_bytes) == pruned_rows(
            rows,
            max_history,
            max_bytes,
        ),
        pruned_ids(pruned_rows(rows, max_history, max_bytes), max_history, max_bytes) == Seq::<
            i64,
        >::empty(),
{
    let p = pruned_rows(rows, max_history, max_bytes);
    law_prune_respects_limits(rows, max_history, max_bytes);
    assert(kept_by_limit(p, max_history) =~= p);
    assert(dropped_by_limit(p, max_history) =~= Seq::<RowView>::empty());
    assert(row_ids(Seq::<RowView>::empty()) =~= Seq::<i64>::empty());
    assert(pruned_ids(p, max_history, max_bytes) =~= Seq::<i64>::empty());
}

/// Removing a row keeps recency order.
proof fn lemma_remove_sorted(rows: Seq<RowView>, k: int)
    requires
        recency_sorted(rows),
        0 <= k < rows.len(),
    ensures
        recency_sorted(rows.remove(k)),
{
    let r = rows.remove(k);
    assert forall|i: int, j: int| 0 <= i < j < r.len() implies newer(#[trigger] r[i], #[trigger] r[j]) by {
        let a = if i < k { i } else { i + 1 };
        let b = if j < k { j } else { j + 1 };
        assert(r[i] == rows[a] && r[j] == rows[b]);
    }
}

/// The image budget evicts oldest first: every row it evicts is older than every
/// row with an asset that it keeps.
proof fn lemma_budget_evicts_oldest(rows: Seq<RowView>, max: int)
    requires
        recency_sorted(rows),
        0 <= max,
    ensures
        forall|e: RowView, k: RowView|
            budget_evicted(rows, max).contains(e) && budget_kept(rows, max).contains(k)
                && k.asset is Some ==> newer(k, e),
        forall|e: RowView| budget_evicted(rows, max).contains(e) ==> rows.contains(e),
    decreases rows.len(),
{
    if total_asset_bytes(rows) > max {
        let j = last_asset_index(rows);
        if j >= 0 {
            lemma_last_asset_index(rows);
            let s = rows.remove(j);
            lemma_remove_sorted(rows, j);
            lemma_budget_evicts_oldest(s, max);
            lemma_budget_kept_fits(s, max);
            let ev = budget_evicted(rows, max);
            assert(ev == seq![rows[j]] + budget_evicted(s, max));
            assert forall|x: RowView| s.contains(x) implies rows.contains(x) by {
                let i = choose|i: int| 0 <= i < s.len() && s[i] == x;
                if i < j {
                    assert(rows[i] == x);
                } else {
                    assert(rows[i + 1] == x);
                }
            }
            assert forall|e: RowView, k: RowView|
                ev.contains(e) && budget_kept(rows, max).contains(k) && k.asset is Some implies newer(
                k,
                e,
            ) by {
                let p = choose|p: int| 0 <= p < ev.len() && ev[p] == e;
                if p == 0 {
                    assert(s.contains(k));
                    let i = choose|i: int| 0 <= i < s.len() && s[i] == k;
                    if i < j {
                        assert(rows[i] == k);
                        assert(newer(rows[i], rows[j]));
                    } else {
                        assert(rows[i + 1] == k);
                        assert(rows[i + 1].asset is None);
                    }
                } else {
                    assert(budget_evicted(s, max)[p - 1] == e);
                    assert(budget_evicted(s, max).contains(e));
                }
            }
            assert forall|e: RowView| ev.contains(e) implies rows.contains(e) by {
                let p = choose|p: int| 0 <= p < ev.len() && ev[p] == e;
                if p > 0 {
                    assert(budget_evicted(s, max)[p - 1] == e);
                    assert(budget_evicted(s, max).contains(e));
                }
            }
        }
    }
}

/// Pruning keeps the most recent rows: every row dropped for the history limit is
/// older than every row kept, and every row evicted for the image budget is older
/// than every kept row that has an asset.
pub proof fn law_prune_keeps_most_recent(rows: Seq<RowView>, next_id: i64, max_history: int, max_bytes: int)
    requires
        table_wf(rows, next_id),
        0 <= max_history,
        0 <= max_bytes,
    ensures
        forall|d: RowView, k: RowView|
            dropped_by_limit(rows, max_history).contains(d) && pruned_rows(rows, max_history, max_bytes).contains(k)
                ==> newer(k, d),
        forall|e: RowView, k: RowView|
            budget_evicted(kept_by_limit(rows, max_history), max_bytes).contains(e) && pruned_rows(
                rows,
                max_history,
                max_bytes,
            ).contains(k) && k.asset is Some ==> newer(k, e),
{
    let n = min_len(max_history, rows.len() as int);
    let kept = kept_by_limit(rows, max_history);
    lemma_take_wf(rows, n, next_id);
    lemma_budget_kept_fits(kept, max_bytes);
    lemma_budget_evicts_oldest(kept, max_bytes);
    assert forall|d: RowView, k: RowView|
        dropped_by_limit(rows, max_history).contains(d) && pruned_rows(rows, max_history, max_bytes).contains(k)
            implies newer(k, d) by {
        let a = choose|a: int| 0 <= a < dropped_by_limit(rows, max_history).len() && dropped_by_limit(rows, max_history)[a] == d;
        assert(kept.contains(k));
        let b = choose|b: int| 0 <= b < kept.len() && kept[b] == k;
        assert(rows[b] == k);
        assert(rows[n + a] == d);
        assert(newer(rows[b], rows[n + a]));
    }
}

/// A deleted entry is gone: after the row with `id` is removed, no row has that id.
pub proof fn law_deleted_entry_is_gone(rows: Seq<RowView>, next_id: i64, k: int)
    requires
        table_wf(rows, next_id),
        0 <= k < rows.len(),
    ensures
        !has_id(rows.remove(k), rows[k].id),
{
    let r = rows.remove(k);
    if has_id(r, rows[k].id) {
        let i = choose|i: int| 0 <= i < r.len() && #[trigger] r[i].id == rows[k].id;
        let a = if i < k { i } else { i + 1 };
        assert(r[i] == rows[a]);
    }
}

/// Every entry in `matching` matches the terms and comes from the searched entries.
proof fn lemma_matching_members(entries: Seq<EntryView>, terms: Seq<Seq<char>>)
    ensures
        forall|e: EntryView| matching(entries, terms).contains(e) ==> entry_matches(e, terms)
            && entries.contains(e),
        matching(entries, terms).len() <= entries.len(),
    decreases entries.len(),
{
    if entries.len() > 0 {
        let init = entries.drop_last();
        lemma_matching_members(init, terms);
        let m = matching(init, terms);
        assert forall|e: EntryView| matching(entries, terms).contains(e) implies entry_matches(e, terms)
            && entries.contains(e) by {
            let p = choose|p: int| 0 <= p < matching(entries, terms).len() && matching(entries, terms)[p] == e;
            if p < m.len() {
                assert(m[p] == e);
                assert(m.contains(e));
                assert(init.contains(e));
                let q = choose|q: int| 0 <= q < init.len() && init[q] == e;
                assert(entries[q] == e);
            } else {
                assert(e == entries.last());
                assert(entries[entries.len() - 1] == e);
            }
        }
    }
}

/// Every search result contains every term of the query, and a query with no
/// terms lists the most recent entries.
pub proof fn law_search_results_match_every_term(
    rows: Seq<RowView>,
    query: Seq<char>,
    limit: int,
    max_history: int,
)
    requires
        0 <= limit,
        0 <= max_history,
    ensures
        forall|e: EntryView|
            search_result(rows, query, limit, max_history).contains(e) ==> entry_matches(e, search_terms(query)),
        search_terms(query).len() == 0 ==> search_result(rows, query, limit, max_history) == recent_entries(
            rows,
            min_len(limit, rows.len() as int),
        ),
        search_result(rows, query, limit, max_history).len() <= limit,
{
    let terms = search_terms(query);
    if terms.len() > 0 {
        let es = recent_entries(rows, min_len(max_history, rows.len() as int));
        lemma_matching_members(es, terms);
        let found = matching(es, terms);
        let res = found.take(min_len(limit, found.len() as int));
        assert forall|e: EntryView| res.contains(e) implies entry_matches(e, terms) by {
            let p = choose|p: int| 0 <= p < res.len() && res[p] == e;
            assert(found[p] == e);
            assert(found.contains(e));
        }
    }
}

/// Once the history holds no more than `max_history` rows, as it does after pruning,
/// a search looks at every stored entry: with terms, it returns the first `limit`
/// entries, most recent first, whose lower-cased content holds every term.
pub proof fn law_search_sees_every_entry_when_pruned(
    rows: Seq<RowView>,
    query: Seq<char>,
    limit: int,
    max_history: int,
)
    requires
        0 <= limit,
        rows.len() <= max_history,
    ensures
        search_terms(query).len() > 0 ==> search_result(rows, query, limit, max_history) == ({
            let found = matching(rows.map_values(|r: RowView| entry_of(r)), search_terms(query));
            found.take(min_len(limit, found.len() as int))
        }),
{
    assert(rows.take(rows.len() as int) =~= rows);
    assert(recent_entries(rows, min_len(max_history, rows.len() as int)) =~= rows.map_values(
        |r: RowView| entry_of(r),
    ));
}

/// A search made after pruning with the same history limit looks at every entry that
/// pruning kept: with terms, it returns the first `limit` of them, most recent first,
/// whose lower-cased content holds every term.
pub proof fn law_search_after_pruning_sees_every_entry(
    rows: Seq<RowView>,
    query: Seq<char>,
    limit: int,
    max_history: int,
    max_bytes: int,
)
    requires
        0 <= limit,
        0 <= max_history,
        0 <= max_bytes,
    ensures
        ({
            let kept = pruned_rows(rows, max_history, max_bytes);
            search_terms(query).len() > 0 ==> search_result(kept, query, limit, max_history) == ({
                let found = matching(kept.map_values(|r: RowView| entry_of(r)), search_terms(query));
                found.take(min_len(limit, found.len() as int))
            })
        }),
{
    law_prune_respects_limits(rows, max_history, max_bytes);
    law_search_sees_every_entry_when_pruned(pruned_rows(rows, max_history, max_bytes), query, limit, max_history);
}

/// When the oldest row with an asset is the first row, the assets occupy exactly
/// that row's bytes.
proof fn lemma_only_first_asset(rows: Seq<RowView>)
    requires
        rows.len() > 0,
        last_asset_index(rows) == 0,
    ensures
        total_asset_bytes(rows) == asset_total(rows[0]),
    decreases rows.len(),
{
    if rows.len() > 1 {
        lemma_last_asset_index(rows);
        assert(rows.last().asset is None);
        assert(last_asset_index(rows.drop_last()) == 0);
        lemma_only_first_asset(rows.drop_last());
        assert(rows.drop_last()[0] == rows[0]);
        assert(asset_total(rows.last()) == 0);
    } else {
        assert(rows.drop_last() =~= Seq::<RowView>::empty());
        assert(total_asset_bytes(rows.drop_last()) == 0);
        assert(rows.last() == rows[0]);
    }
}

/// The image budget never evicts the first row when its own asset fits in the budget.
proof fn lemma_budget_keeps_first(rows: Seq<RowView>, max: int)
    requires
        rows.len() > 0,
        asset_total(rows[0]) <= max,
    ensures
        budget_kept(rows, max).len() > 0,
        budget_kept(rows, max)[0] == rows[0],
    decreases rows.len(),
{
    if total_asset_bytes(rows) > max {
        let j = last_asset_index(rows);
        if j >= 0 {
            lemma_last_asset_index(rows);
            if j == 0 {
                lemma_only_first_asset(rows);
            } else {
                let s = rows.remove(j);
                assert(s[0] == rows[0]);
                lemma_budget_keeps_first(s, max);
            }
        }
    }
}

/// What is stored is read back first, also after pruning: when the clock has moved
/// past every stored update (or, for new content, reached it) and the stored row's
/// own asset fits in the budget, the stored row heads the pruned history.
pub proof fn law_stored_entry_survives_pruning(
    rows: Seq<RowView>,
    next_id: i64,
    kind: EntryKind,
    content: Seq<char>,
    hash: Seq<char>,
    image_width: Option<u32>,
    image_height: Option<u32>,
    asset: Option<AssetView>,
    now: i64,
    max_history: int,
    max_bytes: int,
)
    requires
        table_wf(rows, next_id),
        forall|i: int|
            0 <= i < rows.len() ==> #[trigger] rows[i].updated_at < now || (rows[i].updated_at == now
                && !has_hash(rows, hash)),
        1 <= max_history,
        asset_total(upserted_row(rows, next_id, kind, content, hash, image_width, image_height, asset, now))
            <= max_bytes,
    ensures
        ({
            let r = upserted_row(rows, next_id, kind, content, hash, image_width, image_height, asset, now);
            let kept = pruned_rows(upserted_rows(rows, r), max_history, max_bytes);
            &&& kept.len() > 0
            &&& kept[0] == r
        }),
{
    let r = upserted_row(rows, next_id, kind, content, hash, image_width, image_height, asset, now);
    law_latest_write_is_listed_first(rows, next_id, kind, content, hash, image_width, image_height, asset, now);
    let up = upserted_rows(rows, r);
    lemma_insert_sorted_len(without_hash(rows, hash), r);
    let kept = kept_by_limit(up, max_history);
    assert(kept[0] == r);
    lemma_budget_keeps_first(kept, max_bytes);
}

/// An old image keeps its label: before and after its thumbnail moves to a preview
/// file, it reads back as holding only a thumbnail; a file list is never so labeled.
pub proof fn law_migrated_image_stays_labeled(r: RowView, asset: AssetView)
    requires
        r.asset is None,
    ensures
        entry_of(r).legacy_preview == (r.kind == EntryKind::Image),
        entry_of(with_legacy_preview(r, asset)).legacy_preview == (r.kind == EntryKind::Image),
        entry_of(with_legacy_preview(r, asset)).asset_hash == Some(asset.hash),
{
}

} // verus!
