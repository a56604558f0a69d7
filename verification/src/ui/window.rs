//! What the history window shows: its empty-list texts, the tone of its status lines,
//! each row's tile and headline, its button labels, and the small cache of preview
//! images it keeps loaded.
use vstd::prelude::*;

use crate::db::{ClipboardEntry, EntryKind};
use chrono::TimeZone;
use std::fmt::Write;
use crate::text::{
    chars_of, contains, contains_seq, decimal, extend_chars, format_i64, format_u64, lines, lines_of,
    signed_decimal, string_of,
};

verus! {

/// The title and hint shown when the list is empty: while the history loads, when it
/// holds nothing at all, or when nothing matches.
pub open spec fn empty_texts(loaded: bool, no_entries: bool, no_query: bool) -> (Seq<char>, Seq<char>) {
    if !loaded {
        ("正在加载历史"@, "请稍候…"@)
    } else if no_entries && no_query {
        ("还没有剪贴板记录"@, "复制文字、图片或文件后，会出现在这里。"@)
    } else {
        ("没有匹配的记录"@, "试试其他搜索词或切换分类。"@)
    }
}

/// The title and hint shown when the list is empty.
pub fn empty_state(loaded: bool, no_entries: bool, query: &str) -> (res: (&'static str, &'static str))
    ensures
        (res.0@, res.1@) == empty_texts(loaded, no_entries, query@.len() == 0),
{
    if !loaded {
        ("正在加载历史", "请稍候…")
    } else if no_entries && query.is_empty() {
        ("还没有剪贴板记录", "复制文字、图片或文件后，会出现在这里。")
    } else {
        ("没有匹配的记录", "试试其他搜索词或切换分类。")
    }
}

/// How a status line is coloured.
#[derive(Clone, Copy, Debug, PartialEq, Eq, Structural)]
pub enum Tone {
    Danger,
    Good,
    Muted,
}

/// The tone of the window's status line: an error when it mentions a failure or an
/// error.
pub open spec fn status_tone_of(status: Seq<char>) -> Tone {
    if contains_seq(status, "失败"@) || contains_seq(status, "错误"@) {
        Tone::Danger
    } else {
        Tone::Muted
    }
}

/// The tone of the window's status line.
pub fn status_tone(status: &str) -> (t: Tone)
    ensures
        t == status_tone_of(status@),
{
    let s = chars_of(status);
    if contains(&s, &chars_of("失败")) || contains(&s, &chars_of("错误")) {
        Tone::Danger
    } else {
        Tone::Muted
    }
}

/// The tone of the hotkey status line: an error when it mentions a failure, good when
/// a hotkey is taken over or available.
pub open spec fn hotkey_tone_of(status: Seq<char>) -> Tone {
    if contains_seq(status, "失败"@) {
        Tone::Danger
    } else if contains_seq(status, "已接管"@) || contains_seq(status, "可用"@) {
        Tone::Good
    } else {
        Tone::Muted
    }
}

/// The tone of the hotkey status line.
pub fn hotkey_tone(status: &str) -> (t: Tone)
    ensures
        t == hotkey_tone_of(status@),
{
    let s = chars_of(status);
    if contains(&s, &chars_of("失败")) {
        Tone::Danger
    } else if contains(&s, &chars_of("已接管")) || contains(&s, &chars_of("可用")) {
        Tone::Good
    } else {
        Tone::Muted
    }
}

/// A row's tile: the kind's label, its one-character symbol, and the tile's
/// background and ink colours.
pub open spec fn tile_of(kind: EntryKind) -> (Seq<char>, Seq<char>, u32, u32) {
    match kind {
        EntryKind::Image => ("图片"@, "图"@, 0xf2eefe, 0x7957b8),
        EntryKind::FilePaths => ("文件"@, "件"@, 0xe7f4ee, 0x26775b),
        EntryKind::Url => ("网址"@, "链"@, 0xeaf0ff, 0x365bd7),
        EntryKind::Text => ("文字"@, "文"@, 0xfff2e7, 0xb16a31),
    }
}

/// A row's tile.
pub fn row_tile(kind: EntryKind) -> (res: (&'static str, &'static str, u32, u32))
    ensures
        (res.0@, res.1@, res.2, res.3) == tile_of(kind),
{
    match kind {
        EntryKind::Image => ("图片", "图", 0xf2eefe, 0x7957b8),
        EntryKind::FilePaths => ("文件", "件", 0xe7f4ee, 0x26775b),
        EntryKind::Url => ("网址", "链", 0xeaf0ff, 0x365bd7),
        EntryKind::Text => ("文字", "文", 0xfff2e7, 0xb16a31),
    }
}

/// The longest headline, in characters.
pub const HEADLINE_CHARS: usize = 90;

/// A row's headline: the first line of its content, at most 90 characters, marked
/// when the entry keeps only an old thumbnail.
pub open spec fn headline_of(content: Seq<char>, legacy_preview: bool) -> Seq<char> {
    let ls = lines(content);
    let first = if ls.len() > 0 {
        ls[0]
    } else {
        Seq::empty()
    };
    let cut = if first.len() > 90 {
        first.take(90)
    } else {
        first
    };
    if legacy_preview {
        "旧记录仅缩略图 · "@ + cut
    } else {
        cut
    }
}

/// A row's headline.
pub fn headline(entry: &ClipboardEntry) -> (res: String)
    ensures
        res@ == headline_of(entry.content@, entry.legacy_preview),
{
    let cs = chars_of(entry.content.as_str());
    let ls = lines_of(&cs);
    let mut cut: Vec<char> = Vec::new();
    if ls.len() > 0 {
        let first = &ls[0];
        let n = if first.len() > HEADLINE_CHARS { HEADLINE_CHARS } else { first.len() };
        let mut i: usize = 0;
        while i < n
            invariant
                n <= first.len(),
                i <= n,
                cut@ == first@.take(i as int),
            decreases n - i,
        {
            cut.push(first[i]);
            assert(cut@ =~= first@.take(i + 1));
            i += 1;
        }
        assert(ls@[0]@ == lines(entry.content@)[0]);
        if first.len() <= HEADLINE_CHARS {
            assert(first@.take(n as int) =~= first@);
        }
    } else {
        assert(cut@ =~= Seq::<char>::empty());
    }
    if entry.legacy_preview {
        let mut out = chars_of("旧记录仅缩略图 · ");
        extend_chars(&mut out, &cut);
        string_of(&out)
    } else {
        string_of(&cut)
    }
}

/// The history-limit button's label.
pub fn history_button(max_history: usize) -> (res: String)
    ensures
        res@ == "历史 "@ + decimal(max_history as nat),
{
    let mut out = chars_of("历史 ");
    extend_chars(&mut out, &format_u64(max_history as u64));
    string_of(&out)
}

/// The image-budget button's label, in whole mebibytes.
pub fn budget_button(max_image_bytes: u64) -> (res: String)
    ensures
        res@ == "图片 "@ + decimal((max_image_bytes / 1_048_576) as nat) + " MB"@,
{
    let mut out = chars_of("图片 ");
    extend_chars(&mut out, &format_u64(max_image_bytes / 1_048_576));
    extend_chars(&mut out, &chars_of(" MB"));
    string_of(&out)
}

/// The start-on-boot button's label.
pub fn boot_button(start_on_boot: bool) -> (res: &'static str)
    ensures
        res@ == if start_on_boot {
            "开机启动  开"@
        } else {
            "开机启动  关"@
        },
{
    if start_on_boot {
        "开机启动  开"
    } else {
        "开机启动  关"
    }
}

/// The count of listed records.
pub fn listed_count(count: usize) -> (res: String)
    ensures
        res@ == decimal(count as nat) + " 条记录"@,
{
    let mut out = format_u64(count as u64);
    extend_chars(&mut out, &chars_of(" 条记录"));
    string_of(&out)
}

/// How many preview images the window keeps loaded.
pub const PREVIEW_CACHE_SIZE: usize = 24;

/// The models of a list of paths.
pub open spec fn paths_of(list: Seq<String>) -> Seq<Seq<char>> {
    list.map_values(|s: String| s@)
}

/// The preview images the window keeps loaded, oldest first.
#[derive(Debug)]
pub struct PreviewCache {
    paths: Vec<String>,
}

impl PreviewCache {
    /// The loaded previews' paths, oldest first.
    pub closed spec fn spec_paths(&self) -> Seq<Seq<char>> {
        paths_of(self.paths@)
    }

    /// An empty cache.
    pub fn new() -> (c: PreviewCache)
        ensures
            c.spec_paths() == Seq::<Seq<char>>::empty(),
    {
        let c = PreviewCache { paths: Vec::new() };
        assert(c.spec_paths() =~= Seq::<Seq<char>>::empty());
        c
    }

    /// Notes that a preview is shown: a path not yet loaded is added as the newest,
    /// and the oldest are dropped beyond 24; returns the dropped paths, to unload.
    pub fn touch(&mut self, path: &str) -> (evicted: Vec<String>)
        ensures
            ({
                let before = old(self).spec_paths();
                let added = if before.contains(path@) {
                    before
                } else {
                    before.push(path@)
                };
                let drop = if added.len() > 24 {
                    added.len() - 24
                } else {
                    0
                };
                &&& final(self).spec_paths() == added.skip(drop)
                &&& paths_of(evicted@) == added.take(drop)
                &&& final(self).spec_paths().len() <= PREVIEW_CACHE_SIZE
            }),
    {
        let ghost before = self.spec_paths();
        let mut present = false;
        let mut i: usize = 0;
        while i < self.paths.len()
            invariant
                i <= self.paths.len(),
                before == paths_of(self.paths@),
                present == exists|k: int| 0 <= k < i && #[trigger] paths_of(self.paths@)[k] == path@,
            decreases self.paths.len() - i,
        {
            assert(paths_of(self.paths@)[i as int] == self.paths@[i as int]@);
            if crate::text::equals(self.paths[i].as_str(), path) {
                present = true;
            }
            i += 1;
        }
        if !present {
            self.paths.push(path.to_owned());
            assert(paths_of(self.paths@) =~= before.push(path@));
        }
        let ghost added = paths_of(self.paths@);
        let drop = if self.paths.len() > PREVIEW_CACHE_SIZE {
            self.paths.len() - PREVIEW_CACHE_SIZE
        } else {
            0
        };
        let mut evicted: Vec<String> = Vec::new();
        let mut kept: Vec<String> = Vec::new();
        let mut j: usize = 0;
        let n = self.paths.len();
        while j < n
            invariant
                n == self.paths.len(),
                added == paths_of(self.paths@),
                drop <= n,
                j <= n,
                paths_of(evicted@) == added.take(if j < drop { j as int } else { drop as int }),
                paths_of(kept@) == if j < drop {
                    Seq::<Seq<char>>::empty()
                } else {
                    added.subrange(drop as int, j as int)
                },
            decreases n - j,
        {
            let p = self.paths[j].clone();
            assert(added[j as int] == p@);
            let ghost pv = p@;
            if j < drop {
                let ghost e = evicted@;
                evicted.push(p);
                assert(paths_of(evicted@) =~= paths_of(e).push(pv));
                assert(added.take(j + 1) =~= added.take(j as int).push(pv));
            } else {
                let ghost k = kept@;
                kept.push(p);
                assert(paths_of(kept@) =~= paths_of(k).push(pv));
                assert(added.subrange(drop as int, j + 1) =~= (if j < drop {
                    Seq::<Seq<char>>::empty()
                } else {
                    added.subrange(drop as int, j as int)
                }).push(pv));
            }
            j += 1;
        }
        self.paths = kept;
        assert(added.subrange(drop as int, n as int) =~= added.skip(drop as int));
        evicted
    }
}

/// The two ways the window writes a time.
#[derive(Clone, Copy, Debug, PartialEq, Eq, Structural)]
pub enum TimeFormat {
    /// Month, day, hours and minutes: `05-01 10:00`.
    MonthDayTime,
    /// Month and day: `05-01`.
    MonthDay,
}

/// The first Unix timestamp that `chrono` represents: midnight UTC on January 1 of
/// the year -262143, its earliest date.
pub const FIRST_LOCAL_TIMESTAMP: i64 = -8_334_601_228_800;

/// The last Unix timestamp that `chrono` represents: the last second, UTC, of
/// December 31 of the year 262142, its latest date.
pub const LAST_LOCAL_TIMESTAMP: i64 = 8_210_266_876_799;

/// Whether a timestamp lies in the span of dates `chrono` represents, and so can be
/// written as local time.
pub open spec fn in_time_span(timestamp: i64) -> bool {
    FIRST_LOCAL_TIMESTAMP <= timestamp <= LAST_LOCAL_TIMESTAMP
}

/// Whether `c` is an ASCII decimal digit.
pub open spec fn is_digit(c: char) -> bool {
    '0' <= c && c <= '9'
}

/// Whether `s` has the shape of a time written in `format`: two-digit fields with
/// `-`, a space and `:` between them.
pub open spec fn time_shape(format: TimeFormat, s: Seq<char>) -> bool {
    let date = s.len() >= 5 && is_digit(s[0]) && is_digit(s[1]) && s[2] == '-' && is_digit(s[3])
        && is_digit(s[4]);
    match format {
        TimeFormat::MonthDay => s.len() == 5 && date,
        TimeFormat::MonthDayTime => s.len() == 11 && date && s[5] == ' ' && is_digit(s[6])
            && is_digit(s[7]) && s[8] == ':' && is_digit(s[9]) && is_digit(s[10]),
    }
}

/// What is shown for `timestamp` in `format`: inside the span, some text of that
/// shape (its digits depend on the machine's time zone); outside it, nothing.
pub open spec fn shown_time(timestamp: i64, format: TimeFormat, text: Option<Seq<char>>) -> bool {
    if in_time_span(timestamp) {
        text is Some && time_shape(format, text->0)
    } else {
        text is None
    }
}

/// A Unix timestamp written as date and time in the machine's time zone, through
/// `chrono`: `Local.timestamp_opt`, then `format` with `%m-%d %H:%M` or `%m-%d` into a
/// `String`. Inside the span `DateTime::from_timestamp` succeeds (outside it, it
/// fails, which is why the span is where a time is shown), `Local` answers a single
/// time and its offset lookup stays within its arithmetic, and each of `%m`, `%d`,
/// `%H`, `%M` writes two zero-padded digits, so the text is there and has the format's
/// shape. Which digits it holds depends on the
/// machine's time zone and is left unsaid. `Local` also panics when the machine's zone
/// data gives an offset of a day or more (or, on Windows, when the system lookup
/// fails); that depends on the machine, not on the arguments, and is not excluded here.
#[verifier::external_body]
fn local_time(timestamp: i64, format: TimeFormat) -> (res: Option<String>)
    requires
        in_time_span(timestamp),
    ensures
        res is Some,
        time_shape(format, res->0@),
{
    let pattern = match format {
        TimeFormat::MonthDayTime => "%m-%d %H:%M",
        TimeFormat::MonthDay => "%m-%d",
    };
    let mut out = String::new();
    match chrono::Local.timestamp_opt(timestamp, 0).single() {
        Some(t) => match write!(out, "{}", t.format(pattern)) {
            Ok(()) => Some(out),
            Err(_) => None,
        },
        None => None,
    }
}

/// A timestamp written in `format` in the machine's time zone; none outside the span.
pub fn local_text(timestamp: i64, format: TimeFormat) -> (res: Option<String>)
    ensures
        shown_time(timestamp, format, opt_seq(res)),
{
    if FIRST_LOCAL_TIMESTAMP <= timestamp && timestamp <= LAST_LOCAL_TIMESTAMP {
        local_time(timestamp, format)
    } else {
        None
    }
}

/// Which times an entry's time line shows, and how: its update time with month, day,
/// hours and minutes, and its creation time with month and day.
pub fn time_requests(entry: &ClipboardEntry) -> (res: ((i64, TimeFormat), (i64, TimeFormat)))
    ensures
        res == ((entry.updated_at, TimeFormat::MonthDayTime), (entry.created_at, TimeFormat::MonthDay)),
{
    ((entry.updated_at, TimeFormat::MonthDayTime), (entry.created_at, TimeFormat::MonthDay))
}

/// The time shown for an entry, from its update and creation times as local text:
/// the update time, followed by the day it was first copied when that differs; `--`
/// without an update time.
pub open spec fn timestamp_text(
    updated: Option<Seq<char>>,
    created: Option<Seq<char>>,
    same_time: bool,
) -> Seq<char> {
    match (updated, created) {
        (Some(u), Some(c)) => if !same_time {
            u + " · first "@ + c
        } else {
            u
        },
        (Some(u), None) => u,
        _ => "--"@,
    }
}

/// The time shown for an entry with the given times, from their local text.
pub open spec fn entry_time_text(
    updated: Option<Seq<char>>,
    created: Option<Seq<char>>,
    created_at: i64,
    updated_at: i64,
) -> Seq<char> {
    timestamp_text(updated, created, created_at == updated_at)
}

/// The model of an optional string.
pub open spec fn opt_seq(s: Option<String>) -> Option<Seq<char>> {
    match s {
        Some(s) => Some(s@),
        None => None,
    }
}

/// The time shown for an entry, from its times already written as local text.
pub fn timestamp_label(updated: Option<String>, created: Option<String>, same_time: bool) -> (res: String)
    ensures
        res@ == timestamp_text(opt_seq(updated), opt_seq(created), same_time),
{
    match (updated, created) {
        (Some(u), Some(c)) => {
            if !same_time {
                let mut out = chars_of(u.as_str());
                extend_chars(&mut out, &chars_of(" · first "));
                extend_chars(&mut out, &chars_of(c.as_str()));
                string_of(&out)
            } else {
                u
            }
        },
        (Some(u), None) => u,
        _ => "--".to_owned(),
    }
}

/// The time shown for an entry: its last update (month, day, hours and minutes),
/// and the day it was first copied when that was at another time.
pub fn format_timestamp(entry: &ClipboardEntry) -> (res: String)
    ensures
        exists|u: Option<Seq<char>>, c: Option<Seq<char>>|
            shown_time(entry.updated_at, TimeFormat::MonthDayTime, u)
                && shown_time(entry.created_at, TimeFormat::MonthDay, c)
                && res@ == #[trigger] entry_time_text(u, c, entry.created_at, entry.updated_at),
{
    let (update, first) = time_requests(entry);
    let updated = local_text(update.0, update.1);
    let created = local_text(first.0, first.1);
    let ghost (u, c) = (opt_seq(updated), opt_seq(created));
    let res = timestamp_label(updated, created, entry.created_at == entry.updated_at);
    assert(res@ == entry_time_text(u, c, entry.created_at, entry.updated_at));
    res
}

/// The status after an entry was copied.
pub fn copied_status(id: i64) -> (res: String)
    ensures
        res@ == "已复制 #"@ + signed_decimal(id as int),
{
    let mut out = chars_of("已复制 #");
    extend_chars(&mut out, &format_i64(id));
    string_of(&out)
}

/// The status after deleting the entry with `id`: deleted, already gone, or failed.
pub fn delete_status(id: i64, result: Result<bool, String>) -> (res: String)
    ensures
        res@ == match result {
            Ok(true) => "已删除 #"@ + signed_decimal(id as int),
            Ok(false) => "条目已不存在"@,
            Err(e) => "删除失败: "@ + e@,
        },
{
    match result {
        Ok(true) => {
            let mut out = chars_of("已删除 #");
            extend_chars(&mut out, &format_i64(id));
            string_of(&out)
        },
        Ok(false) => "条目已不存在".to_owned(),
        Err(e) => {
            let mut out = chars_of("删除失败: ");
            extend_chars(&mut out, &chars_of(e.as_str()));
            string_of(&out)
        },
    }
}

/// The status after the clear button: a request to confirm, or how clearing went.
pub fn clear_status(result: Option<Result<usize, String>>) -> (res: String)
    ensures
        res@ == match result {
            None => "再次点击“确认清空”将删除所有历史"@,
            Some(Ok(n)) => "已清空 "@ + decimal(n as nat) + " 条历史"@,
            Some(Err(e)) => "清空失败: "@ + e@,
        },
{
    match result {
        None => "再次点击“确认清空”将删除所有历史".to_owned(),
        Some(Ok(n)) => {
            let mut out = chars_of("已清空 ");
            extend_chars(&mut out, &format_u64(n as u64));
            extend_chars(&mut out, &chars_of(" 条历史"));
            string_of(&out)
        },
        Some(Err(e)) => {
            let mut out = chars_of("清空失败: ");
            extend_chars(&mut out, &chars_of(e.as_str()));
            string_of(&out)
        },
    }
}

/// The status after Win+V takeover was switched on or off and saved.
pub fn win_v_status(enabled: bool) -> (res: &'static str)
    ensures
        res@ == if enabled {
            "已请求接管 Win+V；若注册失败，将继续使用 Ctrl+Alt+V"@
        } else {
            "已关闭 Win+V 接管；Ctrl+Alt+V 继续可用"@
        },
{
    if enabled {
        "已请求接管 Win+V；若注册失败，将继续使用 Ctrl+Alt+V"
    } else {
        "已关闭 Win+V 接管；Ctrl+Alt+V 继续可用"
    }
}

/// The status after starting with the system was switched on or off.
pub fn boot_status(enabled: bool) -> (res: &'static str)
    ensures
        res@ == if enabled {
            "已启用开机启动"@
        } else {
            "已关闭开机启动"@
        },
{
    if enabled {
        "已启用开机启动"
    } else {
        "已关闭开机启动"
    }
}

/// A row's detail line: its kind's label, its id and its update time (`?` when the
/// time cannot be shown).
pub open spec fn row_meta_text(kind: EntryKind, id: i64, time: Option<Seq<char>>) -> Seq<char> {
    tile_of(kind).0 + "  ·  #"@ + signed_decimal(id as int) + "  ·  "@ + match time {
        Some(t) => t,
        None => "?"@,
    }
}

/// A row's detail line, with its update time in the machine's time zone.
pub fn row_meta(entry: &ClipboardEntry) -> (res: String)
    ensures
        exists|t: Option<Seq<char>>|
            shown_time(entry.updated_at, TimeFormat::MonthDayTime, t)
                && res@ == #[trigger] row_meta_text(entry.kind, entry.id, t),
{
    let (update, _) = time_requests(entry);
    let time = local_text(update.0, update.1);
    let ghost t = opt_seq(time);
    let (label, _, _, _) = row_tile(entry.kind);
    let mut out = chars_of(label);
    extend_chars(&mut out, &chars_of("  ·  #"));
    extend_chars(&mut out, &format_i64(entry.id));
    extend_chars(&mut out, &chars_of("  ·  "));
    match time {
        Some(t) => extend_chars(&mut out, &chars_of(t.as_str())),
        None => extend_chars(&mut out, &chars_of("?")),
    }
    let res = string_of(&out);
    assert(res@ == row_meta_text(entry.kind, entry.id, t));
    res
}

} // verus!
