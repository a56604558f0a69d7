//! What the history window decides: which entries a filter shows, the limits its
//! buttons cycle through, and its texts (in `i18n`).
use vstd::prelude::*;

use crate::config::Language;
use crate::db::{ClipboardEntry, EntryKind, HistoryTable, search_result};
use crate::text::{
    any_whitespace, ascii_lowercase, chars_of, extend_chars, has_prefix, has_space, starts_with,
    string_of, to_ascii_lowercase, trim, trimmed,
};

pub mod i18n;
pub mod search_input;
pub mod window;

verus! {

/// The kinds of entry that the history list can be narrowed to.
#[derive(Clone, Copy, Debug, PartialEq, Eq, Structural)]
pub enum KindFilter {
    All,
    Text,
    Url,
    FilePaths,
    Image,
}

/// Whether a filter shows entries of a kind.
pub open spec fn filter_accepts(filter: KindFilter, kind: EntryKind) -> bool {
    match filter {
        KindFilter::All => true,
        KindFilter::Text => kind == EntryKind::Text,
        KindFilter::Url => kind == EntryKind::Url,
        KindFilter::FilePaths => kind == EntryKind::FilePaths,
        KindFilter::Image => kind == EntryKind::Image,
    }
}

impl KindFilter {
    /// Whether the filter shows the entry.
    pub fn matches(self, entry: &ClipboardEntry) -> (res: bool)
        ensures
            res == filter_accepts(self, entry.kind),
    {
        self.accepts(entry.kind)
    }

    /// Whether the filter shows entries of the kind.
    pub fn accepts(self, kind: EntryKind) -> (res: bool)
        ensures
            res == filter_accepts(self, kind),
    {
        match self {
            KindFilter::All => true,
            KindFilter::Text => kind == EntryKind::Text,
            KindFilter::Url => kind == EntryKind::Url,
            KindFilter::FilePaths => kind == EntryKind::FilePaths,
            KindFilter::Image => kind == EntryKind::Image,
        }
    }
}

/// The entries that a filter shows, in order.
pub open spec fn filtered(entries: Seq<crate::db::EntryView>, filter: KindFilter) -> Seq<crate::db::EntryView>
    decreases entries.len(),
{
    if entries.len() == 0 {
        Seq::empty()
    } else {
        let rest = filtered(entries.drop_last(), filter);
        if filter_accepts(filter, entries.last().kind) {
            rest.push(entries.last())
        } else {
            rest
        }
    }
}

/// The entries that a filter shows, in order.
pub fn filter_entries(entries: &Vec<ClipboardEntry>, filter: KindFilter) -> (res: Vec<ClipboardEntry>)
    ensures
        crate::db::entries_view(res@) == filtered(crate::db::entries_view(entries@), filter),
{
    let ghost all = crate::db::entries_view(entries@);
    let mut out: Vec<ClipboardEntry> = Vec::new();
    let mut i: usize = 0;
    while i < entries.len()
        invariant
            i <= entries.len(),
            all == crate::db::entries_view(entries@),
            crate::db::entries_view(out@) == filtered(all.take(i as int), filter),
        decreases entries.len() - i,
    {
        proof {
            assert(all.take(i + 1).drop_last() =~= all.take(i as int));
            assert(all.take(i + 1).last() == entries@[i as int]@);
        }
        if filter.matches(&entries[i]) {
            let ghost before = out@;
            out.push(entries[i].to_entry_copy());
            proof {
                assert(crate::db::entries_view(out@) =~= crate::db::entries_view(before).push(entries@[i as int]@));
            }
        }
        i += 1;
    }
    proof {
        assert(all.take(entries.len() as int) =~= all);
    }
    out
}

/// The history length that the history-limit button moves to: it cycles through
/// 200, 500, 1000 and 2000, and a length that is none of these moves to 500, as if
/// it were 200.
pub open spec fn next_history_choice(current: usize) -> usize {
    if current == 200 {
        500
    } else if current == 500 {
        1000
    } else if current == 1000 {
        2000
    } else if current == 2000 {
        200
    } else {
        500
    }
}

/// The history length after `current` when the history-limit button is pressed.
pub fn next_history_limit(current: usize) -> (next: usize)
    ensures
        next == next_history_choice(current),
{
    if current == 200 {
        500
    } else if current == 500 {
        1000
    } else if current == 1000 {
        2000
    } else if current == 2000 {
        200
    } else {
        500
    }
}

/// One mebibyte.
pub const MIB: u64 = 1_048_576;

/// The image budget that the image-budget button moves to: it cycles through
/// 100 MiB, 500 MiB and 1024 MiB, and a budget that is none of these moves to
/// 500 MiB, as if it were 100 MiB.
pub open spec fn next_budget_choice(current: u64) -> int {
    if current == 100 * MIB {
        500 * MIB
    } else if current == 500 * MIB {
        1024 * MIB
    } else if current == 1024 * MIB {
        100 * MIB
    } else {
        500 * MIB
    }
}

/// The image budget after `current` when the image-budget button is pressed.
pub fn next_image_budget(current: u64) -> (next: u64)
    ensures
        next == next_budget_choice(current),
{
    if current == 100 * MIB {
        500 * MIB
    } else if current == 500 * MIB {
        1024 * MIB
    } else if current == 1024 * MIB {
        100 * MIB
    } else {
        500 * MIB
    }
}

/// Whether the clear button deletes: the first press only asks for confirmation,
/// the second deletes. Returns the new confirmation state and whether to delete.
pub fn press_clear(confirming: bool) -> (res: (bool, bool))
    ensures
        res == (if confirming {
            (false, true)
        } else {
            (true, false)
        }),
{
    if confirming {
        (false, true)
    } else {
        (true, false)
    }
}

/// The history-limit button cycles: four presses come back to where a listed
/// length started.
pub proof fn law_history_choices_cycle(current: usize)
    requires
        current == 200 || current == 500 || current == 1000 || current == 2000,
    ensures
        next_history_choice(next_history_choice(next_history_choice(next_history_choice(current))))
            == current,
{
}

/// The content of a history card: line breaks shown as spaces, and at most
/// `max_chars` characters, followed by `...` when cut.
pub open spec fn card_preview_text(content: Seq<char>, max_chars: nat) -> Seq<char> {
    let flat = content.map_values(|c: char| if c == '\n' { ' ' } else { c });
    if flat.len() > max_chars {
        flat.take(max_chars as int) + "..."@
    } else {
        flat
    }
}

/// The content of a history card.
pub fn card_preview(content: &str, max_chars: usize) -> (res: String)
    ensures
        res@ == card_preview_text(content@, max_chars as nat),
{
    let cs = chars_of(content);
    let ghost flat = content@.map_values(|c: char| if c == '\n' { ' ' } else { c });
    let mut out: Vec<char> = Vec::new();
    let mut i: usize = 0;
    let limit = if cs.len() > max_chars { max_chars } else { cs.len() };
    while i < limit
        invariant
            cs@ == content@,
            flat == content@.map_values(|c: char| if c == '\n' { ' ' } else { c }),
            limit <= cs.len(),
            i <= limit,
            out@ == flat.take(i as int),
        decreases limit - i,
    {
        let c = cs[i];
        out.push(if c == '\n' { ' ' } else { c });
        assert(flat[i as int] == (if c == '\n' { ' ' } else { c }));
        assert(out@ =~= flat.take(i + 1));
        i += 1;
    }
    if cs.len() > max_chars {
        let dots = chars_of("...");
        extend_chars(&mut out, &dots);
    } else {
        assert(flat.take(i as int) =~= flat);
    }
    string_of(&out)
}

/// The address that opening a URL entry opens: its content without surrounding
/// white space, which must start with `http://` or `https://` (in any case) and hold
/// no white space; otherwise nothing.
pub open spec fn url_target(content: Seq<char>) -> Option<Seq<char>> {
    let url = trimmed(content);
    let lower = ascii_lowercase(url);
    if (has_prefix(lower, "http://"@) || has_prefix(lower, "https://"@)) && !has_space(url) {
        Some(url)
    } else {
        None
    }
}

/// The address to open for a URL entry, or the refusal in the interface language.
pub fn url_to_open(content: &str, language: Language) -> (res: Result<String, String>)
    ensures
        match url_target(content@) {
            Some(u) => res matches Ok(v) && v@ == u,
            None => res matches Err(m) && m@ == (match language {
                Language::ZhCn => "不是有效的 http/https 网址"@,
                Language::En => "Not a valid http/https URL"@,
            }),
        },
{
    let cs = chars_of(content);
    let url = trim(&cs);
    let lower = to_ascii_lowercase(&url);
    if !(starts_with(&lower, "http://") || starts_with(&lower, "https://")) || any_whitespace(&url) {
        return Err(i18n::invalid_url(language).to_owned());
    }
    Ok(string_of(&url))
}

/// How running the browser went.
#[derive(Debug)]
pub enum LaunchOutcome {
    /// It ran and exited with this status: whether it succeeded, and its text.
    Exited { success: bool, status: String },
    /// It could not be run; the error's text.
    Unavailable(String),
}

/// What running the browser means, in the interface language.
pub fn launch_result(language: Language, outcome: LaunchOutcome) -> (res: Result<(), String>)
    ensures
        match outcome {
            LaunchOutcome::Exited { success, status } => if success {
                res is Ok
            } else {
                res matches Err(m) && m@ == (match language {
                    Language::ZhCn => "打开命令返回失败状态: "@,
                    Language::En => "Open command returned a failed status: "@,
                }) + status@
            },
            LaunchOutcome::Unavailable(e) => res matches Err(m) && m@ == (match language {
                Language::ZhCn => "无法调用系统浏览器: "@,
                Language::En => "Failed to call system browser: "@,
            }) + e@,
        },
{
    match outcome {
        LaunchOutcome::Exited { success, status } => {
            if success {
                Ok(())
            } else {
                Err(i18n::browser_command_failed(language, status.as_str()))
            }
        },
        LaunchOutcome::Unavailable(e) => Err(i18n::browser_unavailable(language, e.as_str())),
    }
}

/// What the window does when switching start-on-boot finishes: the setting's new
/// value, the status to show, and whether the settings are saved. A failure leaves the
/// setting as it was before the switch.
pub fn startup_result(language: Language, enabled: bool, result: Result<(), String>) -> (res: (bool, String, bool))
    ensures
        match result {
            Ok(()) => res.0 == enabled && res.2 && res.1@ == (if enabled {
                match language {
                    Language::ZhCn => "已启用开机自启"@,
                    Language::En => "Start on boot enabled"@,
                }
            } else {
                match language {
                    Language::ZhCn => "已关闭开机自启"@,
                    Language::En => "Start on boot disabled"@,
                }
            }),
            Err(e) => res.0 == !enabled && !res.2 && res.1@ == (match language {
                Language::ZhCn => "开机自启设置失败: "@,
                Language::En => "Failed to change start on boot: "@,
            }) + e@,
        },
{
    match result {
        Ok(()) => {
            let status = if enabled {
                i18n::startup_enabled(language)
            } else {
                i18n::startup_disabled(language)
            };
            (enabled, status.to_owned(), true)
        },
        Err(e) => (!enabled, i18n::startup_failed(language, e.as_str()), false),
    }
}

/// The entries a history list shows: the search results for the query (the most
/// recent entries when it has no words), at most `limit`, narrowed to the filter.
pub fn refresh_entries(
    table: &HistoryTable,
    query: &str,
    limit: usize,
    max_history: usize,
    filter: KindFilter,
) -> (res: Vec<ClipboardEntry>)
    ensures
        crate::db::entries_view(res@) == filtered(
            search_result(table.spec_rows(), query@, limit as int, max_history as int),
            filter,
        ),
{
    let found = table.search(query, limit, max_history);
    filter_entries(&found, filter)
}

} // verus!
