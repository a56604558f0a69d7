//! The command-line interface: which command the arguments ask for, and the lines
//! that listing and searching print.
use vstd::prelude::*;

use crate::assets::{lemma_row_with_id, row_with_id};
use crate::db::{
    ClipboardEntry, EntryKind, EntryView, HistoryTable, RowView, asset_referenced, entries_view, entry_of,
    kind_name, listed, min_len, recent_entries, search_result, table_wf,
};
use crate::text::{
    chars_of, chars_of_strings, decimal, equals, extend_chars, format_i64,
    format_u64, join, join_with, lines, lines_of, parse_i64, parse_usize, parsed_i64,
    parsed_unsigned, signed_decimal, string_of, strings_view,
};

verus! {

/// A command of the command-line interface.
#[derive(Debug, PartialEq)]
pub enum CliCommand {
    /// List the `limit` most recent entries.
    List { limit: usize },
    /// Copy the entry at a position of the recent list (counted from 0).
    Paste { index: usize },
    /// Copy the entry with a stable id.
    PasteId { id: i64 },
    /// Search the history.
    Search { query: String },
    /// Delete the whole history.
    Clear,
}

/// The model of a command.
pub enum CommandView {
    List { limit: usize },
    Paste { index: usize },
    PasteId { id: i64 },
    Search { query: Seq<char> },
    Clear,
}

impl View for CliCommand {
    type V = CommandView;

    open spec fn view(&self) -> CommandView {
        match self {
            CliCommand::List { limit } => CommandView::List { limit: *limit },
            CliCommand::Paste { index } => CommandView::Paste { index: *index },
            CliCommand::PasteId { id } => CommandView::PasteId { id: *id },
            CliCommand::Search { query } => CommandView::Search { query: query@ },
            CliCommand::Clear => CommandView::Clear,
        }
    }
}

/// The number of entries that `list` shows when no number is given.
pub const DEFAULT_LIST_LIMIT: usize = 20;

/// The command that the arguments (without the program name) ask for:
/// `list [N]` (20 when `N` is missing or not a number), `paste N` with `N` counted
/// from 1, `paste --id ID`, `search` with the remaining arguments joined by spaces
/// (nothing when they join to the empty string), and `clear`.
pub open spec fn command_of(args: Seq<Seq<char>>) -> Option<CommandView> {
    if args.len() == 0 {
        None
    } else if args[0] == "list"@ {
        let limit = if args.len() > 1 {
            match parsed_unsigned(args[1], usize::MAX as nat) {
                Some(n) => n as usize,
                None => DEFAULT_LIST_LIMIT,
            }
        } else {
            DEFAULT_LIST_LIMIT
        };
        Some(CommandView::List { limit })
    } else if args[0] == "paste"@ {
        if args.len() < 2 {
            None
        } else if args[1] == "--id"@ {
            if args.len() < 3 {
                None
            } else {
                match parsed_i64(args[2]) {
                    Some(id) => Some(CommandView::PasteId { id: id as i64 }),
                    None => None,
                }
            }
        } else {
            match parsed_unsigned(args[1], usize::MAX as nat) {
                Some(n) => if n == 0 {
                    None
                } else {
                    Some(CommandView::Paste { index: (n - 1) as usize })
                },
                None => None,
            }
        }
    } else if args[0] == "search"@ {
        let query = join(args.skip(1), " "@);
        if query.len() == 0 {
            None
        } else {
            Some(CommandView::Search { query })
        }
    } else if args[0] == "clear"@ {
        Some(CommandView::Clear)
    } else {
        None
    }
}

/// The model of an optional command.
pub open spec fn command_view(c: Option<CliCommand>) -> Option<CommandView> {
    match c {
        Some(c) => Some(c@),
        None => None,
    }
}

/// Parses the subcommand of the arguments (without the program name); `None` when
/// no recognised subcommand is present.
pub fn parse_args(args: &[String]) -> (res: Option<CliCommand>)
    ensures
        command_view(res) == command_of(strings_view(args@)),
{
    let ghost a = strings_view(args@);
    if args.len() == 0 {
        return None;
    }
    assert(a[0] == args@[0]@);
    let first = args[0].as_str();
    if equals(first, "list") {
        let limit = if args.len() > 1 {
            assert(a[1] == args@[1]@);
            match parse_usize(args[1].as_str()) {
                Some(n) => n,
                None => DEFAULT_LIST_LIMIT,
            }
        } else {
            DEFAULT_LIST_LIMIT
        };
        Some(CliCommand::List { limit })
    } else if equals(first, "paste") {
        if args.len() < 2 {
            return None;
        }
        assert(a[1] == args@[1]@);
        if equals(args[1].as_str(), "--id") {
            if args.len() < 3 {
                return None;
            }
            assert(a[2] == args@[2]@);
            match parse_i64(args[2].as_str()) {
                Some(id) => Some(CliCommand::PasteId { id }),
                None => None,
            }
        } else {
            match parse_usize(args[1].as_str()) {
                Some(n) => {
                    if n == 0 {
                        None
                    } else {
                        Some(CliCommand::Paste { index: n - 1 })
                    }
                },
                None => None,
            }
        }
    } else if equals(first, "search") {
        let mut rest: Vec<String> = Vec::new();
        let mut i: usize = 1;
        while i < args.len()
            invariant
                1 <= i <= args.len(),
                rest@.len() == i - 1,
                forall|k: int| 0 <= k < rest@.len() ==> #[trigger] rest@[k]@ == args@[k + 1]@,
            decreases args.len() - i,
        {
            let item = args[i].clone();
            rest.push(item);
            i += 1;
        }
        proof {
            assert forall|k: int| 0 <= k < rest@.len() implies #[trigger] strings_view(rest@)[k]
                == a.skip(1)[k] by {
                assert(rest@[k]@ == args@[k + 1]@);
            }
            assert(strings_view(rest@) =~= a.skip(1));
        }
        let parts = chars_of_strings(&rest);
        let sep = chars_of(" ");
        let query = join_with(&parts, &sep);
        if query.len() == 0 {
            None
        } else {
            Some(CliCommand::Search { query: string_of(&query) })
        }
    } else if equals(first, "clear") {
        Some(CliCommand::Clear)
    } else {
        None
    }
}

/// How an entry is shown on one line: an image as `(image)`; other content with its
/// lines joined by ` ↵ `, cut to 77 characters followed by `...` when longer than 80.
pub open spec fn preview_text(content: Seq<char>, kind: EntryKind) -> Seq<char> {
    if kind == EntryKind::Image {
        "(image)"@
    } else {
        let single = join(lines(content), " ↵ "@);
        if single.len() > 80 {
            single.take(77) + "..."@
        } else {
            single
        }
    }
}

/// The one-line form of an entry's content.
pub fn preview(content: &str, kind: EntryKind) -> (res: String)
    ensures
        res@ == preview_text(content@, kind),
{
    if kind == EntryKind::Image {
        return "(image)".to_owned();
    }
    let chars = chars_of(content);
    let parts = lines_of(&chars);
    let sep = chars_of(" ↵ ");
    let single = join_with(&parts, &sep);
    if single.len() > 80 {
        let mut cut: Vec<char> = Vec::new();
        let mut i: usize = 0;
        while i < 77
            invariant
                single.len() > 80,
                i <= 77,
                cut@ == single@.take(i as int),
            decreases 77 - i,
        {
            cut.push(single[i]);
            assert(single@.take(i + 1) =~= single@.take(i as int).push(single@[i as int]));
            i += 1;
        }
        let dots = chars_of("...");
        extend_chars(&mut cut, &dots);
        string_of(&cut)
    } else {
        string_of(&single)
    }
}

/// `s` right-aligned in a field of `width` characters.
pub open spec fn pad_left(s: Seq<char>, width: int) -> Seq<char> {
    if s.len() >= width {
        s
    } else {
        Seq::new((width - s.len()) as nat, |i: int| ' ') + s
    }
}

/// `s` left-aligned in a field of `width` characters.
pub open spec fn pad_right(s: Seq<char>, width: int) -> Seq<char> {
    if s.len() >= width {
        s
    } else {
        s + Seq::new((width - s.len()) as nat, |i: int| ' ')
    }
}

/// Appends `s` to `out` in a field of `width` characters, aligned right or left.
fn push_padded(out: &mut Vec<char>, s: &Vec<char>, width: usize, right: bool)
    ensures
        final(out)@ == old(out)@ + if right {
            pad_left(s@, width as int)
        } else {
            pad_right(s@, width as int)
        },
{
    let fill: usize = if s.len() >= width { 0 } else { width - s.len() };
    let mut spaces: Vec<char> = Vec::new();
    let mut i: usize = 0;
    while i < fill
        invariant
            i <= fill,
            spaces@ == Seq::new(i as nat, |k: int| ' '),
        decreases fill - i,
    {
        spaces.push(' ');
        assert(spaces@ =~= Seq::new((i + 1) as nat, |k: int| ' '));
        i += 1;
    }
    if right {
        extend_chars(out, &spaces);
        extend_chars(out, s);
        proof {
            if s.len() >= width {
                assert(spaces@ =~= Seq::<char>::empty());
            }
        }
    } else {
        extend_chars(out, s);
        extend_chars(out, &spaces);
        proof {
            if s.len() >= width {
                assert(spaces@ =~= Seq::<char>::empty());
            }
        }
    }
    assert(final(out)@ =~= old(out)@ + if right {
        pad_left(s@, width as int)
    } else {
        pad_right(s@, width as int)
    });
}

/// The line that `list` prints for the entry at 1-based `position`:
/// `{position:>3}  id={id:<8}  [{kind:<10}]  {preview}`.
pub open spec fn list_line_text(position: nat, entry_id: i64, kind: EntryKind, content: Seq<char>) -> Seq<
    char,
> {
    pad_left(decimal(position), 3) + "  id="@ + pad_right(signed_decimal(entry_id as int), 8)
        + "  ["@ + pad_right(kind_name(kind), 10) + "]  "@ + preview_text(content, kind)
}

/// The line that `search` prints for an entry: `id={id:<8}  [{kind:<10}]  {preview}`.
pub open spec fn search_line_text(entry_id: i64, kind: EntryKind, content: Seq<char>) -> Seq<char> {
    "id="@ + pad_right(signed_decimal(entry_id as int), 8) + "  ["@ + pad_right(kind_name(kind), 10)
        + "]  "@ + preview_text(content, kind)
}

/// The line that `list` prints for the entry at 1-based `position`.
pub fn list_line(position: u64, entry: &ClipboardEntry) -> (res: String)
    ensures
        res@ == list_line_text(position as nat, entry.id, entry.kind, entry.content@),
{
    let mut out: Vec<char> = Vec::new();
    push_padded(&mut out, &format_u64(position), 3, true);
    extend_chars(&mut out, &chars_of("  id="));
    push_padded(&mut out, &format_i64(entry.id), 8, false);
    extend_chars(&mut out, &chars_of("  ["));
    push_padded(&mut out, &chars_of(entry.kind.as_str()), 10, false);
    extend_chars(&mut out, &chars_of("]  "));
    let p = preview(entry.content.as_str(), entry.kind);
    extend_chars(&mut out, &chars_of(p.as_str()));
    string_of(&out)
}

/// The line that `search` prints for an entry.
pub fn search_line(entry: &ClipboardEntry) -> (res: String)
    ensures
        res@ == search_line_text(entry.id, entry.kind, entry.content@),
{
    let mut out: Vec<char> = chars_of("id=");
    push_padded(&mut out, &format_i64(entry.id), 8, false);
    extend_chars(&mut out, &chars_of("  ["));
    push_padded(&mut out, &chars_of(entry.kind.as_str()), 10, false);
    extend_chars(&mut out, &chars_of("]  "));
    let p = preview(entry.content.as_str(), entry.kind);
    extend_chars(&mut out, &chars_of(p.as_str()));
    string_of(&out)
}

/// What running a command asks of the caller.
#[derive(Debug)]
pub enum CliOutcome {
    /// Print these lines.
    Print(Vec<String>),
    /// Copy this entry to the clipboard.
    Copy(ClipboardEntry),
    /// The history was emptied of `count` entries; the asset files with these hashes
    /// are no longer used.
    Cleared { count: usize, hashes: Vec<String> },
}

/// The lines that `list` prints for the listed entries.
pub open spec fn list_output(es: Seq<EntryView>) -> Seq<Seq<char>> {
    if es.len() == 0 {
        seq!["(no history)"@]
    } else {
        Seq::new(es.len(), |i: int| list_line_text((i + 1) as nat, es[i].id, es[i].kind, es[i].content))
    }
}

/// The lines that `search` prints for the found entries.
pub open spec fn search_output(es: Seq<EntryView>) -> Seq<Seq<char>> {
    if es.len() == 0 {
        seq!["(no results)"@]
    } else {
        Seq::new(es.len(), |i: int| search_line_text(es[i].id, es[i].kind, es[i].content))
    }
}

/// How many results `search` prints at most.
pub const SEARCH_LIMIT: usize = 20;

/// Runs a command on the history: `list` and `search` print their lines (a note when
/// there are none); `paste` copies the entry at a position of the recent list, or
/// the entry with an id; `clear` empties the history. Only `clear` changes it.
pub fn run(cmd: CliCommand, table: &mut HistoryTable, max_history: usize) -> (res: Result<CliOutcome, String>)
    requires
        old(table).wf(),
    ensures
        final(table).wf(),
        final(table).spec_next_id() == old(table).spec_next_id(),
        ({
            let rows = old(table).spec_rows();
            match cmd {
                CliCommand::List { limit } => {
                    &&& final(table).spec_rows() == rows
                    &&& res matches Ok(CliOutcome::Print(lines)) && strings_view(lines@) == list_output(
                        recent_entries(rows, min_len(limit as int, rows.len() as int)),
                    )
                },
                CliCommand::Paste { index } => {
                    &&& final(table).spec_rows() == rows
                    &&& if index < rows.len() {
                        res matches Ok(CliOutcome::Copy(e)) && e@ == entry_of(rows[index as int])
                    } else {
                        res matches Err(m) && m@ == "index out of range"@
                    }
                },
                CliCommand::PasteId { id } => {
                    &&& final(table).spec_rows() == rows
                    &&& match row_with_id(rows, id) {
                        Some(r) => res matches Ok(CliOutcome::Copy(e)) && e@ == entry_of(r),
                        None => res matches Err(m) && m@ == "entry ID not found"@,
                    }
                },
                CliCommand::Search { query } => {
                    &&& final(table).spec_rows() == rows
                    &&& res matches Ok(CliOutcome::Print(lines)) && strings_view(lines@) == search_output(
                        search_result(rows, query@, SEARCH_LIMIT as int, max_history as int),
                    )
                },
                CliCommand::Clear => {
                    &&& final(table).spec_rows() == Seq::<RowView>::empty()
                    &&& res matches Ok(CliOutcome::Cleared { count, hashes }) && count == rows.len()
                        && (forall|h: Seq<char>| #[trigger] asset_referenced(rows, h) <==> listed(hashes@, h))
                },
            }
        }),
{
    let ghost rows = table.spec_rows();
    match cmd {
        CliCommand::List { limit } => {
            let entries = table.list_recent(limit);
            let ghost es = recent_entries(rows, min_len(limit as int, rows.len() as int));
            proof {
                assert(entries_view(entries@) =~= es);
            }
            if entries.len() == 0 {
                let mut lines: Vec<String> = Vec::new();
                lines.push("(no history)".to_owned());
                assert(strings_view(lines@) =~= list_output(es));
                return Ok(CliOutcome::Print(lines));
            }
            let mut lines: Vec<String> = Vec::new();
            let mut i: usize = 0;
            while i < entries.len()
                invariant
                    entries_view(entries@) == es,
                    i <= entries.len(),
                    lines@.len() == i,
                    forall|k: int| 0 <= k < i ==> #[trigger] lines@[k]@ == list_line_text(
                        (k + 1) as nat,
                        es[k].id,
                        es[k].kind,
                        es[k].content,
                    ),
                decreases entries.len() - i,
            {
                assert(es[i as int] == entries@[i as int]@);
                lines.push(list_line((i as u64) + 1, &entries[i]));
                i += 1;
            }
            assert(strings_view(lines@) =~= list_output(es));
            Ok(CliOutcome::Print(lines))
        },
        CliCommand::Paste { index } => {
            if index < table.len() {
                let e = table.row_at(index).to_entry();
                Ok(CliOutcome::Copy(e))
            } else {
                Err("index out of range".to_owned())
            }
        },
        CliCommand::PasteId { id } => {
            match table.find_row(id) {
                Some(k) => {
                    proof {
                        lemma_row_with_id(rows, id, k as int);
                    }
                    Ok(CliOutcome::Copy(table.row_at(k).to_entry()))
                },
                None => Err("entry ID not found".to_owned()),
            }
        },
        CliCommand::Search { query } => {
            let entries = table.search(query.as_str(), SEARCH_LIMIT, max_history);
            let ghost es = search_result(rows, query@, SEARCH_LIMIT as int, max_history as int);
            if entries.len() == 0 {
                let mut lines: Vec<String> = Vec::new();
                lines.push("(no results)".to_owned());
                assert(strings_view(lines@) =~= search_output(es));
                return Ok(CliOutcome::Print(lines));
            }
            let mut lines: Vec<String> = Vec::new();
            let mut i: usize = 0;
            while i < entries.len()
                invariant
                    entries_view(entries@) == es,
                    i <= entries.len(),
                    lines@.len() == i,
                    forall|k: int| 0 <= k < i ==> #[trigger] lines@[k]@ == search_line_text(
                        es[k].id,
                        es[k].kind,
                        es[k].content,
                    ),
                decreases entries.len() - i,
            {
                assert(es[i as int] == entries@[i as int]@);
                lines.push(search_line(&entries[i]));
                i += 1;
            }
            assert(strings_view(lines@) =~= search_output(es));
            Ok(CliOutcome::Print(lines))
        },
        CliCommand::Clear => {
            let (count, hashes) = table.delete_all();
            Ok(CliOutcome::Cleared { count, hashes })
        },
    }
}

/// The line printed after an entry was copied.
pub fn copied_line(id: i64) -> (res: String)
    ensures
        res@ == "copied id="@ + signed_decimal(id as int),
{
    let mut out = chars_of("copied id=");
    extend_chars(&mut out, &format_i64(id));
    string_of(&out)
}

/// The line printed after the history was cleared.
pub fn cleared_line(count: usize) -> (res: String)
    ensures
        res@ == "cleared "@ + decimal(count as nat) + " entries"@,
{
    let mut out = chars_of("cleared ");
    extend_chars(&mut out, &format_u64(count as u64));
    extend_chars(&mut out, &chars_of(" entries"));
    string_of(&out)
}

/// Ids are stable: the entry listed at a position is the one that `paste --id` with
/// its id copies, and the one that `paste` with that position copies.
pub proof fn law_listed_id_pastes_same_entry(rows: Seq<RowView>, next_id: i64, n: int, k: int)
    requires
        table_wf(rows, next_id),
        0 <= k < n <= rows.len(),
    ensures
        recent_entries(rows, n)[k] == entry_of(rows[k]),
        row_with_id(rows, recent_entries(rows, n)[k].id) == Some(rows[k]),
{
    lemma_row_with_id(rows, rows[k].id, k);
}

} // verus!
