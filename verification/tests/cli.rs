use ecp_clipboard::cli::{parse_args, preview, CliCommand};
use ecp_clipboard::db::EntryKind;

fn args(list: &[&str]) -> Vec<String> {
    list.iter().map(|s| s.to_string()).collect()
}

#[test]
fn stable_id_paste_and_legacy_recent_index_parse() {
    assert_eq!(
        parse_args(&args(&["paste", "--id", "42"])),
        Some(CliCommand::PasteId { id: 42 })
    );
    assert_eq!(
        parse_args(&args(&["paste", "2"])),
        Some(CliCommand::Paste { index: 1 })
    );
}

#[test]
fn list_defaults_to_twenty_and_reads_its_limit() {
    assert_eq!(parse_args(&args(&["list"])), Some(CliCommand::List { limit: 20 }));
    assert_eq!(parse_args(&args(&["list", "5"])), Some(CliCommand::List { limit: 5 }));
    assert_eq!(parse_args(&args(&["list", "x"])), Some(CliCommand::List { limit: 20 }));
}

#[test]
fn paste_zero_or_garbage_is_refused() {
    assert_eq!(parse_args(&args(&["paste", "0"])), None);
    assert_eq!(parse_args(&args(&["paste", "abc"])), None);
    assert_eq!(parse_args(&args(&["paste"])), None);
    assert_eq!(parse_args(&args(&["paste", "--id"])), None);
    assert_eq!(parse_args(&args(&["paste", "--id", "x"])), None);
    assert_eq!(
        parse_args(&args(&["paste", "--id", "-3"])),
        Some(CliCommand::PasteId { id: -3 })
    );
}

#[test]
fn search_joins_its_words_and_needs_one() {
    assert_eq!(
        parse_args(&args(&["search", "中文", "标点："])),
        Some(CliCommand::Search { query: "中文 标点：".to_string() })
    );
    assert_eq!(parse_args(&args(&["search"])), None);
}

#[test]
fn clear_and_unknown_commands() {
    assert_eq!(parse_args(&args(&["clear"])), Some(CliCommand::Clear));
    assert_eq!(parse_args(&args(&["frobnicate"])), None);
    assert_eq!(parse_args(&args(&[])), None);
}

#[test]
fn preview_joins_lines_and_cuts_long_text() {
    assert_eq!(preview("a\nb", EntryKind::Text), "a ↵ b");
    assert_eq!(preview("anything", EntryKind::Image), "(image)");
    let long: String = std::iter::repeat('x').take(81).collect();
    let cut = preview(&long, EntryKind::Text);
    assert_eq!(cut.chars().count(), 80);
    assert!(cut.ends_with("..."));
    let exact: String = std::iter::repeat('y').take(80).collect();
    assert_eq!(preview(&exact, EntryKind::Text), exact);
}

use ecp_clipboard::cli::{cleared_line, copied_line, run, CliOutcome};
use ecp_clipboard::db::{HistoryTable, Limits};

fn table_with(entries: &[&str]) -> HistoryTable {
    let limits = Limits::new(200, 500 * 1024 * 1024);
    let mut table = HistoryTable::new();
    for (i, content) in entries.iter().enumerate() {
        table
            .insert_entry(&limits, EntryKind::Text, content, &format!("h{i}"), None, None, None, i as i64)
            .unwrap();
    }
    table
}

fn printed(outcome: Result<CliOutcome, String>) -> Vec<String> {
    match outcome {
        Ok(CliOutcome::Print(lines)) => lines,
        other => panic!("expected lines, got {other:?}"),
    }
}

#[test]
fn list_prints_positions_ids_kinds_and_previews() {
    let mut table = table_with(&["first", "second\nline"]);
    let lines = printed(run(CliCommand::List { limit: 20 }, &mut table, 200));
    assert_eq!(
        lines,
        vec![
            "  1  id=2         [text      ]  second ↵ line",
            "  2  id=1         [text      ]  first",
        ]
    );
    let mut empty = HistoryTable::new();
    assert_eq!(printed(run(CliCommand::List { limit: 20 }, &mut empty, 200)), vec!["(no history)"]);
}

#[test]
fn paste_by_position_or_id() {
    let mut table = table_with(&["first", "second"]);
    match run(CliCommand::Paste { index: 1 }, &mut table, 200) {
        Ok(CliOutcome::Copy(e)) => assert_eq!(e.content, "first"),
        other => panic!("expected a copy, got {other:?}"),
    }
    match run(CliCommand::PasteId { id: 2 }, &mut table, 200) {
        Ok(CliOutcome::Copy(e)) => assert_eq!(e.content, "second"),
        other => panic!("expected a copy, got {other:?}"),
    }
    assert_eq!(run(CliCommand::Paste { index: 5 }, &mut table, 200).unwrap_err(), "index out of range");
    assert_eq!(run(CliCommand::PasteId { id: 9 }, &mut table, 200).unwrap_err(), "entry ID not found");
    assert_eq!(copied_line(42), "copied id=42");
}

#[test]
fn search_and_clear() {
    let mut table = table_with(&["中文 URL：https://example.com/a?b=1", "newer"]);
    let lines = printed(run(CliCommand::Search { query: "a?b=1".into() }, &mut table, 200));
    assert_eq!(lines, vec!["id=1         [text      ]  中文 URL：https://example.com/a?b=1"]);
    let none = printed(run(CliCommand::Search { query: "zzz".into() }, &mut table, 200));
    assert_eq!(none, vec!["(no results)"]);
    match run(CliCommand::Clear, &mut table, 200) {
        Ok(CliOutcome::Cleared { count, hashes }) => {
            assert_eq!(count, 2);
            assert!(hashes.is_empty());
            assert_eq!(cleared_line(count), "cleared 2 entries");
        }
        other => panic!("expected a clear, got {other:?}"),
    }
    assert_eq!(table.len(), 0);
}
