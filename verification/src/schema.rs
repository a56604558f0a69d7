//! The decisions of the history database's schema upgrade: which table shape needs
//! rebuilding, and which columns are missing.
use vstd::prelude::*;

use crate::db::listed;
use crate::text::{chars_of, contains, contains_seq, equals};

verus! {

/// The table definition of a history whose content had to be unique, which the
/// upgrade rebuilds so that entries are unique by hash instead.
pub open spec fn unique_content_marker() -> Seq<char> {
    "content TEXT NOT NULL UNIQUE"@
}

/// Whether the history table's definition still makes content unique, so that the
/// table must be rebuilt.
pub fn needs_rebuild(create_sql: &str) -> (res: bool)
    ensures
        res == contains_seq(create_sql@, unique_content_marker()),
{
    let hay = chars_of(create_sql);
    let needle = chars_of("content TEXT NOT NULL UNIQUE");
    contains(&hay, &needle)
}

/// Whether a column is missing from the table's columns.
pub fn column_missing(existing: &Vec<String>, name: &str) -> (res: bool)
    ensures
        res == !listed(existing@, name@),
{
    let mut i: usize = 0;
    while i < existing.len()
        invariant
            i <= existing.len(),
            forall|k: int| 0 <= k < i ==> #[trigger] existing@[k]@ != name@,
        decreases existing.len() - i,
    {
        if equals(existing[i].as_str(), name) {
            assert(existing@[i as int]@ == name@);
            return false;
        }
        i += 1;
    }
    true
}

/// The columns that the upgrade adds when missing, with their definitions: first those
/// of the oldest history, then those of image assets.
pub open spec fn upgrade_columns() -> Seq<(Seq<char>, Seq<char>)> {
    seq![
        ("kind"@, "TEXT NOT NULL DEFAULT 'text'"@),
        ("image_width"@, "INTEGER"@),
        ("image_height"@, "INTEGER"@),
        ("image_rgba"@, "BLOB"@),
        ("asset_hash"@, "TEXT"@),
        ("preview_width"@, "INTEGER"@),
        ("preview_height"@, "INTEGER"@),
        ("original_bytes"@, "INTEGER"@),
        ("preview_bytes"@, "INTEGER"@),
        ("legacy_only"@, "INTEGER NOT NULL DEFAULT 0"@),
    ]
}

/// The columns of `upgrade_columns` that are missing, in order.
pub open spec fn missing_of(existing: Seq<String>, wanted: Seq<(Seq<char>, Seq<char>)>) -> Seq<(Seq<char>, Seq<char>)>
    decreases wanted.len(),
{
    if wanted.len() == 0 {
        Seq::empty()
    } else {
        let rest = missing_of(existing, wanted.drop_last());
        if listed(existing, wanted.last().0) {
            rest
        } else {
            rest.push(wanted.last())
        }
    }
}

/// The models of column definitions.
pub open spec fn columns_view(list: Seq<(&'static str, &'static str)>) -> Seq<(Seq<char>, Seq<char>)> {
    list.map_values(|c: (&'static str, &'static str)| (c.0@, c.1@))
}

/// The columns that the upgrade must add to a table with the given columns, in order,
/// with their definitions.
pub fn missing_columns(existing: &Vec<String>) -> (res: Vec<(&'static str, &'static str)>)
    ensures
        columns_view(res@) == missing_of(existing@, upgrade_columns()),
{
    let wanted: [(&'static str, &'static str); 10] = [
        ("kind", "TEXT NOT NULL DEFAULT 'text'"),
        ("image_width", "INTEGER"),
        ("image_height", "INTEGER"),
        ("image_rgba", "BLOB"),
        ("asset_hash", "TEXT"),
        ("preview_width", "INTEGER"),
        ("preview_height", "INTEGER"),
        ("original_bytes", "INTEGER"),
        ("preview_bytes", "INTEGER"),
        ("legacy_only", "INTEGER NOT NULL DEFAULT 0"),
    ];
    let ghost all = upgrade_columns();
    assert(columns_view(wanted@) =~= all);
    let mut out: Vec<(&'static str, &'static str)> = Vec::new();
    let mut i: usize = 0;
    while i < 10
        invariant
            i <= 10,
            all == upgrade_columns(),
            columns_view(wanted@) == all,
            wanted@.len() == 10,
            columns_view(out@) == missing_of(existing@, all.take(i as int)),
        decreases 10 - i,
    {
        let (name, definition) = wanted[i];
        proof {
            assert(all.take(i + 1).drop_last() =~= all.take(i as int));
            assert(all.take(i + 1).last() == all[i as int]);
            assert(all[i as int] == (name@, definition@));
        }
        if column_missing(existing, name) {
            let ghost before = out@;
            out.push((name, definition));
            assert(columns_view(out@) =~= columns_view(before).push((name@, definition@)));
        }
        i += 1;
    }
    assert(all.take(10) =~= all);
    out
}

} // verus!
