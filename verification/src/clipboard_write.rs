//! Writing a history entry back to the clipboard: what is written for each kind.
use vstd::prelude::*;

use crate::db::{ClipboardEntry, EntryKind};
use crate::text::{char_vecs_view, chars_of, lines, lines_of, string_of};

verus! {

/// The non-empty lines of a file list, in order.
pub open spec fn non_empty_lines(lines: Seq<Seq<char>>) -> Seq<Seq<char>>
    decreases lines.len(),
{
    if lines.len() == 0 {
        Seq::empty()
    } else {
        let rest = non_empty_lines(lines.drop_last());
        if lines.last().len() > 0 {
            rest.push(lines.last())
        } else {
            rest
        }
    }
}

/// The models of a list of strings.
pub open spec fn paths_view(list: Seq<String>) -> Seq<Seq<char>> {
    list.map_values(|s: String| s@)
}

/// The paths of a file-list entry: its non-empty lines, in their order.
pub fn file_paths_from_content(content: &str) -> (res: Vec<String>)
    ensures
        paths_view(res@) == non_empty_lines(lines(content@)),
{
    let cs = chars_of(content);
    let ls = lines_of(&cs);
    let ghost all = lines(content@);
    let mut out: Vec<String> = Vec::new();
    let mut i: usize = 0;
    while i < ls.len()
        invariant
            char_vecs_view(ls@) == all,
            i <= ls.len(),
            paths_view(out@) == non_empty_lines(all.take(i as int)),
        decreases ls.len() - i,
    {
        proof {
            assert(all.take(i + 1).drop_last() =~= all.take(i as int));
            assert(all.take(i + 1).last() == ls@[i as int]@);
        }
        if ls[i].len() > 0 {
            let ghost before = out@;
            out.push(string_of(&ls[i]));
            proof {
                assert(paths_view(out@) =~= paths_view(before).push(ls@[i as int]@));
            }
        }
        i += 1;
    }
    proof {
        assert(all.take(ls.len() as int) =~= all);
    }
    out
}

/// What writing an entry to the clipboard writes.
#[derive(Debug)]
pub enum CopyRequest {
    /// This text.
    Text(String),
    /// This list of files.
    Files(Vec<String>),
    /// The full image of the entry with this id.
    Image(i64),
}

/// The model of a copy request.
pub enum CopyView {
    Text(Seq<char>),
    Files(Seq<Seq<char>>),
    Image(i64),
}

impl View for CopyRequest {
    type V = CopyView;

    open spec fn view(&self) -> CopyView {
        match self {
            CopyRequest::Text(t) => CopyView::Text(t@),
            CopyRequest::Files(f) => CopyView::Files(paths_view(f@)),
            CopyRequest::Image(id) => CopyView::Image(*id),
        }
    }
}

/// What writing an entry writes: text and URLs as text; a file list as its files,
/// or as text when it names none; an image as its stored image.
pub open spec fn copy_view(kind: EntryKind, id: i64, content: Seq<char>) -> CopyView {
    match kind {
        EntryKind::Text | EntryKind::Url => CopyView::Text(content),
        EntryKind::FilePaths => {
            let paths = non_empty_lines(lines(content));
            if paths.len() == 0 {
                CopyView::Text(content)
            } else {
                CopyView::Files(paths)
            }
        },
        EntryKind::Image => CopyView::Image(id),
    }
}

/// What writing an entry to the clipboard writes.
pub fn copy_request(entry: &ClipboardEntry) -> (res: CopyRequest)
    ensures
        res@ == copy_view(entry.kind, entry.id, entry.content@),
        entry.kind == EntryKind::Text || entry.kind == EntryKind::Url ==> res@ == CopyView::Text(
            entry.content@,
        ),
        entry.kind == EntryKind::Image ==> res@ == CopyView::Image(entry.id),
{
    match entry.kind {
        EntryKind::Text => CopyRequest::Text(entry.content.clone()),
        EntryKind::Url => CopyRequest::Text(entry.content.clone()),
        EntryKind::FilePaths => {
            let paths = file_paths_from_content(entry.content.as_str());
            if paths.len() == 0 {
                CopyRequest::Text(entry.content.clone())
            } else {
                CopyRequest::Files(paths)
            }
        },
        EntryKind::Image => CopyRequest::Image(entry.id),
    }
}

/// Each kind is written back as itself: text and URLs as exactly their text; an
/// image as the stored image of that entry; a file list as files only, each one a
/// non-empty line of the entry, every such line in its order, and as its text when
/// it names no file. Nothing but a file list is ever written as files.
pub proof fn law_entries_are_written_back_as_themselves(kind: EntryKind, id: i64, content: Seq<char>)
    ensures
        kind == EntryKind::Text || kind == EntryKind::Url ==> copy_view(kind, id, content)
            == CopyView::Text(content),
        kind == EntryKind::Image ==> copy_view(kind, id, content) == CopyView::Image(id),
        copy_view(kind, id, content) is Files ==> kind == EntryKind::FilePaths,
        copy_view(kind, id, content) matches CopyView::Files(paths) ==> (paths.len() > 0 && forall|
            k: int,
        | 0 <= k < paths.len() ==> #[trigger] paths[k].len() > 0 && lines(content).contains(paths[k])),
        kind == EntryKind::FilePaths && non_empty_lines(lines(content)).len() == 0 ==> copy_view(
            kind,
            id,
            content,
        ) == CopyView::Text(content),
{
    if kind == EntryKind::FilePaths {
        lemma_non_empty_lines_from(lines(content));
    }
}

/// Every non-empty line kept is a non-empty line of the list.
proof fn lemma_non_empty_lines_from(ls: Seq<Seq<char>>)
    ensures
        forall|k: int|
            0 <= k < non_empty_lines(ls).len() ==> #[trigger] non_empty_lines(ls)[k].len() > 0
                && ls.contains(non_empty_lines(ls)[k]),
    decreases ls.len(),
{
    if ls.len() > 0 {
        lemma_non_empty_lines_from(ls.drop_last());
        let rest = non_empty_lines(ls.drop_last());
        assert forall|k: int| 0 <= k < non_empty_lines(ls).len() implies #[trigger] non_empty_lines(ls)[k].len() > 0
            && ls.contains(non_empty_lines(ls)[k]) by {
            if k < rest.len() {
                let x = rest[k];
                assert(non_empty_lines(ls)[k] == x);
                assert(ls.drop_last().contains(x));
                let j = choose|j: int| 0 <= j < ls.drop_last().len() && ls.drop_last()[j] == x;
                assert(ls[j] == x);
            } else {
                assert(non_empty_lines(ls)[k] == ls.last());
                assert(ls[ls.len() - 1] == ls.last());
            }
        }
    }
}

/// The message when an image entry's pixels cannot be found.
pub open spec fn image_unavailable_message() -> Seq<char> {
    "image data is unavailable"@
}

/// The pixels of an image to write, or the error when there are none.
pub fn image_to_copy(loaded: Option<(u32, u32, Vec<u8>)>) -> (res: Result<(u32, u32, Vec<u8>), String>)
    ensures
        match loaded {
            Some((w, h, px)) => res matches Ok((w2, h2, px2)) && w2 == w && h2 == h && px2@ == px@,
            None => res matches Err(m) && m@ == image_unavailable_message(),
        },
{
    match loaded {
        Some(x) => Ok(x),
        None => Err("image data is unavailable".to_owned()),
    }
}

} // verus!
