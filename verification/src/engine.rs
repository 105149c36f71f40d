//! The execution engine on a listing already read from disk: which entries
//! a selection includes, which survive the condition, in what order and how
//! many are returned, and where a query searches.

use crate::entry::{FSEntry, EntryView};
use crate::filter::condition_matches;
use crate::order::{lemma_sort_without_terms, sort_entries, stable_sort};
use crate::text::{chars_of, strip, stripped};
use crate::types::{
    condition_view, terms_of, ConditionNode, ConditionNodeView, OrderTerm, OrderTermView, Query,
    QueryType, SelectionType, SelectionView,
};
use vstd::prelude::*;
use vstd::string::StringExecFns;

verus! {

/// Whether a selection includes an entry by its kind. A list of fields
/// chooses what is shown, never what is matched.
pub open spec fn selection_includes(e: EntryView, selection: SelectionView) -> bool {
    match selection {
        SelectionView::All => true,
        SelectionView::Files => e.is_file,
        SelectionView::Directories => e.is_dir,
        SelectionView::Fields(_) => true,
    }
}

/// Whether an entry is kept: the selection includes it and it satisfies
/// the condition.
pub open spec fn kept(e: EntryView, selection: SelectionView, condition: Option<ConditionNodeView>) -> bool {
    selection_includes(e, selection) && condition_matches(e, condition)
}

/// The entries of a listing that are kept, in the order of the listing.
pub open spec fn survivors(
    entries: Seq<FSEntry>,
    selection: SelectionView,
    condition: Option<ConditionNodeView>,
) -> Seq<FSEntry>
    decreases entries.len(),
{
    if entries.len() == 0 {
        Seq::empty()
    } else {
        let before = survivors(entries.drop_last(), selection, condition);
        if kept(entries.last()@, selection, condition) {
            before.push(entries.last())
        } else {
            before
        }
    }
}

/// The first `limit` entries, or all of them if there is no limit or the
/// limit is not below their number.
pub open spec fn limited(entries: Seq<FSEntry>, limit: Option<u64>) -> Seq<FSEntry> {
    match limit {
        Some(n) => if n < entries.len() {
            entries.take(n as int)
        } else {
            entries
        },
        None => entries,
    }
}

/// What a query returns of a listing: the survivors, sorted, cut to the
/// limit.
pub open spec fn selected(
    entries: Seq<FSEntry>,
    selection: SelectionView,
    condition: Option<ConditionNodeView>,
    terms: Seq<OrderTermView>,
    limit: Option<u64>,
) -> Seq<FSEntry> {
    limited(stable_sort(survivors(entries, selection, condition), terms), limit)
}

/// A limit of `n` returns at most `n` entries, a limit of zero none, and a
/// limit that is not below the number of entries returns them all.
pub proof fn lemma_limit(entries: Seq<FSEntry>, n: u64)
    ensures
        limited(entries, Some(n)).len() <= n,
        n == 0 ==> limited(entries, Some(n)).len() == 0,
        n >= entries.len() ==> limited(entries, Some(n)) == entries,
        limited(entries, None) == entries,
{
}

/// Every survivor is kept, and no more entries survive than were listed.
pub proof fn lemma_survivors_are_kept(
    entries: Seq<FSEntry>,
    selection: SelectionView,
    condition: Option<ConditionNodeView>,
)
    ensures
        survivors(entries, selection, condition).len() <= entries.len(),
        forall|i: int|
            0 <= i < survivors(entries, selection, condition).len() ==> kept(
                #[trigger] survivors(entries, selection, condition)[i]@,
                selection,
                condition,
            ),
    decreases entries.len(),
{
    if entries.len() > 0 {
        lemma_survivors_are_kept(entries.drop_last(), selection, condition);
    }
}

/// Whether a selection includes an entry by its kind.
pub fn includes(entry: &FSEntry, selection: &SelectionType) -> (r: bool)
    ensures
        r == selection_includes(entry@, selection@),
{
    match selection {
        SelectionType::All => true,
        SelectionType::Files => entry.is_file,
        SelectionType::Directories => entry.is_dir,
        SelectionType::Fields(_) => true,
    }
}

/// The entries that a selection includes and that satisfy a condition, in
/// the order they have.
pub fn keep_entries(
    entries: Vec<FSEntry>,
    selection: &SelectionType,
    condition: &Option<ConditionNode>,
) -> (r: Vec<FSEntry>)
    ensures
        r@ == survivors(entries@, selection@, condition_view(*condition)),
{
    let ghost all = entries@;
    let mut out: Vec<FSEntry> = Vec::new();
    assert(all.take(0) =~= Seq::<FSEntry>::empty());
    for entry in it: entries
        invariant
            it.seq() == all,
            out@ == survivors(all.take(it.index()), selection@, condition_view(*condition)),
    {
        proof {
            let longer = all.take(it.index() + 1);
            assert(longer.drop_last() =~= all.take(it.index()));
            assert(longer.last() == entry);
        }
        if includes(&entry, selection) && entry.matches_condition(condition) {
            out.push(entry);
        }
    }
    assert(all.take(all.len() as int) =~= all);
    out
}

/// The entries that satisfy a condition, in the order they have.
pub fn filter_entries(entries: Vec<FSEntry>, condition: &Option<ConditionNode>) -> (r: Vec<FSEntry>)
    ensures
        r@ == survivors(entries@, SelectionView::All, condition_view(*condition)),
{
    if condition.is_none() {
        proof {
            lemma_all_survive(entries@);
        }
        return entries;
    }
    keep_entries(entries, &SelectionType::All, condition)
}

/// Without a condition every entry of an unrestricted selection survives.
pub proof fn lemma_all_survive(entries: Seq<FSEntry>)
    ensures
        survivors(entries, SelectionView::All, None) == entries,
    decreases entries.len(),
{
    if entries.len() == 0 {
        assert(survivors(entries, SelectionView::All, None) =~= entries);
    } else {
        lemma_all_survive(entries.drop_last());
        assert(entries.drop_last().push(entries.last()) =~= entries);
    }
}

/// Cuts the entries to the limit, if there is one.
pub fn apply_limit(entries: &mut Vec<FSEntry>, limit: Option<u64>)
    ensures
        final(entries)@ == limited(old(entries)@, limit),
{
    if let Some(n) = limit {
        if n < entries.len() as u64 {
            entries.truncate(n as usize);
            assert(entries@ =~= old(entries)@.take(n as int));
        }
    }
}

/// The entries of a listing that a query returns: those the selection
/// includes and the condition matches, sorted by the terms if there are
/// any, cut to the limit.
pub fn select_entries(
    entries: Vec<FSEntry>,
    selection: &SelectionType,
    condition: &Option<ConditionNode>,
    order_by: &[OrderTerm],
    limit: Option<u64>,
) -> (r: Vec<FSEntry>)
    ensures
        r@ == selected(
            entries@,
            selection@,
            condition_view(*condition),
            terms_of(order_by@),
            limit,
        ),
{
    let mut found = keep_entries(entries, selection, condition);
    if order_by.len() > 0 {
        sort_entries(&mut found, order_by);
    } else {
        proof {
            assert(terms_of(order_by@) =~= Seq::<OrderTermView>::empty());
            lemma_sort_without_terms(found@);
        }
    }
    apply_limit(&mut found, limit);
    found
}

/// The entries of a listing that match, cut to the limit, in the order of
/// the listing.
pub fn list_entries(
    entries: Vec<FSEntry>,
    selection: &SelectionType,
    condition: &Option<ConditionNode>,
    limit: Option<u64>,
) -> (r: Vec<FSEntry>)
    ensures
        r@ == limited(survivors(entries@, selection@, condition_view(*condition)), limit),
{
    let mut found = keep_entries(entries, selection, condition);
    apply_limit(&mut found, limit);
    found
}

/// What a query returns of the listing of its directory.
pub fn execute_query(query: &Query, entries: Vec<FSEntry>) -> (r: Vec<FSEntry>)
    ensures
        r@ == selected(
            entries@,
            query@.selection,
            query@.condition,
            query@.order_by,
            query@.limit,
        ),
{
    select_entries(
        entries,
        &query.selection,
        &query.condition,
        query.order_by.as_slice(),
        query.limit,
    )
}

/// The ambient settings of a search.
#[derive(Debug, Clone, Copy, PartialEq, Eq, Structural)]
pub struct SearchContext {
    /// Whether directories are searched with all that is below them.
    pub recursive: bool,
}

impl SearchContext {
    pub fn new(recursive: bool) -> (r: Self)
        ensures
            r.recursive == recursive,
    {
        SearchContext { recursive }
    }
}

/// The path a query searches: its own, or `default_path` if it names none.
pub fn path_to_search<'a>(query: &'a Query, default_path: &'a str) -> (r: &'a str)
    ensures
        r@ == (if query.path@.len() == 0 {
            default_path@
        } else {
            query.path@
        }),
{
    if query.path.as_str().unicode_len() == 0 {
        default_path
    } else {
        query.path.as_str()
    }
}

/// Whether a deletion removes directories with their contents: a `DELETE`
/// does if the query or the context says so, anything else goes by the
/// context.
pub fn deletes_recursively(query: &Query, context: &SearchContext) -> (r: bool)
    ensures
        r == (if query.query_type == QueryType::Delete {
            query.is_recursive || context.recursive
        } else {
            context.recursive
        }),
{
    match query.query_type {
        QueryType::Delete => query.is_recursive || context.recursive,
        QueryType::Select => context.recursive,
    }
}

/// How deep a walk goes below its root: one level unless it is recursive.
pub fn walk_depth(recursive: bool) -> (r: Option<usize>)
    ensures
        r == (if recursive {
            None::<usize>
        } else {
            Some(1usize)
        }),
{
    if recursive {
        None
    } else {
        Some(1)
    }
}

/// Whether what a walk meets at `depth` is listed: everything but the root.
pub fn is_listed(depth: usize) -> (r: bool)
    ensures
        r == (depth > 0),
{
    depth > 0
}

/// Why a path cannot be searched.
#[derive(Debug, Clone, Copy, PartialEq, Eq, Structural)]
pub enum PathError {
    /// The path is `.` and the current directory is not known.
    CurrentDirectoryUnknown,
    /// The path starts with `~` and the home directory is not known.
    HomeDirectoryUnknown,
    /// Nothing exists at the path.
    PathNotFound,
}

/// Why the path cannot be searched, in words.
pub open spec fn path_error_text(e: PathError) -> Seq<char> {
    match e {
        PathError::CurrentDirectoryUnknown => "Failed to get current directory"@,
        PathError::HomeDirectoryUnknown => "Failed to find the home directory"@,
        PathError::PathNotFound => "Path not found"@,
    }
}

impl PathError {
    /// Why the path cannot be searched, in words.
    pub fn message(&self) -> (r: &'static str)
        ensures
            r@ == path_error_text(*self),
    {
        match self {
            PathError::CurrentDirectoryUnknown => "Failed to get current directory",
            PathError::HomeDirectoryUnknown => "Failed to find the home directory",
            PathError::PathNotFound => "Path not found",
        }
    }
}

/// The path to walk for the path of a query: `.` is the current
/// directory, a leading `~` the home directory, anything else itself; white
/// space around the path does not count.
pub open spec fn resolved(
    path: Seq<char>,
    current: Option<Seq<char>>,
    home: Option<Seq<char>>,
) -> Result<Seq<char>, PathError> {
    let p = stripped(path);
    if p == seq!['.'] {
        match current {
            Some(dir) => Ok(dir),
            None => Err(PathError::CurrentDirectoryUnknown),
        }
    } else if p.len() > 0 && p[0] == '~' {
        match home {
            Some(dir) => Ok(dir + p.skip(1)),
            None => Err(PathError::HomeDirectoryUnknown),
        }
    } else {
        Ok(p)
    }
}

/// The text of an optional string slice.
pub open spec fn optional_str(s: Option<&str>) -> Option<Seq<char>> {
    match s {
        Some(text) => Some(text@),
        None => None,
    }
}

/// The path to walk for the path of a query, given the current directory
/// and the home directory as far as they are known.
pub fn normalize_path(path: &str, current: Option<&str>, home: Option<&str>) -> (r: Result<
    String,
    PathError,
>)
    ensures
        match r {
            Ok(p) => resolved(path@, optional_str(current), optional_str(home)) == Ok::<
                Seq<char>,
                PathError,
            >(p@),
            Err(e) => resolved(path@, optional_str(current), optional_str(home)) == Err::<
                Seq<char>,
                PathError,
            >(e),
        },
{
    let piece = strip(path);
    let chars = chars_of(piece);
    let n = chars.len();
    if n == 1 && chars[0] == '.' {
        assert(piece@ =~= seq!['.']);
        return match current {
            Some(dir) => Ok(String::from_str(dir)),
            None => Err(PathError::CurrentDirectoryUnknown),
        };
    }
    assert(piece@ != seq!['.']) by {
        if piece@ == seq!['.'] {
            assert(piece@.len() == 1);
            assert(piece@[0] == '.');
        }
    }
    if n > 0 && chars[0] == '~' {
        return match home {
            Some(dir) => {
                let mut out = String::from_str(dir);
                let tail = piece.substring_char(1, n);
                assert(tail@ =~= piece@.skip(1));
                out.append(tail);
                Ok(out)
            },
            None => Err(PathError::HomeDirectoryUnknown),
        };
    }
    Ok(String::from_str(piece))
}

/// The path to walk once it is known whether anything exists there.
pub fn validate_path(path: String, exists: bool) -> (r: Result<String, PathError>)
    ensures
        r == (if exists {
            Ok::<String, PathError>(path)
        } else {
            Err::<String, PathError>(PathError::PathNotFound)
        }),
{
    if exists {
        Ok(path)
    } else {
        Err(PathError::PathNotFound)
    }
}

} // verus!
