//! Sorting: the comparison of two entries under a list of sort keys, and
//! the stable sort built on it.

use crate::decimal::{sign_of, Comparison};
use crate::entry::{EntryView, FSEntry, Timestamp};
use crate::text::{str_before, str_equal, text_before};
use crate::types::{terms_of, OrderDirection, OrderTerm, OrderTermView};
use vstd::prelude::*;

verus! {

/// The fields entries can be sorted by.
#[derive(Debug, Clone, Copy, PartialEq, Eq, Structural)]
pub enum SortKey {
    Name,
    Path,
    Size,
    Modified,
    Created,
    Extension,
    Permissions,
    IsHidden,
    IsReadonly,
    IsDir,
}

/// The sort key written `name`, if there is one.
pub open spec fn sort_key_named(name: Seq<char>) -> Option<SortKey> {
    if name == "name"@ {
        Some(SortKey::Name)
    } else if name == "path"@ {
        Some(SortKey::Path)
    } else if name == "size"@ {
        Some(SortKey::Size)
    } else if name == "modified"@ {
        Some(SortKey::Modified)
    } else if name == "created"@ {
        Some(SortKey::Created)
    } else if name == "ext"@ {
        Some(SortKey::Extension)
    } else if name == "permissions"@ {
        Some(SortKey::Permissions)
    } else if name == "is_hidden"@ {
        Some(SortKey::IsHidden)
    } else if name == "is_readonly"@ {
        Some(SortKey::IsReadonly)
    } else if name == "is_dir"@ {
        Some(SortKey::IsDir)
    } else {
        None
    }
}

/// The comparison with its direction turned round.
pub open spec fn reversed(c: Comparison) -> Comparison {
    match c {
        Comparison::Less => Comparison::Greater,
        Comparison::Equal => Comparison::Equal,
        Comparison::Greater => Comparison::Less,
    }
}

/// How two texts compare, character by character.
pub open spec fn text_comparison(a: Seq<char>, b: Seq<char>) -> Comparison {
    if a == b {
        Comparison::Equal
    } else if text_before(a, b) {
        Comparison::Less
    } else {
        Comparison::Greater
    }
}

/// How two numbers compare.
pub open spec fn number_comparison(a: int, b: int) -> Comparison {
    sign_of(a - b)
}

/// How two flags compare: `false` comes before `true`.
pub open spec fn flag_comparison(a: bool, b: bool) -> Comparison {
    number_comparison(if a { 1 } else { 0 }, if b { 1 } else { 0 })
}

/// How two optional texts compare: an absent one comes before any that is
/// present.
pub open spec fn option_comparison(a: Option<Seq<char>>, b: Option<Seq<char>>) -> Comparison {
    match (a, b) {
        (Some(x), Some(y)) => text_comparison(x, y),
        (Some(_), None) => Comparison::Greater,
        (None, Some(_)) => Comparison::Less,
        (None, None) => Comparison::Equal,
    }
}

/// How two entries compare on one key. Read-only entries are told apart by
/// their permissions text.
pub open spec fn key_comparison(key: SortKey, a: EntryView, b: EntryView) -> Comparison {
    match key {
        SortKey::Name => text_comparison(a.name, b.name),
        SortKey::Path => text_comparison(a.path, b.path),
        SortKey::Size => number_comparison(a.size as int, b.size as int),
        SortKey::Modified => number_comparison(a.modified.instant(), b.modified.instant()),
        SortKey::Created => number_comparison(a.created.instant(), b.created.instant()),
        SortKey::Extension => option_comparison(a.extension, b.extension),
        SortKey::Permissions => text_comparison(a.permissions, b.permissions),
        SortKey::IsHidden => flag_comparison(a.is_hidden, b.is_hidden),
        SortKey::IsReadonly => text_comparison(a.permissions, b.permissions),
        SortKey::IsDir => flag_comparison(a.is_dir, b.is_dir),
    }
}

/// How two entries compare on one term: by its key, turned round if the
/// term is descending; a term that names no sort key tells nothing apart.
pub open spec fn term_comparison(term: OrderTermView, a: EntryView, b: EntryView) -> Comparison {
    match sort_key_named(term.field) {
        None => Comparison::Equal,
        Some(key) => match term.direction {
            OrderDirection::Ascending => key_comparison(key, a, b),
            OrderDirection::Descending => reversed(key_comparison(key, a, b)),
        },
    }
}

/// How two entries compare under a list of terms: the first term that
/// tells them apart decides.
pub open spec fn entries_comparison(terms: Seq<OrderTermView>, a: EntryView, b: EntryView) -> Comparison
    decreases terms.len(),
{
    if terms.len() == 0 {
        Comparison::Equal
    } else {
        let first = term_comparison(terms[0], a, b);
        if first != Comparison::Equal {
            first
        } else {
            entries_comparison(terms.drop_first(), a, b)
        }
    }
}

/// `e` put into `sorted` behind the last entry that does not come after it.
pub open spec fn insert_sorted(sorted: Seq<FSEntry>, e: FSEntry, terms: Seq<OrderTermView>) -> Seq<
    FSEntry,
>
    decreases sorted.len(),
{
    if sorted.len() == 0 {
        seq![e]
    } else if entries_comparison(terms, sorted.last()@, e@) != Comparison::Greater {
        sorted.push(e)
    } else {
        insert_sorted(sorted.drop_last(), e, terms).push(sorted.last())
    }
}

/// The entries of `s` in the order of `terms`; entries that the terms do
/// not tell apart keep the order they have in `s`.
pub open spec fn stable_sort(s: Seq<FSEntry>, terms: Seq<OrderTermView>) -> Seq<FSEntry>
    decreases s.len(),
{
    if s.len() == 0 {
        Seq::empty()
    } else {
        insert_sorted(stable_sort(s.drop_last(), terms), s.last(), terms)
    }
}

/// The entry at `i` does not come after its successor.
pub open spec fn step_in_order(s: Seq<FSEntry>, terms: Seq<OrderTermView>, i: int) -> bool {
    entries_comparison(terms, s[i]@, s[i + 1]@) != Comparison::Greater
}

/// No entry of `s` comes after its successor.
pub open spec fn in_order(s: Seq<FSEntry>, terms: Seq<OrderTermView>) -> bool {
    forall|i: int| 0 <= i && i + 1 < s.len() ==> #[trigger] step_in_order(s, terms, i)
}

/// No entry of `s` comes after any later one.
pub open spec fn fully_ordered(s: Seq<FSEntry>, terms: Seq<OrderTermView>) -> bool {
    forall|i: int, j: int|
        0 <= i < j < s.len() ==> entries_comparison(terms, #[trigger] s[i]@, #[trigger] s[j]@)
            != Comparison::Greater
}

// ---------------------------------------------------------------------
// The comparison of texts is a total order.
// ---------------------------------------------------------------------
/// Of two different texts exactly one comes before the other.
pub proof fn lemma_text_before_total(a: Seq<char>, b: Seq<char>)
    ensures
        a == b ==> !text_before(a, b) && !text_before(b, a),
        a != b ==> text_before(a, b) != text_before(b, a),
    decreases a.len(),
{
    if a.len() == 0 || b.len() == 0 {
        if a.len() == 0 && b.len() == 0 {
            assert(a =~= b);
        }
    } else if a[0] != b[0] {
    } else {
        lemma_text_before_total(a.drop_first(), b.drop_first());
        if a.drop_first() == b.drop_first() {
            assert(a =~= seq![a[0]] + a.drop_first());
            assert(b =~= seq![b[0]] + b.drop_first());
        }
        if a == b {
            assert(a.drop_first() == b.drop_first());
        }
    }
}

/// Coming before is transitive.
pub proof fn lemma_text_before_transitive(a: Seq<char>, b: Seq<char>, c: Seq<char>)
    requires
        text_before(a, b),
        text_before(b, c),
    ensures
        text_before(a, c),
    decreases a.len(),
{
    if a.len() == 0 {
    } else if a[0] != b[0] || b[0] != c[0] {
    } else {
        lemma_text_before_transitive(a.drop_first(), b.drop_first(), c.drop_first());
    }
}

/// What a total preorder's three-way comparison owes: turning the
/// arguments round turns the result round, and two steps in one direction
/// make a step in that direction that is an equality only if both are.
pub open spec fn chains(x: Comparison, y: Comparison, z: Comparison) -> bool {
    &&& (x != Comparison::Greater && y != Comparison::Greater) ==> (z != Comparison::Greater && (z
        == Comparison::Equal <==> (x == Comparison::Equal && y == Comparison::Equal)))
    &&& (x != Comparison::Less && y != Comparison::Less) ==> (z != Comparison::Less && (z
        == Comparison::Equal <==> (x == Comparison::Equal && y == Comparison::Equal)))
}

pub proof fn lemma_text_comparison_laws(a: Seq<char>, b: Seq<char>, c: Seq<char>)
    ensures
        text_comparison(b, a) == reversed(text_comparison(a, b)),
        chains(text_comparison(a, b), text_comparison(b, c), text_comparison(a, c)),
{
    lemma_text_before_total(a, b);
    lemma_text_before_total(b, c);
    lemma_text_before_total(a, c);
    if text_before(a, b) && text_before(b, c) {
        lemma_text_before_transitive(a, b, c);
    }
    if text_before(c, b) && text_before(b, a) {
        lemma_text_before_transitive(c, b, a);
    }
}

pub proof fn lemma_option_comparison_laws(
    a: Option<Seq<char>>,
    b: Option<Seq<char>>,
    c: Option<Seq<char>>,
)
    ensures
        option_comparison(b, a) == reversed(option_comparison(a, b)),
        chains(option_comparison(a, b), option_comparison(b, c), option_comparison(a, c)),
{
    if a is Some && b is Some && c is Some {
        lemma_text_comparison_laws(a->0, b->0, c->0);
    } else if a is Some && b is Some {
        lemma_text_comparison_laws(a->0, b->0, b->0);
    } else if b is Some && c is Some {
        lemma_text_comparison_laws(b->0, c->0, c->0);
    } else if a is Some && c is Some {
        lemma_text_comparison_laws(a->0, c->0, c->0);
    }
}

/// On every key the comparison is that of a total preorder.
pub proof fn lemma_key_comparison_laws(key: SortKey, a: EntryView, b: EntryView, c: EntryView)
    ensures
        key_comparison(key, b, a) == reversed(key_comparison(key, a, b)),
        chains(key_comparison(key, a, b), key_comparison(key, b, c), key_comparison(key, a, c)),
{
    match key {
        SortKey::Name => lemma_text_comparison_laws(a.name, b.name, c.name),
        SortKey::Path => lemma_text_comparison_laws(a.path, b.path, c.path),
        SortKey::Extension => lemma_option_comparison_laws(a.extension, b.extension, c.extension),
        SortKey::Permissions => lemma_text_comparison_laws(
            a.permissions,
            b.permissions,
            c.permissions,
        ),
        SortKey::IsReadonly => lemma_text_comparison_laws(
            a.permissions,
            b.permissions,
            c.permissions,
        ),
        _ => {},
    }
}

/// On every term the comparison is that of a total preorder.
pub proof fn lemma_term_comparison_laws(term: OrderTermView, a: EntryView, b: EntryView, c: EntryView)
    ensures
        term_comparison(term, b, a) == reversed(term_comparison(term, a, b)),
        chains(term_comparison(term, a, b), term_comparison(term, b, c), term_comparison(term, a, c)),
{
    match sort_key_named(term.field) {
        None => {},
        Some(key) => {
            lemma_key_comparison_laws(key, a, b, c);
        },
    }
}

/// Under every list of terms the comparison is that of a total preorder:
/// comparing `b` with `a` gives the reverse of comparing `a` with `b`, and
/// the comparison is transitive.
pub proof fn lemma_entries_comparison_laws(
    terms: Seq<OrderTermView>,
    a: EntryView,
    b: EntryView,
    c: EntryView,
)
    ensures
        entries_comparison(terms, b, a) == reversed(entries_comparison(terms, a, b)),
        chains(
            entries_comparison(terms, a, b),
            entries_comparison(terms, b, c),
            entries_comparison(terms, a, c),
        ),
    decreases terms.len(),
{
    if terms.len() > 0 {
        lemma_term_comparison_laws(terms[0], a, b, c);
        lemma_entries_comparison_laws(terms.drop_first(), a, b, c);
    }
}

// ---------------------------------------------------------------------
// What the stable sort guarantees.
// ---------------------------------------------------------------------
/// Where `insert_sorted` puts `e`: behind the last entry of `sorted` that
/// does not come after it.
pub open spec fn insert_position(sorted: Seq<FSEntry>, e: FSEntry, terms: Seq<OrderTermView>) -> int
    decreases sorted.len(),
{
    if sorted.len() == 0 {
        0
    } else if entries_comparison(terms, sorted.last()@, e@) != Comparison::Greater {
        sorted.len() as int
    } else {
        insert_position(sorted.drop_last(), e, terms)
    }
}

/// `insert_sorted` puts `e` at `insert_position`: every entry behind that
/// position comes after `e`, and the entry before it does not.
pub proof fn lemma_insert_position(sorted: Seq<FSEntry>, e: FSEntry, terms: Seq<OrderTermView>)
    ensures
        0 <= insert_position(sorted, e, terms) <= sorted.len(),
        insert_sorted(sorted, e, terms) == sorted.insert(insert_position(sorted, e, terms), e),
        forall|k: int|
            insert_position(sorted, e, terms) <= k < sorted.len() ==> entries_comparison(
                terms,
                #[trigger] sorted[k]@,
                e@,
            ) == Comparison::Greater,
        insert_position(sorted, e, terms) > 0 ==> entries_comparison(
            terms,
            sorted[insert_position(sorted, e, terms) - 1]@,
            e@,
        ) != Comparison::Greater,
    decreases sorted.len(),
{
    if sorted.len() == 0 {
        assert(seq![e] =~= sorted.insert(0, e));
    } else if entries_comparison(terms, sorted.last()@, e@) != Comparison::Greater {
        assert(sorted.push(e) =~= sorted.insert(sorted.len() as int, e));
    } else {
        let front = sorted.drop_last();
        lemma_insert_position(front, e, terms);
        let pos = insert_position(front, e, terms);
        assert(front.insert(pos, e).push(sorted.last()) =~= sorted.insert(pos, e));
        assert forall|k: int| pos <= k < sorted.len() implies entries_comparison(
            terms,
            #[trigger] sorted[k]@,
            e@,
        ) == Comparison::Greater by {
            if k < front.len() {
                assert(sorted[k] == front[k]);
            }
        }
        if pos > 0 {
            assert(sorted[pos - 1] == front[pos - 1]);
        }
    }
}

/// Sorting neither adds nor drops an entry.
pub proof fn lemma_sort_permutes(s: Seq<FSEntry>, terms: Seq<OrderTermView>)
    ensures
        stable_sort(s, terms).len() == s.len(),
        stable_sort(s, terms).to_multiset() == s.to_multiset(),
    decreases s.len(),
{
    broadcast use {vstd::seq_lib::to_multiset_build, vstd::seq_lib::to_multiset_insert};

    if s.len() == 0 {
        assert(stable_sort(s, terms) =~= s);
    } else {
        let front = s.drop_last();
        lemma_sort_permutes(front, terms);
        lemma_insert_position(stable_sort(front, terms), s.last(), terms);
        assert(s =~= front.push(s.last()));
    }
}

/// Putting an entry into a sequence that is in order leaves it in order.
pub proof fn lemma_insert_keeps_order(sorted: Seq<FSEntry>, e: FSEntry, terms: Seq<OrderTermView>)
    requires
        in_order(sorted, terms),
    ensures
        in_order(insert_sorted(sorted, e, terms), terms),
{
    lemma_insert_position(sorted, e, terms);
    let pos = insert_position(sorted, e, terms);
    let out = sorted.insert(pos, e);
    assert forall|i: int| 0 <= i && i + 1 < out.len() implies #[trigger] step_in_order(
        out,
        terms,
        i,
    ) by {
        if i + 1 < pos {
            assert(out[i] == sorted[i] && out[i + 1] == sorted[i + 1]);
            assert(step_in_order(sorted, terms, i));
        } else if i + 1 == pos {
            assert(out[i] == sorted[i] && out[i + 1] == e);
        } else if i == pos {
            assert(out[i] == e && out[i + 1] == sorted[i]);
            lemma_entries_comparison_laws(terms, sorted[i]@, e@, e@);
        } else {
            assert(out[i] == sorted[i - 1] && out[i + 1] == sorted[i]);
            assert(step_in_order(sorted, terms, i - 1));
        }
    }
}

/// The sorted sequence is in order.
pub proof fn lemma_sort_in_order(s: Seq<FSEntry>, terms: Seq<OrderTermView>)
    ensures
        in_order(stable_sort(s, terms), terms),
    decreases s.len(),
{
    if s.len() > 0 {
        lemma_sort_in_order(s.drop_last(), terms);
        lemma_insert_keeps_order(stable_sort(s.drop_last(), terms), s.last(), terms);
    }
}

/// In a sequence that is in order no entry comes after any later one.
pub proof fn lemma_in_order_is_fully_ordered(s: Seq<FSEntry>, terms: Seq<OrderTermView>)
    requires
        in_order(s, terms),
    ensures
        fully_ordered(s, terms),
{
    assert forall|i: int, j: int| 0 <= i < j < s.len() implies entries_comparison(
        terms,
        #[trigger] s[i]@,
        #[trigger] s[j]@,
    ) != Comparison::Greater by {
        lemma_in_order_between(s, terms, i, j);
    }
}

proof fn lemma_in_order_between(s: Seq<FSEntry>, terms: Seq<OrderTermView>, i: int, j: int)
    requires
        in_order(s, terms),
        0 <= i < j < s.len(),
    ensures
        entries_comparison(terms, s[i]@, s[j]@) != Comparison::Greater,
    decreases j - i,
{
    if i + 1 < j {
        lemma_in_order_between(s, terms, i, j - 1);
        assert(step_in_order(s, terms, j - 1));
        lemma_entries_comparison_laws(terms, s[i]@, s[j - 1]@, s[j]@);
    } else {
        assert(step_in_order(s, terms, i));
    }
}

/// In the sorted sequence no entry comes after any later one: the whole
/// result is ordered by the first term, entries alike on it by the second,
/// and so on.
pub proof fn lemma_sort_fully_ordered(s: Seq<FSEntry>, terms: Seq<OrderTermView>)
    ensures
        fully_ordered(stable_sort(s, terms), terms),
{
    lemma_sort_in_order(s, terms);
    lemma_in_order_is_fully_ordered(stable_sort(s, terms), terms);
}

/// The first term alone orders the whole result: whatever it tells apart
/// stands in its order, so that a descending `is_dir` puts every directory
/// before every other entry.
pub proof fn lemma_sort_groups_by_first_term(s: Seq<FSEntry>, terms: Seq<OrderTermView>, i: int, j: int)
    requires
        terms.len() > 0,
        0 <= i < j < s.len(),
    ensures
        stable_sort(s, terms).len() == s.len(),
        term_comparison(terms[0], stable_sort(s, terms)[i]@, stable_sort(s, terms)[j]@)
            != Comparison::Greater,
{
    lemma_sort_permutes(s, terms);
    lemma_sort_fully_ordered(s, terms);
    let out = stable_sort(s, terms);
    assert(entries_comparison(terms, out[i]@, out[j]@) != Comparison::Greater);
}

/// Sorting a sequence that is in order changes nothing.
pub proof fn lemma_sort_keeps_ordered(s: Seq<FSEntry>, terms: Seq<OrderTermView>)
    requires
        in_order(s, terms),
    ensures
        stable_sort(s, terms) == s,
    decreases s.len(),
{
    if s.len() == 0 {
        assert(stable_sort(s, terms) =~= s);
    } else {
        let front = s.drop_last();
        assert forall|i: int| 0 <= i && i + 1 < front.len() implies #[trigger] step_in_order(
            front,
            terms,
            i,
        ) by {
            assert(front[i] == s[i] && front[i + 1] == s[i + 1]);
            assert(step_in_order(s, terms, i));
        }
        lemma_sort_keeps_ordered(front, terms);
        if front.len() > 0 {
            let k = front.len() - 1;
            assert(front.last() == s[k] && s.last() == s[k + 1]);
            assert(step_in_order(s, terms, k));
        }
        assert(front.push(s.last()) =~= s);
    }
}

/// Sorting twice is sorting once.
pub proof fn lemma_sort_idempotent(s: Seq<FSEntry>, terms: Seq<OrderTermView>)
    ensures
        stable_sort(stable_sort(s, terms), terms) == stable_sort(s, terms),
{
    lemma_sort_in_order(s, terms);
    lemma_sort_keeps_ordered(stable_sort(s, terms), terms);
}

/// Without terms the order is kept as it is.
pub proof fn lemma_sort_without_terms(s: Seq<FSEntry>)
    ensures
        stable_sort(s, Seq::empty()) == s,
{
    lemma_sort_keeps_ordered(s, Seq::empty());
}

// ---------------------------------------------------------------------
// The executable comparison and sort.
// ---------------------------------------------------------------------
/// The sort key written `name`, if there is one.
pub fn lookup_sort_key(name: &str) -> (r: Option<SortKey>)
    ensures
        r == sort_key_named(name@),
{
    if str_equal(name, "name") {
        Some(SortKey::Name)
    } else if str_equal(name, "path") {
        Some(SortKey::Path)
    } else if str_equal(name, "size") {
        Some(SortKey::Size)
    } else if str_equal(name, "modified") {
        Some(SortKey::Modified)
    } else if str_equal(name, "created") {
        Some(SortKey::Created)
    } else if str_equal(name, "ext") {
        Some(SortKey::Extension)
    } else if str_equal(name, "permissions") {
        Some(SortKey::Permissions)
    } else if str_equal(name, "is_hidden") {
        Some(SortKey::IsHidden)
    } else if str_equal(name, "is_readonly") {
        Some(SortKey::IsReadonly)
    } else if str_equal(name, "is_dir") {
        Some(SortKey::IsDir)
    } else {
        None
    }
}

/// The comparison with its direction turned round.
pub fn reverse(c: Comparison) -> (r: Comparison)
    ensures
        r == reversed(c),
{
    match c {
        Comparison::Less => Comparison::Greater,
        Comparison::Equal => Comparison::Equal,
        Comparison::Greater => Comparison::Less,
    }
}

/// How two texts compare, character by character.
pub fn compare_strings(a: &str, b: &str) -> (r: Comparison)
    ensures
        r == text_comparison(a@, b@),
{
    if str_equal(a, b) {
        Comparison::Equal
    } else if str_before(a, b) {
        Comparison::Less
    } else {
        Comparison::Greater
    }
}

/// How two numbers compare.
pub fn compare_numbers(a: u64, b: u64) -> (r: Comparison)
    ensures
        r == number_comparison(a as int, b as int),
{
    if a < b {
        Comparison::Less
    } else if a == b {
        Comparison::Equal
    } else {
        Comparison::Greater
    }
}

/// How two readings of the clock compare.
pub fn compare_dates(a: &Timestamp, b: &Timestamp) -> (r: Comparison)
    ensures
        r == number_comparison(a.instant(), b.instant()),
{
    let x = a.nanoseconds();
    let y = b.nanoseconds();
    if x < y {
        Comparison::Less
    } else if x == y {
        Comparison::Equal
    } else {
        Comparison::Greater
    }
}

/// How two optional texts compare: an absent one comes first.
pub fn compare_options(a: &Option<String>, b: &Option<String>) -> (r: Comparison)
    ensures
        r == option_comparison(crate::entry::optional_text(*a), crate::entry::optional_text(*b)),
{
    match (a, b) {
        (Some(x), Some(y)) => compare_strings(x.as_str(), y.as_str()),
        (Some(_), None) => Comparison::Greater,
        (None, Some(_)) => Comparison::Less,
        (None, None) => Comparison::Equal,
    }
}

/// How two flags compare: `false` comes before `true`.
pub fn compare_bools(a: bool, b: bool) -> (r: Comparison)
    ensures
        r == flag_comparison(a, b),
{
    if a == b {
        Comparison::Equal
    } else if b {
        Comparison::Less
    } else {
        Comparison::Greater
    }
}

/// How two entries compare on one key.
pub fn compare_by_key(key: SortKey, a: &FSEntry, b: &FSEntry) -> (r: Comparison)
    ensures
        r == key_comparison(key, a@, b@),
{
    match key {
        SortKey::Name => compare_strings(a.name.as_str(), b.name.as_str()),
        SortKey::Path => compare_strings(a.path.as_str(), b.path.as_str()),
        SortKey::Size => compare_numbers(a.size, b.size),
        SortKey::Modified => compare_dates(&a.modified, &b.modified),
        SortKey::Created => compare_dates(&a.created, &b.created),
        SortKey::Extension => compare_options(&a.extension, &b.extension),
        SortKey::Permissions => compare_strings(a.permissions.as_str(), b.permissions.as_str()),
        SortKey::IsHidden => compare_bools(a.is_hidden, b.is_hidden),
        SortKey::IsReadonly => compare_strings(a.permissions.as_str(), b.permissions.as_str()),
        SortKey::IsDir => compare_bools(a.is_dir, b.is_dir),
    }
}

/// How two entries compare on one term.
pub fn compare_by_term(term: &OrderTerm, a: &FSEntry, b: &FSEntry) -> (r: Comparison)
    ensures
        r == term_comparison(term@, a@, b@),
{
    match lookup_sort_key(term.field.as_str()) {
        None => Comparison::Equal,
        Some(key) => {
            let c = compare_by_key(key, a, b);
            match term.direction {
                OrderDirection::Ascending => c,
                OrderDirection::Descending => reverse(c),
            }
        },
    }
}

/// How two entries compare under a list of terms.
pub fn compare_entries(a: &FSEntry, b: &FSEntry, order_by: &[OrderTerm]) -> (r: Comparison)
    ensures
        r == entries_comparison(terms_of(order_by@), a@, b@),
{
    let ghost terms = terms_of(order_by@);
    let mut i: usize = 0;
    assert(terms.skip(0) =~= terms);
    while i < order_by.len()
        invariant
            i <= order_by@.len(),
            terms == terms_of(order_by@),
            entries_comparison(terms.skip(i as int), a@, b@) == entries_comparison(terms, a@, b@),
        decreases order_by@.len() - i,
    {
        let c = compare_by_term(&order_by[i], a, b);
        proof {
            assert(terms.skip(i as int)[0] == order_by@[i as int]@);
            assert(terms.skip(i as int).drop_first() =~= terms.skip(i + 1));
        }
        match c {
            Comparison::Equal => {},
            _ => {
                return c;
            },
        }
        i = i + 1;
    }
    Comparison::Equal
}

/// Two sequences merged from their ends: the greater of the two last
/// entries comes last, and of two alike the one of `right`.
pub open spec fn merged(left: Seq<FSEntry>, right: Seq<FSEntry>, terms: Seq<OrderTermView>) -> Seq<
    FSEntry,
>
    decreases left.len() + right.len(),
{
    if left.len() == 0 {
        right
    } else if right.len() == 0 {
        left
    } else if entries_comparison(terms, left.last()@, right.last()@) == Comparison::Greater {
        merged(left.drop_last(), right, terms).push(left.last())
    } else {
        merged(left, right.drop_last(), terms).push(right.last())
    }
}

/// Putting an entry into a merge is merging with the entry put into the
/// right-hand side.
pub proof fn lemma_insert_into_merged(
    left: Seq<FSEntry>,
    right: Seq<FSEntry>,
    e: FSEntry,
    terms: Seq<OrderTermView>,
)
    ensures
        insert_sorted(merged(left, right, terms), e, terms) == merged(
            left,
            insert_sorted(right, e, terms),
            terms,
        ),
    decreases left.len() + right.len(),
{
    let grown = insert_sorted(right, e, terms);
    let m = merged(left, right, terms);
    if left.len() == 0 {
        assert(m == right);
        assert(merged(left, grown, terms) == grown);
    } else if right.len() == 0 {
        assert(m == left);
        assert(grown =~= seq![e]);
        assert(grown.len() == 1);
        assert(grown.last() == e);
        assert(grown.drop_last() =~= Seq::<FSEntry>::empty());
        if entries_comparison(terms, left.last()@, e@) == Comparison::Greater {
            let shorter = left.drop_last();
            lemma_insert_into_merged(shorter, right, e, terms);
            assert(merged(shorter, right, terms) == shorter);
            assert(insert_sorted(left, e, terms) == insert_sorted(shorter, e, terms).push(
                left.last(),
            ));
            assert(merged(left, grown, terms) == merged(shorter, grown, terms).push(left.last()));
        } else {
            assert(insert_sorted(left, e, terms) == left.push(e));
            assert(merged(left, grown.drop_last(), terms) == left);
            assert(merged(left, grown, terms) == merged(left, grown.drop_last(), terms).push(e));
        }
    } else {
        let l = left.last();
        let r = right.last();
        lemma_entries_comparison_laws(terms, l@, r@, e@);
        lemma_entries_comparison_laws(terms, r@, l@, e@);
        if entries_comparison(terms, l@, r@) == Comparison::Greater {
            let below = merged(left.drop_last(), right, terms);
            assert(m == below.push(l));
            assert(m.last() == l);
            assert(m.drop_last() =~= below);
            if entries_comparison(terms, l@, e@) == Comparison::Greater {
                lemma_insert_into_merged(left.drop_last(), right, e, terms);
                assert(insert_sorted(m, e, terms) == insert_sorted(below, e, terms).push(l));
                if entries_comparison(terms, r@, e@) != Comparison::Greater {
                    assert(grown == right.push(e));
                    assert(grown.last() == e);
                } else {
                    assert(grown == insert_sorted(right.drop_last(), e, terms).push(r));
                    assert(grown.last() == r);
                }
                assert(grown.len() > 0);
                assert(merged(left, grown, terms) == merged(left.drop_last(), grown, terms).push(
                    l,
                ));
            } else {
                assert(insert_sorted(m, e, terms) == m.push(e));
                assert(entries_comparison(terms, r@, e@) != Comparison::Greater);
                assert(grown == right.push(e));
                assert(grown.last() == e);
                assert(grown.drop_last() =~= right);
                assert(merged(left, grown, terms) == merged(left, grown.drop_last(), terms).push(
                    e,
                ));
            }
        } else {
            let below = merged(left, right.drop_last(), terms);
            assert(m == below.push(r));
            assert(m.last() == r);
            assert(m.drop_last() =~= below);
            if entries_comparison(terms, r@, e@) == Comparison::Greater {
                lemma_insert_into_merged(left, right.drop_last(), e, terms);
                assert(insert_sorted(m, e, terms) == insert_sorted(below, e, terms).push(r));
                assert(grown == insert_sorted(right.drop_last(), e, terms).push(r));
                assert(grown.last() == r);
                assert(grown.drop_last() =~= insert_sorted(right.drop_last(), e, terms));
                assert(merged(left, grown, terms) == merged(left, grown.drop_last(), terms).push(
                    r,
                ));
            } else {
                assert(insert_sorted(m, e, terms) == m.push(e));
                assert(entries_comparison(terms, l@, e@) != Comparison::Greater);
                assert(grown == right.push(e));
                assert(grown.last() == e);
                assert(grown.drop_last() =~= right);
                assert(merged(left, grown, terms) == merged(left, grown.drop_last(), terms).push(
                    e,
                ));
            }
        }
    }
}

/// Sorting two sequences and merging them sorts the one after the other.
pub proof fn lemma_sort_is_merge_of_sorts(
    left: Seq<FSEntry>,
    right: Seq<FSEntry>,
    terms: Seq<OrderTermView>,
)
    ensures
        stable_sort(left + right, terms) == merged(
            stable_sort(left, terms),
            stable_sort(right, terms),
            terms,
        ),
    decreases right.len(),
{
    if right.len() == 0 {
        assert(left + right =~= left);
        assert(stable_sort(right, terms) =~= Seq::<FSEntry>::empty());
        let sorted = stable_sort(left, terms);
        assert(merged(sorted, Seq::empty(), terms) == sorted);
    } else {
        let front = right.drop_last();
        lemma_sort_is_merge_of_sorts(left, front, terms);
        assert((left + right).drop_last() =~= left + front);
        assert((left + right).last() == right.last());
        lemma_insert_into_merged(
            stable_sort(left, terms),
            stable_sort(front, terms),
            right.last(),
            terms,
        );
    }
}

/// Merges two vectors from their ends.
fn merge(left: Vec<FSEntry>, right: Vec<FSEntry>, order_by: &[OrderTerm]) -> (out: Vec<FSEntry>)
    ensures
        out@ == merged(left@, right@, terms_of(order_by@)),
{
    let ghost terms = terms_of(order_by@);
    let ghost goal = merged(left@, right@, terms);
    let mut left = left;
    let mut right = right;
    let mut tail: Vec<FSEntry> = Vec::new();
    assert(merged(left@, right@, terms) + tail@.reverse() =~= goal);
    // `tail` holds the end of the merge, last entry first.
    while left.len() > 0 && right.len() > 0
        invariant
            terms == terms_of(order_by@),
            merged(left@, right@, terms) + tail@.reverse() == goal,
        decreases left@.len() + right@.len(),
    {
        let ghost before = merged(left@, right@, terms);
        let ghost behind = tail@.reverse();
        let from_left = is_greater(
            compare_entries(&left[left.len() - 1], &right[right.len() - 1], order_by),
        );
        let moved = if from_left {
            left.pop()
        } else {
            right.pop()
        };
        match moved {
            Some(e) => {
                tail.push(e);
                assert(before == merged(left@, right@, terms).push(e));
                assert(tail@.reverse() =~= seq![e] + behind);
                assert(merged(left@, right@, terms) + tail@.reverse() =~= before + behind);
            },
            None => {},
        }
    }
    let mut out = if left.len() > 0 {
        left
    } else {
        right
    };
    assert(out@ + tail@.reverse() == goal);
    while tail.len() > 0
        invariant
            out@ + tail@.reverse() == goal,
        decreases tail@.len(),
    {
        let ghost front = out@;
        let ghost behind = tail@.reverse();
        match tail.pop() {
            Some(e) => {
                out.push(e);
                assert(behind =~= seq![e] + tail@.reverse());
                assert(out@ + tail@.reverse() =~= front + behind);
            },
            None => {},
        }
    }
    assert(out@ + tail@.reverse() =~= out@);
    out
}

/// Sorts a vector by halving and merging.
fn merge_sort(entries: Vec<FSEntry>, order_by: &[OrderTerm]) -> (out: Vec<FSEntry>)
    ensures
        out@ == stable_sort(entries@, terms_of(order_by@)),
    decreases entries@.len(),
{
    let ghost terms = terms_of(order_by@);
    let n = entries.len();
    if n < 2 {
        proof {
            if n == 1 {
                assert(entries@.drop_last() =~= Seq::<FSEntry>::empty());
                assert(stable_sort(entries@.drop_last(), terms) =~= Seq::<FSEntry>::empty());
                assert(stable_sort(entries@, terms) =~= seq![entries@.last()]);
                assert(entries@ =~= seq![entries@.last()]);
            } else {
                assert(stable_sort(entries@, terms) =~= entries@);
            }
        }
        return entries;
    }
    let ghost all = entries@;
    let mut left = entries;
    let right = left.split_off(n / 2);
    proof {
        assert(all =~= left@ + right@);
        lemma_sort_is_merge_of_sorts(left@, right@, terms);
    }
    let sorted_left = merge_sort(left, order_by);
    let sorted_right = merge_sort(right, order_by);
    merge(sorted_left, sorted_right, order_by)
}

/// Sorts the entries by the terms, most significant first; entries that
/// the terms do not tell apart keep their order.
pub fn sort_entries(entries: &mut Vec<FSEntry>, order_by: &[OrderTerm])
    ensures
        final(entries)@ == stable_sort(old(entries)@, terms_of(order_by@)),
{
    let mut taken: Vec<FSEntry> = Vec::new();
    core::mem::swap(entries, &mut taken);
    *entries = merge_sort(taken, order_by);
}

/// Whether a comparison says "comes after".
pub fn is_greater(c: Comparison) -> (r: bool)
    ensures
        r == (c == Comparison::Greater),
{
    match c {
        Comparison::Greater => true,
        _ => false,
    }
}

} // verus!
