//! Searching the records of the local database by the texts that name them.

use crate::mods::local::{UnsafeLocalMod, UnsafeLocalModView};
use crate::text::{
    contains, fold_text, folded_text, lemma_folded_occurs, lemma_prefix_occurs, occurs_at,
    occurs_in, same_chars,
};
use vstd::prelude::*;

verus! {

/// Whether `field` is the query, capital letters taken as small ones.
pub open spec fn is_query(field: Seq<char>, query: Seq<char>) -> bool {
    folded_text(field) == folded_text(query)
}

/// Whether the query stands somewhere in `field`, capital letters taken as
/// small ones.
pub open spec fn has_query(field: Seq<char>, query: Seq<char>) -> bool {
    occurs_in(folded_text(query), folded_text(field))
}

/// Whether one of the texts that name `record` is the query. A mod is named
/// by its name, its unique name and its folder's path, a folder of which no
/// mod could be made by its path as shown and its path.
pub open spec fn matches_exactly(record: UnsafeLocalModView, query: Seq<char>) -> bool {
    match record {
        UnsafeLocalModView::Valid(m) => is_query(m.manifest.name, query) || is_query(
            m.manifest.unique_name,
            query,
        ) || is_query(m.mod_path, query),
        UnsafeLocalModView::Invalid(f) => is_query(f.display_path, query) || is_query(
            f.mod_path,
            query,
        ),
    }
}

/// Whether the query stands somewhere in one of the texts that name
/// `record`.
pub open spec fn matches_partly(record: UnsafeLocalModView, query: Seq<char>) -> bool {
    match record {
        UnsafeLocalModView::Valid(m) => has_query(m.manifest.name, query) || has_query(
            m.manifest.unique_name,
            query,
        ) || has_query(m.mod_path, query),
        UnsafeLocalModView::Invalid(f) => has_query(f.display_path, query) || has_query(
            f.mod_path,
            query,
        ),
    }
}

/// What a search for `query` finds among `records`: first those that a text
/// names exactly as the query does, then those in whose texts the query only
/// stands somewhere, both in the order of `records`.
pub open spec fn search_results(records: Seq<UnsafeLocalModView>, query: Seq<char>) -> Seq<
    UnsafeLocalModView,
> {
    records.filter(|r: UnsafeLocalModView| matches_exactly(r, query)) + records.filter(
        |r: UnsafeLocalModView| matches_partly(r, query) && !matches_exactly(r, query),
    )
}

/// A text that is the query has the query standing in it.
pub proof fn lemma_exact_is_part(record: UnsafeLocalModView, query: Seq<char>)
    requires
        matches_exactly(record, query),
    ensures
        matches_partly(record, query),
{
    let q = folded_text(query);
    assert(q.subrange(0, q.len() as int) =~= q);
    assert(occurs_at(q, q, 0));
}

/// A search finds every record in whose texts the query stands, and no
/// other.
pub proof fn lemma_search_finds(
    records: Seq<UnsafeLocalModView>,
    query: Seq<char>,
    record: UnsafeLocalModView,
)
    ensures
        search_results(records, query).contains(record) <==> records.contains(record)
            && matches_partly(record, query),
{
    let exact = |r: UnsafeLocalModView| matches_exactly(r, query);
    let partial = |r: UnsafeLocalModView| matches_partly(r, query) && !matches_exactly(r, query);
    let first = records.filter(exact);
    let second = records.filter(partial);
    let all = search_results(records, query);
    assert(all == first + second);
    if all.contains(record) {
        let i = choose|i: int| 0 <= i < all.len() && all[i] == record;
        if i < first.len() {
            assert(first[i] == record);
            assert(first.contains(record));
            records.lemma_filter_contains_rev(exact, record);
            records.lemma_filter_pred(exact, i);
            lemma_exact_is_part(record, query);
        } else {
            assert(second[i - first.len()] == record);
            assert(second.contains(record));
            records.lemma_filter_contains_rev(partial, record);
            records.lemma_filter_pred(partial, i - first.len());
        }
    }
    if records.contains(record) && matches_partly(record, query) {
        let i = choose|i: int| 0 <= i < records.len() && records[i] == record;
        if matches_exactly(record, query) {
            records.lemma_filter_contains(exact, i);
            let k = choose|k: int| 0 <= k < first.len() && first[k] == record;
            assert(all[k] == record);
        } else {
            records.lemma_filter_contains(partial, i);
            let k = choose|k: int| 0 <= k < second.len() && second[k] == record;
            assert(all[first.len() + k] == record);
        }
    }
}

/// A search finds each mod in whose name or unique name the query stands as
/// it is written: a mod whose name is the query or holds it, and a mod whose
/// unique name begins with it, as with the name of its author.
pub proof fn lemma_search_finds_named(
    records: Seq<UnsafeLocalModView>,
    query: Seq<char>,
    i: int,
    rest: Seq<char>,
)
    requires
        0 <= i < records.len(),
        records[i] is Valid,
        occurs_in(query, records[i]->Valid_0.manifest.name)
            || records[i]->Valid_0.manifest.unique_name == query + rest,
    ensures
        search_results(records, query).contains(records[i]),
{
    let m = records[i]->Valid_0;
    if occurs_in(query, m.manifest.name) {
        lemma_folded_occurs(query, m.manifest.name);
    } else {
        lemma_prefix_occurs(query, rest);
        lemma_folded_occurs(query, m.manifest.unique_name);
    }
    assert(matches_partly(records[i], query));
    lemma_search_finds(records, query, records[i]);
}

/// How a text matches a query: 2 where it is the query, 1 where the query
/// only stands in it, 0 else.
fn rank_text(field: &str, query: &Vec<char>) -> (r: u8)
    ensures
        r == 2 <==> folded_text(field@) == query@,
        r >= 1 <==> occurs_in(query@, folded_text(field@)),
        r <= 2,
{
    let text = fold_text(field);
    if same_chars(&text, query) {
        assert(text@.subrange(0, text@.len() as int) =~= text@);
        assert(occurs_at(query@, text@, 0));
        2
    } else if contains(&text, query) {
        1
    } else {
        0
    }
}

fn best(a: u8, b: u8) -> (r: u8)
    ensures
        r == if a >= b {
            a
        } else {
            b
        },
{
    if a >= b {
        a
    } else {
        b
    }
}

/// How a record matches a query: 2 where one of its texts is the query, 1
/// where the query only stands in one of them, 0 else.
fn rank(record: &UnsafeLocalMod, query: &Vec<char>, Ghost(asked): Ghost<Seq<char>>) -> (r: u8)
    requires
        query@ == folded_text(asked),
    ensures
        r == 2 <==> matches_exactly(record@, asked),
        r >= 1 <==> matches_partly(record@, asked),
        r <= 2,
{
    match record {
        UnsafeLocalMod::Valid(m) => best(
            rank_text(m.manifest.name.as_str(), query),
            best(
                rank_text(m.manifest.unique_name.as_str(), query),
                rank_text(m.mod_path.as_str(), query),
            ),
        ),
        UnsafeLocalMod::Invalid(f) => best(
            rank_text(f.display_path.as_str(), query),
            rank_text(f.mod_path.as_str(), query),
        ),
    }
}

/// Searches `source` for `filter`. Returns the records that a text names
/// exactly as the filter does, then those in whose texts the filter only
/// stands somewhere, both in the order in which they came.
pub fn search_list<'a>(source: Vec<&'a UnsafeLocalMod>, filter: &str) -> (r: Vec<
    &'a UnsafeLocalMod,
>)
    ensures
        r.deep_view() == search_results(source.deep_view(), filter@),
{
    let query = fold_text(filter);
    let ghost records = source.deep_view();
    let ghost exact = |r: UnsafeLocalModView| matches_exactly(r, filter@);
    let ghost partial = |r: UnsafeLocalModView|
        matches_partly(r, filter@) && !matches_exactly(r, filter@);
    let mut first: Vec<&'a UnsafeLocalMod> = Vec::new();
    let mut second: Vec<&'a UnsafeLocalMod> = Vec::new();
    let mut i: usize = 0;
    proof {
        reveal(Seq::filter);
        assert(first.deep_view() =~= records.take(0).filter(exact));
        assert(second.deep_view() =~= records.take(0).filter(partial));
    }
    while i < source.len()
        invariant
            i <= source@.len(),
            records == source.deep_view(),
            query@ == folded_text(filter@),
            exact == |r: UnsafeLocalModView| matches_exactly(r, filter@),
            partial == |r: UnsafeLocalModView|
                matches_partly(r, filter@) && !matches_exactly(r, filter@),
            first.deep_view() == records.take(i as int).filter(exact),
            second.deep_view() == records.take(i as int).filter(partial),
        decreases source@.len() - i,
    {
        let record = source[i];
        proof {
            assert(records.take(i + 1) =~= records.take(i as int).push(records[i as int]));
            records.take(i as int).lemma_filter_push(records[i as int], exact);
            records.take(i as int).lemma_filter_push(records[i as int], partial);
            assert(records[i as int] == record@);
        }
        let ghost first_before = first.deep_view();
        let ghost second_before = second.deep_view();
        let found = rank(record, &query, Ghost(filter@));
        if found == 2 {
            first.push(record);
            assert(first.deep_view() =~= first_before.push(record@));
        } else if found == 1 {
            second.push(record);
            assert(second.deep_view() =~= second_before.push(record@));
        }
        i += 1;
    }
    assert(records.take(source@.len() as int) =~= records);
    let ghost first_all = first.deep_view();
    let ghost second_all = second.deep_view();
    first.append(&mut second);
    assert(first.deep_view() =~= first_all + second_all);
    first
}

} // verus!
