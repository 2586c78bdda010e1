//! The rows of the summary table: one per rule code, most frequent first.

use crate::rules::{covers, RuleRegistry};
use crate::snapshot::{code_count_views, codes, distinct_codes, CodeCount, CodeCountView};
use crate::table::{row_views, SummaryRow, SummaryRowView};
use vstd::multiset::Multiset;
use vstd::pervasive::unreached;
use vstd::prelude::*;

verus! {

/// The position of the earliest tally with the greatest count.
pub open spec fn first_max(counts: Seq<CodeCountView>) -> int
    decreases counts.len(),
{
    if counts.len() <= 1 {
        0
    } else {
        let before = first_max(counts.drop_last());
        if counts.last().count > counts[before].count {
            counts.len() - 1
        } else {
            before
        }
    }
}

/// The tallies by count, greatest first; tallies with equal counts keep the
/// order they have in the snapshot.
pub open spec fn ranked(counts: Seq<CodeCountView>) -> Seq<CodeCountView>
    decreases counts.len(),
    via ranked_decreases
{
    if counts.len() == 0 {
        counts
    } else {
        seq![counts[first_max(counts)]] + ranked(counts.remove(first_max(counts)))
    }
}

#[via_fn]
proof fn ranked_decreases(counts: Seq<CodeCountView>) {
    if counts.len() > 0 {
        lemma_first_max(counts);
    }
}

/// The row shown for a tally.
pub open spec fn summary_row(
    tally: CodeCountView,
    rules: Map<Seq<char>, Seq<char>>,
) -> SummaryRowView {
    SummaryRowView { code: tally.code, description: rules[tally.code], count: tally.count }
}

/// The rows of the summary table: the ranked tallies, each with the
/// description of its rule.
pub open spec fn summary(
    counts: Seq<CodeCountView>,
    rules: Map<Seq<char>, Seq<char>>,
) -> Seq<SummaryRowView> {
    ranked(counts).map_values(|tally: CodeCountView| summary_row(tally, rules))
}

/// The earliest greatest tally is a tally, none counts more, and every
/// tally before it counts less.
pub proof fn lemma_first_max(counts: Seq<CodeCountView>)
    requires
        counts.len() > 0,
    ensures
        0 <= first_max(counts) < counts.len(),
        forall|j: int|
            0 <= j < counts.len() ==> (#[trigger] counts[j]).count <= counts[first_max(
                counts,
            )].count,
        forall|j: int|
            0 <= j < first_max(counts) ==> (#[trigger] counts[j]).count < counts[first_max(
                counts,
            )].count,
    decreases counts.len(),
{
    if counts.len() > 1 {
        let front = counts.drop_last();
        lemma_first_max(front);
        assert forall|j: int| 0 <= j < counts.len() - 1 implies #[trigger] counts[j]
            == front[j] by {}
    }
}

/// Ranking keeps every tally: the ranked tallies are a rearrangement of the
/// given ones.
pub proof fn lemma_ranked_rearranges(counts: Seq<CodeCountView>)
    ensures
        ranked(counts).len() == counts.len(),
        ranked(counts).to_multiset() == counts.to_multiset(),
    decreases counts.len(),
{
    broadcast use vstd::seq_lib::group_to_multiset_ensures;

    if counts.len() > 0 {
        lemma_first_max(counts);
        let k = first_max(counts);
        let rest = counts.remove(k);
        lemma_ranked_rearranges(rest);
        vstd::seq_lib::lemma_multiset_commutative(seq![counts[k]], ranked(rest));
        vstd::seq_lib::to_multiset_remove(counts, k);
        assert(seq![counts[k]].to_multiset() =~= Multiset::singleton(counts[k])) by {
            vstd::seq_lib::to_multiset_build(Seq::<CodeCountView>::empty(), counts[k]);
        }
    }
}

/// Every ranked tally is one of the given tallies.
proof fn lemma_ranked_members(counts: Seq<CodeCountView>, i: int)
    requires
        0 <= i < ranked(counts).len(),
    ensures
        counts.contains(ranked(counts)[i]),
    decreases counts.len(),
{
    if counts.len() > 0 {
        lemma_first_max(counts);
        let k = first_max(counts);
        let rest = counts.remove(k);
        if i > 0 {
            lemma_ranked_members(rest, i - 1);
            let at = choose|at: int| 0 <= at < rest.len() && rest[at] == ranked(rest)[i - 1];
            assert(rest[at] == counts[if at < k { at } else { at + 1 }]);
        }
    }
}

/// The ranked tallies never rise: an earlier one counts at least as much as
/// a later one.
pub proof fn lemma_ranked_descends(counts: Seq<CodeCountView>)
    ensures
        forall|i: int, j: int|
            0 <= i <= j < ranked(counts).len() ==> (#[trigger] ranked(counts)[i]).count >= (
            #[trigger] ranked(counts)[j]).count,
    decreases counts.len(),
{
    if counts.len() > 0 {
        lemma_first_max(counts);
        let k = first_max(counts);
        let rest = counts.remove(k);
        lemma_ranked_descends(rest);
        assert forall|i: int, j: int| 0 <= i <= j < ranked(counts).len() implies (
        #[trigger] ranked(counts)[i]).count >= (#[trigger] ranked(counts)[j]).count by {
            if i == 0 && j > 0 {
                lemma_ranked_members(counts, j);
                let at = choose|at: int| 0 <= at < counts.len() && counts[at] == ranked(counts)[j];
                assert(counts[at].count <= counts[k].count);
            } else if i > 0 {
                assert(ranked(counts)[i] == ranked(rest)[i - 1]);
                assert(ranked(counts)[j] == ranked(rest)[j - 1]);
            }
        }
    }
}

/// Where a code is tallied in a snapshot.
pub open spec fn position(counts: Seq<CodeCountView>, code: Seq<char>) -> int {
    codes(counts).index_of(code)
}

proof fn lemma_position(counts: Seq<CodeCountView>, at: int)
    requires
        distinct_codes(counts),
        0 <= at < counts.len(),
    ensures
        position(counts, counts[at].code) == at,
{
    assert(codes(counts)[at] == counts[at].code);
}

proof fn lemma_removal_keeps_codes_distinct(counts: Seq<CodeCountView>, at: int)
    requires
        distinct_codes(counts),
        0 <= at < counts.len(),
    ensures
        distinct_codes(counts.remove(at)),
{
    let rest = counts.remove(at);
    assert forall|i: int, j: int| 0 <= i < rest.len() && 0 <= j < rest.len() && i != j implies codes(
        rest,
    )[i] != codes(rest)[j] by {
        let from_i = if i < at { i } else { i + 1 };
        let from_j = if j < at { j } else { j + 1 };
        assert(codes(rest)[i] == codes(counts)[from_i]);
        assert(codes(rest)[j] == codes(counts)[from_j]);
    }
}

/// Tallies that count the same keep the order they have in the snapshot:
/// of two such rows, the earlier one is tallied earlier.
pub proof fn lemma_ties_keep_their_order(counts: Seq<CodeCountView>)
    requires
        distinct_codes(counts),
    ensures
        forall|i: int, j: int|
            0 <= i < j < ranked(counts).len() && (#[trigger] ranked(counts)[i]).count == (
            #[trigger] ranked(counts)[j]).count ==> position(counts, ranked(counts)[i].code)
                < position(counts, ranked(counts)[j].code),
    decreases counts.len(),
{
    if counts.len() > 0 {
        lemma_first_max(counts);
        let k = first_max(counts);
        let rest = counts.remove(k);
        lemma_removal_keeps_codes_distinct(counts, k);
        lemma_ties_keep_their_order(rest);
        lemma_ranked_rearranges(rest);
        assert forall|i: int, j: int|
            0 <= i < j < ranked(counts).len() && (#[trigger] ranked(counts)[i]).count == (
            #[trigger] ranked(counts)[j]).count implies position(counts, ranked(counts)[i].code)
            < position(counts, ranked(counts)[j].code) by {
            // The later row is a tally of `rest`, at `at_j` there and at
            // `from_j` in `counts`.
            lemma_ranked_members(rest, j - 1);
            let at_j = choose|at: int| 0 <= at < rest.len() && rest[at] == ranked(rest)[j - 1];
            let from_j = if at_j < k { at_j } else { at_j + 1 };
            assert(counts[from_j] == ranked(counts)[j]);
            lemma_position(counts, from_j);
            lemma_position(rest, at_j);
            if i == 0 {
                // The earlier row is the earliest greatest tally: a tally
                // that counts as much cannot stand before it.
                lemma_position(counts, k);
                assert(from_j > k);
            } else {
                // Both rows are tallies of `rest`, where they are in order;
                // putting the removed tally back keeps them so.
                lemma_ranked_members(rest, i - 1);
                let at_i = choose|at: int| 0 <= at < rest.len() && rest[at] == ranked(rest)[i - 1];
                let from_i = if at_i < k { at_i } else { at_i + 1 };
                assert(counts[from_i] == ranked(counts)[i]);
                lemma_position(counts, from_i);
                lemma_position(rest, at_i);
                assert(at_i < at_j);
            }
        }
    }
}

/// The summary has one row for every code that is tallied, and from one
/// row to the next the count never rises.
pub proof fn lemma_summary_rows(counts: Seq<CodeCountView>, rules: Map<Seq<char>, Seq<char>>)
    requires
        distinct_codes(counts),
    ensures
        summary(counts, rules).len() == codes(counts).to_set().len(),
        forall|i: int|
            0 <= i && i + 1 < summary(counts, rules).len() ==> (#[trigger] summary(
                counts,
                rules,
            )[i]).count >= summary(counts, rules)[i + 1].count,
{
    lemma_ranked_rearranges(counts);
    lemma_ranked_descends(counts);
    codes(counts).unique_seq_to_set();
    assert forall|i: int| 0 <= i && i + 1 < summary(counts, rules).len() implies (
    #[trigger] summary(counts, rules)[i]).count >= summary(counts, rules)[i + 1].count by {
        assert(summary(counts, rules)[i].count == ranked(counts)[i].count);
        assert(summary(counts, rules)[i + 1].count == ranked(counts)[i + 1].count);
    }
}

fn first_max_position(counts: &Vec<CodeCount>) -> (position: usize)
    requires
        counts.len() > 0,
    ensures
        position == first_max(code_count_views(counts@)),
        position < counts.len(),
{
    let mut best: usize = 0;
    let mut i: usize = 1;
    while i < counts.len()
        invariant
            1 <= i <= counts.len(),
            best < i,
            best == first_max(code_count_views(counts@).take(i as int)),
        decreases counts.len() - i,
    {
        proof {
            let views = code_count_views(counts@);
            assert(views.take(i as int + 1).drop_last() =~= views.take(i as int));
        }
        if counts[i].count > counts[best].count {
            best = i;
        }
        i = i + 1;
    }
    proof {
        assert(code_count_views(counts@).take(i as int) =~= code_count_views(counts@));
    }
    best
}

fn copy_counts(counts: &Vec<CodeCount>) -> (copy: Vec<CodeCount>)
    ensures
        code_count_views(copy@) == code_count_views(counts@),
{
    let mut copy: Vec<CodeCount> = Vec::new();
    let mut i: usize = 0;
    while i < counts.len()
        invariant
            i <= counts.len(),
            copy.len() == i,
            forall|k: int| 0 <= k < i ==> copy[k]@ == counts[k]@,
        decreases counts.len() - i,
    {
        copy.push(counts[i].clone());
        i = i + 1;
    }
    copy
}

/// Builds the rows of the summary table from the tallies of a snapshot and
/// the registry that describes their rules.
pub fn summary_rows(counts: &Vec<CodeCount>, rules: &RuleRegistry) -> (rows: Vec<SummaryRow>)
    requires
        covers(rules@, code_count_views(counts@)),
    ensures
        row_views(rows@) == summary(code_count_views(counts@), rules@),
        rows.len() == counts.len(),
        forall|i: int, j: int|
            0 <= i <= j < rows.len() ==> (#[trigger] rows[i]).count >= (#[trigger] rows[j]).count,
{
    let mut rest = copy_counts(counts);
    let mut rows: Vec<SummaryRow> = Vec::new();
    let ghost all = code_count_views(counts@);
    while rest.len() > 0
        invariant
            covers(rules@, code_count_views(rest@)),
            row_views(rows@) + summary(code_count_views(rest@), rules@) == summary(all, rules@),
        decreases rest.len(),
    {
        let ghost before = code_count_views(rest@);
        let ghost done = row_views(rows@);
        let position = first_max_position(&rest);
        let tally = rest.remove(position);
        proof {
            assert(code_count_views(rest@) =~= before.remove(position as int));
            assert(rules@.dom().contains(before[position as int].code));
            assert forall|i: int| 0 <= i < rest.len() implies rules@.dom().contains(
                #[trigger] code_count_views(rest@)[i].code,
            ) by {
                assert(code_count_views(rest@)[i] == before[if i < position { i } else { i + 1 }]);
            }
        }
        let description = match rules.describe(tally.code.as_str()) {
            Some(text) => text.to_owned(),
            None => unreached(),
        };
        rows.push(SummaryRow { code: tally.code, description, count: tally.count });
        proof {
            let after = code_count_views(rest@);
            assert(ranked(before) == seq![tally@] + ranked(after));
            assert(summary(before, rules@) =~= seq![summary_row(tally@, rules@)] + summary(
                after,
                rules@,
            ));
            assert(row_views(rows@) =~= done.push(summary_row(tally@, rules@)));
        }
    }
    proof {
        lemma_ranked_rearranges(all);
        lemma_ranked_descends(all);
        assert forall|i: int, j: int| 0 <= i <= j < rows.len() implies (#[trigger] rows[i]).count
            >= (#[trigger] rows[j]).count by {
            assert(summary(all, rules@)[i].count == ranked(all)[i].count);
            assert(summary(all, rules@)[j].count == ranked(all)[j].count);
        }
    }
    rows
}

} // verus!
