//! Presentation support. Printing itself is I/O and lives outside the
//! library; the formatter's mode flag and the totals reduction stand here.
use vstd::prelude::*;

use crate::cache_entry::{
    CacheEntry, EntryView, sum_sizes, is_delete_planned, is_backup_planned,
    lemma_sum_filter_take_le, lemma_sum_sizes_nonneg,
};

verus! {

/// Output formatter for human and JSON output.
pub struct OutputFormatter {
    pub json_mode: bool,
}

/// Totals over a listing: all bytes, the entry count, and the bytes freed
/// if every planned Delete and Backup went through.
#[derive(Debug, Clone)]
pub struct JsonTotals {
    pub size_bytes: u64,
    pub count: usize,
    pub freed_bytes: u64,
}

impl OutputFormatter {
    /// Create a new output formatter.
    pub fn new(json_mode: bool) -> (r: Self)
        ensures
            r.json_mode == json_mode,
    {
        Self { json_mode }
    }

    /// Totals over a listing: all entries weigh into `size_bytes`, and the
    /// planned Delete and Backup entries into `freed_bytes`.
    pub fn calculate_totals(&self, entries: &Vec<CacheEntry>) -> (r: JsonTotals)
        requires
            sum_sizes(entries.deep_view()) <= u64::MAX,
        ensures
            r.size_bytes == sum_sizes(entries.deep_view()),
            r.count == entries@.len(),
            r.freed_bytes == sum_sizes(entries.deep_view().filter(|e: EntryView| is_delete_planned(e)))
                + sum_sizes(entries.deep_view().filter(|e: EntryView| is_backup_planned(e))),
    {
        let ghost s = entries.deep_view();
        let ghost pd = |e: EntryView| is_delete_planned(e);
        let ghost pb = |e: EntryView| is_backup_planned(e);
        let mut size_bytes: u64 = 0;
        let mut freed_bytes: u64 = 0;
        let n = entries.len();
        proof {
            reveal(Seq::filter);
            assert(s.take(0).filter(pd) =~= Seq::<EntryView>::empty());
            assert(s.take(0).filter(pb) =~= Seq::<EntryView>::empty());
        }
        for i in 0..n
            invariant
                n == entries@.len(),
                s == entries.deep_view(),
                pd == (|e: EntryView| is_delete_planned(e)),
                pb == (|e: EntryView| is_backup_planned(e)),
                sum_sizes(s) <= u64::MAX,
                size_bytes == sum_sizes(s.take(i as int)),
                freed_bytes == sum_sizes(s.take(i as int).filter(pd)) + sum_sizes(
                    s.take(i as int).filter(pb),
                ),
        {
            proof {
                reveal(Seq::filter);
                assert(s.take(i + 1).drop_last() =~= s.take(i as int));
                assert(s.take(i + 1).last() == s[i as int]);
                let fd = s.take(i as int).filter(pd);
                let fb = s.take(i as int).filter(pb);
                if pd(s[i as int]) {
                    assert(fd.push(s[i as int]).drop_last() =~= fd);
                    assert(sum_sizes(fd.push(s[i as int])) == sum_sizes(fd) + s[i as int].size_bytes);
                }
                if pb(s[i as int]) {
                    assert(fb.push(s[i as int]).drop_last() =~= fb);
                    assert(sum_sizes(fb.push(s[i as int])) == sum_sizes(fb) + s[i as int].size_bytes);
                }
                lemma_sum_take_le_all(s, i + 1);
                lemma_sum_filter_take_le(s, pd, i + 1);
                lemma_sum_filter_take_le(s, pb, i + 1);
                lemma_sum_filters_bounded(s);
                lemma_sum_sizes_nonneg(s.take(i + 1).filter(pd));
                lemma_sum_sizes_nonneg(s.take(i + 1).filter(pb));
            }
            let sz = entries[i].size_bytes;
            size_bytes = size_bytes + sz;
            let counted = match entries[i].planned_action {
                Some(crate::cache_entry::PlannedAction::Delete) => true,
                Some(crate::cache_entry::PlannedAction::Backup) => true,
                _ => false,
            };
            if counted {
                freed_bytes = freed_bytes + sz;
            }
        }
        proof {
            assert(s.take(n as int) =~= s);
        }
        JsonTotals { size_bytes, count: n, freed_bytes }
    }
}

proof fn lemma_sum_take_le_all(s: Seq<EntryView>, i: int)
    requires
        0 <= i <= s.len(),
    ensures
        sum_sizes(s.take(i)) <= sum_sizes(s),
    decreases s.len() - i,
{
    if i < s.len() {
        assert(s.take(i + 1).drop_last() =~= s.take(i));
        lemma_sum_take_le_all(s, i + 1);
    } else {
        assert(s.take(i) =~= s);
    }
}

/// The delete and backup sums together never exceed the whole sum: the two
/// predicates are disjoint.
proof fn lemma_sum_filters_bounded(s: Seq<EntryView>)
    ensures
        sum_sizes(s.filter(|e: EntryView| is_delete_planned(e))) + sum_sizes(
            s.filter(|e: EntryView| is_backup_planned(e)),
        ) <= sum_sizes(s),
    decreases s.len(),
{
    reveal(Seq::filter);
    if s.len() > 0 {
        lemma_sum_filters_bounded(s.drop_last());
        let pd = |e: EntryView| is_delete_planned(e);
        let pb = |e: EntryView| is_backup_planned(e);
        let fd = s.drop_last().filter(pd);
        let fb = s.drop_last().filter(pb);
        if pd(s.last()) {
            assert(fd.push(s.last()).drop_last() =~= fd);
            assert(sum_sizes(fd.push(s.last())) == sum_sizes(fd) + s.last().size_bytes);
        }
        if pb(s.last()) {
            assert(fb.push(s.last()).drop_last() =~= fb);
            assert(sum_sizes(fb.push(s.last())) == sum_sizes(fb) + s.last().size_bytes);
        }
    }
}

} // verus!
