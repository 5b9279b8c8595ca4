use crate::history::{index_of, sighting_of};
use crate::inventory::{field, field_count, is_skipped};
use crate::months::{elapsed_spec, YearMonth};
use crate::report::{errors_of, key_of, line_verdict, stale_of, ScanError, StaleView};
use crate::sighting::{after_records, last_two, lemma_window_keeps_last_two, record_spec, MacView};
use vstd::prelude::*;

verus! {

/// The dates on which the lines of `ls` sight the MAC key `key`, in order.
pub open spec fn dates_for(ls: Seq<Seq<char>>, key: Seq<char>) -> Seq<Seq<char>>
    decreases ls.len(),
{
    if ls.len() == 0 {
        Seq::empty()
    } else {
        let prev = dates_for(ls.drop_last(), key);
        match sighting_of(ls.last()) {
            Some((date, mac)) => if mac == key {
                prev.push(date)
            } else {
                prev
            },
            None => prev,
        }
    }
}

/// The index built from a log holds a MAC key exactly when the log sights
/// it, and its record is the one that its own dates build.
pub proof fn lemma_index_entry(ls: Seq<Seq<char>>, key: Seq<char>)
    ensures
        index_of(ls).contains_key(key) == (dates_for(ls, key).len() > 0),
        index_of(ls).contains_key(key) ==> index_of(ls)[key] == after_records(dates_for(ls, key)),
    decreases ls.len(),
{
    if ls.len() > 0 {
        let prev = ls.drop_last();
        lemma_index_entry(prev, key);
        match sighting_of(ls.last()) {
            Some((date, mac)) => {
                if mac == key {
                    let ds = dates_for(ls, key);
                    let pd = dates_for(prev, key);
                    assert(ds == pd.push(date));
                    assert(ds.drop_last() =~= pd);
                    assert(after_records(ds) == record_spec(after_records(pd), date));
                    if !index_of(prev).contains_key(key) {
                        assert(pd =~= Seq::<Seq<char>>::empty());
                    }
                }
            },
            None => {},
        }
    }
}

/// For every MAC key of a log, the index keeps the last two dates on which
/// the log sights it, in log order, and counts all its sightings.
pub proof fn lemma_log_keeps_last_two(ls: Seq<Seq<char>>, key: Seq<char>)
    requires
        0 < dates_for(ls, key).len() <= u64::MAX,
    ensures
        index_of(ls).contains_key(key),
        index_of(ls)[key].dates == last_two(dates_for(ls, key)),
        index_of(ls)[key].count == dates_for(ls, key).len(),
{
    lemma_index_entry(ls, key);
    lemma_window_keeps_last_two(dates_for(ls, key));
}

/// Every host that a scan reports has a MAC key that the sighting log
/// sights: a MAC address with no sighting is never reported, whatever the
/// inventory holds.
pub proof fn lemma_reported_were_sighted(
    hist: Seq<Seq<char>>,
    inv: Seq<Seq<char>>,
    ex: Seq<Seq<char>>,
    now: YearMonth,
    threshold: int,
)
    ensures
        forall|i: int|
            0 <= i < stale_of(inv, ex, index_of(hist), now, threshold).len() ==> dates_for(
                hist,
                (#[trigger] stale_of(inv, ex, index_of(hist), now, threshold)[i]).2,
            ).len() > 0,
    decreases inv.len(),
{
    let index = index_of(hist);
    if inv.len() > 0 {
        lemma_reported_were_sighted(hist, inv.drop_last(), ex, now, threshold);
        match line_verdict(inv.last(), ex, index, now, threshold) {
            Ok(Some(v)) => {
                lemma_index_entry(hist, v.2);
                let prev = stale_of(inv.drop_last(), ex, index, now, threshold);
                assert(stale_of(inv, ex, index, now, threshold) == prev.push(v));
                assert forall|i: int|
                    0 <= i < prev.len() + 1 implies dates_for(hist, (#[trigger] prev.push(v)[i]).2).len()
                    > 0 by {
                    if i < prev.len() {
                        assert(prev.push(v)[i] == prev[i]);
                    }
                }
            },
            _ => {},
        }
    }
}

/// An inventory line whose MAC address the log never sights gives no report.
pub proof fn lemma_unsighted_not_reported(
    hist: Seq<Seq<char>>,
    l: Seq<char>,
    ex: Seq<Seq<char>>,
    now: YearMonth,
    threshold: int,
)
    requires
        dates_for(hist, key_of(field(l, 8))).len() == 0,
    ensures
        !(line_verdict(l, ex, index_of(hist), now, threshold) matches Ok(Some(_))),
{
    lemma_index_entry(hist, key_of(field(l, 8)));
}

/// A host whose MAC address the log sights once, `n` months before `now`
/// with `n` at least the threshold, gives exactly one report, with `n`.
pub proof fn lemma_single_sighting_reported(
    hist: Seq<Seq<char>>,
    l: Seq<char>,
    ex: Seq<Seq<char>>,
    now: YearMonth,
    threshold: int,
    date: Seq<char>,
    n: int,
)
    requires
        !is_skipped(l, ex),
        field_count(l) >= 9,
        dates_for(hist, key_of(field(l, 8))) == seq![date],
        elapsed_spec(date, None, now) == Ok::<int, crate::months::DateError>(n),
        n >= threshold,
    ensures
        stale_of(seq![l], ex, index_of(hist), now, threshold) == seq![
            (field(l, 0), field(l, 1), key_of(field(l, 8)), n),
        ],
        errors_of(seq![l], ex, index_of(hist), now, threshold).len() == 0,
{
    let key = key_of(field(l, 8));
    lemma_index_entry(hist, key);
    let one = seq![date];
    let none = Seq::<Seq<char>>::empty();
    assert(one.drop_last() =~= none);
    assert(after_records(one) == record_spec(after_records(none), date));
    assert(after_records(one).dates =~= seq![date]);
    assert(index_of(hist)[key].dates.len() == 1);
    assert(index_of(hist)[key].dates[0] == date);
    let v: StaleView = (field(l, 0), field(l, 1), key, n);
    assert(line_verdict(l, ex, index_of(hist), now, threshold) == Ok::<
        Option<StaleView>,
        ScanError,
    >(Some(v)));
    let lines = seq![l];
    assert(lines.drop_last() =~= none);
    assert(lines.last() == l);
    let idx = index_of(hist);
    assert(stale_of(lines.drop_last(), ex, idx, now, threshold) == stale_of(none, ex, idx, now, threshold));
    assert(errors_of(lines.drop_last(), ex, idx, now, threshold) == errors_of(none, ex, idx, now, threshold));
    assert(stale_of(lines, ex, idx, now, threshold) == stale_of(none, ex, idx, now, threshold).push(v));
    assert(stale_of(lines, ex, idx, now, threshold) =~= seq![v]);
}

/// Comments, blank lines and lines with an excluded name give neither a
/// report nor an error.
pub proof fn lemma_skipped_lines_quiet(
    inv: Seq<Seq<char>>,
    ex: Seq<Seq<char>>,
    index: Map<Seq<char>, MacView>,
    now: YearMonth,
    threshold: int,
)
    requires
        forall|i: int| 0 <= i < inv.len() ==> is_skipped(#[trigger] inv[i], ex),
    ensures
        stale_of(inv, ex, index, now, threshold).len() == 0,
        errors_of(inv, ex, index, now, threshold).len() == 0,
    decreases inv.len(),
{
    if inv.len() > 0 {
        assert(is_skipped(inv[inv.len() - 1], ex));
        lemma_skipped_lines_quiet(inv.drop_last(), ex, index, now, threshold);
    }
}

} // verus!
