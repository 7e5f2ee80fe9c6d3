//! Reconciliation of a freshly imported batch of events with the previously
//! stored corpus.
//!
//! Events are matched by their identity key. Within each input only the last
//! event with a given key counts. An event of the new batch replaces the
//! stored event with its key, except that a stored cancellation is kept. A
//! stored event whose key the new batch lacks is kept only when it starts
//! outside the window of dates that the fetch of its source covered.
use vstd::prelude::*;
use crate::model::{date_le, date_le_spec, start_date_of, views, Date, Event, EventView, Source};
use crate::text::same_text;

verus! {

/// The identity key of an event: its primary link when it has one, and
/// otherwise its organisation, name, city and start date.
#[verifier::opaque]
pub open spec fn key_of(e: EventView) -> (Seq<char>, Option<Seq<char>>, Seq<char>, Seq<char>, Option<Date>) {
    if e.links.len() > 0 {
        (e.links[0]@, None, Seq::empty(), Seq::empty(), None)
    } else {
        (Seq::empty(), opt_view(e.organisation), e.name@, e.city@, Some(start_date_of(e)))
    }
}

pub open spec fn opt_view(o: Option<String>) -> Option<Seq<char>> {
    match o {
        Some(s) => Some(s@),
        None => None,
    }
}

/// The dates that the fetch of one source covered, both ends included.
#[derive(Clone, Copy, Debug, PartialEq, Eq, Structural)]
pub struct FetchWindow {
    pub source: Option<Source>,
    pub first: Date,
    pub last: Date,
}

/// The event starts within a window fetched for its own source. A source
/// whose fetch failed has no window, so none of its events is in one.
pub open spec fn in_window(w: Seq<FetchWindow>, e: EventView) -> bool {
    exists|i: int| 0 <= i < w.len() && (#[trigger] w[i]).source == e.source && date_le_spec(w[i].first,
        start_date_of(e)) && date_le_spec(start_date_of(e), w[i].last)
}

fn in_window_exec(windows: &Vec<FetchWindow>, e: &Event) -> (r: bool)
    ensures
        r == in_window(windows@, e@),
{
    let d = e.start_date();
    let mut i: usize = 0;
    while i < windows.len()
        invariant
            i <= windows@.len(),
            d == start_date_of(e@),
            forall|k: int| 0 <= k < i ==> !((#[trigger] windows@[k]).source == e@.source && date_le_spec(
                windows@[k].first, d) && date_le_spec(d, windows@[k].last)),
        decreases windows@.len() - i,
    {
        let w = windows[i];
        if w.source == e.source && date_le(w.first, d) && date_le(d, w.last) {
            assert(windows@[i as int] == w);
            return true;
        }
        i = i + 1;
    }
    false
}

/// No later event of `s` has the key of the event at `i`.
#[verifier::opaque]
pub open spec fn is_last(s: Seq<EventView>, i: int) -> bool {
    forall|j: int| #![trigger s[j]] i < j < s.len() ==> key_of(s[j]) != key_of(s[i])
}

#[verifier::opaque]
pub open spec fn has_key(s: Seq<EventView>, k: (Seq<char>, Option<Seq<char>>, Seq<char>, Seq<char>, Option<Date>)) -> bool {
    exists|j: int| 0 <= j < s.len() && key_of(#[trigger] s[j]) == k
}

/// The event that counts for key `k` in `s` is cancelled.
#[verifier::opaque]
pub open spec fn cancelled_in(s: Seq<EventView>, k: (Seq<char>, Option<Seq<char>>, Seq<char>, Seq<char>, Option<Date>)) -> bool {
    exists|j: int| 0 <= j < s.len() && is_last(s, j) && key_of(#[trigger] s[j]) == k && s[j].cancelled
}

/// A new event as it enters the corpus: as fetched, but cancelled when the
/// stored event with its key was.
pub open spec fn merge_one(old: Seq<EventView>, e: EventView) -> EventView {
    EventView { cancelled: e.cancelled || cancelled_in(old, key_of(e)), ..e }
}

/// The merged events that the first `n` new events give.
pub open spec fn merged_upto(old: Seq<EventView>, new: Seq<EventView>, n: nat) -> Seq<EventView>
    decreases n,
{
    if n == 0 {
        Seq::empty()
    } else {
        let prev = merged_upto(old, new, (n - 1) as nat);
        if is_last(new, n - 1) {
            prev.push(merge_one(old, new[n - 1]))
        } else {
            prev
        }
    }
}

/// A stored event is kept: it counts for its key, the new batch lacks the
/// key, and it starts outside the window fetched for its source.
#[verifier::opaque]
pub open spec fn kept(old: Seq<EventView>, new: Seq<EventView>, w: Seq<FetchWindow>, i: int) -> bool {
    is_last(old, i) && !has_key(new, key_of(old[i])) && !in_window(w, old[i])
}

/// The stored events among the first `n` that are kept.
pub open spec fn retained_upto(old: Seq<EventView>, new: Seq<EventView>, w: Seq<FetchWindow>, n: nat) -> Seq<EventView>
    decreases n,
{
    if n == 0 {
        Seq::empty()
    } else {
        let prev = retained_upto(old, new, w, (n - 1) as nat);
        if kept(old, new, w, n - 1) {
            prev.push(old[n - 1])
        } else {
            prev
        }
    }
}

/// The reconciled corpus: the merged new events in the order of the batch,
/// then the kept stored events in their stored order.
pub open spec fn reconciled(old: Seq<EventView>, new: Seq<EventView>, w: Seq<FetchWindow>) -> Seq<EventView> {
    merged_upto(old, new, new.len()) + retained_upto(old, new, w, old.len())
}

fn same_opt_text(a: &Option<String>, b: &Option<String>) -> (r: bool)
    ensures
        r == (opt_view(*a) == opt_view(*b)),
{
    match (a, b) {
        (Some(x), Some(y)) => same_text(x.as_str(), y.as_str()),
        (None, None) => true,
        _ => false,
    }
}

/// Whether two events have the same identity key.
pub fn same_key(a: &Event, b: &Event) -> (r: bool)
    ensures
        r == (key_of(a@) == key_of(b@)),
{
    reveal(key_of);
    if a.links.len() > 0 && b.links.len() > 0 {
        same_text(a.links[0].as_str(), b.links[0].as_str())
    } else if a.links.len() > 0 || b.links.len() > 0 {
        false
    } else {
        let da = a.start_date();
        let db = b.start_date();
        same_opt_text(&a.organisation, &b.organisation) && same_text(a.name.as_str(), b.name.as_str())
            && same_text(a.city.as_str(), b.city.as_str()) && da == db
    }
}

fn is_last_at(s: &Vec<Event>, i: usize) -> (r: bool)
    requires
        i < s@.len(),
    ensures
        r == is_last(views(s@), i as int),
{
    let n: usize = s.len();
    let mut j: usize = i + 1;
    while j < n
        invariant
            i < j <= s@.len(),
            n == s@.len(),
            forall|m: int| i < m < j ==> key_of(views(s@)[m]) != key_of(views(s@)[i as int]),
        decreases s@.len() - j,
    {
        if same_key(&s[j], &s[i]) {
            assert(key_of(views(s@)[j as int]) == key_of(views(s@)[i as int]));
            proof {
                reveal(is_last);
            }
            return false;
        }
        j = j + 1;
    }
    proof {
        reveal(is_last);
    }
    true
}

fn has_key_of(s: &Vec<Event>, e: &Event) -> (r: bool)
    ensures
        r == has_key(views(s@), key_of(e@)),
{
    let mut j: usize = 0;
    while j < s.len()
        invariant
            j <= s@.len(),
            forall|m: int| 0 <= m < j ==> key_of(#[trigger] views(s@)[m]) != key_of(e@),
        decreases s@.len() - j,
    {
        if same_key(&s[j], e) {
            assert(key_of(views(s@)[j as int]) == key_of(e@));
            proof {
                reveal(has_key);
            }
            return true;
        }
        j = j + 1;
    }
    proof {
        reveal(has_key);
    }
    false
}

fn cancelled_at_key(s: &Vec<Event>, e: &Event) -> (r: bool)
    ensures
        r == cancelled_in(views(s@), key_of(e@)),
{
    let mut j: usize = 0;
    while j < s.len()
        invariant
            j <= s@.len(),
            forall|m: int| 0 <= m < j ==> !(is_last(views(s@), m) && key_of(#[trigger] views(s@)[m])
                == key_of(e@) && views(s@)[m].cancelled),
        decreases s@.len() - j,
    {
        if s[j].cancelled && same_key(&s[j], e) && is_last_at(s, j) {
            assert(key_of(views(s@)[j as int]) == key_of(e@));
            proof {
                reveal(cancelled_in);
            }
            return true;
        }
        j = j + 1;
    }
    proof {
        reveal(cancelled_in);
    }
    false
}

/// Merges a freshly imported batch `new` into the stored corpus `old`; the
/// fetch of each source covered the dates of its window in `windows`.
pub fn reconcile(old: &Vec<Event>, new: &Vec<Event>, windows: &Vec<FetchWindow>) -> (r: Vec<Event>)
    ensures
        views(r@) == reconciled(views(old@), views(new@), windows@),
{
    let mut out: Vec<Event> = Vec::new();
    let mut i: usize = 0;
    while i < new.len()
        invariant
            i <= new@.len(),
            views(out@) == merged_upto(views(old@), views(new@), i as nat),
        decreases new@.len() - i,
    {
        if is_last_at(new, i) {
            let mut e = new[i].copy();
            let c = cancelled_at_key(old, &new[i]);
            e.cancelled = e.cancelled || c;
            out.push(e);
            assert(views(out@) =~= merged_upto(views(old@), views(new@), (i + 1) as nat));
        } else {
            assert(views(out@) =~= merged_upto(views(old@), views(new@), (i + 1) as nat));
        }
        i = i + 1;
    }
    let ghost merged = views(out@);
    let mut rest: Vec<Event> = Vec::new();
    let mut j: usize = 0;
    while j < old.len()
        invariant
            j <= old@.len(),
            views(rest@) == retained_upto(views(old@), views(new@), windows@, j as nat),
        decreases old@.len() - j,
    {
        let e = &old[j];
        proof {
            reveal(kept);
        }
        let keep = is_last_at(old, j) && !has_key_of(new, e) && !in_window_exec(windows, e);
        if keep {
            rest.push(e.copy());
        }
        assert(views(rest@) =~= retained_upto(views(old@), views(new@), windows@, (j + 1) as nat));
        j = j + 1;
    }
    let ghost kept_part = views(rest@);
    out.append(&mut rest);
    assert(views(out@) =~= merged + kept_part);
    out
}

/// Two positions that both count for the same key are the same position.
proof fn lemma_last_unique(s: Seq<EventView>, i: int, j: int)
    requires
        0 <= i < s.len(),
        0 <= j < s.len(),
        is_last(s, i),
        is_last(s, j),
        key_of(s[i]) == key_of(s[j]),
    ensures
        i == j,
{
    reveal(is_last);
    if i < j {
        assert(key_of(s[j]) != key_of(s[i]));
    } else if j < i {
        assert(key_of(s[i]) != key_of(s[j]));
    }
}

/// Merging changes no key.
proof fn lemma_merge_keys(old: Seq<EventView>)
    ensures
        forall|e: EventView| key_of(#[trigger] merge_one(old, e)) == key_of(e),
{
    reveal(key_of);
}

/// What the merged part holds: one merged event for each position of `new`
/// that counts for its key, with distinct keys.
#[verifier::rlimit(40)]
proof fn lemma_merged_facts(old: Seq<EventView>, new: Seq<EventView>, n: nat)
    requires
        n <= new.len(),
    ensures
        forall|p: int| #![trigger merged_upto(old, new, n)[p]] 0 <= p < merged_upto(old, new, n).len()
            ==> exists|i: int| 0 <= i < n && is_last(new, i) && merged_upto(old, new, n)[p]
            == merge_one(old, #[trigger] new[i]),
        forall|p: int, q: int| 0 <= p < q < merged_upto(old, new, n).len() ==> key_of(
            #[trigger] merged_upto(old, new, n)[p]) != key_of(#[trigger] merged_upto(old, new, n)[q]),
        forall|i: int| #![trigger new[i]] 0 <= i < n && is_last(new, i) ==> exists|p: int|
            0 <= p < merged_upto(old, new, n).len() && #[trigger] merged_upto(old, new, n)[p]
            == merge_one(old, new[i]),
    decreases n,
{
    lemma_merge_keys(old);
    if n > 0 {
        lemma_merged_facts(old, new, (n - 1) as nat);
        let prev = merged_upto(old, new, (n - 1) as nat);
        let cur = merged_upto(old, new, n);
        if is_last(new, n - 1) {
            assert(cur == prev.push(merge_one(old, new[n - 1])));
            assert forall|p: int| 0 <= p < cur.len() - 1 implies key_of(#[trigger] cur[p]) != key_of(
                new[n - 1]) by {
                assert(cur[p] == prev[p]);
                let i = choose|i: int| 0 <= i < n - 1 && is_last(new, i) && prev[p] == merge_one(old, new[i]);
                reveal(is_last);
                assert(key_of(new[n - 1]) != key_of(new[i]));
            }
            assert forall|p: int| #![trigger cur[p]] 0 <= p < cur.len() implies exists|i: int|
                0 <= i < n && is_last(new, i) && cur[p] == merge_one(old, #[trigger] new[i]) by {
                if p < cur.len() - 1 {
                    assert(cur[p] == prev[p]);
                } else {
                    assert(cur[p] == merge_one(old, new[n - 1]));
                }
            }
            assert forall|i: int| #![trigger new[i]] 0 <= i < n && is_last(new, i) implies exists|p: int|
                0 <= p < cur.len() && #[trigger] cur[p] == merge_one(old, new[i]) by {
                if i < n - 1 {
                    let p = choose|p: int| 0 <= p < prev.len() && #[trigger] prev[p] == merge_one(old, new[i]);
                    assert(cur[p] == prev[p]);
                } else {
                    assert(cur[cur.len() - 1] == merge_one(old, new[i]));
                }
            }
        }
    }
}

/// What the retained part holds: stored events whose keys the new batch
/// lacks, outside the window, each the event that counts for its key, with
/// distinct keys.
#[verifier::rlimit(40)]
proof fn lemma_retained_facts(stored: Seq<EventView>, new: Seq<EventView>, w: Seq<FetchWindow>, n: nat)
    requires
        n <= stored.len(),
    ensures
        forall|q: int| #![trigger retained_upto(stored, new, w, n)[q]] 0 <= q < retained_upto(stored, new, w, n).len()
            ==> retained_facts_at(stored, new, w, retained_upto(stored, new, w, n)[q]),
        forall|p: int, q: int| 0 <= p < q < retained_upto(stored, new, w, n).len() ==> key_of(
            #[trigger] retained_upto(stored, new, w, n)[p]) != key_of(#[trigger] retained_upto(stored, new, w, n)[q]),
        forall|q: int, a: int| 0 <= q < retained_upto(stored, new, w, n).len() && n <= a < stored.len() ==> key_of(
            #[trigger] retained_upto(stored, new, w, n)[q]) != key_of(#[trigger] stored[a]),
    decreases n,
{
    if n > 0 {
        lemma_retained_facts(stored, new, w, (n - 1) as nat);
        let prev = retained_upto(stored, new, w, (n - 1) as nat);
        let cur = retained_upto(stored, new, w, n);
        if kept(stored, new, w, n - 1) {
            assert(cur == prev.push(stored[n - 1]));
            assert forall|p: int| 0 <= p < cur.len() - 1 implies key_of(#[trigger] cur[p]) != key_of(
                stored[n - 1]) by {
                assert(cur[p] == prev[p]);
                assert(key_of(prev[p]) != key_of(stored[n - 1]));
            }
            assert forall|q: int, a: int| 0 <= q < cur.len() && n <= a < stored.len() implies key_of(
                #[trigger] cur[q]) != key_of(#[trigger] stored[a]) by {
                if q < cur.len() - 1 {
                    assert(cur[q] == prev[q]);
                } else {
                    reveal(kept);
                    reveal(is_last);
                    assert(key_of(stored[a]) != key_of(stored[n - 1]));
                }
            }
            assert(retained_facts_at(stored, new, w, stored[n - 1])) by {
                reveal(kept);
                assert forall|a: int| 0 <= a < stored.len() && is_last(stored, a) && key_of(#[trigger] stored[a])
                    == key_of(stored[n - 1]) implies stored[a] == stored[n - 1] by {
                    lemma_last_unique(stored, a, n - 1);
                }
            }
            assert forall|q: int| #![trigger cur[q]] 0 <= q < cur.len() implies retained_facts_at(stored, new, w, cur[q]) by {
                if q < cur.len() - 1 {
                    assert(cur[q] == prev[q]);
                }
            }
        } else {
            assert(cur == prev);
        }
    }
}

/// A stored event that the retained part may hold: the new batch lacks its
/// key, it starts outside the window, and it is the stored event that counts
/// for its key.
pub open spec fn retained_facts_at(stored: Seq<EventView>, new: Seq<EventView>, w: Seq<FetchWindow>, e: EventView) -> bool {
    &&& !has_key(new, key_of(e))
    &&& !in_window(w, e)
    &&& exists|a: int| 0 <= a < stored.len() && is_last(stored, a) && key_of(stored[a]) == key_of(e)
    &&& forall|a: int| 0 <= a < stored.len() && is_last(stored, a) && key_of(#[trigger] stored[a]) == key_of(e)
        ==> stored[a] == e
}

/// The merged part of a second reconciliation against the same batch equals
/// the merged part of the first.
#[verifier::rlimit(40)]
proof fn lemma_merged_again(old: Seq<EventView>, new: Seq<EventView>, w: Seq<FetchWindow>, n: nat)
    requires
        n <= new.len(),
    ensures
        merged_upto(reconciled(old, new, w), new, n) == merged_upto(old, new, n),
    decreases n,
{
    lemma_merge_keys(old);
    let m = merged_upto(old, new, new.len());
    let t = retained_upto(old, new, w, old.len());
    let r = reconciled(old, new, w);
    if n > 0 {
        lemma_merged_again(old, new, w, (n - 1) as nat);
        if is_last(new, n - 1) {
            let e = new[n - 1];
            let k = key_of(e);
            lemma_merged_facts(old, new, new.len());
            lemma_retained_facts(old, new, w, old.len());
            // The single event of `r` with key `k` is the merged one.
            let p = choose|p: int| 0 <= p < m.len() && #[trigger] m[p] == merge_one(old, new[n - 1]);
            assert(r[p] == m[p]);
            assert(key_of(r[p]) == k);
            assert forall|j: int| 0 <= j < r.len() && j != p implies key_of(#[trigger] r[j]) != k by {
                if j < m.len() {
                    assert(r[j] == m[j]);
                } else {
                    assert(r[j] == t[j - m.len()]);
                    assert(retained_facts_at(old, new, w, t[j - m.len()]));
                    reveal(has_key);
                }
            }
            assert(is_last(r, p)) by {
                reveal(is_last);
            }
            assert(cancelled_in(r, k) ==> (e.cancelled || cancelled_in(old, k))) by {
                reveal(cancelled_in);
                if cancelled_in(r, k) {
                    let j = choose|j: int| 0 <= j < r.len() && is_last(r, j) && key_of(#[trigger] r[j]) == k && r[j].cancelled;
                    lemma_last_unique(r, j, p);
                }
            }
            assert((e.cancelled || cancelled_in(old, k)) ==> (e.cancelled || cancelled_in(r, k))) by {
                reveal(cancelled_in);
                if cancelled_in(old, k) {
                    assert(r[p].cancelled);
                }
            }
            assert(merge_one(r, e) == merge_one(old, e));
        }
    }
}

/// The retained part of a second reconciliation against the same batch
/// equals the retained part of the first.
#[verifier::rlimit(40)]
proof fn lemma_retained_again(old: Seq<EventView>, new: Seq<EventView>, w: Seq<FetchWindow>, n: nat)
    requires
        n <= reconciled(old, new, w).len(),
    ensures
        n <= merged_upto(old, new, new.len()).len() ==> retained_upto(reconciled(old, new, w), new, w, n)
            == Seq::<EventView>::empty(),
        n >= merged_upto(old, new, new.len()).len() ==> retained_upto(reconciled(old, new, w), new, w, n)
            == retained_upto(old, new, w, old.len()).subrange(0, n - merged_upto(old, new, new.len()).len()),
    decreases n,
{
    let m = merged_upto(old, new, new.len());
    let t = retained_upto(old, new, w, old.len());
    let r = reconciled(old, new, w);
    lemma_merge_keys(old);
    lemma_merged_facts(old, new, new.len());
    lemma_retained_facts(old, new, w, old.len());
    if n > 0 {
        lemma_retained_again(old, new, w, (n - 1) as nat);
        let x = n - 1;
        if x < m.len() {
            assert(r[x] == m[x]);
            let i = choose|i: int| 0 <= i < new.len() && is_last(new, i) && m[x] == merge_one(old, #[trigger] new[i]);
            assert(key_of(r[x]) == key_of(new[i]));
            assert(!kept(r, new, w, x)) by {
                reveal(kept);
                reveal(has_key);
            }
        } else {
            let q = x - m.len();
            assert(r[x] == t[q]);
            assert(retained_facts_at(old, new, w, t[q]));
            assert forall|j: int| x < j < r.len() implies key_of(#[trigger] r[j]) != key_of(r[x]) by {
                assert(r[j] == t[j - m.len()]);
            }
            assert(kept(r, new, w, x)) by {
                reveal(kept);
                reveal(is_last);
            }
            assert(t.subrange(0, q + 1) =~= t.subrange(0, q).push(t[q]));
        }
    }
}

/// Reconciling a second time against the same batch changes nothing:
/// `reconcile(reconcile(old, new), new) == reconcile(old, new)`.
pub proof fn lemma_reconcile_idempotent(old: Seq<EventView>, new: Seq<EventView>, w: Seq<FetchWindow>)
    ensures
        reconciled(reconciled(old, new, w), new, w) == reconciled(old, new, w),
{
    let r = reconciled(old, new, w);
    lemma_merged_again(old, new, w, new.len());
    lemma_retained_again(old, new, w, r.len());
    let t = retained_upto(old, new, w, old.len());
    assert(t.subrange(0, t.len() as int) =~= t);
}

/// A stored cancellation survives a re-fetch: when the stored event that
/// counts for a key is cancelled and the new batch holds that key, every
/// event of the result with that key is cancelled, and there is one.
#[verifier::rlimit(40)]
pub proof fn lemma_cancellation_kept(old: Seq<EventView>, new: Seq<EventView>, w: Seq<FetchWindow>, i: int, j: int)
    requires
        0 <= i < old.len(),
        is_last(old, i),
        old[i].cancelled,
        0 <= j < new.len(),
        key_of(new[j]) == key_of(old[i]),
    ensures
        exists|p: int| 0 <= p < reconciled(old, new, w).len() && key_of(#[trigger] reconciled(old, new, w)[p])
            == key_of(old[i]),
        forall|p: int| 0 <= p < reconciled(old, new, w).len() && key_of(#[trigger] reconciled(old, new, w)[p])
            == key_of(old[i]) ==> reconciled(old, new, w)[p].cancelled,
{
    lemma_merge_keys(old);
    let k = key_of(old[i]);
    let m = merged_upto(old, new, new.len());
    let t = retained_upto(old, new, w, old.len());
    let r = reconciled(old, new, w);
    lemma_merged_facts(old, new, new.len());
    lemma_retained_facts(old, new, w, old.len());
    assert(cancelled_in(old, k)) by {
        reveal(cancelled_in);
    }
    assert(has_key(new, k)) by {
        reveal(has_key);
    }
    lemma_last_exists(new, j);
    // The last position of `new` with key `k`.
    let l = choose|l: int| #![trigger new[l]] j <= l < new.len() && key_of(new[l]) == k && forall|z: int|
        l < z < new.len() ==> key_of(#[trigger] new[z]) != k;
    assert(is_last(new, l)) by {
        reveal(is_last);
    }
    let p = choose|p: int| 0 <= p < m.len() && #[trigger] m[p] == merge_one(old, new[l]);
    assert(r[p] == m[p]);
    assert(key_of(r[p]) == k);
    assert forall|q: int| 0 <= q < r.len() && key_of(#[trigger] r[q]) == k implies r[q].cancelled by {
        if q < m.len() {
            assert(r[q] == m[q]);
            let a = choose|a: int| 0 <= a < new.len() && is_last(new, a) && m[q] == merge_one(old, #[trigger] new[a]);
            assert(key_of(new[a]) == k);
        } else {
            assert(r[q] == t[q - m.len()]);
            assert(retained_facts_at(old, new, w, t[q - m.len()]));
            reveal(has_key);
        }
    }
}

/// From any position, some position at or after it is the last with its key.
proof fn lemma_last_exists(s: Seq<EventView>, j: int)
    requires
        0 <= j < s.len(),
    ensures
        exists|l: int| #![trigger s[l]] j <= l < s.len() && key_of(s[l]) == key_of(s[j]) && forall|z: int|
            l < z < s.len() ==> key_of(#[trigger] s[z]) != key_of(s[j]),
    decreases s.len() - j,
{
    if exists|z: int| j < z < s.len() && key_of(#[trigger] s[z]) == key_of(s[j]) {
        let z = choose|z: int| j < z < s.len() && key_of(#[trigger] s[z]) == key_of(s[j]);
        lemma_last_exists(s, z);
        let l = choose|l: int| #![trigger s[l]] z <= l < s.len() && key_of(s[l]) == key_of(s[z]) && forall|y: int|
            l < y < s.len() ==> key_of(#[trigger] s[y]) != key_of(s[z]);
        assert(j <= l < s.len() && key_of(s[l]) == key_of(s[j]));
    } else {
        assert(forall|z: int| j < z < s.len() ==> key_of(#[trigger] s[z]) != key_of(s[j]));
        assert(j <= j < s.len() && key_of(s[j]) == key_of(s[j]));
    }
}

/// A stored event that counts for its key, whose key the new batch lacks and
/// which starts inside the fetched window, is dropped: no event of the
/// result has its key.
#[verifier::rlimit(40)]
pub proof fn lemma_stale_in_window_dropped(old: Seq<EventView>, new: Seq<EventView>, w: Seq<FetchWindow>, i: int)
    requires
        0 <= i < old.len(),
        is_last(old, i),
        !has_key(new, key_of(old[i])),
        in_window(w, old[i]),
    ensures
        forall|p: int| 0 <= p < reconciled(old, new, w).len() ==> key_of(
            #[trigger] reconciled(old, new, w)[p]) != key_of(old[i]),
{
    lemma_merge_keys(old);
    let m = merged_upto(old, new, new.len());
    let t = retained_upto(old, new, w, old.len());
    let r = reconciled(old, new, w);
    lemma_merged_facts(old, new, new.len());
    lemma_retained_facts(old, new, w, old.len());
    assert forall|p: int| 0 <= p < r.len() implies key_of(#[trigger] r[p]) != key_of(old[i]) by {
        if p < m.len() {
            assert(r[p] == m[p]);
            let a = choose|a: int| 0 <= a < new.len() && is_last(new, a) && m[p] == merge_one(old, #[trigger] new[a]);
            assert(key_of(r[p]) == key_of(new[a]));
            reveal(has_key);
        } else {
            assert(r[p] == t[p - m.len()]);
            assert(retained_facts_at(old, new, w, t[p - m.len()]));
        }
    }
}

/// A stored event that counts for its key, whose key the new batch lacks and
/// which starts outside the fetched window, is kept as it was.
pub proof fn lemma_outside_window_kept(old: Seq<EventView>, new: Seq<EventView>, w: Seq<FetchWindow>, i: int)
    requires
        0 <= i < old.len(),
        is_last(old, i),
        !has_key(new, key_of(old[i])),
        !in_window(w, old[i]),
    ensures
        reconciled(old, new, w).contains(old[i]),
{
    reveal(kept);
    lemma_retained_in(old, new, w, old.len(), i);
    let m = merged_upto(old, new, new.len());
    let t = retained_upto(old, new, w, old.len());
    let q = choose|q: int| 0 <= q < t.len() && t[q] == old[i];
    assert(reconciled(old, new, w)[m.len() + q] == old[i]);
}

proof fn lemma_retained_in(old: Seq<EventView>, new: Seq<EventView>, w: Seq<FetchWindow>, n: nat, i: int)
    requires
        n <= old.len(),
        0 <= i < n,
        kept(old, new, w, i),
    ensures
        exists|q: int| 0 <= q < retained_upto(old, new, w, n).len() && retained_upto(old, new, w, n)[q] == old[i],
    decreases n,
{
    let cur = retained_upto(old, new, w, n);
    if i < n - 1 {
        lemma_retained_in(old, new, w, (n - 1) as nat, i);
        let prev = retained_upto(old, new, w, (n - 1) as nat);
        let q = choose|q: int| 0 <= q < prev.len() && prev[q] == old[i];
        assert(cur[q] == prev[q]);
    } else {
        assert(cur[cur.len() - 1] == old[i]);
    }
}

} // verus!
