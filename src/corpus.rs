//! Presentation order of the corpus: events sorted by start date and grouped
//! by calendar month.
use vstd::prelude::*;
use crate::model::{date_le, date_le_spec, start_date_of, views, Date, Event, EventView};

verus! {

/// `x` placed after every event of `s` that starts on or before it, counted
/// from the end: the step of a stable insertion sort.
pub open spec fn insert_sorted(s: Seq<EventView>, x: EventView) -> Seq<EventView>
    decreases s.len(),
{
    if s.len() == 0 {
        seq![x]
    } else if date_le_spec(start_date_of(s.last()), start_date_of(x)) {
        s.push(x)
    } else {
        insert_sorted(s.drop_last(), x).push(s.last())
    }
}

/// The events stably sorted by ascending start date: events that start on
/// the same date keep their relative order.
pub open spec fn sorted_spec(s: Seq<EventView>) -> Seq<EventView>
    decreases s.len(),
{
    if s.len() == 0 {
        Seq::empty()
    } else {
        insert_sorted(sorted_spec(s.drop_last()), s.last())
    }
}

/// Consecutive events grouped while they share year and month; each group
/// is keyed by the first day of its month.
pub open spec fn months_spec(s: Seq<EventView>) -> Seq<(Date, Seq<EventView>)>
    decreases s.len(),
{
    if s.len() == 0 {
        Seq::empty()
    } else {
        let g = months_spec(s.drop_last());
        let d = start_date_of(s.last());
        if g.len() > 0 && g.last().0.year == d.year && g.last().0.month == d.month {
            g.update(g.len() - 1, (g.last().0, g.last().1.push(s.last())))
        } else {
            g.push((Date { year: d.year, month: d.month, day: 1 }, seq![s.last()]))
        }
    }
}

/// The events of one month.
pub struct Month {
    /// The first day of the month.
    pub start: Date,
    pub events: Vec<Event>,
}

pub open spec fn month_views(m: Seq<Month>) -> Seq<(Date, Seq<EventView>)> {
    m.map_values(|x: Month| (x.start, views(x.events@)))
}

proof fn lemma_insert_at(s: Seq<EventView>, x: EventView, j: int)
    requires
        0 <= j <= s.len(),
        j == 0 || date_le_spec(start_date_of(s[j - 1]), start_date_of(x)),
        forall|k: int| j <= k < s.len() ==> !date_le_spec(start_date_of(#[trigger] s[k]), start_date_of(x)),
    ensures
        insert_sorted(s, x) == s.subrange(0, j).push(x) + s.subrange(j, s.len() as int),
    decreases s.len(),
{
    if s.len() == j {
        if s.len() > 0 {
            assert(s.subrange(0, j) =~= s);
        }
        assert(s.subrange(0, j).push(x) + s.subrange(j, s.len() as int) =~= s.push(x));
    } else {
        let t = s.drop_last();
        assert(!date_le_spec(start_date_of(s[s.len() - 1]), start_date_of(x)));
        assert forall|k: int| j <= k < t.len() implies !date_le_spec(start_date_of(#[trigger] t[k]), start_date_of(x)) by {
            assert(t[k] == s[k]);
        }
        if j > 0 {
            assert(t[j - 1] == s[j - 1]);
        }
        lemma_insert_at(t, x, j);
        assert((t.subrange(0, j).push(x) + t.subrange(j, t.len() as int)).push(s.last()) =~= s.subrange(0, j).push(x)
            + s.subrange(j, s.len() as int));
    }
}

/// Sorts events by ascending start date, keeping the order of events that
/// start on the same date.
pub fn sort_by_start(events: &Vec<Event>) -> (r: Vec<Event>)
    ensures
        views(r@) == sorted_spec(views(events@)),
{
    let mut out: Vec<Event> = Vec::new();
    let mut i: usize = 0;
    while i < events.len()
        invariant
            i <= events@.len(),
            views(out@) == sorted_spec(views(events@).subrange(0, i as int)),
        decreases events@.len() - i,
    {
        let x = events[i].copy();
        let d = x.start_date();
        let mut j: usize = out.len();
        while j > 0 && !date_le(out[j - 1].start_date(), d)
            invariant
                j <= out@.len(),
                d == start_date_of(x@),
                forall|k: int| j <= k < out@.len() ==> !date_le_spec(start_date_of(#[trigger] views(out@)[k]), d),
            decreases j,
        {
            j = j - 1;
        }
        proof {
            lemma_insert_at(views(out@), x@, j as int);
            assert(views(events@).subrange(0, i + 1).drop_last() =~= views(events@).subrange(0, i as int));
        }
        let ghost before = views(out@);
        out.insert(j, x);
        assert(views(out@) =~= before.subrange(0, j as int).push(x@) + before.subrange(j as int, before.len() as int));
        i = i + 1;
    }
    assert(views(events@).subrange(0, events@.len() as int) =~= views(events@));
    out
}

/// Groups events, in the given order, into runs that share year and month.
pub fn group_sorted(events: Vec<Event>) -> (r: Vec<Month>)
    ensures
        month_views(r@) == months_spec(views(events@)),
{
    let mut months: Vec<Month> = Vec::new();
    let mut i: usize = 0;
    while i < events.len()
        invariant
            i <= events@.len(),
            month_views(months@) == months_spec(views(events@).subrange(0, i as int)),
        decreases events@.len() - i,
    {
        let x = events[i].copy();
        let d = x.start_date();
        proof {
            assert(views(events@).subrange(0, i + 1).drop_last() =~= views(events@).subrange(0, i as int));
        }
        let n = months.len();
        let same = n > 0 && months[n - 1].start.year == d.year && months[n - 1].start.month == d.month;
        if same {
            let ghost before = month_views(months@);
            let ghost full = months@;
            let mut last = months.pop().unwrap();
            let ghost evs = views(last.events@);
            assert(last == full.last());
            assert(month_views(months@) =~= before.drop_last());
            assert(before.last() == (last.start, evs));
            last.events.push(x);
            assert(views(last.events@) =~= evs.push(x@));
            months.push(last);
            assert(month_views(months@) =~= before.update(before.len() - 1, (before.last().0, evs.push(x@))));
        } else {
            let ghost before = month_views(months@);
            let mut v: Vec<Event> = Vec::new();
            v.push(x);
            months.push(Month { start: Date { year: d.year, month: d.month, day: 1 }, events: v });
            assert(views(v@) =~= seq![x@]);
            assert(month_views(months@) =~= before.push((Date { year: d.year, month: d.month, day: 1 }, seq![x@])));
        }
        i = i + 1;
    }
    assert(views(events@).subrange(0, events@.len() as int) =~= views(events@));
    months
}

/// Sorts events by ascending start date (stably) and groups them by the
/// month in which they start, in chronological order.
pub fn group_by_month(events: &Vec<Event>) -> (r: Vec<Month>)
    ensures
        month_views(r@) == months_spec(sorted_spec(views(events@))),
{
    group_sorted(sort_by_start(events))
}

} // verus!
