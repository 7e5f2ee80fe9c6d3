//! The canonical event model: dates and times, dance styles, events,
//! filters over events and the identity key used to recognise an event
//! across fetch cycles.
use vstd::prelude::*;
use crate::corpus::{sort_by_start, sorted_spec};
use crate::text::{contains_ignoring_case, contains_spec, copy_opt, copy_strings, lower_of, same_text};

verus! {

/// A calendar date.
#[derive(Clone, Copy, Debug, PartialEq, Eq, Structural)]
pub struct Date {
    pub year: i32,
    pub month: u32,
    pub day: u32,
}

/// A local date and time, together with the fixed offset from UTC (in
/// seconds) that it was given in.
#[derive(Clone, Copy, Debug, PartialEq, Eq, Structural)]
pub struct DateTime {
    pub date: Date,
    pub hour: u32,
    pub minute: u32,
    pub second: u32,
    pub offset_seconds: i32,
}

/// When an event happens.
#[derive(Clone, Copy, Debug, PartialEq, Eq, Structural)]
pub enum EventTime {
    /// Whole days; `end_date` is inclusive.
    DateOnly { start_date: Date, end_date: Date },
    /// Timestamps with fixed offsets.
    DateTime { start: DateTime, end: DateTime },
}

/// The dance styles an event can be listed under.
#[derive(Clone, Copy, Debug, PartialEq, Eq, Structural)]
pub enum DanceStyle {
    Balfolk,
    Contra,
    EnglishCountryDance,
    Scandinavian,
    Polish,
}

/// Which importer produced an event.
#[derive(Clone, Copy, Debug, PartialEq, Eq, Structural)]
pub enum Source {
    BalfolkNl,
    Cdss,
    Dresden,
    PlugEvents,
}

/// A canonical event.
#[derive(Clone, Debug)]
pub struct Event {
    pub name: String,
    pub details: Option<String>,
    pub links: Vec<String>,
    pub time: EventTime,
    pub country: String,
    pub state: Option<String>,
    pub city: String,
    pub styles: Vec<DanceStyle>,
    pub workshop: bool,
    pub social: bool,
    pub bands: Vec<String>,
    pub callers: Vec<String>,
    pub price: Option<String>,
    pub organisation: Option<String>,
    pub cancelled: bool,
    pub source: Option<Source>,
}

/// Constraints on events; a field that is `None` constrains nothing.
#[derive(Clone, Debug)]
pub struct Filters {
    pub country: Option<String>,
    pub city: Option<String>,
    pub style: Option<DanceStyle>,
    pub organisation: Option<String>,
    pub band: Option<String>,
    pub caller: Option<String>,
    pub name: Option<String>,
}

/// `a` is on or before `b`: dates are ordered by year, then month, then day.
pub open spec fn date_le_spec(a: Date, b: Date) -> bool {
    a.year < b.year || (a.year == b.year && (a.month < b.month || (a.month == b.month
        && a.day <= b.day)))
}

/// Whether `a` is on or before `b`.
pub fn date_le(a: Date, b: Date) -> (r: bool)
    ensures
        r == date_le_spec(a, b),
{
    if a.year != b.year {
        a.year < b.year
    } else if a.month != b.month {
        a.month < b.month
    } else {
        a.day <= b.day
    }
}

/// The date on which an event starts.
pub open spec fn start_date_of(e: EventView) -> Date {
    match e.time {
        EventTime::DateOnly { start_date, .. } => start_date,
        EventTime::DateTime { start, .. } => start.date,
    }
}

impl Event {
    /// The date on which the event starts, in its own time zone.
    pub fn start_date(&self) -> (r: Date)
        ensures
            r == start_date_of(self@),
    {
        match self.time {
            EventTime::DateOnly { start_date, .. } => start_date,
            EventTime::DateTime { start, .. } => start.date,
        }
    }

    /// A copy of the event with every field kept.
    pub fn copy(&self) -> (r: Event)
        ensures
            r@ == self@,
    {
        let r = Event {
            name: self.name.clone(),
            details: copy_opt(&self.details),
            links: copy_strings(&self.links),
            time: self.time,
            country: self.country.clone(),
            state: copy_opt(&self.state),
            city: self.city.clone(),
            styles: copy_styles(&self.styles),
            workshop: self.workshop,
            social: self.social,
            bands: copy_strings(&self.bands),
            callers: copy_strings(&self.callers),
            price: copy_opt(&self.price),
            organisation: copy_opt(&self.organisation),
            cancelled: self.cancelled,
            source: self.source,
        };
        r
    }
}

/// The mathematical value of an event: its fields, with each list taken as
/// the sequence of its items.
pub struct EventView {
    pub name: String,
    pub details: Option<String>,
    pub links: Seq<String>,
    pub time: EventTime,
    pub country: String,
    pub state: Option<String>,
    pub city: String,
    pub styles: Seq<DanceStyle>,
    pub workshop: bool,
    pub social: bool,
    pub bands: Seq<String>,
    pub callers: Seq<String>,
    pub price: Option<String>,
    pub organisation: Option<String>,
    pub cancelled: bool,
    pub source: Option<Source>,
}

impl View for Event {
    type V = EventView;

    open spec fn view(&self) -> EventView {
        EventView {
            name: self.name,
            details: self.details,
            links: self.links@,
            time: self.time,
            country: self.country,
            state: self.state,
            city: self.city,
            styles: self.styles@,
            workshop: self.workshop,
            social: self.social,
            bands: self.bands@,
            callers: self.callers@,
            price: self.price,
            organisation: self.organisation,
            cancelled: self.cancelled,
            source: self.source,
        }
    }
}

/// The views of a sequence of events.
pub open spec fn views(s: Seq<Event>) -> Seq<EventView> {
    s.map_values(|e: Event| e@)
}

/// Copies a list of styles.
pub fn copy_styles(v: &Vec<DanceStyle>) -> (r: Vec<DanceStyle>)
    ensures
        r@ == v@,
{
    let mut out: Vec<DanceStyle> = Vec::new();
    let mut i: usize = 0;
    while i < v.len()
        invariant
            i <= v@.len(),
            out@ == v@.subrange(0, i as int),
        decreases v@.len() - i,
    {
        out.push(v[i]);
        i = i + 1;
    }
    assert(out@ =~= v@);
    out
}

/// Some band of the list contains `needle`, ignoring case.
pub open spec fn any_contains(names: Seq<String>, needle: Seq<char>) -> bool {
    exists|i: int| 0 <= i < names.len() && contains_spec(lower_of(#[trigger] names[i]@), lower_of(needle))
}

/// An event satisfies every constraint that the filters set.
pub open spec fn matches_spec(e: EventView, f: Filters) -> bool {
    &&& (f.country matches Some(c) ==> e.country@ == c@)
    &&& (f.city matches Some(c) ==> contains_spec(lower_of(e.city@), lower_of(c@)))
    &&& (f.style matches Some(st) ==> e.styles.contains(st))
    &&& (f.organisation matches Some(o) ==> (e.organisation matches Some(eo) && eo@ == o@))
    &&& (f.band matches Some(b) ==> any_contains(e.bands, b@))
    &&& (f.caller matches Some(c) ==> any_contains(e.callers, c@))
    &&& (f.name matches Some(n) ==> contains_spec(lower_of(e.name@), lower_of(n@)))
}

fn any_contains_exec(names: &Vec<String>, needle: &str) -> (r: bool)
    ensures
        r == any_contains(names@, needle@),
{
    let mut i: usize = 0;
    while i < names.len()
        invariant
            i <= names@.len(),
            forall|k: int| 0 <= k < i ==> !contains_spec(lower_of(#[trigger] names@[k]@), lower_of(needle@)),
        decreases names@.len() - i,
    {
        if contains_ignoring_case(names[i].as_str(), needle) {
            return true;
        }
        i = i + 1;
    }
    false
}

fn has_style(styles: &Vec<DanceStyle>, st: DanceStyle) -> (r: bool)
    ensures
        r == styles@.contains(st),
{
    let mut i: usize = 0;
    while i < styles.len()
        invariant
            i <= styles@.len(),
            forall|k: int| 0 <= k < i ==> styles@[k] != st,
        decreases styles@.len() - i,
    {
        if styles[i] == st {
            assert(styles@[i as int] == st);
            return true;
        }
        i = i + 1;
    }
    false
}

impl Filters {
    /// Filters that constrain nothing.
    pub fn none() -> (r: Filters)
        ensures
            r.country is None && r.city is None && r.style is None && r.organisation is None
                && r.band is None && r.caller is None && r.name is None,
    {
        Filters { country: None, city: None, style: None, organisation: None, band: None, caller: None, name: None }
    }
}

impl Event {
    /// Whether the event satisfies the filters: country, style and
    /// organisation must be equal; city, band, caller and name must contain
    /// the filter's text, ignoring case.
    pub fn matches(&self, filters: &Filters) -> (r: bool)
        ensures
            r == matches_spec(self@, *filters),
    {
        if let Some(c) = &filters.country {
            if !same_text(self.country.as_str(), c.as_str()) {
                return false;
            }
        }
        if let Some(c) = &filters.city {
            if !contains_ignoring_case(self.city.as_str(), c.as_str()) {
                return false;
            }
        }
        if let Some(st) = filters.style {
            if !has_style(&self.styles, st) {
                return false;
            }
        }
        if let Some(o) = &filters.organisation {
            match &self.organisation {
                Some(eo) => {
                    if !same_text(eo.as_str(), o.as_str()) {
                        return false;
                    }
                },
                None => {
                    return false;
                },
            }
        }
        if let Some(b) = &filters.band {
            if !any_contains_exec(&self.bands, b.as_str()) {
                return false;
            }
        }
        if let Some(c) = &filters.caller {
            if !any_contains_exec(&self.callers, c.as_str()) {
                return false;
            }
        }
        if let Some(n) = &filters.name {
            if !contains_ignoring_case(self.name.as_str(), n.as_str()) {
                return false;
            }
        }
        true
    }
}

/// The events that satisfy the filters, stably sorted by ascending start
/// date.
pub fn matching(events: &Vec<Event>, filters: &Filters) -> (r: Vec<Event>)
    ensures
        views(r@) == sorted_spec(matching_spec(views(events@), *filters)),
{
    sort_by_start(&matching_in_order(events, filters))
}

/// Filters that set no constraint accept every event.
pub proof fn lemma_no_filters_accept_all(e: EventView, f: Filters)
    requires
        f.country is None && f.city is None && f.style is None && f.organisation is None && f.band is None
            && f.caller is None && f.name is None,
    ensures
        matches_spec(e, f),
{
}

/// A country filter rejects every event whose country differs from it
/// exactly.
pub proof fn lemma_country_filter_exact(e: EventView, f: Filters)
    requires
        f.country is Some,
        e.country@ != f.country.unwrap()@,
    ensures
        !matches_spec(e, f),
{
}

/// The events of `events` that satisfy the filters, in their order.
pub open spec fn matching_spec(events: Seq<EventView>, f: Filters) -> Seq<EventView>
    decreases events.len(),
{
    if events.len() == 0 {
        Seq::empty()
    } else {
        let prev = matching_spec(events.drop_last(), f);
        if matches_spec(events.last(), f) {
            prev.push(events.last())
        } else {
            prev
        }
    }
}

/// The events that satisfy the filters, in the order given.
pub fn matching_in_order(events: &Vec<Event>, filters: &Filters) -> (r: Vec<Event>)
    ensures
        views(r@) == matching_spec(views(events@), *filters),
{
    let mut out: Vec<Event> = Vec::new();
    let mut i: usize = 0;
    while i < events.len()
        invariant
            i <= events@.len(),
            views(out@) == matching_spec(views(events@).subrange(0, i as int), *filters),
        decreases events@.len() - i,
    {
        let ghost pre = views(events@).subrange(0, i as int);
        assert(views(events@).subrange(0, i + 1) =~= pre.push(events@[i as int]@));
        assert(pre.push(events@[i as int]@).drop_last() =~= pre);
        if events[i].matches(filters) {
            out.push(events[i].copy());
        }
        assert(views(out@) =~= matching_spec(views(events@).subrange(0, i + 1), *filters));
        i = i + 1;
    }
    assert(views(events@).subrange(0, events@.len() as int) =~= views(events@));
    out
}

} // verus!
