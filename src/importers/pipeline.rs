//! The generic import of calendar entries through a source adapter, and the
//! Dresden adapters.
use vstd::prelude::*;
use crate::model::{views, DanceStyle, DateTime, Event, EventTime, EventView, Source};
use crate::importers::plugevents::{in_zone_of, instant_in_zone};
use crate::calendar::{offset_in_zone, zoned_spec, LocalTime};
use crate::text::{contains, contains_spec, copy_opt, lower_of, lowercase, replace, replace_spec};

verus! {

/// What the framework extracts from a calendar entry before the adapter's
/// hooks run.
pub struct EventParts {
    pub url: String,
    pub summary: String,
    pub description: String,
    /// The raw, comma-separated location, when the entry has one.
    pub location: Option<String>,
    pub time: EventTime,
    pub organiser: Option<String>,
}

/// The view of an optional event.
pub open spec fn opt_event_view(o: Option<Event>) -> Option<EventView> {
    match o {
        Some(e) => Some(e@),
        None => None,
    }
}

/// A calendar source: its classification hooks and its final fix-up.
pub trait IcalendarSource {
    /// The styles that `styles` derives.
    spec fn styles_spec(parts: &EventParts) -> Seq<DanceStyle>;

    /// Whether `workshop` classifies the entry as a workshop.
    spec fn workshop_spec(parts: &EventParts) -> bool;

    /// Whether `social` classifies the entry as a social dance.
    spec fn social_spec(parts: &EventParts) -> bool;

    /// What `location` may give for an entry.
    spec fn location_rel(parts: &EventParts, l: Option<(String, Option<String>, String)>) -> bool;

    /// What `fixup` may make of an assembled event.
    spec fn fixup_rel(before: EventView, after: Option<EventView>) -> bool;

    fn workshop(parts: &EventParts) -> (r: bool)
        ensures
            r == Self::workshop_spec(parts),
    ;

    fn social(parts: &EventParts) -> (r: bool)
        ensures
            r == Self::social_spec(parts),
    ;

    fn styles(parts: &EventParts) -> (r: Vec<DanceStyle>)
        ensures
            r@ == Self::styles_spec(parts),
    ;

    /// Country, state and city, or `None` when they cannot be found.
    fn location(parts: &EventParts) -> (r: Option<(String, Option<String>, String)>)
        ensures
            Self::location_rel(parts, r),
    ;

    /// Rewrites the assembled event, or vetoes it.
    fn fixup(event: Event) -> (r: Option<Event>)
        ensures
            Self::fixup_rel(event@, opt_event_view(r)),
    ;
}

/// The event that the framework assembles from an entry and its location,
/// before the fix-up.
pub open spec fn assembled<S: IcalendarSource>(parts: &EventParts, l: (String, Option<String>, String)) -> EventView {
    EventView {
        name: parts.summary,
        details: if parts.description@.len() == 0 { None } else { Some(parts.description) },
        links: seq![parts.url],
        time: parts.time,
        country: l.0,
        state: l.1,
        city: l.2,
        styles: S::styles_spec(parts),
        workshop: S::workshop_spec(parts),
        social: S::social_spec(parts),
        bands: Seq::empty(),
        callers: Seq::empty(),
        price: None,
        organisation: parts.organiser,
        cancelled: false,
        source: None,
    }
}

/// What an entry may turn into: nothing without a dance style or a
/// location, otherwise the fix-up of the assembled event.
pub open spec fn convert_rel<S: IcalendarSource>(parts: &EventParts, r: Option<EventView>) -> bool {
    if S::styles_spec(parts).len() == 0 {
        r is None
    } else {
        ||| (S::location_rel(parts, None) && r is None)
        ||| exists|l: (String, Option<String>, String)| S::location_rel(parts, Some(l)) && S::fixup_rel(
            #[trigger] assembled::<S>(parts, l), r)
    }
}

/// Turns one entry into an event: an entry without a dance style or without
/// a location gives none; otherwise the adapter's fix-up decides.
pub fn convert_parts<S: IcalendarSource>(parts: &EventParts) -> (r: Option<Event>)
    ensures
        convert_rel::<S>(parts, opt_event_view(r)),
{
    let styles = S::styles(parts);
    if styles.len() == 0 {
        return None;
    }
    let loc = S::location(parts);
    let (country, state, city) = match loc {
        Some(l) => l,
        None => {
            return None;
        },
    };
    let details = if parts.description.as_str().is_empty() { None } else { Some(parts.description.clone()) };
    let mut links: Vec<String> = Vec::new();
    links.push(parts.url.clone());
    let event = Event {
        name: parts.summary.clone(),
        details,
        links,
        time: parts.time,
        country,
        state,
        city,
        styles,
        workshop: S::workshop(parts),
        social: S::social(parts),
        bands: Vec::new(),
        callers: Vec::new(),
        price: None,
        organisation: copy_opt(&parts.organiser),
        cancelled: false,
        source: None,
    };
    let ghost l = (event.country, event.state, event.city);
    assert(event@.links =~= seq![parts.url]);
    assert(event@.bands =~= Seq::<String>::empty());
    assert(event@.callers =~= Seq::<String>::empty());
    assert(event@ == assembled::<S>(parts, l));
    S::fixup(event)
}

/// The events among optional results, in order.
pub open spec fn somes(s: Seq<Option<EventView>>) -> Seq<EventView>
    decreases s.len(),
{
    if s.len() == 0 {
        Seq::empty()
    } else {
        match s.last() {
            Some(e) => somes(s.drop_last()).push(e),
            None => somes(s.drop_last()),
        }
    }
}

/// Imports a batch of entries: the result holds, in entry order, the event
/// that each entry gives; an entry that gives none is skipped alone.
pub fn import_parts<S: IcalendarSource>(all: &Vec<EventParts>) -> (r: Vec<Event>)
    ensures
        exists|outs: Seq<Option<EventView>>| #![trigger somes(outs)] outs.len() == all@.len() && (forall|i: int|
            0 <= i < all@.len() ==> convert_rel::<S>(&all@[i], #[trigger] outs[i])) && views(r@) == somes(outs),
{
    let mut out: Vec<Event> = Vec::new();
    let ghost mut outs: Seq<Option<EventView>> = Seq::empty();
    let mut i: usize = 0;
    while i < all.len()
        invariant
            i <= all@.len(),
            outs.len() == i,
            forall|k: int| 0 <= k < i ==> convert_rel::<S>(&all@[k], #[trigger] outs[k]),
            views(out@) == somes(outs),
        decreases all@.len() - i,
    {
        let c = convert_parts::<S>(&all[i]);
        let ghost before = outs;
        proof {
            outs = outs.push(opt_event_view(c));
            assert(outs.drop_last() =~= before);
        }
        match c {
            Some(e) => {
                out.push(e);
                assert(views(out@) =~= somes(before).push(outs.last()->0));
            },
            None => {},
        }
        i = i + 1;
    }
    out
}

/// The Dresden calendar of dance events.
pub struct Dresden;

/// The Dresden calendar of the weekly Tuesday dance.
pub struct DresdenWeekly;

pub open spec fn balfolk_only() -> Seq<DanceStyle> {
    seq![DanceStyle::Balfolk]
}

/// The zone whose local times the Dresden feeds give.
pub open spec fn berlin() -> Seq<char> {
    "Europe/Berlin"@
}

/// The local time that a date and time name, their offset set aside.
pub open spec fn local_of(t: DateTime) -> LocalTime {
    LocalTime { date: t.date, hour: t.hour, minute: t.minute, second: t.second }
}

/// The UTC date and time of an instant read again as a local time in
/// Europe/Berlin.
pub open spec fn berlin_reading(t: DateTime) -> Option<DateTime> {
    match in_zone_of(t, "UTC"@) {
        Some(u) => zoned_spec(local_of(u), berlin()),
        None => None,
    }
}

/// The Dresden fix-up: the feeds mark local Berlin times as UTC, so the UTC
/// date and time of each instant are read again in Europe/Berlin, and an
/// event whose local time names no single instant there is vetoed; the
/// organisation and source are set and the series' page is put first among
/// the links.
pub open spec fn dresden_fixup_rel(before: EventView, after: Option<EventView>, link: Seq<char>) -> bool {
    let time_ok = match before.time {
        EventTime::DateTime { start, end } => berlin_reading(start) is Some && berlin_reading(end) is Some,
        EventTime::DateOnly { .. } => true,
    };
    if !time_ok {
        after is None
    } else {
        after matches Some(a) && {
            &&& a.time == match before.time {
                EventTime::DateTime { start, end } => EventTime::DateTime {
                    start: berlin_reading(start)->0,
                    end: berlin_reading(end)->0,
                },
                EventTime::DateOnly { .. } => before.time,
            }
            &&& a.organisation matches Some(o) && o@ == "Folktanz Dresden e.V."@
            &&& a.links.len() == before.links.len() + 1
            &&& a.links[0]@ == link
            &&& a.links.skip(1) == before.links
            &&& a.source == Some(Source::Dresden)
            &&& a == EventView { time: a.time, organisation: a.organisation, links: a.links, source: a.source, ..before }
        }
    }
}

fn berlin_time(t: DateTime) -> (r: Option<DateTime>)
    ensures
        r == berlin_reading(t),
{
    let utc = "UTC";
    let t = match instant_in_zone(t, utc) {
        Some(u) => u,
        None => {
            return None;
        },
    };
    let z = "Europe/Berlin";
    proof {
        assert(z@ == berlin());
    }
    let l = LocalTime { date: t.date, hour: t.hour, minute: t.minute, second: t.second };
    match offset_in_zone(z, l) {
        Some(o) => Some(DateTime { date: t.date, hour: t.hour, minute: t.minute, second: t.second, offset_seconds: o }),
        None => None,
    }
}

fn dresden_fixup(event: Event, link: &str) -> (r: Option<Event>)
    ensures
        dresden_fixup_rel(event@, opt_event_view(r), link@),
{
    let mut event = event;
    let ghost before = event@;
    match event.time {
        EventTime::DateTime { start, end } => {
            match (berlin_time(start), berlin_time(end)) {
                (Some(a), Some(b)) => {
                    event.time = EventTime::DateTime { start: a, end: b };
                },
                _ => {
                    return None;
                },
            }
        },
        EventTime::DateOnly { .. } => {},
    }
    event.organisation = Some("Folktanz Dresden e.V.".to_string());
    event.source = Some(Source::Dresden);
    let ghost mid = event.links@;
    event.links.insert(0, link.to_string());
    assert(event.links@.skip(1) =~= mid);
    Some(event)
}

impl IcalendarSource for Dresden {
    open spec fn styles_spec(parts: &EventParts) -> Seq<DanceStyle> {
        balfolk_only()
    }

    /// A workshop exactly when the lower-cased summary names a "tanzfest".
    open spec fn workshop_spec(parts: &EventParts) -> bool {
        contains_spec(lower_of(parts.summary@), "tanzfest"@)
    }

    open spec fn social_spec(parts: &EventParts) -> bool {
        true
    }

    /// Germany; Hohnstein when the summary names it, otherwise Dresden.
    open spec fn location_rel(parts: &EventParts, l: Option<(String, Option<String>, String)>) -> bool {
        l matches Some(x) && x.0@ == "Germany"@ && x.1 is None && x.2@ == (if contains_spec(parts.summary@, "Hohnstein"@) {
            "Hohnstein"@
        } else {
            "Dresden"@
        })
    }

    open spec fn fixup_rel(before: EventView, after: Option<EventView>) -> bool {
        dresden_fixup_rel(before, after, "https://www.gugelhupf-dresden.de/tanz-in-dresden/"@)
    }

    fn workshop(parts: &EventParts) -> (r: bool) {
        let lower = lowercase(parts.summary.as_str());
        contains(lower.as_str(), "tanzfest")
    }

    fn social(parts: &EventParts) -> (r: bool) {
        true
    }

    fn styles(parts: &EventParts) -> (r: Vec<DanceStyle>) {
        let mut v: Vec<DanceStyle> = Vec::new();
        v.push(DanceStyle::Balfolk);
        assert(v@ =~= balfolk_only());
        v
    }

    fn location(parts: &EventParts) -> (r: Option<(String, Option<String>, String)>) {
        let city = if contains(parts.summary.as_str(), "Hohnstein") { "Hohnstein" } else { "Dresden" };
        Some(("Germany".to_string(), None, city.to_string()))
    }

    fn fixup(event: Event) -> (r: Option<Event>) {
        dresden_fixup(event, "https://www.gugelhupf-dresden.de/tanz-in-dresden/")
    }
}

impl IcalendarSource for DresdenWeekly {
    open spec fn styles_spec(parts: &EventParts) -> Seq<DanceStyle> {
        balfolk_only()
    }

    open spec fn workshop_spec(parts: &EventParts) -> bool {
        true
    }

    open spec fn social_spec(parts: &EventParts) -> bool {
        true
    }

    /// Always Dresden, Germany.
    open spec fn location_rel(parts: &EventParts, l: Option<(String, Option<String>, String)>) -> bool {
        l matches Some(x) && x.0@ == "Germany"@ && x.1 is None && x.2@ == "Dresden"@
    }

    open spec fn fixup_rel(before: EventView, after: Option<EventView>) -> bool {
        dresden_fixup_rel(before, after, "https://www.gugelhupf-dresden.de/tanz-am-dienstag/"@)
    }

    fn workshop(parts: &EventParts) -> (r: bool) {
        true
    }

    fn social(parts: &EventParts) -> (r: bool) {
        true
    }

    fn styles(parts: &EventParts) -> (r: Vec<DanceStyle>) {
        let mut v: Vec<DanceStyle> = Vec::new();
        v.push(DanceStyle::Balfolk);
        assert(v@ =~= balfolk_only());
        v
    }

    fn location(parts: &EventParts) -> (r: Option<(String, Option<String>, String)>) {
        Some(("Germany".to_string(), None, "Dresden".to_string()))
    }

    fn fixup(event: Event) -> (r: Option<Event>) {
        dresden_fixup(event, "https://www.gugelhupf-dresden.de/tanz-am-dienstag/")
    }
}

/// The calendar escapes and entities decoded, one kind after another.
pub open spec fn unescape_spec(s: Seq<char>) -> Seq<char> {
    let a = replace_spec(s, "\\,"@, ","@);
    let b = replace_spec(a, "\\;"@, ";"@);
    let c = replace_spec(b, "\\n"@, "\n"@);
    let d = replace_spec(c, "&amp;"@, "&"@);
    let e = replace_spec(d, "&gt;"@, ">"@);
    let f = replace_spec(e, "&lt;"@, "<"@);
    replace_spec(f, "&nbsp;"@, " "@)
}

/// Decodes the escaped commas, semicolons and newlines of a calendar text
/// and the HTML entities `&amp;`, `&gt;`, `&lt;` and `&nbsp;`.
pub fn unescape(s: &str) -> (r: String)
    ensures
        r@ == unescape_spec(s@),
{
    let a = replace(s, "\\,", ",");
    let b = replace(a.as_str(), "\\;", ";");
    let c = replace(b.as_str(), "\\n", "\n");
    let d = replace(c.as_str(), "&amp;", "&");
    let e = replace(d.as_str(), "&gt;", ">");
    let f = replace(e.as_str(), "&lt;", "<");
    replace(f.as_str(), "&nbsp;", " ")
}

} // verus!
