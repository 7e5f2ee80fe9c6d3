//! The JSON event API: prices and organiser names.
use vstd::prelude::*;
use crate::model::{DanceStyle, Date, DateTime, Event, EventTime, Source};
use crate::reconcile::opt_view;
use crate::text::{chars_of, contains, contains_spec, same_text, split, split_from, split_spec, starts_with_spec, string_of};
use chrono::{Datelike, Offset, Timelike};

verus! {

/// The fields of one event of the JSON event API that normalisation reads.
pub struct PlugEvent {
    pub name: String,
    pub description: String,
    pub venue_locale: Option<String>,
    pub plug_url: String,
    pub is_free: bool,
    pub price_display: Option<String>,
    pub published_by_name: Option<String>,
}

/// The characters other than spaces.
pub open spec fn without_spaces(s: Seq<char>) -> Seq<char>
    decreases s.len(),
{
    if s.len() == 0 {
        Seq::empty()
    } else if s.last() == ' ' {
        without_spaces(s.drop_last())
    } else {
        without_spaces(s.drop_last()).push(s.last())
    }
}

/// Each hyphen followed by the currency sign `c`.
pub open spec fn with_currency(s: Seq<char>, c: char) -> Seq<char>
    decreases s.len(),
{
    if s.len() == 0 {
        Seq::empty()
    } else if s.last() == '-' {
        with_currency(s.drop_last(), c).push('-').push(c)
    } else {
        with_currency(s.drop_last(), c).push(s.last())
    }
}

pub open spec fn is_currency(c: char) -> bool {
    c == '$' || c == '£' || c == '€'
}

/// A displayed price without spaces, with the currency sign repeated after
/// a hyphen when the price starts with one.
pub open spec fn price_text(p: Seq<char>) -> Seq<char> {
    let t = without_spaces(p);
    if t.len() > 0 && is_currency(t[0]) {
        with_currency(t, t[0])
    } else {
        t
    }
}

pub open spec fn format_price_spec(is_free: bool, display: Option<String>) -> Option<Seq<char>> {
    if is_free {
        Some(seq!['f', 'r', 'e', 'e'])
    } else {
        match display {
            Some(p) => Some(price_text(p@)),
            None => None,
        }
    }
}

fn price_text_exec(p: &str) -> (r: Vec<char>)
    ensures
        r@ == price_text(p@),
{
    let cs = chars_of(p);
    let mut t: Vec<char> = Vec::new();
    let mut i: usize = 0;
    while i < cs.len()
        invariant
            i <= cs@.len(),
            cs@ == p@,
            t@ == without_spaces(cs@.subrange(0, i as int)),
        decreases cs@.len() - i,
    {
        assert(cs@.subrange(0, i + 1).drop_last() =~= cs@.subrange(0, i as int));
        if cs[i] != ' ' {
            t.push(cs[i]);
        }
        i = i + 1;
    }
    assert(cs@.subrange(0, cs@.len() as int) =~= cs@);
    if t.len() > 0 && (t[0] == '$' || t[0] == '£' || t[0] == '€') {
        let c = t[0];
        let mut out: Vec<char> = Vec::new();
        let mut j: usize = 0;
        while j < t.len()
            invariant
                j <= t@.len(),
                out@ == with_currency(t@.subrange(0, j as int), c),
            decreases t@.len() - j,
        {
            assert(t@.subrange(0, j + 1).drop_last() =~= t@.subrange(0, j as int));
            if t[j] == '-' {
                out.push('-');
                out.push(c);
            } else {
                out.push(t[j]);
            }
            j = j + 1;
        }
        assert(t@.subrange(0, t@.len() as int) =~= t@);
        out
    } else {
        t
    }
}

/// The displayed price: `free` for a free event, otherwise the given price
/// text without spaces, with its currency sign repeated after each hyphen.
pub fn format_price(event: &PlugEvent) -> (r: Option<String>)
    ensures
        match r {
            Some(s) => format_price_spec(event.is_free, event.price_display) == Some(s@),
            None => format_price_spec(event.is_free, event.price_display) is None,
        },
{
    if event.is_free {
        let mut v: Vec<char> = Vec::new();
        v.push('f');
        v.push('r');
        v.push('e');
        v.push('e');
        let s = string_of(&v);
        assert(s@ =~= seq!['f', 'r', 'e', 'e']);
        Some(s)
    } else {
        match &event.price_display {
            Some(p) => Some(string_of(&price_text_exec(p.as_str()))),
            None => None,
        }
    }
}

/// The organisation under which a publisher is listed.
pub fn fix_organisation(published_by_name: &str) -> (r: String)
    ensures
        published_by_name@ == "Chata Numinosum"@ ==> r@ == "Numinosum"@,
        published_by_name@ != "Chata Numinosum"@ ==> r@ == published_by_name@,
{
    if same_text(published_by_name, "Chata Numinosum") {
        "Numinosum".to_string()
    } else {
        published_by_name.to_string()
    }
}

/// The kinds of event that the API tags an event with.
#[derive(Clone, Copy, Debug, PartialEq, Eq, Structural)]
pub enum EventFormat {
    Bal,
    Balfolk,
    BalfolkNL,
    Folkbal,
    FolkBal,
    Meeting,
    Dansavond,
    LiveMusic,
    LiveMuziek,
    Party,
    Social,
    SocialDancing,
    Practica,
    Advanced,
    Class,
    Course,
    DanceClass,
    Dansles,
    Event,
    Les,
    Learning,
    LessonSeries,
    Intensive,
    Festival,
    SocialClass,
    Sociales,
    Organiser,
    MusicClass,
    Musiekles,
    Teacher,
}

/// Tags that mark teaching.
pub open spec fn teaches(f: EventFormat) -> bool {
    matches!(f, EventFormat::Advanced | EventFormat::Class | EventFormat::Course | EventFormat::DanceClass | EventFormat::Dansles | EventFormat::Event | EventFormat::Les | EventFormat::Learning | EventFormat::LessonSeries | EventFormat::Intensive | EventFormat::Festival | EventFormat::SocialClass | EventFormat::Sociales)
}

/// Tags that mark a social dance.
pub open spec fn is_social_tag(f: EventFormat) -> bool {
    matches!(f, EventFormat::Bal | EventFormat::Balfolk | EventFormat::BalfolkNL | EventFormat::Folkbal | EventFormat::FolkBal | EventFormat::Meeting | EventFormat::Dansavond | EventFormat::LiveMusic | EventFormat::LiveMuziek | EventFormat::Party | EventFormat::Social | EventFormat::SocialDancing | EventFormat::Practica | EventFormat::Festival | EventFormat::SocialClass | EventFormat::Sociales)
}

fn teaches_exec(f: EventFormat) -> (r: bool)
    ensures
        r == teaches(f),
{
    matches!(f, EventFormat::Advanced | EventFormat::Class | EventFormat::Course | EventFormat::DanceClass | EventFormat::Dansles | EventFormat::Event | EventFormat::Les | EventFormat::Learning | EventFormat::LessonSeries | EventFormat::Intensive | EventFormat::Festival | EventFormat::SocialClass | EventFormat::Sociales)
}

fn social_tag_exec(f: EventFormat) -> (r: bool)
    ensures
        r == is_social_tag(f),
{
    matches!(f, EventFormat::Bal | EventFormat::Balfolk | EventFormat::BalfolkNL | EventFormat::Folkbal | EventFormat::FolkBal | EventFormat::Meeting | EventFormat::Dansavond | EventFormat::LiveMusic | EventFormat::LiveMuziek | EventFormat::Party | EventFormat::Social | EventFormat::SocialDancing | EventFormat::Practica | EventFormat::Festival | EventFormat::SocialClass | EventFormat::Sociales)
}

/// What a zone of the time-zone database makes of an instant: its local
/// date and time there, with the zone's offset at that instant.
pub uninterp spec fn in_zone(zone: Seq<char>, year: int, month: int, day: int, hour: int, minute: int, second: int, offset: int) -> Option<DateTime>;

/// Relies on chrono-tz's `Tz` parsed from its name and chrono's
/// `DateTime::with_timezone` and `fixed_offset`: the same instant in the
/// zone's local time, or `None` for an unknown zone or an impossible time.
#[verifier::external_body]
pub(crate) fn instant_in_zone(t: DateTime, zone: &str) -> (r: Option<DateTime>)
    ensures
        r == in_zone(zone@, t.date.year as int, t.date.month as int, t.date.day as int, t.hour as int, t.minute as int,
            t.second as int, t.offset_seconds as int),
{
    let tz: chrono_tz::Tz = zone.parse().ok()?;
    let off = chrono::FixedOffset::east_opt(t.offset_seconds)?;
    let naive = chrono::NaiveDate::from_ymd_opt(t.date.year, t.date.month, t.date.day)?.and_hms_opt(t.hour, t.minute, t.second)?;
    let local = naive.and_local_timezone(off).single()?.with_timezone(&tz).fixed_offset();
    Some(DateTime {
        date: Date { year: local.year(), month: local.month(), day: local.day() },
        hour: local.hour(),
        minute: local.minute(),
        second: local.second(),
        offset_seconds: local.offset().local_minus_utc(),
    })
}

pub open spec fn in_zone_of(t: DateTime, zone: Seq<char>) -> Option<DateTime> {
    in_zone(zone, t.date.year as int, t.date.month as int, t.date.day as int, t.hour as int, t.minute as int,
        t.second as int, t.offset_seconds as int)
}

pub open spec fn any_teaches(s: Seq<EventFormat>) -> bool {
    exists|i: int| 0 <= i < s.len() && teaches(#[trigger] s[i])
}

pub open spec fn any_social(s: Seq<EventFormat>) -> bool {
    exists|i: int| 0 <= i < s.len() && is_social_tag(#[trigger] s[i])
}

/// The city from the venue locale's fields: the second of more than three,
/// otherwise the first.
pub open spec fn plug_city(f: Seq<Seq<char>>) -> Seq<char> {
    if f.len() > 3 { f[1] } else { f[0] }
}

/// Converts an event of the JSON event API. An event without a venue
/// locale, or whose times the zone cannot place, gives none. The country is
/// the locale's last field; the tags decide workshop and social, and a
/// Polish workshop word in name or description marks a workshop too. Times
/// are taken to the event's zone, the start to the whole minute.
pub fn convert_plug(e: &PlugEvent, subinterests: &Vec<EventFormat>, zone: &str, start: DateTime, end: DateTime) -> (r: Option<Event>)
    ensures
        match e.venue_locale {
            None => r is None,
            Some(vl) => match (in_zone_of(start, zone@), in_zone_of(end, zone@)) {
                (Some(a), Some(b)) => r matches Some(x) && {
                    let f = split_spec(vl@, ", "@);
                    &&& x.name == e.name
                    &&& x.details == Some(e.description)
                    &&& x.links@ == seq![e.plug_url]
                    &&& x.time == EventTime::DateTime { start: DateTime { second: 0, ..a }, end: b }
                    &&& x.country@ == f.last()
                    &&& x.state is None
                    &&& x.city@ == plug_city(f)
                    &&& x.styles@ == seq![DanceStyle::Balfolk]
                    &&& x.workshop == (any_teaches(subinterests@) || contains_spec(e.name@, "warsztatów"@)
                        || contains_spec(e.description@, "warsztaty"@))
                    &&& x.social == any_social(subinterests@)
                    &&& x.bands@.len() == 0 && x.callers@.len() == 0
                    &&& opt_view(x.price) == format_price_spec(e.is_free, e.price_display)
                    &&& opt_view(x.organisation) == match e.published_by_name {
                        Some(p) => Some(if p@ == "Chata Numinosum"@ { "Numinosum"@ } else { p@ }),
                        None => None,
                    }
                    &&& !x.cancelled
                    &&& x.source == Some(Source::PlugEvents)
                },
                _ => r is None,
            },
        },
{
    let vl = match &e.venue_locale {
        Some(v) => v,
        None => {
            return None;
        },
    };
    let (a, b) = match (instant_in_zone(start, zone), instant_in_zone(end, zone)) {
        (Some(a), Some(b)) => (a, b),
        _ => {
            return None;
        },
    };
    let fields = split(vl.as_str(), ", ");
    proof {
        assert(split_spec(vl@, ", "@).len() >= 1) by {
            lemma_split_nonempty(vl@, ", "@, Seq::empty());
        }
    }
    let country = fields[fields.len() - 1].clone();
    let city = if fields.len() > 3 { fields[1].clone() } else { fields[0].clone() };
    let mut workshop = false;
    let mut social = false;
    let mut i: usize = 0;
    while i < subinterests.len()
        invariant
            i <= subinterests@.len(),
            workshop == exists|k: int| 0 <= k < i && teaches(#[trigger] subinterests@[k]),
            social == exists|k: int| 0 <= k < i && is_social_tag(#[trigger] subinterests@[k]),
        decreases subinterests@.len() - i,
    {
        let f = subinterests[i];
        if teaches_exec(f) {
            workshop = true;
        }
        if social_tag_exec(f) {
            social = true;
        }
        i = i + 1;
    }
    if contains(e.name.as_str(), "warsztatów") || contains(e.description.as_str(), "warsztaty") {
        workshop = true;
    }
    let mut links: Vec<String> = Vec::new();
    links.push(e.plug_url.clone());
    let mut styles: Vec<DanceStyle> = Vec::new();
    styles.push(DanceStyle::Balfolk);
    let organisation = match &e.published_by_name {
        Some(p) => Some(fix_organisation(p.as_str())),
        None => None,
    };
    let x = Event {
        name: e.name.clone(),
        details: Some(e.description.clone()),
        links,
        time: EventTime::DateTime { start: DateTime { second: 0, ..a }, end: b },
        country,
        state: None,
        city,
        styles,
        workshop,
        social,
        bands: Vec::new(),
        callers: Vec::new(),
        price: format_price(e),
        organisation,
        cancelled: false,
        source: Some(Source::PlugEvents),
    };
    assert(x.links@ =~= seq![e.plug_url]);
    assert(x.styles@ =~= seq![DanceStyle::Balfolk]);
    Some(x)
}

proof fn lemma_split_nonempty(s: Seq<char>, p: Seq<char>, cur: Seq<char>)
    ensures
        split_from(s, p, cur).len() >= 1,
    decreases s.len(),
{
    if s.len() == 0 {
    } else if p.len() > 0 && starts_with_spec(s, p) {
        lemma_split_nonempty(s.skip(p.len() as int), p, Seq::empty());
    } else {
        lemma_split_nonempty(s.skip(1), p, cur.push(s[0]));
    }
}

} // verus!
