use dancelist::calendar::{resolve_time, LocalTime, RawTime, TimeError};
use dancelist::importers::cdss::get_styles;
use dancelist::importers::plugevents::{fix_organisation, format_price, PlugEvent};
use dancelist::model::{Date, DanceStyle, EventTime};

fn plug(is_free: bool, price_display: Option<&str>) -> PlugEvent {
    PlugEvent {
        name: String::new(),
        description: String::new(),
        venue_locale: None,
        plug_url: String::new(),
        is_free,
        price_display: price_display.map(|p| p.to_string()),
        published_by_name: None,
    }
}

#[test]
fn test_format_price() {
    assert_eq!(format_price(&plug(false, None)), None);
    assert_eq!(format_price(&plug(false, Some("€ 10"))), Some("€10".to_string()));
    assert_eq!(format_price(&plug(false, Some("€ 5-23"))), Some("€5-€23".to_string()));
}

#[test]
fn free_price() {
    assert_eq!(format_price(&plug(true, Some("€ 10"))), Some("free".to_string()));
    assert_eq!(format_price(&plug(false, Some("5 - 10 EUR"))), Some("5-10EUR".to_string()));
}

#[test]
fn organisation_renamed() {
    assert_eq!(fix_organisation("Chata Numinosum"), "Numinosum");
    assert_eq!(fix_organisation("Folkbal"), "Folkbal");
}

#[test]
fn styles_from_categories_and_summary() {
    let cats = vec!["Contra Dance".to_string(), "English Country Dance".to_string()];
    assert_eq!(
        get_styles(&cats, "BalFolk night"),
        vec![DanceStyle::Contra, DanceStyle::EnglishCountryDance, DanceStyle::Balfolk]
    );
    assert_eq!(get_styles(&vec![], "Square dance"), vec![]);
}

fn date(year: i32, month: u32, day: u32) -> Date {
    Date { year, month, day }
}

#[test]
fn whole_day_end_is_inclusive() {
    let r = resolve_time(&RawTime::Date(date(2024, 3, 1)), &RawTime::Date(date(2024, 3, 3)), "Europe/Amsterdam");
    assert_eq!(r, Ok(EventTime::DateOnly { start_date: date(2024, 3, 1), end_date: date(2024, 3, 2) }));
    let r = resolve_time(&RawTime::Date(date(2024, 2, 28)), &RawTime::Date(date(2024, 3, 1)), "Europe/Amsterdam");
    assert_eq!(r, Ok(EventTime::DateOnly { start_date: date(2024, 2, 28), end_date: date(2024, 2, 29) }));
    let r = resolve_time(&RawTime::Date(date(2023, 12, 31)), &RawTime::Date(date(2024, 1, 1)), "Europe/Amsterdam");
    assert_eq!(r, Ok(EventTime::DateOnly { start_date: date(2023, 12, 31), end_date: date(2023, 12, 31) }));
}

#[test]
fn zoned_times_get_offsets() {
    let t = LocalTime { date: date(2022, 4, 1), hour: 19, minute: 0, second: 0 };
    let z = "Europe/Amsterdam".to_string();
    let r = resolve_time(&RawTime::Zoned(t, z.clone()), &RawTime::Zoned(t, z), "Europe/Amsterdam");
    match r {
        Ok(EventTime::DateTime { start, end }) => {
            assert_eq!(start.offset_seconds, 7200);
            assert_eq!(end.offset_seconds, 7200);
            assert_eq!(start.hour, 19);
        }
        _ => panic!("expected a time"),
    }
}

#[test]
fn time_errors() {
    let t = LocalTime { date: date(2022, 4, 1), hour: 19, minute: 0, second: 0 };
    let r = resolve_time(&RawTime::Zoned(t, "Europe/Berlin".to_string()), &RawTime::Zoned(t, "Europe/Amsterdam".to_string()), "Europe/Amsterdam");
    assert_eq!(r, Err(TimeError::UnexpectedZone));
    let r = resolve_time(&RawTime::Date(date(2022, 4, 1)), &RawTime::Zoned(t, "Europe/Amsterdam".to_string()), "Europe/Amsterdam");
    assert_eq!(r, Err(TimeError::Mismatched));
    let r = resolve_time(&RawTime::Date(date(2022, 2, 30)), &RawTime::Date(date(2022, 3, 2)), "Europe/Amsterdam");
    assert_eq!(r, Err(TimeError::InvalidDate));
    let gap = LocalTime { date: date(2022, 3, 27), hour: 2, minute: 30, second: 0 };
    let r = resolve_time(&RawTime::Zoned(gap, "Europe/Amsterdam".to_string()), &RawTime::Zoned(t, "Europe/Amsterdam".to_string()), "Europe/Amsterdam");
    assert_eq!(r, Err(TimeError::AmbiguousTime));
}

use dancelist::importers::pipeline::{convert_parts, import_parts, unescape, Dresden, DresdenWeekly, EventParts};
use dancelist::text::replace;

fn parts(summary: &str) -> EventParts {
    let d = date(2024, 5, 4);
    EventParts {
        url: "https://example.org/e".to_string(),
        summary: summary.to_string(),
        description: String::new(),
        location: None,
        time: EventTime::DateOnly { start_date: d, end_date: d },
        organiser: None,
    }
}

#[test]
fn unescapes_calendar_text() {
    assert_eq!(unescape(r"a\, b\; c\nd &amp; &lt;x&gt;&nbsp;y"), "a, b; c\nd & <x> y");
    assert_eq!(replace("a-b-c", "-", "--"), "a--b--c");
    assert_eq!(replace("aaa", "aa", "b"), "ba");
}

#[test]
fn dresden_events() {
    let e = convert_parts::<Dresden>(&parts("Tanzfest in Hohnstein")).unwrap();
    assert_eq!(e.city, "Hohnstein");
    assert_eq!(e.country, "Germany");
    assert!(e.workshop);
    assert!(e.social);
    assert_eq!(e.links[0], "https://www.gugelhupf-dresden.de/tanz-in-dresden/");
    assert_eq!(e.links[1], "https://example.org/e");
    assert_eq!(e.organisation, Some("Folktanz Dresden e.V.".to_string()));
    assert_eq!(e.styles, vec![DanceStyle::Balfolk]);
    assert_eq!(e.details, None);
    let w = import_parts::<DresdenWeekly>(&vec![parts("Tanz am Dienstag"), parts("Tanz")]);
    assert_eq!(w.len(), 2);
    assert_eq!(w[0].city, "Dresden");
    assert_eq!(w[0].links[0], "https://www.gugelhupf-dresden.de/tanz-am-dienstag/");
}

use dancelist::importers::balfolknl::convert_balfolknl;
use dancelist::importers::cdss::{apply_fixes, convert_cdss, get_price, price_from_amounts, ImportError};
use dancelist::importers::plugevents::{convert_plug, EventFormat};
use dancelist::model::{DateTime, Event};

#[test]
fn parse_datetime() {
    let t = LocalTime { date: date(2022, 4, 1), hour: 19, minute: 0, second: 0 };
    let z = "Europe/Amsterdam".to_string();
    let at = DateTime { date: date(2022, 4, 1), hour: 19, minute: 0, second: 0, offset_seconds: 7200 };
    assert_eq!(
        resolve_time(&RawTime::Zoned(t, z.clone()), &RawTime::Zoned(t, z), "Europe/Amsterdam"),
        Ok(EventTime::DateTime { start: at, end: at })
    );
}

#[test]
fn earliest_year_end_dates() {
    let r = resolve_time(&RawTime::Date(date(-262143, 6, 1)), &RawTime::Date(date(-262143, 6, 2)), "UTC");
    assert_eq!(r, Ok(EventTime::DateOnly { start_date: date(-262143, 6, 1), end_date: date(-262143, 6, 1) }));
    let r = resolve_time(&RawTime::Date(date(-262143, 1, 1)), &RawTime::Date(date(-262143, 1, 1)), "UTC");
    assert_eq!(r, Err(TimeError::InvalidDate));
    let r = resolve_time(&RawTime::Date(date(262143, 1, 1)), &RawTime::Date(date(262143, 1, 2)), "UTC");
    assert_eq!(r, Err(TimeError::InvalidDate));
}

#[test]
fn dresden_times_read_in_berlin() {
    let mut p = parts("Tanz");
    let t = DateTime { date: date(2024, 7, 2), hour: 19, minute: 30, second: 0, offset_seconds: 0 };
    p.time = EventTime::DateTime { start: t, end: t };
    let e = convert_parts::<DresdenWeekly>(&p).unwrap();
    match e.time {
        EventTime::DateTime { start, .. } => {
            assert_eq!(start.offset_seconds, 7200);
            assert_eq!(start.hour, 19);
        }
        _ => panic!("expected a time"),
    }
    let gap = DateTime { date: date(2024, 3, 31), hour: 2, minute: 30, second: 0, offset_seconds: 0 };
    p.time = EventTime::DateTime { start: gap, end: t };
    assert!(convert_parts::<DresdenWeekly>(&p).is_none());
}

fn plain_event(name: &str, city: &str, state: Option<&str>) -> Event {
    let d = date(2024, 5, 4);
    Event {
        name: name.to_string(),
        details: None,
        links: vec!["https://cdss.org/e".to_string()],
        time: EventTime::DateOnly { start_date: d, end_date: d },
        country: "USA".to_string(),
        state: state.map(|s| s.to_string()),
        city: city.to_string(),
        styles: vec![DanceStyle::Contra],
        workshop: false,
        social: true,
        bands: vec![],
        callers: vec![],
        price: Some("$3-$18".to_string()),
        organisation: None,
        cancelled: false,
        source: None,
    }
}

#[test]
fn series_fixes() {
    let mut e = plain_event("Goshen Community Contra Dance", "Goshen", Some("IN"));
    apply_fixes(&mut e);
    assert_eq!(e.links, vec!["http://godancing.org/".to_string(), "https://cdss.org/e".to_string()]);
    assert_eq!(e.price, Some("$3-$8".to_string()));
    let mut e = plain_event("North Alabama Country Dance Society - Contra Dance", "401 Chapman St", Some("Greenfield"));
    apply_fixes(&mut e);
    assert_eq!(e.name, "North Alabama Country Dance Society");
    assert_eq!(e.links.len(), 1);
    assert_eq!(e.city, "Greenfield");
    assert_eq!(e.state, Some("MA".to_string()));
    let mut e = plain_event("Contra Dance", "Dallas", Some("TX"));
    apply_fixes(&mut e);
    assert_eq!(e.links.len(), 1);
    let mut e = plain_event("Contra Dance", "Carrollton", Some("TX"));
    apply_fixes(&mut e);
    assert_eq!(e.links[0], "https://www.nttds.org/");
}

#[test]
fn prices_from_descriptions() {
    assert_eq!(get_price("Admission $10, students $5, $ 3"), Ok(Some("$5-$10".to_string())));
    assert_eq!(get_price("Only $12"), Ok(Some("$12".to_string())));
    assert_eq!(get_price("Free"), Ok(None));
    assert_eq!(get_price("$99999999999"), Err(ImportError::InvalidPrice));
    assert_eq!(price_from_amounts(&vec![7, 7]), Some("$7".to_string()));
    assert_eq!(price_from_amounts(&vec![]), None);
}

#[test]
fn cdss_conversion() {
    let mut p = parts("Contra Dance with Live Music in Philadelphia");
    p.description = "Lesson at 7, $10. Music by The Figments".to_string();
    let cats = vec!["Contra Dance".to_string()];
    let loc = Some(vec![
        "Hall".to_string(),
        "Philadelphia".to_string(),
        "PA".to_string(),
        "19119".to_string(),
        "United States".to_string(),
    ]);
    let bands = vec!["The Figments".to_string(), "Other Band".to_string()];
    let e = convert_cdss(&p, &cats, loc.clone(), &bands, &vec![]).unwrap().unwrap();
    assert_eq!(e.name, "Live Music");
    assert_eq!(e.country, "USA");
    assert_eq!(e.state, Some("PA".to_string()));
    assert_eq!(e.city, "Philadelphia");
    assert_eq!(e.price, Some("$10".to_string()));
    assert_eq!(e.organisation, Some("CDSS".to_string()));
    assert_eq!(e.bands, vec!["The Figments".to_string()]);
    assert!(e.workshop);
    assert!(matches!(convert_cdss(&p, &vec![], loc.clone(), &bands, &vec![]), Ok(None)));
    assert!(matches!(convert_cdss(&p, &cats, None, &bands, &vec![]), Err(ImportError::MissingLocation)));
    assert!(matches!(convert_cdss(&p, &cats, Some(vec!["a".to_string(), "b".to_string()]), &bands, &vec![]), Ok(None)));
    let online = parts("Online contra");
    assert!(matches!(convert_cdss(&online, &cats, loc, &bands, &vec![]), Ok(None)));
}

#[test]
fn balfolknl_conversion() {
    let t = EventTime::DateOnly { start_date: date(2024, 5, 4), end_date: date(2024, 5, 4) };
    let bands = vec!["Naragonia".to_string(), "Nubia".to_string()];
    let e = convert_balfolknl(
        "https://www.balfolk.nl/e",
        "Folkbal - Utrecht\\, Utrecht",
        "Folkbal - Utrecht, met Naragonia\\n",
        "Zaal\\, Straat 1\\, Utrecht\\, 3511\\, NL",
        t,
        &bands,
    )
    .unwrap();
    assert_eq!(e.name, "Folkbal — Utrecht");
    assert_eq!(e.details, Some("met Naragonia".to_string()));
    assert_eq!(e.city, "Utrecht");
    assert!(e.social);
    assert_eq!(e.bands, vec!["Naragonia".to_string()]);
    assert_eq!(e.organisation, Some("balfolk.nl".to_string()));
    assert!(convert_balfolknl("u", "Muziekstage, X", "", "", t, &bands).is_none());
}

#[test]
fn plug_conversion() {
    let mut p = plug(false, Some("€ 5-10"));
    p.name = "Bal".to_string();
    p.venue_locale = Some("Venue, Kraków, Lesser Poland, Poland".to_string());
    p.published_by_name = Some("Chata Numinosum".to_string());
    let start = DateTime { date: date(2024, 7, 2), hour: 17, minute: 30, second: 45, offset_seconds: 0 };
    let end = DateTime { date: date(2024, 7, 2), hour: 21, minute: 0, second: 0, offset_seconds: 0 };
    let e = convert_plug(&p, &vec![EventFormat::Festival], "Europe/Warsaw", start, end).unwrap();
    assert_eq!(e.city, "Kraków");
    assert_eq!(e.country, "Poland");
    assert!(e.workshop && e.social);
    assert_eq!(e.price, Some("€5-€10".to_string()));
    assert_eq!(e.organisation, Some("Numinosum".to_string()));
    match e.time {
        EventTime::DateTime { start, end } => {
            assert_eq!((start.hour, start.minute, start.second, start.offset_seconds), (19, 30, 0, 7200));
            assert_eq!(end.hour, 23);
        }
        _ => panic!("expected a time"),
    }
    p.venue_locale = None;
    assert!(convert_plug(&p, &vec![], "Europe/Warsaw", start, end).is_none());
}

use dancelist::importers::balfolknl::balfolknl_bands;
use dancelist::model::Source;

#[test]
fn end_before_start_is_refused() {
    let r = resolve_time(&RawTime::Date(date(2024, 5, 4)), &RawTime::Date(date(2024, 5, 4)), "UTC");
    assert_eq!(r, Err(TimeError::EndBeforeStart));
    let a = LocalTime { date: date(2024, 5, 4), hour: 20, minute: 0, second: 0 };
    let b = LocalTime { date: date(2024, 5, 4), hour: 19, minute: 0, second: 0 };
    let z = "Europe/Amsterdam".to_string();
    let r = resolve_time(&RawTime::Zoned(a, z.clone()), &RawTime::Zoned(b, z), "Europe/Amsterdam");
    assert_eq!(r, Err(TimeError::EndBeforeStart));
}

#[test]
fn unzoned_times_take_the_source_zone() {
    let t = LocalTime { date: date(2022, 4, 1), hour: 19, minute: 0, second: 0 };
    let at = DateTime { date: date(2022, 4, 1), hour: 19, minute: 0, second: 0, offset_seconds: 7200 };
    assert_eq!(
        resolve_time(&RawTime::Floating(t), &RawTime::Floating(t), "Europe/Amsterdam"),
        Ok(EventTime::DateTime { start: at, end: at })
    );
}

#[test]
fn balfolknl_short_location_and_roster() {
    let t = EventTime::DateOnly { start_date: date(2024, 5, 4), end_date: date(2024, 5, 4) };
    let bands = balfolknl_bands();
    assert_eq!(bands.len(), 31);
    assert_eq!(bands[0], "Achterband");
    assert_eq!(bands[30], "Wouter Kuyper");
    assert!(convert_balfolknl("u", "Folkbal, Utrecht", "", "Zaal\\, Utrecht", t, &bands).is_none());
    let e = convert_balfolknl("u", "Folkbal, Utrecht", "met Nubia", "a\\, b\\, Utrecht\\, d", t, &bands).unwrap();
    assert_eq!(e.source, Some(Source::BalfolkNl));
    assert_eq!(e.bands, vec!["Nubia".to_string()]);
}

#[test]
fn converters_tag_their_source() {
    let e = convert_parts::<Dresden>(&parts("Tanz")).unwrap();
    assert_eq!(e.source, Some(Source::Dresden));
    let mut p = parts("Contra Dance");
    p.description = String::new();
    let cats = vec!["Contra Dance".to_string()];
    let loc = Some(vec!["Hall".to_string(), "Leeds".to_string(), "LS1".to_string(), "United Kingdom".to_string()]);
    let e = convert_cdss(&p, &cats, loc, &vec![], &vec![]).unwrap().unwrap();
    assert_eq!(e.source, Some(Source::Cdss));
    assert_eq!(e.country, "UK");
    assert_eq!(e.state, None);
    assert_eq!(e.city, "Leeds");
}
