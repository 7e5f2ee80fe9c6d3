use dancelist::corpus::group_by_month;
use dancelist::model::{matching, Date, DanceStyle, Event, EventTime, Filters, Source};
use dancelist::reconcile::{reconcile, FetchWindow};

fn event(name: &str, link: &str, country: &str, city: &str, y: i32, m: u32, d: u32) -> Event {
    let date = Date { year: y, month: m, day: d };
    Event {
        name: name.to_string(),
        details: None,
        links: if link.is_empty() { vec![] } else { vec![link.to_string()] },
        time: EventTime::DateOnly { start_date: date, end_date: date },
        country: country.to_string(),
        state: None,
        city: city.to_string(),
        styles: vec![DanceStyle::Balfolk],
        workshop: false,
        social: true,
        bands: vec!["Naragonia".to_string()],
        callers: vec![],
        price: None,
        organisation: Some("Org".to_string()),
        cancelled: false,
        source: None,
    }
}

#[test]
fn groups_by_month() {
    let events = vec![
        event("c", "", "UK", "London", 2024, 2, 3),
        event("b", "", "UK", "London", 2024, 1, 15),
        event("a", "", "UK", "London", 2024, 1, 2),
    ];
    let months = group_by_month(&events);
    assert_eq!(months.len(), 2);
    assert_eq!(months[0].start, Date { year: 2024, month: 1, day: 1 });
    assert_eq!(months[0].events.len(), 2);
    assert_eq!(months[0].events[0].name, "a");
    assert_eq!(months[0].events[1].name, "b");
    assert_eq!(months[1].start, Date { year: 2024, month: 2, day: 1 });
    assert_eq!(months[1].events.len(), 1);
}

#[test]
fn grouping_is_stable() {
    let events = vec![
        event("first", "", "UK", "London", 2024, 5, 1),
        event("second", "", "UK", "London", 2024, 5, 1),
    ];
    let months = group_by_month(&events);
    assert_eq!(months.len(), 1);
    assert_eq!(months[0].events[0].name, "first");
    assert_eq!(months[0].events[1].name, "second");
    assert!(group_by_month(&vec![]).is_empty());
}

#[test]
fn filters() {
    let events = vec![
        event("Contra night", "", "USA", "Boston", 2024, 1, 2),
        event("Bal", "", "UK", "London", 2024, 1, 3),
        event("usa lower", "", "usa", "Boston", 2024, 1, 4),
    ];
    assert_eq!(matching(&events, &Filters::none()).len(), 3);
    let mut f = Filters::none();
    f.country = Some("USA".to_string());
    let r = matching(&events, &f);
    assert_eq!(r.len(), 1);
    assert_eq!(r[0].name, "Contra night");
    let mut f = Filters::none();
    f.city = Some("LON".to_string());
    assert_eq!(matching(&events, &f).len(), 1);
    let mut f = Filters::none();
    f.band = Some("naragonia".to_string());
    f.name = Some("NIGHT".to_string());
    assert_eq!(matching(&events, &f).len(), 1);
    let mut f = Filters::none();
    f.style = Some(DanceStyle::Contra);
    assert_eq!(matching(&events, &f).len(), 0);
}

fn window() -> Vec<FetchWindow> {
    vec![FetchWindow {
        source: None,
        first: Date { year: 2024, month: 1, day: 1 },
        last: Date { year: 2024, month: 6, day: 30 },
    }]
}

#[test]
fn reconcile_keeps_cancellation() {
    let mut stored = event("Ball", "https://x/1", "UK", "London", 2024, 3, 1);
    stored.cancelled = true;
    let mut fresh = event("Ball renamed", "https://x/1", "UK", "London", 2024, 3, 1);
    fresh.price = Some("£5".to_string());
    let r = reconcile(&vec![stored], &vec![fresh], &window());
    assert_eq!(r.len(), 1);
    assert!(r[0].cancelled);
    assert_eq!(r[0].name, "Ball renamed");
    assert_eq!(r[0].price, Some("£5".to_string()));
}

#[test]
fn reconcile_drops_stale_and_keeps_outside() {
    let stale = event("Stale", "https://x/2", "UK", "London", 2024, 3, 1);
    let later = event("Later", "https://x/3", "UK", "London", 2025, 3, 1);
    let past = event("Past", "", "UK", "London", 2023, 3, 1);
    let fresh = event("New", "https://x/4", "UK", "London", 2024, 4, 1);
    let r = reconcile(&vec![stale, later, past], &vec![fresh], &window());
    let names: Vec<&str> = r.iter().map(|e| e.name.as_str()).collect();
    assert_eq!(names, vec!["New", "Later", "Past"]);
}

#[test]
fn reconcile_is_idempotent_and_dedups() {
    let old = vec![
        event("A", "https://x/1", "UK", "London", 2024, 3, 1),
        event("B", "", "UK", "London", 2023, 1, 1),
    ];
    let new = vec![
        event("C", "https://x/5", "UK", "London", 2024, 3, 5),
        event("C again", "https://x/5", "UK", "London", 2024, 3, 6),
    ];
    let once = reconcile(&old, &new, &window());
    let twice = reconcile(&once, &new, &window());
    let a: Vec<&str> = once.iter().map(|e| e.name.as_str()).collect();
    let b: Vec<&str> = twice.iter().map(|e| e.name.as_str()).collect();
    assert_eq!(a, vec!["C again", "B"]);
    assert_eq!(a, b);
}

#[test]
fn reconcile_keeps_sources_that_were_not_fetched() {
    let mut other = event("Weekly", "https://y/1", "Germany", "Dresden", 2024, 3, 1);
    other.source = Some(Source::Dresden);
    let stale = event("Stale", "https://x/2", "UK", "London", 2024, 3, 1);
    let r = reconcile(&vec![other, stale], &vec![], &window());
    let names: Vec<&str> = r.iter().map(|e| e.name.as_str()).collect();
    assert_eq!(names, vec!["Weekly"]);
}

#[test]
fn matching_sorts_by_start() {
    let events = vec![
        event("late", "", "UK", "London", 2024, 3, 2),
        event("early", "", "UK", "London", 2024, 1, 2),
    ];
    let r = matching(&events, &Filters::none());
    assert_eq!(r[0].name, "early");
    assert_eq!(r[1].name, "late");
}
