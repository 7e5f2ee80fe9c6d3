//! The balfolk.nl calendar.
use vstd::prelude::*;
use crate::importers::pipeline::{unescape, unescape_spec};
use crate::model::{DanceStyle, Event, EventTime, EventView, Source};
use crate::reconcile::opt_view;
use crate::text::{before_last, before_last_or_all, chars_of, contains, contains_spec, replace, replace_spec, same_text,
    split, split_spec, starts_with, starts_with_spec, string_of, trim, trim_start, trim_start_spec, trimmed_of};

verus! {

/// Whether a balfolk.nl event teaches, from its name and description.
pub open spec fn bf_workshop(name: Seq<char>, desc: Seq<char>) -> bool {
    contains_spec(name, "Fundamentals"@)
        || contains_spec(name, "Basis van"@)
        || contains_spec(name, "beginnerslessen"@)
        || contains_spec(name, "danslessen"@)
        || contains_spec(name, "workshop"@)
        || starts_with_spec(name, "Socialles "@)
        || starts_with_spec(name, "Proefles "@)
        || name == "DenneFeest"@
        || name == "Folkbal Wilhelmina"@
        || contains_spec(desc, "Dansworkshop"@)
        || contains_spec(desc, "Workshopbeschrijving"@)
        || contains_spec(desc, "Workshop "@)
        || contains_spec(desc, "dans uitleg"@)
        || contains_spec(desc, "dansuitleg"@)
        || contains_spec(desc, " leren "@)
        || contains_spec(desc, "Vooraf dansuitleg"@)
        || contains_spec(desc, "de Docent"@)
}

/// Whether a balfolk.nl event is a social dance, from its name and
/// description.
pub open spec fn bf_social(name: Seq<char>, desc: Seq<char>) -> bool {
    contains_spec(name, "Social dance"@)
        || contains_spec(name, "Balfolkbal"@)
        || contains_spec(name, "Avondbal"@)
        || contains_spec(name, "Bal in"@)
        || contains_spec(name, "Balfolk Bal"@)
        || contains_spec(name, "Vuurbal"@)
        || starts_with_spec(name, "Balfolk Wilhelmina"@)
        || starts_with_spec(name, "Fest Noz"@)
        || starts_with_spec(name, "Folkwoods"@)
        || starts_with_spec(name, "Folkbal"@)
        || starts_with_spec(name, "Socialles "@)
        || starts_with_spec(name, "Verjaardagsbal"@)
        || starts_with_spec(name, "Balfolk Utrecht Bal"@)
        || name == "Balfolk café Nijmegen"@
        || name == "DenneFeest"@
        || name == "Folkbal Wilhelmina"@
        || contains_spec(desc, "Bal deel"@)
}

fn bf_workshop_exec(name: &str, desc: &str) -> (r: bool)
    ensures
        r == bf_workshop(name@, desc@),
{
    contains(name, "Fundamentals")
        || contains(name, "Basis van")
        || contains(name, "beginnerslessen")
        || contains(name, "danslessen")
        || contains(name, "workshop")
        || starts_with(name, "Socialles ")
        || starts_with(name, "Proefles ")
        || same_text(name, "DenneFeest")
        || same_text(name, "Folkbal Wilhelmina")
        || contains(desc, "Dansworkshop")
        || contains(desc, "Workshopbeschrijving")
        || contains(desc, "Workshop ")
        || contains(desc, "dans uitleg")
        || contains(desc, "dansuitleg")
        || contains(desc, " leren ")
        || contains(desc, "Vooraf dansuitleg")
        || contains(desc, "de Docent")
}

fn bf_social_exec(name: &str, desc: &str) -> (r: bool)
    ensures
        r == bf_social(name@, desc@),
{
    contains(name, "Social dance")
        || contains(name, "Balfolkbal")
        || contains(name, "Avondbal")
        || contains(name, "Bal in")
        || contains(name, "Balfolk Bal")
        || contains(name, "Vuurbal")
        || starts_with(name, "Balfolk Wilhelmina")
        || starts_with(name, "Fest Noz")
        || starts_with(name, "Folkwoods")
        || starts_with(name, "Folkbal")
        || starts_with(name, "Socialles ")
        || starts_with(name, "Verjaardagsbal")
        || starts_with(name, "Balfolk Utrecht Bal")
        || same_text(name, "Balfolk café Nijmegen")
        || same_text(name, "DenneFeest")
        || same_text(name, "Folkbal Wilhelmina")
        || contains(desc, "Bal deel")
}

/// The summary's name: escaped commas decoded, the city after the last
/// comma dropped.
pub open spec fn bf_raw_name(summary: Seq<char>) -> Seq<char> {
    let s = replace_spec(summary, "\\,"@, ","@);
    match before_last(s, ',') {
        Some(p) => p,
        None => s,
    }
}

/// The city from the location's fields: the fourth of eight, otherwise the
/// third when there are at least four; a shorter location holds no city.
pub open spec fn bf_city(location: Seq<char>) -> Option<Seq<char>> {
    let f = split_spec(location, "\\, "@);
    if f.len() == 8 {
        Some(f[3])
    } else if f.len() >= 4 {
        Some(f[2])
    } else {
        None
    }
}

/// The names of the roster that the description mentions, in roster order.
pub open spec fn roster_in(roster: Seq<String>, desc: Seq<char>) -> Seq<String>
    decreases roster.len(),
{
    if roster.len() == 0 {
        Seq::empty()
    } else {
        let prev = roster_in(roster.drop_last(), desc);
        if contains_spec(desc, roster.last()@) {
            prev.push(roster.last())
        } else {
            prev
        }
    }
}

fn roster_in_exec(roster: &Vec<String>, desc: &str) -> (r: Vec<String>)
    ensures
        r@ == roster_in(roster@, desc@),
{
    let mut out: Vec<String> = Vec::new();
    let mut i: usize = 0;
    while i < roster.len()
        invariant
            i <= roster@.len(),
            out@ == roster_in(roster@.subrange(0, i as int), desc@),
        decreases roster@.len() - i,
    {
        assert(roster@.subrange(0, i + 1).drop_last() =~= roster@.subrange(0, i as int));
        if contains(desc, roster[i].as_str()) {
            out.push(roster[i].clone());
        }
        i = i + 1;
    }
    assert(roster@.subrange(0, roster@.len() as int) =~= roster@);
    out
}

/// The details: the description without the name repeated at its start,
/// trimmed; `None` when nothing is left.
pub open spec fn bf_details(raw_name: Seq<char>, desc: Seq<char>) -> Option<Seq<char>> {
    let d = trimmed_of(trim_start_spec(desc, raw_name + seq![',', ' ']));
    if d.len() == 0 { None } else { Some(d) }
}

/// Converts a balfolk.nl calendar entry. Music workshops ("Muziekstage")
/// and entries whose location is too short to hold a city give none. Otherwise the name loses its city and takes em dashes, the
/// details are the unescaped description without the repeated name, the
/// city comes from the location's fields, workshop and social follow the
/// name and description, and bands are the roster's names that a social
/// event's description mentions.
pub fn convert_balfolknl(url: &str, summary: &str, description: &str, location: &str, time: EventTime,
    bands: &Vec<String>) -> (r: Option<Event>)
    ensures
        ({
            let raw = bf_raw_name(summary@);
            let name = replace_spec(raw, " - "@, " — "@);
            let desc = unescape_spec(description@);
            if starts_with_spec(name, "Muziekstage"@) || bf_city(location@) is None {
                r is None
            } else {
                r matches Some(e) && {
                    &&& e.name@ == name
                    &&& opt_view(e.details) == bf_details(raw, desc)
                    &&& e.links.len() == 1 && e.links[0]@ == url@
                    &&& e.time == time
                    &&& e.country@ == "Netherlands"@
                    &&& e.state is None
                    &&& e.city@ == bf_city(location@)->0
                    &&& e.styles@ == seq![DanceStyle::Balfolk]
                    &&& e.workshop == bf_workshop(name, desc)
                    &&& e.social == bf_social(name, desc)
                    &&& e.bands@ == (if bf_social(name, desc) { roster_in(bands@, desc) } else { Seq::empty() })
                    &&& e.callers@.len() == 0
                    &&& e.price is None
                    &&& opt_view(e.organisation) == Some("balfolk.nl"@)
                    &&& !e.cancelled
                    &&& e.source == Some(Source::BalfolkNl)
                }
            }
        }),
{
    let s = replace(summary, "\\,", ",");
    let raw = before_last_or_all(s.as_str(), ',');
    let name = replace(raw.as_str(), " - ", " — ");
    if starts_with(name.as_str(), "Muziekstage") {
        return None;
    }
    let desc = unescape(description);
    let mut pre = chars_of(raw.as_str());
    pre.push(',');
    pre.push(' ');
    let pre = string_of(&pre);
    let rest = trim_start(desc.as_str(), pre.as_str());
    let d = trim(rest.as_str());
    proof {
        assert(pre@ =~= raw@ + seq![',', ' ']);
    }
    let details = if d.as_str().is_empty() { None } else { Some(d) };
    let fields = split(location, "\\, ");
    let city = if fields.len() == 8 {
        fields[3].clone()
    } else if fields.len() >= 4 {
        fields[2].clone()
    } else {
        return None;
    };
    let workshop = bf_workshop_exec(name.as_str(), desc.as_str());
    let social = bf_social_exec(name.as_str(), desc.as_str());
    let band_names = if social { roster_in_exec(bands, desc.as_str()) } else { Vec::new() };
    let mut links: Vec<String> = Vec::new();
    links.push(url.to_string());
    let mut styles: Vec<DanceStyle> = Vec::new();
    styles.push(DanceStyle::Balfolk);
    let e = Event {
        name,
        details,
        links,
        time,
        country: "Netherlands".to_string(),
        state: None,
        city,
        styles,
        workshop,
        social,
        bands: band_names,
        callers: Vec::new(),
        price: None,
        organisation: Some("balfolk.nl".to_string()),
        cancelled: false,
        source: Some(Source::BalfolkNl),
    };
    assert(e.styles@ =~= seq![DanceStyle::Balfolk]);
    assert(social ==> e.bands@ == roster_in(bands@, desc@));
    assert(!social ==> e.bands@ =~= Seq::<String>::empty());
    Some(e)
}

/// The bands that play at balfolk.nl events.
pub open spec fn balfolknl_band_names() -> Seq<Seq<char>> {
    seq![
        "Achterband"@,
        "Androneda"@,
        "Artisjok"@,
        "Aurélien Claranbaux"@,
        "Beat Bouet Trio"@,
        "Berkenwerk"@,
        "BmB"@,
        "Celts without Borders"@,
        "Duo Absynthe"@,
        "Duo Mackie/Hendrix"@,
        "Duo Roblin-Thebaut"@,
        "Emelie Waldken"@,
        "Fahrenheit"@,
        "Geronimo"@,
        "Hartwin Dhoore"@,
        "La Sauterelle"@,
        "Laouen"@,
        "Les Bottines Artistiques"@,
        "Les Zéoles"@,
        "Madlot"@,
        "Mieneke"@,
        "Momiro"@,
        "Naragonia"@,
        "Nebel"@,
        "Nubia"@,
        "Paracetamol"@,
        "QuiVive"@,
        "Swinco"@,
        "Wilma"@,
        "Wouter en de Draak"@,
        "Wouter Kuyper"@,
    ]
}

/// The roster of bands that balfolk.nl descriptions are searched for.
pub fn balfolknl_bands() -> (r: Vec<String>)
    ensures
        r@.len() == balfolknl_band_names().len(),
        forall|i: int| 0 <= i < r@.len() ==> (#[trigger] r@[i])@ == balfolknl_band_names()[i],
{
    let mut v: Vec<String> = Vec::new();
    v.push("Achterband".to_string());
    v.push("Androneda".to_string());
    v.push("Artisjok".to_string());
    v.push("Aurélien Claranbaux".to_string());
    v.push("Beat Bouet Trio".to_string());
    v.push("Berkenwerk".to_string());
    v.push("BmB".to_string());
    v.push("Celts without Borders".to_string());
    v.push("Duo Absynthe".to_string());
    v.push("Duo Mackie/Hendrix".to_string());
    v.push("Duo Roblin-Thebaut".to_string());
    v.push("Emelie Waldken".to_string());
    v.push("Fahrenheit".to_string());
    v.push("Geronimo".to_string());
    v.push("Hartwin Dhoore".to_string());
    v.push("La Sauterelle".to_string());
    v.push("Laouen".to_string());
    v.push("Les Bottines Artistiques".to_string());
    v.push("Les Zéoles".to_string());
    v.push("Madlot".to_string());
    v.push("Mieneke".to_string());
    v.push("Momiro".to_string());
    v.push("Naragonia".to_string());
    v.push("Nebel".to_string());
    v.push("Nubia".to_string());
    v.push("Paracetamol".to_string());
    v.push("QuiVive".to_string());
    v.push("Swinco".to_string());
    v.push("Wilma".to_string());
    v.push("Wouter en de Draak".to_string());
    v.push("Wouter Kuyper".to_string());
    v
}

} // verus!
