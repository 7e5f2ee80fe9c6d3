//! The CDSS calendar: dance styles from categories and summary.
use vstd::prelude::*;
use crate::model::{DanceStyle, Event, EventView, Source};
use crate::reconcile::opt_view;
use crate::text::{contains, contains_spec, copy_str, lower_of, lowercase, replace, replace_spec, same_text, string_of,
    trim_end, trim_end_spec, trim_start, trim_start_spec};
use crate::importers::pipeline::EventParts;

verus! {

pub open spec fn has_category(categories: Seq<String>, c: Seq<char>) -> bool {
    exists|i: int| 0 <= i < categories.len() && (#[trigger] categories[i])@ == c
}

/// Contra for the "Contra Dance" category, English country dance for the
/// "English Country Dance" category and balfolk when the lower-cased summary
/// names it, in that order.
pub open spec fn styles_spec(categories: Seq<String>, summary: Seq<char>) -> Seq<DanceStyle> {
    let a = if has_category(categories, "Contra Dance"@) { seq![DanceStyle::Contra] } else { Seq::empty() };
    let b = if has_category(categories, "English Country Dance"@) { seq![DanceStyle::EnglishCountryDance] } else { Seq::empty() };
    let c = if contains_spec(lower_of(summary), "bal folk"@) || contains_spec(lower_of(summary), "balfolk"@) {
        seq![DanceStyle::Balfolk]
    } else {
        Seq::empty()
    };
    a + b + c
}

fn has_category_exec(categories: &Vec<String>, c: &str) -> (r: bool)
    ensures
        r == has_category(categories@, c@),
{
    let mut i: usize = 0;
    while i < categories.len()
        invariant
            i <= categories@.len(),
            forall|k: int| 0 <= k < i ==> (#[trigger] categories@[k])@ != c@,
        decreases categories@.len() - i,
    {
        if same_text(categories[i].as_str(), c) {
            return true;
        }
        i = i + 1;
    }
    false
}

/// The dance styles of an event from its categories and summary.
pub fn get_styles(categories: &Vec<String>, summary: &str) -> (r: Vec<DanceStyle>)
    ensures
        r@ == styles_spec(categories@, summary@),
{
    let mut styles: Vec<DanceStyle> = Vec::new();
    let lower = lowercase(summary);
    if has_category_exec(categories, "Contra Dance") {
        styles.push(DanceStyle::Contra);
    }
    if has_category_exec(categories, "English Country Dance") {
        styles.push(DanceStyle::EnglishCountryDance);
    }
    if contains(lower.as_str(), "bal folk") || contains(lower.as_str(), "balfolk") {
        styles.push(DanceStyle::Balfolk);
    }
    assert(styles@ =~= styles_spec(categories@, summary@));
    styles
}

/// The permalink and the new name that a known event series gets, from its
/// name, city and state.
pub open spec fn series_fix(name: Seq<char>, city: Seq<char>, state: Option<Seq<char>>) -> (Option<Seq<char>>, Option<Seq<char>>) {
    if name == "Anaheim Contra Dance"@ {
        (Some("https://www.thelivingtradition.org/tltbodydance.html"@), None)
    } else if name == "Capital English Country Dancers"@ {
        (Some("https://www.danceflurry.org/series/capital-english-country-dancers/"@), None)
    } else if name == "CDK Contra Dance"@ {
        (Some("https://www.countrydancinginkalamazoo.com/"@), None)
    } else if name == "Contra Dance"@ && city == "Carrollton"@ && state == Some("TX"@) {
        (Some("https://www.nttds.org/"@), None)
    } else if name == "Denver Contra Dance"@ {
        (Some("https://www.cfootmad.org/"@), None)
    } else if name == "Fourth Friday Experienced Contra at Guiding Star Grange"@ {
        (Some("https://www.guidingstargrange.org/events.html"@), Some("Experienced Contra at Guiding Star Grange"@))
    } else if name == "Friday Night Contra & Square Dance"@ {
        (Some("https://fsgw.org/Friday-contra-square-dance"@), None)
    } else if name == "Goshen Community Contra Dance"@ {
        (Some("http://godancing.org/"@), None)
    } else if name == "Hayward Contra Dance"@ {
        (Some("https://sfbaycontra.org/"@), None)
    } else if name == "Indy Contra Dance"@ {
        (Some("https://www.indycontra.org/"@), None)
    } else if name == "Lancaster Contra Dance"@ {
        (Some("https://lancastercontra.org/"@), None)
    } else if name == "Montpelier Contra Dance"@ {
        (Some("https://capitalcitygrange.org/dancing/contradancing/"@), None)
    } else if name == "North Alabama Country Dance Society - Contra Dance"@ {
        (None, Some("North Alabama Country Dance Society"@))
    } else if name == "Orlando Contra Dance"@ {
        (Some("https://orlandocontra.org/dances-and-events/"@), None)
    } else if name == "Ottawa Contra Dance"@ {
        (Some("https://ottawacontra.ca/"@), None)
    } else if name == "Pittsburgh Contra Dance"@ {
        (Some("https://pittsburghcontra.org/"@), None)
    } else if name == "Quiet Corner Contra Dance"@ {
        (Some("http://www.hcdance.org/quiet-corner-contra/"@), None)
    } else if name == "Richmond Wednesday English Country Dance"@ {
        (Some("https://colonialdanceclubofrichmond.com/english-dance-calendar"@), None)
    } else if name == "Second/Fourth Wednesday English Country Dance at Guiding Star Grange"@ {
        (Some("https://www.guidingstargrange.org/events.html"@), Some("English Country Dance at Guiding Star Grange"@))
    } else if (name == "TECDA Friday Evening Dance"@ || name == "TECDA Tuesday Evening English Country Dance"@) {
        (Some("https://www.tecda.ca/weekly_dances.html"@), None)
    } else if name == "Third Sunday English Regency Dancing"@ {
        (Some("https://www.valleyareaenglishregencysociety.org/"@), None)
    } else if name == "Thursday Contra Dance"@ && city == "Philadelphia"@ {
        (Some("https://thursdaycontra.com/"@), None)
    } else if name == "Williamsburg Tuesday Night English Dance"@ {
        (Some("https://williamsburgheritagedancers.org/"@), None)
    } else {
        (None, None)
    }
}

/// The Goshen series misstates its price range.
pub open spec fn goshen_price_fix(e: EventView) -> bool {
    e.name@ == "Goshen Community Contra Dance"@ && opt_view(e.price) == Some("$3-$18"@)
}

/// A Greenfield venue is listed with its street as the city and the town
/// as the state.
pub open spec fn greenfield_fix(e: EventView) -> bool {
    e.city@ == "401 Chapman St"@ && opt_view(e.state) == Some("Greenfield"@)
}

fn state_is(state: &Option<String>, s: &str) -> (r: bool)
    ensures
        r == (opt_view(*state) == Some(s@)),
{
    match state {
        Some(x) => same_text(x.as_str(), s),
        None => false,
    }
}

fn series_fix_exec(name: &str, city: &str, state: &Option<String>) -> (r: (Option<String>, Option<String>))
    ensures
        (opt_view(r.0), opt_view(r.1)) == series_fix(name@, city@, opt_view(*state)),
{
    if same_text(name, "Anaheim Contra Dance") {
        (Some("https://www.thelivingtradition.org/tltbodydance.html".to_string()), None)
    } else if same_text(name, "Capital English Country Dancers") {
        (Some("https://www.danceflurry.org/series/capital-english-country-dancers/".to_string()), None)
    } else if same_text(name, "CDK Contra Dance") {
        (Some("https://www.countrydancinginkalamazoo.com/".to_string()), None)
    } else if same_text(name, "Contra Dance") && same_text(city, "Carrollton") && state_is(state, "TX") {
        (Some("https://www.nttds.org/".to_string()), None)
    } else if same_text(name, "Denver Contra Dance") {
        (Some("https://www.cfootmad.org/".to_string()), None)
    } else if same_text(name, "Fourth Friday Experienced Contra at Guiding Star Grange") {
        (Some("https://www.guidingstargrange.org/events.html".to_string()), Some("Experienced Contra at Guiding Star Grange".to_string()))
    } else if same_text(name, "Friday Night Contra & Square Dance") {
        (Some("https://fsgw.org/Friday-contra-square-dance".to_string()), None)
    } else if same_text(name, "Goshen Community Contra Dance") {
        (Some("http://godancing.org/".to_string()), None)
    } else if same_text(name, "Hayward Contra Dance") {
        (Some("https://sfbaycontra.org/".to_string()), None)
    } else if same_text(name, "Indy Contra Dance") {
        (Some("https://www.indycontra.org/".to_string()), None)
    } else if same_text(name, "Lancaster Contra Dance") {
        (Some("https://lancastercontra.org/".to_string()), None)
    } else if same_text(name, "Montpelier Contra Dance") {
        (Some("https://capitalcitygrange.org/dancing/contradancing/".to_string()), None)
    } else if same_text(name, "North Alabama Country Dance Society - Contra Dance") {
        (None, Some("North Alabama Country Dance Society".to_string()))
    } else if same_text(name, "Orlando Contra Dance") {
        (Some("https://orlandocontra.org/dances-and-events/".to_string()), None)
    } else if same_text(name, "Ottawa Contra Dance") {
        (Some("https://ottawacontra.ca/".to_string()), None)
    } else if same_text(name, "Pittsburgh Contra Dance") {
        (Some("https://pittsburghcontra.org/".to_string()), None)
    } else if same_text(name, "Quiet Corner Contra Dance") {
        (Some("http://www.hcdance.org/quiet-corner-contra/".to_string()), None)
    } else if same_text(name, "Richmond Wednesday English Country Dance") {
        (Some("https://colonialdanceclubofrichmond.com/english-dance-calendar".to_string()), None)
    } else if same_text(name, "Second/Fourth Wednesday English Country Dance at Guiding Star Grange") {
        (Some("https://www.guidingstargrange.org/events.html".to_string()), Some("English Country Dance at Guiding Star Grange".to_string()))
    } else if (same_text(name, "TECDA Friday Evening Dance") || same_text(name, "TECDA Tuesday Evening English Country Dance")) {
        (Some("https://www.tecda.ca/weekly_dances.html".to_string()), None)
    } else if same_text(name, "Third Sunday English Regency Dancing") {
        (Some("https://www.valleyareaenglishregencysociety.org/".to_string()), None)
    } else if same_text(name, "Thursday Contra Dance") && same_text(city, "Philadelphia") {
        (Some("https://thursdaycontra.com/".to_string()), None)
    } else if same_text(name, "Williamsburg Tuesday Night English Dance") {
        (Some("https://williamsburgheritagedancers.org/".to_string()), None)
    } else {
        (None, None)
    }
}

/// Applies the fixes known for specific event series: a permalink put first
/// among the links, a series renamed, the Goshen price and the Greenfield
/// location corrected. Every other field stays as it was.
pub fn apply_fixes(event: &mut Event)
    ensures
        fixes_rel(old(event)@, final(event)@),
{
    let ghost o = event@;
    let (link, rename) = series_fix_exec(event.name.as_str(), event.city.as_str(), &event.state);
    let goshen = same_text(event.name.as_str(), "Goshen Community Contra Dance") && match &event.price {
        Some(p) => same_text(p.as_str(), "$3-$18"),
        None => false,
    };
    let greenfield = same_text(event.city.as_str(), "401 Chapman St") && state_is(&event.state, "Greenfield");
    match link {
        Some(l) => {
            event.links.insert(0, l);
            assert(event.links@.skip(1) =~= o.links);
        },
        None => {},
    }
    match rename {
        Some(n) => {
            event.name = n;
        },
        None => {},
    }
    if goshen {
        event.price = Some("$3-$8".to_string());
    }
    if greenfield {
        event.city = "Greenfield".to_string();
        event.state = Some("MA".to_string());
    }
}

pub open spec fn is_digit(c: char) -> bool {
    '0' <= c <= '9'
}

/// The number of ASCII digits at the start of `s`.
pub open spec fn digit_run(s: Seq<char>) -> nat
    decreases s.len(),
{
    if s.len() > 0 && is_digit(s[0]) {
        1 + digit_run(s.skip(1))
    } else {
        0
    }
}

/// The maximal runs of ASCII digits that directly follow a `$`, in order.
/// A `$` is no digit, so such runs never overlap.
pub open spec fn dollar_runs(s: Seq<char>) -> Seq<Seq<char>>
    decreases s.len(),
{
    if s.len() == 0 {
        Seq::empty()
    } else {
        let here = if s[0] == '$' && s.len() > 1 && is_digit(s[1]) {
            seq![s.subrange(1, 1 + digit_run(s.skip(1)) as int)]
        } else {
            Seq::empty()
        };
        here + dollar_runs(s.skip(1))
    }
}

/// Relies on regex's `Regex::captures_iter` with the pattern `\$([0-9]+)`:
/// the first group of each leftmost, non-overlapping match, which is the
/// greedy (maximal) run of ASCII digits after a `$`.
#[verifier::external_body]
fn dollar_amounts(s: &str) -> (r: Vec<String>)
    ensures
        r@.len() == dollar_runs(s@).len(),
        forall|i: int| 0 <= i < r@.len() ==> (#[trigger] r@[i])@ == dollar_runs(s@)[i],
{
    let re = regex::Regex::new("\\$([0-9]+)").unwrap();
    re.captures_iter(s).map(|c| c[1].to_string()).collect()
}

/// The number that a string of ASCII digits writes in decimal.
pub open spec fn digits_value(s: Seq<char>) -> nat
    decreases s.len(),
{
    if s.len() == 0 {
        0
    } else {
        digits_value(s.drop_last()) * 10 + ((s.last() as u32) - 48) as nat
    }
}

/// Relies on `str::parse::<u32>`: a non-empty string of ASCII digits parses
/// to its value when that fits in a `u32`, and fails otherwise.
#[verifier::external_body]
fn parse_u32(s: &str) -> (r: Option<u32>)
    requires
        s@.len() > 0,
        forall|i: int| 0 <= i < s@.len() ==> is_digit(#[trigger] s@[i]),
    ensures
        digits_value(s@) <= u32::MAX ==> r == Some(digits_value(s@) as u32),
        digits_value(s@) > u32::MAX ==> r is None,
{
    s.parse::<u32>().ok()
}

/// The values of the runs when every one fits in a `u32`.
pub open spec fn parsed_all(runs: Seq<Seq<char>>) -> Option<Seq<u32>>
    decreases runs.len(),
{
    if runs.len() == 0 {
        Some(Seq::empty())
    } else {
        match parsed_all(runs.drop_last()) {
            Some(v) => if digits_value(runs.last()) <= u32::MAX {
                Some(v.push(digits_value(runs.last()) as u32))
            } else {
                None
            },
            None => None,
        }
    }
}

pub open spec fn min_of(a: Seq<u32>) -> u32
    decreases a.len(),
{
    if a.len() <= 1 {
        if a.len() == 0 { 0 } else { a[0] }
    } else {
        let m = min_of(a.drop_last());
        if a.last() < m { a.last() } else { m }
    }
}

pub open spec fn max_of(a: Seq<u32>) -> u32
    decreases a.len(),
{
    if a.len() <= 1 {
        if a.len() == 0 { 0 } else { a[0] }
    } else {
        let m = max_of(a.drop_last());
        if a.last() > m { a.last() } else { m }
    }
}

pub open spec fn digit_char(d: nat) -> char {
    ((48 + d) as u8) as char
}

/// The decimal digits of a number.
pub open spec fn decimal(n: nat) -> Seq<char>
    decreases n,
{
    if n < 10 {
        seq![digit_char(n)]
    } else {
        decimal(n / 10).push(digit_char(n % 10))
    }
}

fn decimal_exec(n: u32) -> (r: Vec<char>)
    ensures
        r@ == decimal(n as nat),
    decreases n,
{
    let d: u8 = (n % 10) as u8;
    let c = (48 + d) as char;
    if n < 10 {
        let mut v: Vec<char> = Vec::new();
        v.push(c);
        assert(v@ =~= seq![digit_char(n as nat)]);
        v
    } else {
        let mut v = decimal_exec(n / 10);
        v.push(c);
        v
    }
}

/// `$a` when the lowest and highest amounts agree, `$a-$b` otherwise, and
/// nothing without amounts.
pub open spec fn price_spec(a: Seq<u32>) -> Option<Seq<char>> {
    if a.len() == 0 {
        None
    } else if min_of(a) == max_of(a) {
        Some(seq!['$'] + decimal(min_of(a) as nat))
    } else {
        Some(seq!['$'] + decimal(min_of(a) as nat) + seq!['-', '$'] + decimal(max_of(a) as nat))
    }
}

/// The price range that a list of dollar amounts spans.
pub fn price_from_amounts(a: &Vec<u32>) -> (r: Option<String>)
    ensures
        opt_view(r) == price_spec(a@),
{
    if a.len() == 0 {
        return None;
    }
    let mut mn: u32 = a[0];
    let mut mx: u32 = a[0];
    let mut i: usize = 1;
    while i < a.len()
        invariant
            1 <= i <= a@.len(),
            mn == min_of(a@.subrange(0, i as int)),
            mx == max_of(a@.subrange(0, i as int)),
        decreases a@.len() - i,
    {
        assert(a@.subrange(0, i + 1).drop_last() =~= a@.subrange(0, i as int));
        if a[i] < mn {
            mn = a[i];
        }
        if a[i] > mx {
            mx = a[i];
        }
        i = i + 1;
    }
    assert(a@.subrange(0, a@.len() as int) =~= a@);
    let mut out: Vec<char> = Vec::new();
    out.push('$');
    let mut lo = decimal_exec(mn);
    out.append(&mut lo);
    if mn != mx {
        out.push('-');
        out.push('$');
        let mut hi = decimal_exec(mx);
        out.append(&mut hi);
    }
    let r = string_of(&out);
    assert(r@ =~= price_spec(a@)->0);
    Some(r)
}

/// Why an entry could not be imported.
#[derive(Clone, Copy, Debug, PartialEq, Eq, Structural)]
pub enum ImportError {
    /// A dollar amount in the description does not fit in a `u32`.
    InvalidPrice,
    /// The entry has no location.
    MissingLocation,
}

pub proof fn lemma_run_digits(s: Seq<char>, i: int)
    requires
        0 <= i < dollar_runs(s).len(),
    ensures
        dollar_runs(s)[i].len() > 0,
        forall|j: int| 0 <= j < dollar_runs(s)[i].len() ==> is_digit(#[trigger] dollar_runs(s)[i][j]),
    decreases s.len(),
{
    let here = if s[0] == '$' && s.len() > 1 && is_digit(s[1]) {
        seq![s.subrange(1, 1 + digit_run(s.skip(1)) as int)]
    } else {
        Seq::<Seq<char>>::empty()
    };
    assert(dollar_runs(s) == here + dollar_runs(s.skip(1)));
    if i < here.len() {
        lemma_digit_run(s.skip(1));
    } else {
        lemma_run_digits(s.skip(1), i - here.len());
    }
}

proof fn lemma_digit_run(s: Seq<char>)
    ensures
        digit_run(s) <= s.len(),
        forall|j: int| 0 <= j < digit_run(s) ==> is_digit(#[trigger] s[j]),
        s.len() > 0 && is_digit(s[0]) ==> digit_run(s) > 0,
    decreases s.len(),
{
    if s.len() > 0 && is_digit(s[0]) {
        lemma_digit_run(s.skip(1));
        assert forall|j: int| 0 <= j < digit_run(s) implies is_digit(#[trigger] s[j]) by {
            if j > 0 {
                assert(s[j] == s.skip(1)[j - 1]);
            }
        }
    }
}

/// The price that a description states: the dollar amounts in it, as a
/// single amount or a range; an amount too large is an error.
pub fn get_price(description: &str) -> (r: Result<Option<String>, ImportError>)
    ensures
        match parsed_all(dollar_runs(description@)) {
            Some(v) => r matches Ok(p) && opt_view(p) == price_spec(v),
            None => r == Err::<Option<String>, ImportError>(ImportError::InvalidPrice),
        },
{
    let runs = dollar_amounts(description);
    let ghost rs = dollar_runs(description@);
    let mut vals: Vec<u32> = Vec::new();
    let mut i: usize = 0;
    while i < runs.len()
        invariant
            i <= runs@.len(),
            runs@.len() == rs.len(),
            rs == dollar_runs(description@),
            forall|k: int| 0 <= k < runs@.len() ==> (#[trigger] runs@[k])@ == rs[k],
            parsed_all(rs.subrange(0, i as int)) == Some(vals@),
        decreases runs@.len() - i,
    {
        assert(rs.subrange(0, i + 1).drop_last() =~= rs.subrange(0, i as int));
        proof {
            lemma_run_digits(description@, i as int);
        }
        match parse_u32(runs[i].as_str()) {
            Some(v) => {
                vals.push(v);
            },
            None => {
                proof {
                    lemma_parsed_none(rs, i as int + 1);
                }
                return Err(ImportError::InvalidPrice);
            },
        }
        i = i + 1;
    }
    assert(rs.subrange(0, rs.len() as int) =~= rs);
    Ok(price_from_amounts(&vals))
}

/// Once a prefix of the runs fails to parse, so do all of them.
proof fn lemma_parsed_none(rs: Seq<Seq<char>>, n: int)
    requires
        0 <= n <= rs.len(),
        parsed_all(rs.subrange(0, n)) is None,
    ensures
        parsed_all(rs) is None,
    decreases rs.len() - n,
{
    if n < rs.len() {
        assert(rs.subrange(0, n + 1).drop_last() =~= rs.subrange(0, n));
        lemma_parsed_none(rs, n + 1);
    } else {
        assert(rs.subrange(0, n) =~= rs);
    }
}

/// The series fixes of `apply_fixes`, relating an event before and after.
pub open spec fn fixes_rel(o: EventView, f: EventView) -> bool {
    let fix = series_fix(o.name@, o.city@, opt_view(o.state));
    &&& match fix.0 {
        Some(l) => f.links.len() == o.links.len() + 1 && f.links[0]@ == l && f.links.skip(1) == o.links,
        None => f.links == o.links,
    }
    &&& match fix.1 {
        Some(n) => f.name@ == n,
        None => f.name == o.name,
    }
    &&& if goshen_price_fix(o) { opt_view(f.price) == Some("$3-$8"@) } else { f.price == o.price }
    &&& if greenfield_fix(o) {
        f.city@ == "Greenfield"@ && opt_view(f.state) == Some("MA"@)
    } else {
        f.city == o.city && f.state == o.state
    }
    &&& f == EventView { name: f.name, links: f.links, price: f.price, city: f.city, state: f.state, ..o }
}

/// The series name that the summary gives, with the series' own prefixes
/// and place suffixes removed and place names shortened.
pub open spec fn cdss_name(s: Seq<char>) -> Seq<char> {
    let t = s;
    let t = trim_start_spec(t, "Portland Country Dance Community "@);
    let t = trim_start_spec(t, "Contra Dance with "@);
    let t = trim_end_spec(t, " - Asheville NC"@);
    let t = trim_end_spec(t, " (Masks Optional)"@);
    let t = trim_end_spec(t, " of Macon County, NC"@);
    let t = trim_end_spec(t, " in Dallas"@);
    let t = trim_end_spec(t, " in Peterborough, NH"@);
    let t = trim_end_spec(t, " in Philadelphia"@);
    let t = trim_end_spec(t, " in Carrollton, TX"@);
    let t = trim_end_spec(t, " in Nelson, NH"@);
    let t = trim_end_spec(t, " in Van Nuys"@);
    let t = replace_spec(t, "Berkeley, CA"@, "Berkeley"@);
    let t = replace_spec(t, "Dover NH"@, "Dover"@);
    let t = replace_spec(t, "Richmond VA"@, "Richmond"@);
    let t = replace_spec(t, "Richmond, VA"@, "Richmond"@);
    let t = replace_spec(t, "Rochester, NY"@, "Rochester"@);
    let t = replace_spec(t, "Hayward CA"@, "Hayward"@);
    let t = replace_spec(t, "Hayward, CA"@, "Hayward"@);
    let t = replace_spec(t, "Lancaster, PA"@, "Lancaster"@);
    let t = replace_spec(t, "Williamsburg (VA)"@, "Williamsburg"@);
    t
}

fn cdss_name_exec(s: &str) -> (r: String)
    ensures
        r@ == cdss_name(s@),
{
    let t = copy_str(s);
    let t = trim_start(t.as_str(), "Portland Country Dance Community ");
    let t = trim_start(t.as_str(), "Contra Dance with ");
    let t = trim_end(t.as_str(), " - Asheville NC");
    let t = trim_end(t.as_str(), " (Masks Optional)");
    let t = trim_end(t.as_str(), " of Macon County, NC");
    let t = trim_end(t.as_str(), " in Dallas");
    let t = trim_end(t.as_str(), " in Peterborough, NH");
    let t = trim_end(t.as_str(), " in Philadelphia");
    let t = trim_end(t.as_str(), " in Carrollton, TX");
    let t = trim_end(t.as_str(), " in Nelson, NH");
    let t = trim_end(t.as_str(), " in Van Nuys");
    let t = replace(t.as_str(), "Berkeley, CA", "Berkeley");
    let t = replace(t.as_str(), "Dover NH", "Dover");
    let t = replace(t.as_str(), "Richmond VA", "Richmond");
    let t = replace(t.as_str(), "Richmond, VA", "Richmond");
    let t = replace(t.as_str(), "Rochester, NY", "Rochester");
    let t = replace(t.as_str(), "Hayward CA", "Hayward");
    let t = replace(t.as_str(), "Hayward, CA", "Hayward");
    let t = replace(t.as_str(), "Lancaster, PA", "Lancaster");
    let t = replace(t.as_str(), "Williamsburg (VA)", "Williamsburg");
    t
}

/// Whether a lower-cased description announces teaching.
pub open spec fn cdss_workshop(dl: Seq<char>) -> bool {
    (contains_spec(dl, "lesson"@) && !contains_spec(dl, "no lesson"@))
        || contains_spec(dl, "skills session"@)
        || contains_spec(dl, "workshops"@)
        || contains_spec(dl, "beginner workshop"@)
        || contains_spec(dl, "beginners workshop"@)
        || contains_spec(dl, "introductory session"@)
        || contains_spec(dl, "introductory workshop"@)
        || contains_spec(dl, "intro session"@)
}

fn cdss_workshop_exec(dl: &str) -> (r: bool)
    ensures
        r == cdss_workshop(dl@),
{
    (contains(dl, "lesson") && !contains(dl, "no lesson"))
        || contains(dl, "skills session")
        || contains(dl, "workshops")
        || contains(dl, "beginner workshop")
        || contains(dl, "beginners workshop")
        || contains(dl, "introductory session")
        || contains(dl, "introductory workshop")
        || contains(dl, "intro session")
}

/// An online event, by category or by summary.
pub open spec fn cdss_online(categories: Seq<String>, summary: Seq<char>) -> bool {
    has_category(categories, "Online Event"@) || contains_spec(lower_of(summary), "online"@)
}

/// The names of a roster that occur, lower-cased, in the lower-cased
/// description or summary, in roster order.
pub open spec fn roster_matches(roster: Seq<String>, dl: Seq<char>, sl: Seq<char>) -> Seq<String>
    decreases roster.len(),
{
    if roster.len() == 0 {
        Seq::empty()
    } else {
        let prev = roster_matches(roster.drop_last(), dl, sl);
        let n = lower_of(roster.last()@);
        if contains_spec(dl, n) || contains_spec(sl, n) {
            prev.push(roster.last())
        } else {
            prev
        }
    }
}

/// The names of a roster that the lower-cased description or summary
/// mention.
pub fn lowercase_matches(roster: &Vec<String>, dl: &str, sl: &str) -> (r: Vec<String>)
    ensures
        r@ == roster_matches(roster@, dl@, sl@),
{
    let mut out: Vec<String> = Vec::new();
    let mut i: usize = 0;
    while i < roster.len()
        invariant
            i <= roster@.len(),
            out@ == roster_matches(roster@.subrange(0, i as int), dl@, sl@),
        decreases roster@.len() - i,
    {
        assert(roster@.subrange(0, i + 1).drop_last() =~= roster@.subrange(0, i as int));
        let n = lowercase(roster[i].as_str());
        if contains(dl, n.as_str()) || contains(sl, n.as_str()) {
            out.push(roster[i].clone());
        }
        i = i + 1;
    }
    assert(roster@.subrange(0, roster@.len() as int) =~= roster@);
    out
}

/// The country as listed: "United States" becomes "USA" and "United
/// Kingdom" becomes "UK".
pub open spec fn country_map(c: Seq<char>) -> Seq<char> {
    if c == "United States"@ {
        "USA"@
    } else if c == "United Kingdom"@ {
        "UK"@
    } else {
        c
    }
}

pub open spec fn north_american(c: Seq<char>) -> bool {
    c == "Canada"@ || c == "USA"@
}

/// A location with a country last, and room for a city (and, in Canada and
/// the USA, a state) before it.
pub open spec fn location_shape_ok(lp: Seq<String>) -> bool {
    lp.len() >= 3 && (north_american(country_map(lp.last()@)) ==> lp.len() >= 4)
}

/// The event assembled from a CDSS entry, before the series fixes.
pub open spec fn cdss_base(parts: &EventParts, categories: Seq<String>, lp: Seq<String>, bands: Seq<String>,
    callers: Seq<String>, amounts: Seq<u32>, b: EventView) -> bool {
    let n = lp.len() as int;
    let dl = lower_of(parts.description@);
    let sl = lower_of(parts.summary@);
    &&& b.name@ == cdss_name(parts.summary@)
    &&& b.details == (if parts.description@.len() == 0 { None } else { Some(parts.description) })
    &&& b.links == seq![parts.url]
    &&& b.time == parts.time
    &&& b.country@ == country_map(lp[n - 1]@)
    &&& if north_american(country_map(lp[n - 1]@)) {
        opt_view(b.state) == Some(lp[n - 3]@) && b.city@ == lp[n - 4]@
    } else {
        b.state is None && b.city@ == lp[n - 3]@
    }
    &&& b.styles == styles_spec(categories, parts.summary@)
    &&& b.workshop == cdss_workshop(dl)
    &&& b.social
    &&& b.bands == roster_matches(bands, dl, sl)
    &&& b.callers == roster_matches(callers, dl, sl)
    &&& opt_view(b.price) == price_spec(amounts)
    &&& opt_view(b.organisation) == Some(
        match parts.organiser {
            Some(o) => o@,
            None => "CDSS"@,
        },
    )
    &&& !b.cancelled
    &&& b.source == Some(Source::Cdss)
}

/// Converts a CDSS calendar entry. Online events and events of no known
/// style give none; an entry without a location is an error; a location too
/// short for its country gives none; an unreadable price is an error.
/// Otherwise the event is assembled and the series fixes applied. Bands and
/// callers are the names of the rosters that the entry mentions.
pub fn convert_cdss(parts: &EventParts, categories: &Vec<String>, location_parts: Option<Vec<String>>,
    bands: &Vec<String>, callers: &Vec<String>) -> (r: Result<Option<Event>, ImportError>)
    ensures
        if cdss_online(categories@, parts.summary@) || styles_spec(categories@, parts.summary@).len() == 0 {
            r == Ok::<Option<Event>, ImportError>(None)
        } else {
            match location_parts {
                None => r == Err::<Option<Event>, ImportError>(ImportError::MissingLocation),
                Some(lp) => if !location_shape_ok(lp@) {
                    r == Ok::<Option<Event>, ImportError>(None)
                } else {
                    match parsed_all(dollar_runs(parts.description@)) {
                        None => r == Err::<Option<Event>, ImportError>(ImportError::InvalidPrice),
                        Some(v) => r matches Ok(Some(e)) && exists|b: EventView| cdss_base(parts, categories@, lp@,
                            bands@, callers@, v, b) && #[trigger] fixes_rel(b, e@),
                    }
                },
            }
        },
{
    let styles = get_styles(categories, parts.summary.as_str());
    let sl = lowercase(parts.summary.as_str());
    if has_category_exec(categories, "Online Event") || contains(sl.as_str(), "online") {
        return Ok(None);
    }
    if styles.len() == 0 {
        return Ok(None);
    }
    let lp = match location_parts {
        Some(lp) => lp,
        None => {
            return Err(ImportError::MissingLocation);
        },
    };
    let n = lp.len();
    if n < 3 {
        return Ok(None);
    }
    let raw = &lp[n - 1];
    let country = if same_text(raw.as_str(), "United States") {
        "USA".to_string()
    } else if same_text(raw.as_str(), "United Kingdom") {
        "UK".to_string()
    } else {
        raw.clone()
    };
    let na = same_text(country.as_str(), "Canada") || same_text(country.as_str(), "USA");
    if na && n < 4 {
        return Ok(None);
    }
    let (state, city) = if na {
        (Some(lp[n - 3].clone()), lp[n - 4].clone())
    } else {
        (None, lp[n - 3].clone())
    };
    let price = match get_price(parts.description.as_str()) {
        Ok(p) => p,
        Err(e) => {
            return Err(e);
        },
    };
    let organisation = match &parts.organiser {
        Some(o) => Some(o.clone()),
        None => Some("CDSS".to_string()),
    };
    let dl = lowercase(parts.description.as_str());
    let band_names = lowercase_matches(bands, dl.as_str(), sl.as_str());
    let caller_names = lowercase_matches(callers, dl.as_str(), sl.as_str());
    let workshop = cdss_workshop_exec(dl.as_str());
    let details = if parts.description.as_str().is_empty() { None } else { Some(parts.description.clone()) };
    let mut links: Vec<String> = Vec::new();
    links.push(parts.url.clone());
    let mut event = Event {
        name: cdss_name_exec(parts.summary.as_str()),
        details,
        links,
        time: parts.time,
        country,
        state,
        city,
        styles,
        workshop,
        social: true,
        bands: band_names,
        callers: caller_names,
        price,
        organisation,
        cancelled: false,
        source: Some(Source::Cdss),
    };
    let ghost b = event@;
    assert(b.links =~= seq![parts.url]);
    let ghost v = parsed_all(dollar_runs(parts.description@))->0;
    assert(cdss_base(parts, categories@, lp@, bands@, callers@, v, b));
    apply_fixes(&mut event);
    assert(fixes_rel(b, event@));
    Ok(Some(event))
}

} // verus!
