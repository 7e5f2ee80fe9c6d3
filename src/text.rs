//! Character-level text helpers shared by the model and the importers.
use vstd::prelude::*;

verus! {

/// What `str::to_lowercase` makes of a string: the full Unicode lower-case
/// mapping, which depends on the characters alone.
pub uninterp spec fn lower_of(s: Seq<char>) -> Seq<char>;

/// Relies on `str::to_lowercase`: the lower-case form of the characters.
#[verifier::external_body]
fn lowercase_str(s: &str) -> (r: String)
    ensures
        r@ == lower_of(s@),
{
    s.to_lowercase()
}

/// Relies on `str::chars` collected into a `Vec`: the characters in order.
#[verifier::external_body]
pub(crate) fn chars_of(s: &str) -> (r: Vec<char>)
    ensures
        r@ == s@,
{
    s.chars().collect()
}

/// Relies on collecting a `char` iterator into a `String`: the same characters.
#[verifier::external_body]
pub(crate) fn string_of(v: &Vec<char>) -> (r: String)
    ensures
        r@ == v@,
{
    v.iter().collect()
}

/// The lower-case form of a string.
pub fn lowercase(s: &str) -> (r: String)
    ensures
        r@ == lower_of(s@),
{
    lowercase_str(s)
}

/// `needle` occurs in `hay` starting at position `i`.
pub open spec fn occurs_at(hay: Seq<char>, needle: Seq<char>, i: int) -> bool {
    0 <= i && i + needle.len() <= hay.len() && hay.subrange(i, i + needle.len()) == needle
}

/// `needle` occurs somewhere in `hay`.
pub open spec fn contains_spec(hay: Seq<char>, needle: Seq<char>) -> bool {
    exists|i: int| occurs_at(hay, needle, i)
}

pub open spec fn starts_with_spec(s: Seq<char>, prefix: Seq<char>) -> bool {
    prefix.len() <= s.len() && s.subrange(0, prefix.len() as int) == prefix
}

pub open spec fn ends_with_spec(s: Seq<char>, suffix: Seq<char>) -> bool {
    suffix.len() <= s.len() && s.subrange(s.len() - suffix.len(), s.len() as int) == suffix
}

fn occurs_at_chars(hay: &Vec<char>, needle: &Vec<char>, i: usize) -> (r: bool)
    requires
        i + needle@.len() <= hay@.len(),
    ensures
        r == occurs_at(hay@, needle@, i as int),
{
    let mut k: usize = 0;
    while k < needle.len()
        invariant
            k <= needle@.len(),
            i + needle@.len() <= hay.len(),
            forall|m: int| 0 <= m < k ==> hay@[i + m] == needle@[m],
        decreases needle@.len() - k,
    {
        if hay[i + k] != needle[k] {
            assert(hay@.subrange(i as int, i + needle@.len())[k as int] != needle@[k as int]);
            return false;
        }
        k = k + 1;
    }
    assert(hay@.subrange(i as int, i + needle@.len()) =~= needle@);
    true
}

/// Whether `needle` occurs in `hay`, on character vectors.
pub fn contains_chars(hay: &Vec<char>, needle: &Vec<char>) -> (r: bool)
    ensures
        r == contains_spec(hay@, needle@),
{
    if needle.len() > hay.len() {
        return false;
    }
    let last: usize = hay.len() - needle.len();
    let mut i: usize = 0;
    while i < last
        invariant
            i <= last,
            last + needle@.len() == hay@.len(),
            forall|j: int| 0 <= j < i ==> !occurs_at(hay@, needle@, j),
        decreases last - i,
    {
        if occurs_at_chars(hay, needle, i) {
            return true;
        }
        i = i + 1;
    }
    let r = occurs_at_chars(hay, needle, last);
    assert(forall|j: int| last < j ==> !occurs_at(hay@, needle@, j));
    r
}

/// Whether `needle` occurs in `hay`.
pub fn contains(hay: &str, needle: &str) -> (r: bool)
    ensures
        r == contains_spec(hay@, needle@),
{
    contains_chars(&chars_of(hay), &chars_of(needle))
}

/// Whether `needle` occurs in `hay` once both are lower-cased.
pub fn contains_ignoring_case(hay: &str, needle: &str) -> (r: bool)
    ensures
        r == contains_spec(lower_of(hay@), lower_of(needle@)),
{
    let h = lowercase(hay);
    let n = lowercase(needle);
    contains(h.as_str(), n.as_str())
}

/// Whether two strings hold the same characters.
pub fn same_text(a: &str, b: &str) -> (r: bool)
    ensures
        r == (a@ == b@),
{
    let x = chars_of(a);
    let y = chars_of(b);
    if x.len() != y.len() {
        return false;
    }
    let mut i: usize = 0;
    while i < x.len()
        invariant
            x@ == a@,
            y@ == b@,
            x@.len() == y@.len(),
            forall|m: int| 0 <= m < i ==> x@[m] == y@[m],
        decreases x@.len() - i,
    {
        if x[i] != y[i] {
            assert(x@[i as int] != y@[i as int]);
            return false;
        }
        i = i + 1;
    }
    assert(x@ =~= y@);
    true
}

/// Whether `s` begins with `prefix`.
pub fn starts_with(s: &str, prefix: &str) -> (r: bool)
    ensures
        r == starts_with_spec(s@, prefix@),
{
    let x = chars_of(s);
    let p = chars_of(prefix);
    if p.len() > x.len() {
        return false;
    }
    let r = occurs_at_chars(&x, &p, 0);
    r
}

/// Whether `s` ends with `suffix`.
pub fn ends_with(s: &str, suffix: &str) -> (r: bool)
    ensures
        r == ends_with_spec(s@, suffix@),
{
    let x = chars_of(s);
    let p = chars_of(suffix);
    if p.len() > x.len() {
        return false;
    }
    let r = occurs_at_chars(&x, &p, x.len() - p.len());
    r
}

/// Copies a string, keeping its characters.
pub fn copy_str(s: &str) -> (r: String)
    ensures
        r@ == s@,
{
    string_of(&chars_of(s))
}

/// Copies an optional string, keeping its characters.
pub fn copy_opt(s: &Option<String>) -> (r: Option<String>)
    ensures
        r == *s,
{
    match s {
        Some(x) => Some(x.clone()),
        None => None,
    }
}

/// Copies a list of strings, keeping each.
pub fn copy_strings(v: &Vec<String>) -> (r: Vec<String>)
    ensures
        r@ == v@,
{
    let mut out: Vec<String> = Vec::new();
    let mut i: usize = 0;
    while i < v.len()
        invariant
            i <= v@.len(),
            out@ == v@.subrange(0, i as int),
        decreases v@.len() - i,
    {
        out.push(v[i].clone());
        i = i + 1;
    }
    assert(out@ =~= v@);
    out
}

/// Every occurrence of `from`, scanning left to right without overlap,
/// replaced by `to`.
pub open spec fn replace_spec(s: Seq<char>, from: Seq<char>, to: Seq<char>) -> Seq<char>
    decreases s.len(),
{
    if s.len() == 0 {
        Seq::empty()
    } else if from.len() > 0 && starts_with_spec(s, from) {
        to + replace_spec(s.skip(from.len() as int), from, to)
    } else {
        seq![s[0]] + replace_spec(s.skip(1), from, to)
    }
}

/// Replaces every occurrence of `from` in `s` by `to`, left to right.
pub fn replace(s: &str, from: &str, to: &str) -> (r: String)
    ensures
        r@ == replace_spec(s@, from@, to@),
{
    let cs = chars_of(s);
    let f = chars_of(from);
    let t = chars_of(to);
    let mut out: Vec<char> = Vec::new();
    let mut i: usize = 0;
    assert(cs@.skip(0) =~= cs@);
    assert(out@ + replace_spec(cs@, f@, t@) =~= replace_spec(cs@, f@, t@));
    while i < cs.len()
        invariant
            i <= cs@.len(),
            cs@ == s@,
            f@ == from@,
            t@ == to@,
            out@ + replace_spec(cs@.skip(i as int), f@, t@) == replace_spec(cs@, f@, t@),
        decreases cs@.len() - i,
    {
        let ghost rest = cs@.skip(i as int);
        if f.len() > 0 && f.len() <= cs.len() - i && occurs_at_chars(&cs, &f, i) {
            assert(rest.subrange(0, f@.len() as int) =~= cs@.subrange(i as int, i + f@.len()));
            assert(rest.skip(f@.len() as int) =~= cs@.skip(i + f@.len()));
            let mut k: usize = 0;
            let ghost before = out@;
            while k < t.len()
                invariant
                    k <= t@.len(),
                    out@ == before + t@.subrange(0, k as int),
                decreases t@.len() - k,
            {
                out.push(t[k]);
                k = k + 1;
            }
            assert(out@ =~= before + t@);
            assert(out@ + replace_spec(cs@.skip(i + f@.len()), f@, t@) =~= before + replace_spec(rest, f@, t@));
            i = i + f.len();
        } else {
            proof {
                if f@.len() > 0 && f@.len() <= rest.len() {
                    assert(rest.subrange(0, f@.len() as int) =~= cs@.subrange(i as int, i + f@.len()));
                }
            }
            assert(rest.skip(1) =~= cs@.skip(i + 1));
            let ghost before = out@;
            out.push(cs[i]);
            assert(out@ + replace_spec(cs@.skip(i + 1), f@, t@) =~= before + replace_spec(rest, f@, t@));
            i = i + 1;
        }
    }
    assert(cs@.skip(cs@.len() as int) =~= Seq::<char>::empty());
    assert(out@ =~= out@ + replace_spec(Seq::<char>::empty(), f@, t@));
    string_of(&out)
}

/// `s` with every leading repetition of `p` removed.
pub open spec fn trim_start_spec(s: Seq<char>, p: Seq<char>) -> Seq<char>
    decreases s.len(),
{
    if p.len() > 0 && starts_with_spec(s, p) {
        trim_start_spec(s.skip(p.len() as int), p)
    } else {
        s
    }
}

/// `s` with every trailing repetition of `p` removed.
pub open spec fn trim_end_spec(s: Seq<char>, p: Seq<char>) -> Seq<char>
    decreases s.len(),
{
    if p.len() > 0 && ends_with_spec(s, p) {
        trim_end_spec(s.subrange(0, s.len() - p.len()), p)
    } else {
        s
    }
}

/// Removes every leading repetition of `p`.
pub fn trim_start(s: &str, p: &str) -> (r: String)
    ensures
        r@ == trim_start_spec(s@, p@),
{
    let mut cur = copy_str(s);
    while p.unicode_len() > 0 && starts_with(cur.as_str(), p)
        invariant
            trim_start_spec(cur@, p@) == trim_start_spec(s@, p@),
        decreases cur@.len(),
    {
        let n = p.unicode_len();
        let rest = cur.as_str().substring_char(n, cur.as_str().unicode_len());
        cur = copy_str(rest);
    }
    cur
}

/// Removes every trailing repetition of `p`.
pub fn trim_end(s: &str, p: &str) -> (r: String)
    ensures
        r@ == trim_end_spec(s@, p@),
{
    let mut cur = copy_str(s);
    while p.unicode_len() > 0 && ends_with(cur.as_str(), p)
        invariant
            trim_end_spec(cur@, p@) == trim_end_spec(s@, p@),
        decreases cur@.len(),
    {
        let n = p.unicode_len();
        let len = cur.as_str().unicode_len();
        let rest = cur.as_str().substring_char(0, len - n);
        cur = copy_str(rest);
    }
    cur
}

/// The fields of `s` between occurrences of `p`, scanning left to right;
/// `cur` is the field read so far.
pub open spec fn split_from(s: Seq<char>, p: Seq<char>, cur: Seq<char>) -> Seq<Seq<char>>
    decreases s.len(),
{
    if s.len() == 0 {
        seq![cur]
    } else if p.len() > 0 && starts_with_spec(s, p) {
        seq![cur] + split_from(s.skip(p.len() as int), p, Seq::empty())
    } else {
        split_from(s.skip(1), p, cur.push(s[0]))
    }
}

/// The fields of `s` separated by `p`.
pub open spec fn split_spec(s: Seq<char>, p: Seq<char>) -> Seq<Seq<char>> {
    split_from(s, p, Seq::empty())
}

/// Splits `s` at each occurrence of `p`.
pub fn split(s: &str, p: &str) -> (r: Vec<String>)
    ensures
        r@.len() == split_spec(s@, p@).len(),
        forall|i: int| 0 <= i < r@.len() ==> (#[trigger] r@[i])@ == split_spec(s@, p@)[i],
{
    let cs = chars_of(s);
    let f = chars_of(p);
    let mut fields: Vec<String> = Vec::new();
    let ghost mut done: Seq<Seq<char>> = Seq::empty();
    let mut cur: Vec<char> = Vec::new();
    let mut i: usize = 0;
    assert(cs@.skip(0) =~= cs@);
    while i < cs.len()
        invariant
            i <= cs@.len(),
            cs@ == s@,
            f@ == p@,
            fields@.len() == done.len(),
            forall|k: int| 0 <= k < done.len() ==> (#[trigger] fields@[k])@ == done[k],
            done + split_from(cs@.skip(i as int), f@, cur@) == split_spec(cs@, f@),
        decreases cs@.len() - i,
    {
        let ghost rest = cs@.skip(i as int);
        if f.len() > 0 && f.len() <= cs.len() - i && occurs_at_chars(&cs, &f, i) {
            assert(rest.subrange(0, f@.len() as int) =~= cs@.subrange(i as int, i + f@.len()));
            assert(rest.skip(f@.len() as int) =~= cs@.skip(i + f@.len()));
            let ghost old_done = done;
            let ghost old_cur = cur@;
            fields.push(string_of(&cur));
            proof {
                done = done.push(old_cur);
            }
            cur = Vec::new();
            assert(done + split_from(cs@.skip(i + f@.len()), f@, cur@) =~= old_done + split_from(rest, f@, old_cur));
            i = i + f.len();
        } else {
            proof {
                if f@.len() > 0 && f@.len() <= rest.len() {
                    assert(rest.subrange(0, f@.len() as int) =~= cs@.subrange(i as int, i + f@.len()));
                }
            }
            assert(rest.skip(1) =~= cs@.skip(i + 1));
            cur.push(cs[i]);
            i = i + 1;
        }
    }
    assert(cs@.skip(cs@.len() as int) =~= Seq::<char>::empty());
    let ghost old_done = done;
    fields.push(string_of(&cur));
    proof {
        done = done.push(cur@);
    }
    assert(done =~= split_spec(cs@, f@));
    fields
}

/// What `str::trim` leaves of a string: leading and trailing Unicode
/// white space removed.
pub uninterp spec fn trimmed_of(s: Seq<char>) -> Seq<char>;

/// Relies on `str::trim`: the string without leading and trailing white
/// space; an empty string stays empty.
#[verifier::external_body]
fn trim_str(s: &str) -> (r: String)
    ensures
        r@ == trimmed_of(s@),
        s@.len() == 0 ==> r@.len() == 0,
{
    s.trim().to_string()
}

/// The string without leading and trailing white space.
pub fn trim(s: &str) -> (r: String)
    ensures
        r@ == trimmed_of(s@),
{
    trim_str(s)
}

/// The part of `s` before its last `c`, if it has one.
pub open spec fn before_last(s: Seq<char>, c: char) -> Option<Seq<char>>
    decreases s.len(),
{
    if s.len() == 0 {
        None
    } else if s.last() == c {
        Some(s.drop_last())
    } else {
        before_last(s.drop_last(), c)
    }
}

/// The part of `s` before its last `c`, or all of `s` without one.
pub fn before_last_or_all(s: &str, c: char) -> (r: String)
    ensures
        r@ == match before_last(s@, c) {
            Some(p) => p,
            None => s@,
        },
{
    let cs = chars_of(s);
    let mut n: usize = cs.len();
    assert(cs@.subrange(0, n as int) =~= cs@);
    while n > 0 && cs[n - 1] != c
        invariant
            n <= cs@.len(),
            cs@ == s@,
            before_last(cs@.subrange(0, n as int), c) == before_last(s@, c),
        decreases n,
    {
        assert(cs@.subrange(0, n as int).drop_last() =~= cs@.subrange(0, n - 1));
        n = n - 1;
    }
    if n == 0 {
        assert(cs@.subrange(0, 0) =~= Seq::<char>::empty());
        return copy_str(s);
    }
    assert(cs@.subrange(0, n as int).drop_last() =~= cs@.subrange(0, n - 1));
    let mut out: Vec<char> = Vec::new();
    let mut i: usize = 0;
    while i < n - 1
        invariant
            i <= n - 1,
            n <= cs@.len(),
            out@ == cs@.subrange(0, i as int),
        decreases n - 1 - i,
    {
        out.push(cs[i]);
        i = i + 1;
    }
    string_of(&out)
}

} // verus!
