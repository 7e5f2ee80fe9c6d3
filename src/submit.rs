//! Decisions of the workflow that proposes a submitted event for
//! publication: file and branch names, and the bounded retry over branch
//! names.
use vstd::prelude::*;
use crate::model::Event;
use crate::text::{chars_of, lower_of, lowercase, string_of};

verus! {

/// The largest suffix tried on a branch name; suffixes run from 0 to it.
pub const MAX_SUFFIX: u32 = 9;

pub open spec fn is_safe_char(c: char) -> bool {
    ('a' <= c <= 'z') || ('A' <= c <= 'Z') || ('0' <= c <= '9') || c == '_' || c == '-'
}

/// Spaces become underscores, then only ASCII letters, digits, underscores
/// and hyphens are kept.
pub open spec fn filename_chars(s: Seq<char>) -> Seq<char>
    decreases s.len(),
{
    if s.len() == 0 {
        Seq::empty()
    } else {
        let prev = filename_chars(s.drop_last());
        let c = if s.last() == ' ' { '_' } else { s.last() };
        if is_safe_char(c) {
            prev.push(c)
        } else {
            prev
        }
    }
}

/// At most the first 30 characters.
pub open spec fn truncated(s: Seq<char>) -> Seq<char> {
    if s.len() <= 30 { s } else { s.subrange(0, 30) }
}

/// A safe file name from an already lower-cased string.
pub fn safe_filename_of_lower(lower: &str) -> (r: String)
    ensures
        r@ == truncated(filename_chars(lower@)),
{
    let cs = chars_of(lower);
    let mut out: Vec<char> = Vec::new();
    let mut i: usize = 0;
    while i < cs.len()
        invariant
            i <= cs@.len(),
            cs@ == lower@,
            out@ == filename_chars(cs@.subrange(0, i as int)),
        decreases cs@.len() - i,
    {
        assert(cs@.subrange(0, i + 1).drop_last() =~= cs@.subrange(0, i as int));
        let c = if cs[i] == ' ' { '_' } else { cs[i] };
        if ('a' <= c && c <= 'z') || ('A' <= c && c <= 'Z') || ('0' <= c && c <= '9') || c == '_' || c == '-' {
            out.push(c);
        }
        i = i + 1;
    }
    assert(cs@.subrange(0, cs@.len() as int) =~= cs@);
    let mut short: Vec<char> = Vec::new();
    let mut j: usize = 0;
    while j < out.len() && j < 30
        invariant
            j <= out@.len(),
            j <= 30,
            short@ == out@.subrange(0, j as int),
        decreases out@.len() - j,
    {
        short.push(out[j]);
        j = j + 1;
    }
    assert(short@ =~= truncated(out@));
    string_of(&short)
}

/// Converts a string to a file name: lower-cased, spaces replaced by
/// underscores, every character but ASCII letters, digits, underscores and
/// hyphens removed, and cut to 30 characters.
pub fn to_safe_filename(s: &str) -> (r: String)
    ensures
        r@ == truncated(filename_chars(lower_of(s@))),
{
    let lower = lowercase(s);
    safe_filename_of_lower(lower.as_str())
}

/// The base branch name for proposing an event.
pub open spec fn branch_base_spec(country: Seq<char>, city: Seq<char>, name: Seq<char>) -> Seq<char> {
    seq!['a', 'd', 'd', '-'] + truncated(filename_chars(lower_of(country))) + seq!['-'] + truncated(
        filename_chars(lower_of(city))) + seq!['-'] + truncated(filename_chars(lower_of(name)))
}

/// `add-<country>-<city>-<name>`, each part a safe file name.
pub fn branch_base(event: &Event) -> (r: String)
    ensures
        r@ == branch_base_spec(event.country@, event.city@, event.name@),
{
    let mut out: Vec<char> = Vec::new();
    out.push('a');
    out.push('d');
    out.push('d');
    out.push('-');
    let mut a = chars_of(to_safe_filename(event.country.as_str()).as_str());
    out.append(&mut a);
    out.push('-');
    let mut b = chars_of(to_safe_filename(event.city.as_str()).as_str());
    out.append(&mut b);
    out.push('-');
    let mut c = chars_of(to_safe_filename(event.name.as_str()).as_str());
    out.append(&mut c);
    let r = string_of(&out);
    assert(r@ =~= branch_base_spec(event.country@, event.city@, event.name@));
    r
}

/// The branch name tried with a suffix: the base alone for 0, otherwise the
/// base followed by the suffix's digit.
pub open spec fn branch_name_spec(base: Seq<char>, suffix: u32) -> Seq<char> {
    if suffix == 0 {
        base
    } else {
        base.push(((48 + suffix) as u8) as char)
    }
}

/// What creating one branch came to.
pub enum CreateOutcome {
    /// The branch was created.
    Created,
    /// The name is probably taken; the text says why it failed.
    NameTaken(String),
    /// Any other failure, which ends the attempts.
    Failed(String),
}

/// What to do next.
pub enum RetryStep {
    /// Try to create a branch with this name.
    Attempt(String),
    /// The branch with this name was created.
    Created(String),
    /// No branch was created, for the reason given.
    GaveUp(String),
}

/// The state of the retry over branch names.
pub struct BranchRetry {
    pub base: String,
    pub suffix: u32,
}

impl BranchRetry {
    /// Starts the retry at suffix 0.
    pub fn new(base: String) -> (r: BranchRetry)
        ensures
            r.base@ == base@,
            r.suffix == 0,
    {
        BranchRetry { base, suffix: 0 }
    }

    /// The name to try at the current suffix.
    pub fn branch_name(&self) -> (r: String)
        requires
            self.suffix <= MAX_SUFFIX,
        ensures
            r@ == branch_name_spec(self.base@, self.suffix),
    {
        if self.suffix == 0 {
            self.base.clone()
        } else {
            let mut v = chars_of(self.base.as_str());
            let d: u8 = 48 + self.suffix as u8;
            v.push(d as char);
            string_of(&v)
        }
    }

    /// Takes the outcome of the attempt at the current suffix: a created
    /// branch ends with its name, a failure other than a taken name ends with
    /// that failure, and a taken name moves to the next suffix, or ends with
    /// that cause after the last suffix. The step is the one `run_from` takes.
    pub fn record(&mut self, outcome: CreateOutcome) -> (r: RetryStep)
        requires
            old(self).suffix <= MAX_SUFFIX,
        ensures
            final(self).base == old(self).base,
            final(self).suffix <= MAX_SUFFIX,
            match step_end(old(self).suffix as nat, outcome) {
                None => final(self).suffix == old(self).suffix + 1 && (r matches RetryStep::Attempt(n) && n@
                    == branch_name_spec(old(self).base@, final(self).suffix)),
                Some(Ok(k)) => k == old(self).suffix && final(self).suffix == old(self).suffix && (
                r matches RetryStep::Created(n) && n@ == branch_name_spec(old(self).base@, old(self).suffix)),
                Some(Err(c)) => final(self).suffix == old(self).suffix && r == RetryStep::GaveUp(c),
            },
    {
        match outcome {
            CreateOutcome::Created => RetryStep::Created(self.branch_name()),
            CreateOutcome::Failed(c) => RetryStep::GaveUp(c),
            CreateOutcome::NameTaken(c) => {
                if self.suffix < MAX_SUFFIX {
                    self.suffix = self.suffix + 1;
                    RetryStep::Attempt(self.branch_name())
                } else {
                    RetryStep::GaveUp(c)
                }
            },
        }
    }
}

/// How a run of attempts ends, given the outcome of each attempt in turn:
/// the number of attempts made, and the created branch's suffix or the
/// cause of the failure (`None` while outcomes run short).
pub open spec fn run_from(outcomes: Seq<CreateOutcome>, k: nat) -> (nat, Option<Result<u32, String>>)
    decreases MAX_SUFFIX + 1 - k,
{
    if k > MAX_SUFFIX || k >= outcomes.len() {
        (k, None)
    } else {
        match step_end(k, outcomes[k as int]) {
            None => run_from(outcomes, k + 1),
            Some(end) => (k + 1, Some(end)),
        }
    }
}

/// How the attempt at suffix `k` ends the run, if it does: the created
/// suffix, or the cause of failure; `None` when the next suffix is tried.
pub open spec fn step_end(k: nat, o: CreateOutcome) -> Option<Result<u32, String>> {
    match o {
        CreateOutcome::Created => Some(Ok(k as u32)),
        CreateOutcome::Failed(c) => Some(Err(c)),
        CreateOutcome::NameTaken(c) => if k < MAX_SUFFIX { None } else { Some(Err(c)) },
    }
}

/// When every attempt finds its name taken, the retry ends after exactly
/// `MAX_SUFFIX + 1` attempts, failing with the cause of the last collision.
pub proof fn lemma_retry_exhausted(outcomes: Seq<CreateOutcome>)
    requires
        outcomes.len() > MAX_SUFFIX,
        forall|i: int| 0 <= i <= MAX_SUFFIX ==> #[trigger] outcomes[i] is NameTaken,
    ensures
        run_from(outcomes, 0) == (
        (MAX_SUFFIX + 1) as nat, Some(Err::<u32, String>(outcomes[MAX_SUFFIX as int]->NameTaken_0))),
{
    lemma_retry_exhausted_from(outcomes, 0);
}

proof fn lemma_retry_exhausted_from(outcomes: Seq<CreateOutcome>, k: nat)
    requires
        k <= MAX_SUFFIX,
        outcomes.len() > MAX_SUFFIX,
        forall|i: int| 0 <= i <= MAX_SUFFIX ==> #[trigger] outcomes[i] is NameTaken,
    ensures
        run_from(outcomes, k) == (
        (MAX_SUFFIX + 1) as nat, Some(Err::<u32, String>(outcomes[MAX_SUFFIX as int]->NameTaken_0))),
    decreases MAX_SUFFIX - k,
{
    assert(outcomes[k as int] is NameTaken);
    if k < MAX_SUFFIX {
        lemma_retry_exhausted_from(outcomes, k + 1);
    }
}

} // verus!
