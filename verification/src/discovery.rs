//! Discovery of the machine's public IPv4 address.
//!
//! Candidates are the caller's provider endpoints, in order, followed by
//! the two built-in fallbacks. Each distinct URL is queried at most once;
//! the first candidate whose response parses as an IPv4 address wins, and
//! every failure only moves discovery on to the next candidate. The
//! queries themselves are network I/O performed by the surrounding
//! program, which drives the `Discovery` state machine; this module owns
//! the plan and every decision between queries.

use vstd::prelude::*;

use crate::ipv4::Ipv4;
use crate::urls::normalize_url;
use crate::urls::url_norm;

verus! {

/// The views of a list of URL strings.
pub open spec fn url_views(v: Seq<String>) -> Seq<Seq<char>> {
    v.map_values(|s: String| s@)
}

/// The two built-in fallback endpoints, primary then secondary, in
/// normalized URL form.
pub open spec fn default_provider_urls() -> Seq<Seq<char>> {
    seq!["https://api.ipify.org/"@, "https://ipinfo.io/ip"@]
}

/// The built-in fallback endpoints as strings.
pub fn default_providers() -> (r: Vec<String>)
    ensures
        url_views(r@) == default_provider_urls(),
{
    let mut v: Vec<String> = Vec::new();
    v.push(String::from_str("https://api.ipify.org/"));
    v.push(String::from_str("https://ipinfo.io/ip"));
    proof {
        assert(url_views(v@) =~= default_provider_urls());
    }
    v
}

/// The full candidate sequence: the caller's providers first, in the
/// given order, then the built-in defaults.
pub open spec fn candidate_urls(custom: Seq<Seq<char>>) -> Seq<Seq<char>> {
    custom + default_provider_urls()
}

/// `s` with every repetition dropped: each distinct URL keeps its first
/// occurrence only.
pub open spec fn dedup_first(s: Seq<Seq<char>>) -> Seq<Seq<char>>
    decreases s.len(),
{
    if s.len() == 0 {
        Seq::empty()
    } else if s.drop_last().contains(s.last()) {
        dedup_first(s.drop_last())
    } else {
        dedup_first(s.drop_last()).push(s.last())
    }
}

/// No URL occurs twice.
pub open spec fn all_distinct(s: Seq<Seq<char>>) -> bool {
    forall|i: int, j: int| 0 <= i < j < s.len() ==> s[i] != s[j]
}

proof fn lemma_dedup_first_elements(s: Seq<Seq<char>>)
    ensures
        forall|x: Seq<char>| #[trigger] dedup_first(s).contains(x) <==> s.contains(x),
    decreases s.len(),
{
    if s.len() == 0 {
    } else {
        let t = s.drop_last();
        let l = s.last();
        lemma_dedup_first_elements(t);
        assert forall|x: Seq<char>| s.contains(x) <==> t.contains(x) || x == l by {
            if s.contains(x) {
                let i = choose|i: int| 0 <= i < s.len() && s[i] == x;
                if i < s.len() - 1 {
                    assert(t[i] == x);
                    assert(t.contains(x));
                }
            }
            if t.contains(x) {
                let i = choose|i: int| 0 <= i < t.len() && t[i] == x;
                assert(s[i] == x);
                assert(s.contains(x));
            }
            if x == l {
                assert(s[s.len() - 1] == x);
                assert(s.contains(x));
            }
        }
        if !t.contains(l) {
            let d = dedup_first(t).push(l);
            assert forall|x: Seq<char>| #[trigger] d.contains(x) <==> t.contains(x) || x == l by {
                if d.contains(x) {
                    let i = choose|i: int| 0 <= i < d.len() && d[i] == x;
                    if i < d.len() - 1 {
                        assert(dedup_first(t)[i] == x);
                        assert(dedup_first(t).contains(x));
                    }
                }
                if t.contains(x) {
                    assert(dedup_first(t).contains(x));
                    let i = choose|i: int| 0 <= i < dedup_first(t).len() && dedup_first(t)[i] == x;
                    assert(d[i] == x);
                    assert(d.contains(x));
                }
                if x == l {
                    assert(d[d.len() - 1] == x);
                    assert(d.contains(x));
                }
            }
        }
    }
}

proof fn lemma_dedup_first_distinct(s: Seq<Seq<char>>)
    ensures
        all_distinct(dedup_first(s)),
    decreases s.len(),
{
    if s.len() == 0 {
    } else {
        let t = s.drop_last();
        let l = s.last();
        lemma_dedup_first_distinct(t);
        if !t.contains(l) {
            lemma_dedup_first_elements(t);
            let d = dedup_first(t).push(l);
            assert forall|i: int, j: int| 0 <= i < j < d.len() implies d[i] != d[j] by {
                if j < d.len() - 1 {
                    assert(dedup_first(t)[i] == d[i] && dedup_first(t)[j] == d[j]);
                } else {
                    assert(d[j] == l);
                    assert(dedup_first(t)[i] == d[i]);
                    assert(dedup_first(t).contains(d[i]));
                }
            }
        }
    }
}

fn contains_url(v: &Vec<String>, u: &String) -> (r: bool)
    ensures
        r == url_views(v@).contains(u@),
{
    let mut i: usize = 0;
    while i < v.len()
        invariant
            i <= v@.len(),
            forall|k: int| 0 <= k < i ==> v@[k]@ != u@,
        decreases v@.len() - i,
    {
        if v[i].eq(u) {
            proof {
                assert(url_views(v@)[i as int] == u@);
            }
            return true;
        }
        i = i + 1;
    }
    proof {
        if url_views(v@).contains(u@) {
            let k = choose|k: int|
                0 <= k < url_views(v@).len() && url_views(v@)[k] == u@;
            assert(v@[k]@ == u@);
        }
    }
    false
}

/// The outcome a discovery run yields, given what each attempt in plan
/// order returns: the first success, or absence.
pub open spec fn first_success(outcomes: Seq<Option<Ipv4>>) -> Option<Ipv4>
    decreases outcomes.len(),
{
    if outcomes.len() == 0 {
        None
    } else if outcomes[0] is Some {
        outcomes[0]
    } else {
        first_success(outcomes.drop_first())
    }
}

/// How many attempts such a run makes: everything up to and including the
/// first success, or the whole plan when there is none.
pub open spec fn attempts_made(outcomes: Seq<Option<Ipv4>>) -> int
    decreases outcomes.len(),
{
    if outcomes.len() == 0 {
        0
    } else if outcomes[0] is Some {
        1
    } else {
        1 + attempts_made(outcomes.drop_first())
    }
}

proof fn lemma_first_success_push(h: Seq<Option<Ipv4>>, x: Option<Ipv4>)
    ensures
        first_success(h.push(x)) == if first_success(h) is Some {
            first_success(h)
        } else {
            x
        },
    decreases h.len(),
{
    reveal_with_fuel(first_success, 3);
    if h.len() == 0 {
        assert(h.push(x)[0] == x);
        assert(h.push(x).drop_first() =~= Seq::<Option<Ipv4>>::empty());
        assert(first_success(Seq::<Option<Ipv4>>::empty()) is None);
    } else {
        assert(h.push(x)[0] == h[0]);
        assert(h.push(x).drop_first() =~= h.drop_first().push(x));
        lemma_first_success_push(h.drop_first(), x);
    }
}

/// The discovery engine's state: the ordered attempt plan (each distinct
/// candidate once), how far it has been worked through, the first address
/// found, and — in specification only — the outcome of every attempt so
/// far.
pub struct Discovery {
    plan: Vec<String>,
    next: usize,
    found: Option<Ipv4>,
    outcomes: Ghost<Seq<Option<Ipv4>>>,
}

impl Discovery {
    /// The ordered attempt plan.
    pub closed spec fn plan(self) -> Seq<Seq<char>> {
        url_views(self.plan@)
    }

    /// How many planned candidates have been attempted.
    pub closed spec fn attempted(self) -> int {
        self.next as int
    }

    /// The first address discovered, if any.
    pub closed spec fn found(self) -> Option<Ipv4> {
        self.found
    }

    /// What every attempt so far returned, in plan order.
    pub closed spec fn outcomes(self) -> Seq<Option<Ipv4>> {
        self.outcomes@
    }

    /// Discovery ends at the first success, or when the plan is
    /// exhausted.
    pub open spec fn is_done(self) -> bool {
        self.found() is Some || self.attempted() >= self.plan().len()
    }

    /// The state is consistent: the plan holds no URL twice, one outcome
    /// is on record per attempt, and the address found is exactly the
    /// first success among the recorded outcomes.
    pub open spec fn wf(self) -> bool {
        &&& 0 <= self.attempted() <= self.plan().len()
        &&& all_distinct(self.plan())
        &&& self.outcomes().len() == self.attempted()
        &&& self.found() == first_success(self.outcomes())
    }

    /// Start a discovery pass: the plan is the caller's providers, in
    /// order, then the built-in defaults, with every URL after its first
    /// occurrence dropped — no endpoint is ever queried twice.
    pub fn new(custom: Vec<String>) -> (r: Discovery)
        ensures
            r.plan() == dedup_first(candidate_urls(url_views(custom@))),
            r.attempted() == 0,
            r.found() is None,
            r.outcomes() == Seq::<Option<Ipv4>>::empty(),
            r.wf(),
    {
        let ghost cand = candidate_urls(url_views(custom@));
        let mut all: Vec<String> = custom;
        let mut defaults: Vec<String> = default_providers();
        all.append(&mut defaults);
        proof {
            assert(url_views(all@) =~= cand);
        }
        let mut plan: Vec<String> = Vec::new();
        let mut i: usize = 0;
        while i < all.len()
            invariant
                i <= all@.len(),
                url_views(all@) == cand,
                url_views(plan@) == dedup_first(cand.take(i as int)),
            decreases all@.len() - i,
        {
            let ghost prefix = cand.take(i as int);
            let keep = !contains_url(&plan, &all[i]);
            proof {
                lemma_dedup_first_elements(prefix);
                assert(cand.take(i + 1).drop_last() =~= prefix);
                assert(cand.take(i + 1).last() == all@[i as int]@);
            }
            if keep {
                plan.push(all[i].clone());
            }
            proof {
                assert(url_views(plan@) =~= dedup_first(cand.take(i + 1)));
            }
            i = i + 1;
        }
        proof {
            assert(cand.take(all@.len() as int) =~= cand);
            lemma_dedup_first_distinct(cand);
        }
        Discovery { plan, next: 0, found: None, outcomes: Ghost(Seq::empty()) }
    }

    /// The URL to query next; `None` once discovery is finished — after
    /// the first success, no later candidate is consulted.
    pub fn next_to_fetch(&self) -> (r: Option<String>)
        ensures
            r is Some <==> !self.is_done(),
            r is Some ==> r.unwrap()@ == self.plan()[self.attempted()],
    {
        if self.found.is_some() {
            return None;
        }
        if self.next >= self.plan.len() {
            return None;
        }
        Some(self.plan[self.next].clone())
    }

    /// Record that the current candidate failed — whatever the cause, the
    /// failure is absorbed and discovery moves past the candidate, never
    /// to retry it.
    pub fn record_failure(&mut self)
        requires
            old(self).wf(),
            !old(self).is_done(),
        ensures
            final(self).wf(),
            final(self).plan() == old(self).plan(),
            final(self).attempted() == old(self).attempted() + 1,
            final(self).found() is None,
            final(self).outcomes() == old(self).outcomes().push(None::<Ipv4>),
    {
        proof {
            lemma_first_success_push(self.outcomes@, None);
        }
        let n = self.plan.len();
        proof {
            assert(self.next < n);
        }
        self.next = self.next + 1;
        self.outcomes = Ghost(self.outcomes@.push(None));
    }

    /// Record the current candidate's address: the first success wins and
    /// finishes discovery.
    pub fn record_success(&mut self, ip: Ipv4)
        requires
            old(self).wf(),
            !old(self).is_done(),
        ensures
            final(self).wf(),
            final(self).plan() == old(self).plan(),
            final(self).attempted() == old(self).attempted() + 1,
            final(self).found() == Some(ip),
            final(self).outcomes() == old(self).outcomes().push(Some(ip)),
            final(self).is_done(),
    {
        proof {
            lemma_first_success_push(self.outcomes@, Some(ip));
        }
        let n = self.plan.len();
        proof {
            assert(self.next < n);
        }
        self.next = self.next + 1;
        self.found = Some(ip);
        self.outcomes = Ghost(self.outcomes@.push(Some(ip)));
    }

    /// The discovered address: the first success among all attempts, or
    /// absence — not an error — when every candidate failed.
    pub fn result(&self) -> (r: Option<Ipv4>)
        ensures
            r == self.found(),
            self.wf() ==> r == first_success(self.outcomes()),
    {
        self.found
    }
}

/// Law: the attempt plan holds each distinct candidate URL exactly once,
/// however often it repeats between the caller's providers and the
/// defaults — and it loses no candidate.
pub proof fn lemma_dedup(custom: Seq<Seq<char>>)
    ensures
        all_distinct(dedup_first(candidate_urls(custom))),
        forall|x: Seq<char>|
            #[trigger] dedup_first(candidate_urls(custom)).contains(x) <==> candidate_urls(
                custom,
            ).contains(x),
{
    lemma_dedup_first_distinct(candidate_urls(custom));
    lemma_dedup_first_elements(candidate_urls(custom));
}

/// Law: when the first candidate fails and the second succeeds, the run
/// returns the second candidate's address after exactly two attempts —
/// no later candidate is consulted.
pub proof fn lemma_fallback_order(outcomes: Seq<Option<Ipv4>>)
    requires
        outcomes.len() >= 2,
        outcomes[0] is None,
        outcomes[1] is Some,
    ensures
        first_success(outcomes) == outcomes[1],
        attempts_made(outcomes) == 2,
{
    reveal_with_fuel(first_success, 3);
    reveal_with_fuel(attempts_made, 3);
    assert(outcomes.drop_first()[0] == outcomes[1]);
}

/// Law: when every attempt fails, discovery reports absence — never an
/// error.
pub proof fn lemma_exhaustion(outcomes: Seq<Option<Ipv4>>)
    requires
        forall|i: int| 0 <= i < outcomes.len() ==> outcomes[i] is None,
    ensures
        first_success(outcomes) is None,
        attempts_made(outcomes) == outcomes.len(),
    decreases outcomes.len(),
{
    if outcomes.len() > 0 {
        assert(forall|i: int|
            0 <= i < outcomes.drop_first().len() ==> outcomes.drop_first()[i] == outcomes[i + 1]);
        lemma_exhaustion(outcomes.drop_first());
    }
}

/// A provider endpoint as handed to the program: caller-supplied, or one
/// of the two built-in fallbacks.
pub enum Provider {
    Custom(String),
    Ipfy,
    IpInfo,
}

impl Provider {
    /// The string the provider's URL is parsed from.
    pub open spec fn source(self) -> Seq<char> {
        match self {
            Provider::Custom(s) => s@,
            Provider::Ipfy => "https://api.ipify.org"@,
            Provider::IpInfo => "https://ipinfo.io/ip"@,
        }
    }

    /// The provider's endpoint in normalized URL form.
    pub fn url(self) -> (r: Result<String, url::ParseError>)
        ensures
            r is Ok <==> url_norm(self.source()) is Some,
            r is Ok ==> Some(r->Ok_0@) == url_norm(self.source()),
    {
        match self {
            Provider::Custom(s) => normalize_url(s.as_str()),
            Provider::Ipfy => normalize_url("https://api.ipify.org"),
            Provider::IpInfo => normalize_url("https://ipinfo.io/ip"),
        }
    }
}

} // verus!
