//! The table of sign-in flows in progress, keyed by their state value.

use vstd::prelude::*;
use crate::token::{OAuthResult, TokenView};

verus! {

/// How long a flow may wait for its redirect: 120 seconds, in nanoseconds.
pub const OAUTH_TIMEOUT_NS: u64 = 120_000_000_000;

/// The view of a flow: its PKCE verifier, when it started (nanoseconds on
/// the caller's monotonic clock) and the token once one has arrived.
pub type FlowView = (Seq<char>, u64, Option<TokenView>);

/// One sign-in flow in progress.
struct OAuthFlowEntry {
    code_verifier: String,
    state: String,
    started_at_ns: u64,
    result: Option<OAuthResult>,
}

/// The view of an optional token.
pub open spec fn opt_token_view(o: Option<OAuthResult>) -> Option<TokenView> {
    match o {
        Some(t) => Some(t@),
        None => None,
    }
}

impl View for OAuthFlowEntry {
    type V = (Seq<char>, FlowView);

    closed spec fn view(&self) -> (Seq<char>, FlowView) {
        (self.state@, (self.code_verifier@, self.started_at_ns, opt_token_view(self.result)))
    }
}

/// The map from state to flow that a sequence of entries stands for.
pub open spec fn entries_map(s: Seq<(Seq<char>, FlowView)>) -> Map<Seq<char>, FlowView>
    decreases s.len(),
{
    if s.len() == 0 {
        Map::empty()
    } else {
        entries_map(s.drop_last()).insert(s.last().0, s.last().1)
    }
}

/// No two entries share a state.
pub open spec fn distinct_keys(s: Seq<(Seq<char>, FlowView)>) -> bool {
    forall|i: int, j: int| 0 <= i < s.len() && 0 <= j < s.len() && i != j ==> s[i].0 != s[j].0
}

/// Shared table of in-progress sign-in flows.
pub struct OAuthFlowState {
    entries: Vec<OAuthFlowEntry>,
}

/// The views of a sequence of entries.
spec fn views_of(v: Seq<OAuthFlowEntry>) -> Seq<(Seq<char>, FlowView)> {
    v.map_values(|e: OAuthFlowEntry| e@)
}

impl OAuthFlowState {
    /// The entries, as a sequence of views.
    pub closed spec fn entry_views(&self) -> Seq<(Seq<char>, FlowView)> {
        views_of(self.entries@)
    }

    /// The table's invariant: no state appears twice.
    #[verifier::type_invariant]
    spec fn wf(&self) -> bool {
        distinct_keys(self.entry_views())
    }
}

impl View for OAuthFlowState {
    type V = Map<Seq<char>, FlowView>;

    closed spec fn view(&self) -> Map<Seq<char>, FlowView> {
        entries_map(self.entry_views())
    }
}

proof fn lemma_entries_map_dom(s: Seq<(Seq<char>, FlowView)>, k: Seq<char>)
    ensures
        entries_map(s).contains_key(k) <==> exists|i: int| 0 <= i < s.len() && s[i].0 == k,
    decreases s.len(),
{
    if s.len() > 0 {
        lemma_entries_map_dom(s.drop_last(), k);
        if entries_map(s.drop_last()).contains_key(k) {
            let i = choose|i: int| 0 <= i < s.drop_last().len() && s.drop_last()[i].0 == k;
            assert(s[i].0 == k);
        }
        if exists|i: int| 0 <= i < s.len() && s[i].0 == k {
            let i = choose|i: int| 0 <= i < s.len() && s[i].0 == k;
            if i < s.len() - 1 {
                assert(s.drop_last()[i].0 == k);
            }
        }
    }
}

proof fn lemma_entries_map_value(s: Seq<(Seq<char>, FlowView)>, i: int)
    requires
        distinct_keys(s),
        0 <= i < s.len(),
    ensures
        entries_map(s).contains_key(s[i].0),
        entries_map(s)[s[i].0] == s[i].1,
    decreases s.len(),
{
    lemma_entries_map_dom(s, s[i].0);
    if i < s.len() - 1 {
        assert(distinct_keys(s.drop_last()));
        assert(s.drop_last()[i] == s[i]);
        lemma_entries_map_value(s.drop_last(), i);
        assert(s.last().0 != s[i].0);
    }
}

/// Two well-formed entry sequences with the same keys and values per key
/// stand for the same map.
proof fn lemma_entries_map_ext(s: Seq<(Seq<char>, FlowView)>, m: Map<Seq<char>, FlowView>)
    requires
        distinct_keys(s),
        forall|k: Seq<char>| #[trigger] m.contains_key(k) <==> exists|i: int| 0 <= i < s.len() && s[i].0 == k,
        forall|i: int| 0 <= i < s.len() ==> m[#[trigger] s[i].0] == s[i].1,
    ensures
        entries_map(s) == m,
{
    assert forall|k: Seq<char>| #[trigger] entries_map(s).contains_key(k) == m.contains_key(k) by {
        lemma_entries_map_dom(s, k);
    }
    assert forall|k: Seq<char>| #[trigger] entries_map(s).contains_key(k) implies entries_map(s)[k] == m[k] by {
        lemma_entries_map_dom(s, k);
        let i = choose|i: int| 0 <= i < s.len() && s[i].0 == k;
        lemma_entries_map_value(s, i);
    }
    assert(entries_map(s) =~= m);
}

proof fn lemma_update_same_key(s: Seq<(Seq<char>, FlowView)>, i: int, v: (Seq<char>, FlowView))
    requires
        distinct_keys(s),
        0 <= i < s.len(),
        s[i].0 == v.0,
    ensures
        distinct_keys(s.update(i, v)),
        entries_map(s.update(i, v)) == entries_map(s).insert(v.0, v.1),
{
    let t = s.update(i, v);
    let m = entries_map(s).insert(v.0, v.1);
    assert(distinct_keys(t)) by {
        assert forall|a: int, b: int| 0 <= a < t.len() && 0 <= b < t.len() && a != b implies t[a].0
            != t[b].0 by {
            assert(s[a].0 != s[b].0);
        }
    }
    assert forall|k: Seq<char>| #[trigger] m.contains_key(k) <==> exists|j: int| 0 <= j < t.len() && t[j].0 == k by {
        lemma_entries_map_dom(s, k);
        if exists|j: int| 0 <= j < s.len() && s[j].0 == k {
            let j = choose|j: int| 0 <= j < s.len() && s[j].0 == k;
            assert(t[j].0 == k);
        }
        if exists|j: int| 0 <= j < t.len() && t[j].0 == k {
            let j = choose|j: int| 0 <= j < t.len() && t[j].0 == k;
            assert(s[j].0 == k);
        }
    }
    assert forall|j: int| 0 <= j < t.len() implies m[#[trigger] t[j].0] == t[j].1 by {
        if j != i {
            lemma_entries_map_value(s, j);
            assert(s[j].0 != s[i].0);
        }
    }
    lemma_entries_map_ext(t, m);
}

proof fn lemma_push_new_key(s: Seq<(Seq<char>, FlowView)>, v: (Seq<char>, FlowView))
    requires
        distinct_keys(s),
        forall|j: int| 0 <= j < s.len() ==> s[j].0 != v.0,
    ensures
        distinct_keys(s.push(v)),
        entries_map(s.push(v)) == entries_map(s).insert(v.0, v.1),
{
    let t = s.push(v);
    assert(t.drop_last() =~= s);
    assert forall|a: int, b: int| 0 <= a < t.len() && 0 <= b < t.len() && a != b implies t[a].0
        != t[b].0 by {
        if a < s.len() && b < s.len() {
            assert(s[a].0 != s[b].0);
        }
    }
}

proof fn lemma_remove_at(s: Seq<(Seq<char>, FlowView)>, i: int)
    requires
        distinct_keys(s),
        0 <= i < s.len(),
    ensures
        distinct_keys(s.remove(i)),
        entries_map(s.remove(i)) == entries_map(s).remove(s[i].0),
{
    let t = s.remove(i);
    let m = entries_map(s).remove(s[i].0);
    assert forall|j: int| 0 <= j < t.len() implies #[trigger] t[j] == (if j < i { s[j] } else { s[j + 1] }) by {}
    assert(distinct_keys(t)) by {
        assert forall|a: int, b: int| 0 <= a < t.len() && 0 <= b < t.len() && a != b implies t[a].0
            != t[b].0 by {
            let a2 = if a < i { a } else { a + 1 };
            let b2 = if b < i { b } else { b + 1 };
            assert(t[a] == s[a2]);
            assert(t[b] == s[b2]);
            assert(s[a2].0 != s[b2].0);
        }
    }
    assert forall|k: Seq<char>| #[trigger] m.contains_key(k) <==> exists|j: int| 0 <= j < t.len() && t[j].0 == k by {
        lemma_entries_map_dom(s, k);
        if m.contains_key(k) {
            let j = choose|j: int| 0 <= j < s.len() && s[j].0 == k;
            assert(j != i);
            let j2 = if j < i { j } else { j - 1 };
            assert(t[j2] == s[j]);
        }
        if exists|j: int| 0 <= j < t.len() && t[j].0 == k {
            let j = choose|j: int| 0 <= j < t.len() && t[j].0 == k;
            let j2 = if j < i { j } else { j + 1 };
            assert(t[j] == s[j2]);
            assert(s[j2].0 != s[i].0);
        }
    }
    assert forall|j: int| 0 <= j < t.len() implies m[#[trigger] t[j].0] == t[j].1 by {
        let j2 = if j < i { j } else { j + 1 };
        assert(t[j] == s[j2]);
        lemma_entries_map_value(s, j2);
        assert(s[j2].0 != s[i].0);
    }
    lemma_entries_map_ext(t, m);
}

proof fn lemma_absent(s: Seq<(Seq<char>, FlowView)>, k: Seq<char>)
    requires
        forall|j: int| 0 <= j < s.len() ==> s[j].0 != k,
    ensures
        !entries_map(s).contains_key(k),
{
    lemma_entries_map_dom(s, k);
}

/// Whether a flow started at `started` has waited too long at `now`
/// (more than the timeout has elapsed; a clock reading before the start
/// counts as no time elapsed).
pub open spec fn timed_out(started: u64, now: u64) -> bool {
    now as int - started as int > OAUTH_TIMEOUT_NS as int
}

/// What asking about a flow finds.
pub enum PollOutcome {
    /// The token had arrived; the flow is finished and forgotten.
    Completed(OAuthResult),
    /// No token, and the flow waited too long; it is forgotten.
    TimedOut,
    /// No token yet; the flow goes on.
    Pending,
    /// No flow has this state (the caller may look in persistent storage).
    NotFound,
}

/// The view of a `PollOutcome`.
pub enum PollView {
    Completed(TokenView),
    TimedOut,
    Pending,
    NotFound,
}

impl View for PollOutcome {
    type V = PollView;

    open spec fn view(&self) -> PollView {
        match self {
            PollOutcome::Completed(t) => PollView::Completed(t@),
            PollOutcome::TimedOut => PollView::TimedOut,
            PollOutcome::Pending => PollView::Pending,
            PollOutcome::NotFound => PollView::NotFound,
        }
    }
}

/// Asking about the flow `key` at time `now`: the outcome, and the table after.
pub open spec fn spec_poll(m: Map<Seq<char>, FlowView>, key: Seq<char>, now: u64) -> (
    PollView,
    Map<Seq<char>, FlowView>,
) {
    if !m.contains_key(key) {
        (PollView::NotFound, m)
    } else if m[key].2 is Some {
        (PollView::Completed(m[key].2->0), m.remove(key))
    } else if timed_out(m[key].1, now) {
        (PollView::TimedOut, m.remove(key))
    } else {
        (PollView::Pending, m)
    }
}

/// Storing a token for the flow `key`; nothing changes when there is no such flow.
pub open spec fn spec_record(m: Map<Seq<char>, FlowView>, key: Seq<char>, token: TokenView) -> Map<
    Seq<char>,
    FlowView,
> {
    if m.contains_key(key) {
        m.insert(key, (m[key].0, m[key].1, Some(token)))
    } else {
        m
    }
}

/// The verifier of the flow `key`, or the empty text when there is none.
pub open spec fn spec_verifier(m: Map<Seq<char>, FlowView>, key: Seq<char>) -> Seq<char> {
    if m.contains_key(key) {
        m[key].0
    } else {
        Seq::empty()
    }
}

/// Index of the entry whose state is `key`, if there is one.
fn find_in(entries: &Vec<OAuthFlowEntry>, key: &String) -> (r: Option<usize>)
    ensures
        match r {
            Some(i) => i < entries@.len() && views_of(entries@)[i as int].0 == key@,
            None => forall|j: int| 0 <= j < entries@.len() ==> views_of(entries@)[j].0 != key@,
        },
{
    let mut i: usize = 0;
    while i < entries.len()
        invariant
            i <= entries@.len(),
            forall|j: int| 0 <= j < i ==> views_of(entries@)[j].0 != key@,
        decreases entries@.len() - i,
    {
        if entries[i].state == *key {
            return Some(i);
        }
        i = i + 1;
    }
    None
}

impl OAuthFlowState {
    /// An empty table.
    pub fn new() -> (r: Self)
        ensures
            r@ == Map::<Seq<char>, FlowView>::empty(),
    {
        let r = OAuthFlowState { entries: Vec::new() };
        assert(r.entry_views() =~= Seq::<(Seq<char>, FlowView)>::empty());
        r
    }

    /// Number of flows in progress.
    pub fn len(&self) -> (n: usize)
        ensures
            n == self@.len(),
    {
        proof {
            use_type_invariant(self);
            lemma_entries_map_len(self.entry_views());
        }
        self.entries.len()
    }

    /// Takes the entries out, leaving the table empty.
    fn take_entries(&mut self) -> (entries: Vec<OAuthFlowEntry>)
        ensures
            views_of(entries@) == old(self).entry_views(),
            distinct_keys(views_of(entries@)),
            final(self).entry_views() == Seq::<(Seq<char>, FlowView)>::empty(),
    {
        proof {
            use_type_invariant(&*self);
        }
        let mut entries: Vec<OAuthFlowEntry> = Vec::new();
        std::mem::swap(&mut entries, &mut self.entries);
        assert(self.entry_views() =~= Seq::<(Seq<char>, FlowView)>::empty());
        entries
    }

    /// Registers a new flow under `state` (replacing any flow with that
    /// state), with no token yet.
    pub fn begin(&mut self, state: String, code_verifier: String, now_ns: u64)
        ensures
            final(self)@ == old(self)@.insert(state@, (code_verifier@, now_ns, None)),
    {
        let mut entries = self.take_entries();
        let entry = OAuthFlowEntry { code_verifier, state, started_at_ns: now_ns, result: None };
        let ghost v = entry@;
        let ghost old_views = views_of(entries@);
        match find_in(&entries, &entry.state) {
            Some(i) => {
                entries.set(i, entry);
                proof {
                    assert(views_of(entries@) =~= old_views.update(i as int, v));
                    lemma_update_same_key(old_views, i as int, v);
                }
            },
            None => {
                entries.push(entry);
                proof {
                    assert(views_of(entries@) =~= old_views.push(v));
                    lemma_push_new_key(old_views, v);
                }
            },
        }
        self.entries = entries;
    }

    /// Forgets the flow `state`, if there is one.
    pub fn cancel(&mut self, state: &String)
        ensures
            final(self)@ == old(self)@.remove(state@),
    {
        let mut entries = self.take_entries();
        let ghost old_views = views_of(entries@);
        match find_in(&entries, state) {
            Some(i) => {
                let _ = entries.remove(i);
                proof {
                    assert(views_of(entries@) =~= old_views.remove(i as int));
                    lemma_remove_at(old_views, i as int);
                }
            },
            None => {
                proof {
                    lemma_absent(old_views, state@);
                    assert(entries_map(old_views) =~= entries_map(old_views).remove(state@));
                }
            },
        }
        self.entries = entries;
    }

    /// Stores the token obtained for the flow `state`; nothing happens when
    /// no flow has that state.
    pub fn record_result(&mut self, state: &String, token: OAuthResult)
        ensures
            final(self)@ == spec_record(old(self)@, state@, token@),
    {
        let mut entries = self.take_entries();
        let ghost old_views = views_of(entries@);
        match find_in(&entries, state) {
            Some(i) => {
                let e = entries.remove(i);
                let ghost ev = e@;
                let updated = OAuthFlowEntry {
                    code_verifier: e.code_verifier,
                    state: e.state,
                    started_at_ns: e.started_at_ns,
                    result: Some(token),
                };
                let ghost v = updated@;
                entries.insert(i, updated);
                proof {
                    assert(old_views[i as int] == ev);
                    assert(views_of(entries@) =~= old_views.update(i as int, v));
                    lemma_update_same_key(old_views, i as int, v);
                    lemma_entries_map_value(old_views, i as int);
                }
            },
            None => {
                proof {
                    lemma_absent(old_views, state@);
                }
            },
        }
        self.entries = entries;
    }

    /// The PKCE verifier of the flow `state`, or an empty string when there
    /// is no such flow.
    pub fn code_verifier(&self, state: &String) -> (r: String)
        ensures
            r@ == spec_verifier(self@, state@),
    {
        proof {
            use_type_invariant(self);
        }
        match find_in(&self.entries, state) {
            Some(i) => {
                proof {
                    lemma_entries_map_value(self.entry_views(), i as int);
                }
                self.entries[i].code_verifier.clone()
            },
            None => {
                proof {
                    lemma_absent(self.entry_views(), state@);
                }
                let r = String::new();
                assert(r@ =~= Seq::<char>::empty());
                r
            },
        }
    }

    /// Asks about the flow `state` at time `now_ns`: hands over and forgets
    /// a finished flow, forgets one that waited too long, and otherwise
    /// reports it pending or unknown.
    pub fn poll(&mut self, state: &String, now_ns: u64) -> (r: PollOutcome)
        ensures
            (r@, final(self)@) == spec_poll(old(self)@, state@, now_ns),
    {
        let mut entries = self.take_entries();
        let ghost old_views = views_of(entries@);
        let r = match find_in(&entries, state) {
            None => {
                proof {
                    lemma_absent(old_views, state@);
                }
                PollOutcome::NotFound
            },
            Some(i) => {
                proof {
                    lemma_entries_map_value(old_views, i as int);
                }
                if entries[i].result.is_some() {
                    let e = entries.remove(i);
                    proof {
                        assert(views_of(entries@) =~= old_views.remove(i as int));
                        lemma_remove_at(old_views, i as int);
                    }
                    PollOutcome::Completed(e.result.unwrap())
                } else {
                    let started = entries[i].started_at_ns;
                    if now_ns > started && now_ns - started > OAUTH_TIMEOUT_NS {
                        let _ = entries.remove(i);
                        proof {
                            assert(views_of(entries@) =~= old_views.remove(i as int));
                            lemma_remove_at(old_views, i as int);
                        }
                        PollOutcome::TimedOut
                    } else {
                        PollOutcome::Pending
                    }
                }
            },
        };
        self.entries = entries;
        r
    }
}

proof fn lemma_entries_map_len(s: Seq<(Seq<char>, FlowView)>)
    requires
        distinct_keys(s),
    ensures
        entries_map(s).dom().finite(),
        entries_map(s).len() == s.len(),
    decreases s.len(),
{
    if s.len() > 0 {
        let p = s.drop_last();
        assert(distinct_keys(p));
        lemma_entries_map_len(p);
        lemma_entries_map_dom(p, s.last().0);
        if entries_map(p).contains_key(s.last().0) {
            let j = choose|j: int| 0 <= j < p.len() && p[j].0 == s.last().0;
            assert(s[j].0 != s[s.len() - 1].0);
        }
    }
}

impl Default for OAuthFlowState {
    fn default() -> (r: Self)
        ensures
            r@ == Map::<Seq<char>, FlowView>::empty(),
    {
        OAuthFlowState::new()
    }
}

/// A token stored for a flow is what the next poll of that flow hands
/// over, and the flow is then gone.
pub proof fn law_poll_returns_recorded(
    m: Map<Seq<char>, FlowView>,
    key: Seq<char>,
    token: TokenView,
    now: u64,
)
    requires
        m.contains_key(key),
    ensures
        spec_poll(spec_record(m, key, token), key, now) == (PollView::Completed(token), m.remove(key)),
{
    assert(spec_record(m, key, token).remove(key) =~= m.remove(key));
}

/// A flow just begun, polled before the timeout, is pending and stays in
/// the table; polled after the timeout, it has timed out and is gone.
pub proof fn law_poll_after_begin(
    m: Map<Seq<char>, FlowView>,
    key: Seq<char>,
    verifier: Seq<char>,
    started: u64,
    now: u64,
)
    ensures
        !timed_out(started, now) ==> spec_poll(m.insert(key, (verifier, started, None)), key, now)
            == (PollView::Pending, m.insert(key, (verifier, started, None))),
        timed_out(started, now) ==> spec_poll(m.insert(key, (verifier, started, None)), key, now)
            == (PollView::TimedOut, m.remove(key)),
{
    assert(m.insert(key, (verifier, started, None)).remove(key) =~= m.remove(key));
}

/// A cancelled flow is unknown to the next poll.
pub proof fn law_poll_after_cancel(m: Map<Seq<char>, FlowView>, key: Seq<char>, now: u64)
    ensures
        spec_poll(m.remove(key), key, now) == (PollView::NotFound, m.remove(key)),
{
}

/// A poll that finishes a flow (completed or timed out) leaves nothing
/// behind: polling the same state again finds nothing.
pub proof fn law_finished_flow_is_gone(m: Map<Seq<char>, FlowView>, key: Seq<char>, now: u64, later: u64)
    requires
        spec_poll(m, key, now).0 is Completed || spec_poll(m, key, now).0 is TimedOut,
    ensures
        spec_poll(spec_poll(m, key, now).1, key, later).0 == PollView::NotFound,
{
}

/// Polling, storing a token and cancelling touch only the flow they name.
pub proof fn law_other_flows_untouched(
    m: Map<Seq<char>, FlowView>,
    key: Seq<char>,
    other: Seq<char>,
    token: TokenView,
    now: u64,
)
    requires
        key != other,
    ensures
        spec_poll(m, key, now).1.contains_key(other) == m.contains_key(other),
        m.contains_key(other) ==> spec_poll(m, key, now).1[other] == m[other],
        spec_record(m, key, token).contains_key(other) == m.contains_key(other),
        m.contains_key(other) ==> spec_record(m, key, token)[other] == m[other],
        m.remove(key).contains_key(other) == m.contains_key(other),
        m.contains_key(other) ==> m.remove(key)[other] == m[other],
{
}

/// The verifier handed to the token exchange is the one the flow was begun
/// with, and storing the token does not change it.
pub proof fn law_verifier_kept(
    m: Map<Seq<char>, FlowView>,
    key: Seq<char>,
    verifier: Seq<char>,
    started: u64,
    token: TokenView,
)
    ensures
        spec_verifier(m.insert(key, (verifier, started, None)), key) == verifier,
        spec_verifier(spec_record(m.insert(key, (verifier, started, None)), key, token), key)
            == verifier,
{
}

/// Once a flow has timed out it stays timed out at every later time.
pub proof fn law_timeout_is_final(started: u64, now: u64, later: u64)
    requires
        timed_out(started, now),
        now <= later,
    ensures
        timed_out(started, later),
{
}

/// A flow without a token, polled at `now`, is pending and stays in the
/// table exactly when at most 120 seconds (120 000 000 000 ns) have passed
/// since its start, whatever the start value; once more than that has
/// passed it is reported timed out and removed. A clock reading before the
/// start counts as no time elapsed.
pub proof fn law_timeout_by_elapsed_time(
    m: Map<Seq<char>, FlowView>,
    key: Seq<char>,
    verifier: Seq<char>,
    started: u64,
    now: u64,
)
    ensures
        now as int - started as int <= 120_000_000_000 ==> spec_poll(
            m.insert(key, (verifier, started, None)),
            key,
            now,
        ) == (PollView::Pending, m.insert(key, (verifier, started, None))),
        now as int - started as int > 120_000_000_000 ==> spec_poll(
            m.insert(key, (verifier, started, None)),
            key,
            now,
        ) == (PollView::TimedOut, m.remove(key)),
        now <= started ==> spec_poll(m.insert(key, (verifier, started, None)), key, now).0
            == PollView::Pending,
{
    assert(m.insert(key, (verifier, started, None)).remove(key) =~= m.remove(key));
}

impl PollOutcome {
    /// The reply of the poll command for this outcome: the token, nothing
    /// yet, or the time-out error. `None` for an unknown flow, whose reply
    /// comes from the token kept in storage.
    pub fn into_reply(self) -> (r: Option<Result<Option<OAuthResult>, String>>)
        ensures
            match self@ {
                PollView::Completed(t) => r matches Some(Ok(Some(x))) && x@ == t,
                PollView::TimedOut => r matches Some(Err(e)) && e@ == "OAuth flow timed out"@,
                PollView::Pending => r matches Some(Ok(None)),
                PollView::NotFound => r is None,
            },
    {
        match self {
            PollOutcome::Completed(t) => Some(Ok(Some(t))),
            PollOutcome::TimedOut => Some(Err(String::from_str("OAuth flow timed out"))),
            PollOutcome::Pending => Some(Ok(None)),
            PollOutcome::NotFound => None,
        }
    }
}

} // verus!
