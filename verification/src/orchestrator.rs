//! The request orchestrator: a per-recipe state machine that enforces at
//! most one in-flight request per recipe and exposes the current state to
//! the caller. Transitions: no state or a terminal state moves to `Loading`
//! on a fresh start; `Loading` moves to `Response` on completion or to
//! `Error` on failure; a completion that arrives for a recipe that is no
//! longer loading is dropped without touching newer state.

use vstd::prelude::*;

use crate::builder::RequestBuildError;
use crate::builder::RequestBuildErrorView;
use crate::http::RecordView;
use crate::http::RequestRecord;
use crate::http::TransportError;
use crate::http::spec_duration_ms;
use crate::strutil::str_eq;

verus! {

/// Relies on `chrono::Utc::now` and `DateTime::timestamp_millis`: the wall
/// clock, read as milliseconds since the epoch. Nothing is promised of the
/// value; a reading before the epoch comes back as zero.
#[verifier::external_body]
pub fn now_ms() -> u64 {
    u64::try_from(chrono::Utc::now().timestamp_millis()).unwrap_or(0)
}

/// An owned error stored in request state.
#[derive(Debug)]
pub enum RequestError {
    /// Building the request out of its recipe failed; nothing was sent.
    Build(RequestBuildError),
    /// The transport failed after the request was dispatched.
    HttpTransport(TransportError),
}

pub enum RequestErrorView {
    Build(RequestBuildErrorView),
    HttpTransport(Seq<char>),
}

impl View for RequestError {
    type V = RequestErrorView;

    open spec fn view(&self) -> RequestErrorView {
        match self {
            RequestError::Build(e) => RequestErrorView::Build(e@),
            RequestError::HttpTransport(e) => RequestErrorView::HttpTransport(e@),
        }
    }
}

/// State of one recipe's request, which can be pending or completed.
#[derive(Debug)]
pub enum RequestState {
    /// Request is in flight: the only non-terminal state.
    Loading { start_ms: u64 },
    /// A resolved response, ready to be displayed. Any received response
    /// counts, whatever its status code.
    Response(RequestRecord),
    /// An error occurred sending the request or receiving the response.
    Error { error: RequestError, start_ms: u64, end_ms: u64 },
}

pub enum RequestStateView {
    Loading { start_ms: u64 },
    Response(RecordView),
    Error { error: RequestErrorView, start_ms: u64, end_ms: u64 },
}

impl View for RequestState {
    type V = RequestStateView;

    open spec fn view(&self) -> RequestStateView {
        match self {
            RequestState::Loading { start_ms } => RequestStateView::Loading {
                start_ms: *start_ms,
            },
            RequestState::Response(record) => RequestStateView::Response(record@),
            RequestState::Error { error, start_ms, end_ms } => RequestStateView::Error {
                error: error@,
                start_ms: *start_ms,
                end_ms: *end_ms,
            },
        }
    }
}

/// When the state's request was launched.
pub open spec fn spec_start_time(state: RequestStateView) -> u64 {
    match state {
        RequestStateView::Loading { start_ms } => start_ms,
        RequestStateView::Response(record) => record.start_ms,
        RequestStateView::Error { start_ms, .. } => start_ms,
    }
}

/// Elapsed time of the state's request as seen at time `now_ms`: a running
/// total while loading, and the request's own span once terminal.
pub open spec fn spec_duration_at(state: RequestStateView, now_ms: u64) -> u64 {
    match state {
        RequestStateView::Loading { start_ms } => spec_duration_ms(start_ms, now_ms),
        RequestStateView::Response(record) => spec_duration_ms(record.start_ms, record.end_ms),
        RequestStateView::Error { start_ms, end_ms, .. } => spec_duration_ms(start_ms, end_ms),
    }
}

impl RequestState {
    pub fn is_loading(&self) -> (r: bool)
        ensures
            r == (self@ is Loading),
    {
        match self {
            RequestState::Loading { .. } => true,
            _ => false,
        }
    }

    /// When was the request launched?
    pub fn start_time(&self) -> (r: u64)
        ensures
            r == spec_start_time(self@),
    {
        match self {
            RequestState::Loading { start_ms } => *start_ms,
            RequestState::Response(record) => record.start_ms,
            RequestState::Error { start_ms, .. } => *start_ms,
        }
    }

    /// Elapsed time of the request as seen at time `now_ms`.
    pub fn duration_at(&self, now_ms: u64) -> (r: u64)
        ensures
            r == spec_duration_at(self@, now_ms),
    {
        match self {
            RequestState::Loading { start_ms } => {
                if now_ms >= *start_ms {
                    now_ms - *start_ms
                } else {
                    0
                }
            },
            RequestState::Response(record) => record.duration_ms(),
            RequestState::Error { start_ms, end_ms, .. } => {
                if *end_ms >= *start_ms {
                    *end_ms - *start_ms
                } else {
                    0
                }
            },
        }
    }

    /// Elapsed time of the request: a running total against the wall clock
    /// while loading, otherwise the request's own recorded span.
    pub fn duration(&self) -> (r: u64)
        ensures
            self@ matches RequestStateView::Response(record) ==> r == spec_duration_ms(
                record.start_ms,
                record.end_ms,
            ),
            self@ matches RequestStateView::Error { start_ms, end_ms, .. } ==> r
                == spec_duration_ms(start_ms, end_ms),
    {
        let now = now_ms();
        self.duration_at(now)
    }
}

/// The states of an orchestrator, as an association sequence from recipe
/// identity to request state, newest entries last.
pub open spec fn spec_state_lookup(
    states: Seq<(Seq<char>, RequestStateView)>,
    recipe_id: Seq<char>,
) -> Option<RequestStateView>
    decreases states.len(),
{
    if states.len() == 0 {
        Option::None
    } else if states.first().0 == recipe_id {
        Option::Some(states.first().1)
    } else {
        spec_state_lookup(states.drop_first(), recipe_id)
    }
}

/// Whether a recipe's current state is `Loading`.
pub open spec fn spec_is_loading(
    states: Seq<(Seq<char>, RequestStateView)>,
    recipe_id: Seq<char>,
) -> bool {
    match spec_state_lookup(states, recipe_id) {
        Option::Some(state) => state is Loading,
        Option::None => false,
    }
}

proof fn lemma_lookup_update_one(
    states: Seq<(Seq<char>, RequestStateView)>,
    idx: int,
    recipe_id: Seq<char>,
    state: RequestStateView,
    looked_up: Seq<char>,
)
    requires
        0 <= idx < states.len(),
        states[idx].0 == recipe_id,
        forall|k: int| 0 <= k < idx ==> states[k].0 != recipe_id,
    ensures
        looked_up == recipe_id ==> spec_state_lookup(states.update(idx, (recipe_id, state)), looked_up)
            == Option::Some(state),
        looked_up != recipe_id ==> spec_state_lookup(states.update(idx, (recipe_id, state)), looked_up)
            == spec_state_lookup(states, looked_up),
    decreases idx,
{
    let updated = states.update(idx, (recipe_id, state));
    if idx == 0 {
        assert(updated.first() == (recipe_id, state));
        assert(updated.drop_first() =~= states.drop_first());
    } else {
        assert(updated.first() == states.first());
        assert(updated.drop_first() =~= states.drop_first().update(idx - 1, (recipe_id, state)));
        lemma_lookup_update_one(states.drop_first(), idx - 1, recipe_id, state, looked_up);
    }
}

proof fn lemma_lookup_update(
    states: Seq<(Seq<char>, RequestStateView)>,
    idx: int,
    recipe_id: Seq<char>,
    state: RequestStateView,
)
    requires
        0 <= idx < states.len(),
        states[idx].0 == recipe_id,
        forall|k: int| 0 <= k < idx ==> states[k].0 != recipe_id,
    ensures
        spec_state_lookup(states.update(idx, (recipe_id, state)), recipe_id) == Option::Some(
            state,
        ),
        forall|other: Seq<char>|
            other != recipe_id ==> spec_state_lookup(states.update(idx, (recipe_id, state)), other)
                == spec_state_lookup(states, other),
{
    lemma_lookup_update_one(states, idx, recipe_id, state, recipe_id);
    assert forall|other: Seq<char>| other != recipe_id implies spec_state_lookup(
        states.update(idx, (recipe_id, state)),
        other,
    ) == spec_state_lookup(states, other) by {
        lemma_lookup_update_one(states, idx, recipe_id, state, other);
    }
}

proof fn lemma_lookup_push_one(
    states: Seq<(Seq<char>, RequestStateView)>,
    recipe_id: Seq<char>,
    state: RequestStateView,
    looked_up: Seq<char>,
)
    requires
        spec_state_lookup(states, recipe_id) is None,
    ensures
        looked_up == recipe_id ==> spec_state_lookup(states.push((recipe_id, state)), looked_up)
            == Option::Some(state),
        looked_up != recipe_id ==> spec_state_lookup(states.push((recipe_id, state)), looked_up)
            == spec_state_lookup(states, looked_up),
    decreases states.len(),
{
    let pushed = states.push((recipe_id, state));
    if states.len() == 0 {
        assert(pushed.first() == (recipe_id, state));
        assert(pushed.drop_first() =~= Seq::<(Seq<char>, RequestStateView)>::empty());
        assert(spec_state_lookup(Seq::<(Seq<char>, RequestStateView)>::empty(), looked_up)
            is None);
    } else {
        assert(pushed.first() == states.first());
        assert(pushed.drop_first() =~= states.drop_first().push((recipe_id, state)));
        lemma_lookup_push_one(states.drop_first(), recipe_id, state, looked_up);
    }
}

proof fn lemma_lookup_push(
    states: Seq<(Seq<char>, RequestStateView)>,
    recipe_id: Seq<char>,
    state: RequestStateView,
)
    requires
        spec_state_lookup(states, recipe_id) is None,
    ensures
        spec_state_lookup(states.push((recipe_id, state)), recipe_id) == Option::Some(state),
        forall|other: Seq<char>|
            other != recipe_id ==> spec_state_lookup(states.push((recipe_id, state)), other)
                == spec_state_lookup(states, other),
{
    lemma_lookup_push_one(states, recipe_id, state, recipe_id);
    assert forall|other: Seq<char>| other != recipe_id implies spec_state_lookup(
        states.push((recipe_id, state)),
        other,
    ) == spec_state_lookup(states, other) by {
        lemma_lookup_push_one(states, recipe_id, state, other);
    }
}

/// The per-recipe request state machine. Each recipe has at most one state
/// entry, and at most one in-flight request, at any time.
#[derive(Debug)]
pub struct RequestOrchestrator {
    states: Vec<(String, RequestState)>,
}

impl View for RequestOrchestrator {
    type V = Seq<(Seq<char>, RequestStateView)>;

    closed spec fn view(&self) -> Seq<(Seq<char>, RequestStateView)> {
        self.states@.map_values(|p: (String, RequestState)| (p.0@, p.1@))
    }
}

impl RequestOrchestrator {
    /// An orchestrator with no request state: every recipe is idle.
    pub fn new() -> (r: RequestOrchestrator)
        ensures
            forall|recipe_id: Seq<char>| spec_state_lookup(r@, recipe_id) is None,
    {
        let states: Vec<(String, RequestState)> = Vec::new();
        let r = RequestOrchestrator { states };
        proof {
            assert(r@ =~= Seq::<(Seq<char>, RequestStateView)>::empty());
        }
        r
    }

    /// The index of the first entry for the recipe, if one exists.
    fn find_index(&self, recipe_id: &str) -> (r: Option<usize>)
        ensures
            match r {
                Option::Some(idx) => idx < self@.len() && self@[idx as int].0 == recipe_id@
                    && spec_state_lookup(self@, recipe_id@) == Option::Some(self@[idx as int].1)
                    && (forall|k: int| 0 <= k < idx ==> self@[k].0 != recipe_id@),
                Option::None => spec_state_lookup(self@, recipe_id@) is None,
            },
    {
        let ghost sv = self@;
        let n = self.states.len();
        let mut i: usize = 0;
        proof {
            assert(sv.skip(0) =~= sv);
        }
        while i < n
            invariant
                n == self.states.len(),
                i <= n,
                sv == self@,
                sv.len() == n,
                spec_state_lookup(sv, recipe_id@) == spec_state_lookup(
                    sv.skip(i as int),
                    recipe_id@,
                ),
                forall|k: int| 0 <= k < i ==> sv[k].0 != recipe_id@,
            decreases n - i,
        {
            proof {
                assert(sv.skip(i as int).first() == sv[i as int]);
                assert(sv.skip(i as int).drop_first() =~= sv.skip(i + 1));
            }
            if str_eq(self.states[i].0.as_str(), recipe_id) {
                return Some(i);
            }
            i = i + 1;
        }
        proof {
            assert(sv.skip(n as int) =~= Seq::<(Seq<char>, RequestStateView)>::empty());
        }
        None
    }

    /// The current state for a recipe, if any.
    pub fn state_for<'a>(&'a self, recipe_id: &str) -> (r: Option<&'a RequestState>)
        ensures
            match r {
                Option::Some(state) => spec_state_lookup(self@, recipe_id@) == Option::Some(
                    state@,
                ),
                Option::None => spec_state_lookup(self@, recipe_id@) is None,
            },
    {
        match self.find_index(recipe_id) {
            Some(idx) => Some(&self.states[idx].1),
            None => None,
        }
    }

    /// Can a request be sent for this recipe? Only if none is in flight:
    /// false exactly while the recipe's state is `Loading`.
    pub fn can_send_request(&self, recipe_id: &str) -> (r: bool)
        ensures
            r == !spec_is_loading(self@, recipe_id@),
    {
        match self.state_for(recipe_id) {
            Some(state) => !state.is_loading(),
            None => true,
        }
    }

    /// Start a request for the recipe at time `now_ms`: the recipe enters
    /// `Loading`, overwriting any prior terminal state. If a request is
    /// already in flight for it, the start is rejected and every state is
    /// left untouched.
    pub fn start_request_at(&mut self, recipe_id: String, now_ms: u64)
        ensures
            spec_is_loading(old(self)@, recipe_id@) ==> final(self)@ == old(self)@,
            !spec_is_loading(old(self)@, recipe_id@) ==> {
                &&& spec_state_lookup(final(self)@, recipe_id@) == Option::Some(
                    RequestStateView::Loading { start_ms: now_ms },
                )
                &&& forall|other: Seq<char>|
                    other != recipe_id@ ==> spec_state_lookup(final(self)@, other)
                        == spec_state_lookup(old(self)@, other)
            },
    {
        let ghost old_states = self@;
        let state = RequestState::Loading { start_ms: now_ms };
        match self.find_index(recipe_id.as_str()) {
            Some(idx) => {
                if self.states[idx].1.is_loading() {
                    // A request is already in flight for this recipe: the
                    // caller should have checked `can_send_request` first.
                    return ;
                }
                self.states[idx] = (recipe_id, state);
                proof {
                    assert(self@ =~= old_states.update(
                        idx as int,
                        (old_states[idx as int].0, self@[idx as int].1),
                    ));
                    lemma_lookup_update(
                        old_states,
                        idx as int,
                        old_states[idx as int].0,
                        self@[idx as int].1,
                    );
                }
            },
            None => {
                self.states.push((recipe_id, state));
                proof {
                    assert(self@ =~= old_states.push(
                        (self@.last().0, RequestStateView::Loading { start_ms: now_ms }),
                    ));
                    lemma_lookup_push(
                        old_states,
                        self@.last().0,
                        RequestStateView::Loading { start_ms: now_ms },
                    );
                }
            },
        }
    }

    /// Start a request for the recipe now. The start time is read off the
    /// wall clock; everything else behaves as `start_request_at`.
    pub fn start_request(&mut self, recipe_id: String)
        ensures
            spec_is_loading(old(self)@, recipe_id@) ==> final(self)@ == old(self)@,
            !spec_is_loading(old(self)@, recipe_id@) ==> {
                &&& spec_is_loading(final(self)@, recipe_id@)
                &&& forall|other: Seq<char>|
                    other != recipe_id@ ==> spec_state_lookup(final(self)@, other)
                        == spec_state_lookup(old(self)@, other)
            },
    {
        let now = now_ms();
        self.start_request_at(recipe_id, now);
    }

    /// Store the completed record for its recipe: `Loading` becomes
    /// `Response`. A completion for a recipe that is not loading (reset, or
    /// never started) is dropped without touching any state.
    pub fn finish_request(&mut self, record: RequestRecord)
        ensures
            spec_is_loading(old(self)@, record.request.recipe_id@) ==> {
                &&& spec_state_lookup(final(self)@, record.request.recipe_id@) == Option::Some(
                    RequestStateView::Response(record@),
                )
                &&& forall|other: Seq<char>|
                    other != record.request.recipe_id@ ==> spec_state_lookup(final(self)@, other)
                        == spec_state_lookup(old(self)@, other)
            },
            !spec_is_loading(old(self)@, record.request.recipe_id@) ==> final(self)@ == old(
                self,
            )@,
    {
        let ghost old_states = self@;
        let ghost record_v = record@;
        match self.find_index(record.request.recipe_id.as_str()) {
            Some(idx) => {
                if !self.states[idx].1.is_loading() {
                    // The state was reset or superseded while the request
                    // ran: drop the orphaned completion.
                    return ;
                }
                let ghost key = old_states[idx as int].0;
                let recipe_id = record.request.recipe_id.clone();
                self.states[idx] = (recipe_id, RequestState::Response(record));
                proof {
                    assert(self@ =~= old_states.update(
                        idx as int,
                        (key, RequestStateView::Response(record_v)),
                    ));
                    lemma_lookup_update(
                        old_states,
                        idx as int,
                        key,
                        RequestStateView::Response(record_v),
                    );
                }
            },
            None => {},
        }
    }

    /// Store a failure for the recipe at time `now_ms`: `Loading` becomes
    /// `Error`, keeping the start time the loading state carried. A failure
    /// for a recipe that is not loading is dropped without touching any
    /// state.
    pub fn fail_request_at(&mut self, recipe_id: &str, error: RequestError, now_ms: u64)
        ensures
            spec_is_loading(old(self)@, recipe_id@) ==> {
                &&& spec_state_lookup(final(self)@, recipe_id@) == Option::Some(
                    RequestStateView::Error {
                        error: error@,
                        start_ms: spec_start_time(
                            spec_state_lookup(old(self)@, recipe_id@)->0,
                        ),
                        end_ms: now_ms,
                    },
                )
                &&& forall|other: Seq<char>|
                    other != recipe_id@ ==> spec_state_lookup(final(self)@, other)
                        == spec_state_lookup(old(self)@, other)
            },
            !spec_is_loading(old(self)@, recipe_id@) ==> final(self)@ == old(self)@,
    {
        let ghost old_states = self@;
        match self.find_index(recipe_id) {
            Some(idx) => {
                if !self.states[idx].1.is_loading() {
                    // The state was reset or superseded while the request
                    // ran: drop the orphaned failure.
                    return ;
                }
                let ghost key = old_states[idx as int].0;
                let start_ms = self.states[idx].1.start_time();
                let ghost error_v = error@;
                self.states[idx].1 = RequestState::Error { error, start_ms, end_ms: now_ms };
                proof {
                    assert(self@ =~= old_states.update(
                        idx as int,
                        (
                            key,
                            RequestStateView::Error {
                                error: error_v,
                                start_ms,
                                end_ms: now_ms,
                            },
                        ),
                    ));
                    lemma_lookup_update(
                        old_states,
                        idx as int,
                        key,
                        RequestStateView::Error { error: error_v, start_ms, end_ms: now_ms },
                    );
                }
            },
            None => {},
        }
    }

    /// Store a failure for the recipe now. The end time is read off the
    /// wall clock; everything else behaves as `fail_request_at`.
    pub fn fail_request(&mut self, recipe_id: &str, error: RequestError)
        ensures
            spec_is_loading(old(self)@, recipe_id@) ==> {
                &&& (spec_state_lookup(final(self)@, recipe_id@) matches Option::Some(state)
                    && state matches RequestStateView::Error { error: e, start_ms, .. } && e
                    == error@ && start_ms == spec_start_time(
                    spec_state_lookup(old(self)@, recipe_id@)->0,
                ))
                &&& forall|other: Seq<char>|
                    other != recipe_id@ ==> spec_state_lookup(final(self)@, other)
                        == spec_state_lookup(old(self)@, other)
            },
            !spec_is_loading(old(self)@, recipe_id@) ==> final(self)@ == old(self)@,
    {
        let now = now_ms();
        self.fail_request_at(recipe_id, error, now);
    }
}

} // verus!
