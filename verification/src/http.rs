//! The HTTP data model: requests, responses, records of past attempts, and
//! the in-session repository that chain resolution reads. Building a request
//! out of a recipe lives in `builder`.

use vstd::prelude::*;

verus! {

/// A transport-level failure, carried as its rendered message so that it can
/// be stored and displayed after crossing the async boundary.
#[derive(Clone, Debug)]
pub struct TransportError {
    pub message: String,
}

impl View for TransportError {
    type V = Seq<char>;

    open spec fn view(&self) -> Seq<char> {
        self.message@
    }
}

/// A resolved HTTP response, with all content buffered as text.
#[derive(Clone, Debug)]
pub struct Response {
    pub status: u16,
    pub headers: Vec<(String, String)>,
    pub content: String,
}

pub struct ResponseView {
    pub status: u16,
    pub headers: Seq<(Seq<char>, Seq<char>)>,
    pub content: Seq<char>,
}

impl View for Response {
    type V = ResponseView;

    open spec fn view(&self) -> ResponseView {
        ResponseView {
            status: self.status,
            headers: self.headers@.map_values(|p: (String, String)| (p.0@, p.1@)),
            content: self.content@,
        }
    }
}

/// The outcome of one attempt: a received response (whatever its status
/// code), or a transport-level failure.
pub type Outcome = Result<Response, TransportError>;

pub type OutcomeView = Result<ResponseView, Seq<char>>;

pub open spec fn outcome_view(outcome: Outcome) -> OutcomeView {
    match outcome {
        Result::Ok(response) => Result::Ok(response@),
        Result::Err(error) => Result::Err(error@),
    }
}

/// The result slot of a request: created empty, written exactly once when
/// the attempt completes, and never cleared afterwards.
#[derive(Clone, Debug)]
pub struct ResponseSlot {
    value: Option<Outcome>,
}

impl View for ResponseSlot {
    type V = Option<OutcomeView>;

    closed spec fn view(&self) -> Option<OutcomeView> {
        match self.value {
            Option::Some(outcome) => Option::Some(outcome_view(outcome)),
            Option::None => Option::None,
        }
    }
}

impl ResponseSlot {
    /// A fresh, empty slot.
    pub fn new() -> (r: ResponseSlot)
        ensures
            r@ is None,
    {
        ResponseSlot { value: None }
    }

    /// Whether the slot has been written.
    pub fn is_filled(&self) -> (r: bool)
        ensures
            r == (self@ is Some),
    {
        self.value.is_some()
    }

    /// Write the outcome of the attempt. The slot must still be empty: a
    /// slot is written exactly once and is immutable afterwards.
    pub fn fill(&mut self, outcome: Outcome)
        requires
            old(self)@ is None,
        ensures
            final(self)@ == Option::Some(outcome_view(outcome)),
    {
        self.value = Some(outcome);
    }

    /// Read the outcome, if one has arrived.
    pub fn get(&self) -> (r: &Option<Outcome>)
        ensures
            r is Some <==> self@ is Some,
            r matches Some(outcome) ==> self@ == Option::Some(outcome_view(*outcome)),
    {
        &self.value
    }
}

/// A single instance of an HTTP request, fully rendered, together with the
/// slot its outcome is written into.
#[derive(Debug)]
pub struct Request {
    pub recipe_id: String,
    pub method: String,
    pub url: String,
    pub headers: Vec<(String, String)>,
    pub body: Option<String>,
    /// Resolved outcome of the attempt; populated once, asynchronously.
    pub response: ResponseSlot,
}

pub struct RequestView {
    pub recipe_id: Seq<char>,
    pub method: Seq<char>,
    pub url: Seq<char>,
    pub headers: Seq<(Seq<char>, Seq<char>)>,
    pub body: Option<Seq<char>>,
    pub response: Option<OutcomeView>,
}

impl View for Request {
    type V = RequestView;

    open spec fn view(&self) -> RequestView {
        RequestView {
            recipe_id: self.recipe_id@,
            method: self.method@,
            url: self.url@,
            headers: self.headers@.map_values(|p: (String, String)| (p.0@, p.1@)),
            body: match self.body {
                Option::Some(b) => Option::Some(b@),
                Option::None => Option::None,
            },
            response: self.response@,
        }
    }
}

/// One stored attempt: the request, its outcome, and when it started and
/// ended, in milliseconds since the epoch. Immutable once stored.
#[derive(Debug)]
pub struct RequestRecord {
    pub request: Request,
    pub outcome: Outcome,
    pub start_ms: u64,
    pub end_ms: u64,
}

pub struct RecordView {
    pub request: RequestView,
    pub outcome: OutcomeView,
    pub start_ms: u64,
    pub end_ms: u64,
}

impl View for RequestRecord {
    type V = RecordView;

    open spec fn view(&self) -> RecordView {
        RecordView {
            request: self.request@,
            outcome: outcome_view(self.outcome),
            start_ms: self.start_ms,
            end_ms: self.end_ms,
        }
    }
}

impl RequestRecord {
    /// How long the attempt took, in milliseconds; zero if the recorded end
    /// precedes the recorded start.
    pub fn duration_ms(&self) -> (r: u64)
        ensures
            r == spec_duration_ms(self.start_ms, self.end_ms),
    {
        if self.end_ms >= self.start_ms {
            self.end_ms - self.start_ms
        } else {
            0
        }
    }
}

/// Elapsed milliseconds between two timestamps, saturating at zero.
pub open spec fn spec_duration_ms(start_ms: u64, end_ms: u64) -> u64 {
    if end_ms >= start_ms {
        (end_ms - start_ms) as u64
    } else {
        0
    }
}

/// The most recent record for a recipe: the last element of the record
/// sequence whose request carries that recipe identity.
pub open spec fn spec_get_last(records: Seq<RecordView>, recipe_id: Seq<char>) -> Option<
    RecordView,
>
    decreases records.len(),
{
    if records.len() == 0 {
        Option::None
    } else if records.last().request.recipe_id == recipe_id {
        Option::Some(records.last())
    } else {
        spec_get_last(records.drop_last(), recipe_id)
    }
}

/// The in-session store of request records, ordered oldest first. Chain
/// resolution reads the most recent record for a recipe out of it.
#[derive(Debug)]
pub struct Repository {
    records: Vec<RequestRecord>,
}

impl View for Repository {
    type V = Seq<RecordView>;

    closed spec fn view(&self) -> Seq<RecordView> {
        self.records@.map_values(|r: RequestRecord| r@)
    }
}

impl Repository {
    /// An empty repository.
    pub fn new() -> (r: Repository)
        ensures
            r@ == Seq::<RecordView>::empty(),
    {
        let records: Vec<RequestRecord> = Vec::new();
        let r = Repository { records };
        proof {
            assert(r@ =~= Seq::<RecordView>::empty());
        }
        r
    }

    /// Store a completed attempt as the newest record.
    pub fn add(&mut self, record: RequestRecord)
        ensures
            final(self)@ == old(self)@.push(record@),
    {
        let ghost prev = self@;
        self.records.push(record);
        proof {
            assert(self@ =~= prev.push(record@));
        }
    }

    /// The most recent record for the given recipe, if any attempt has been
    /// stored for it.
    pub fn get_last<'a>(&'a self, recipe_id: &str) -> (r: Option<&'a RequestRecord>)
        ensures
            r is Some <==> spec_get_last(self@, recipe_id@) is Some,
            r matches Some(record) ==> Option::Some(record@) == spec_get_last(self@, recipe_id@),
    {
        let n = self.records.len();
        let mut i: usize = n;
        proof {
            assert(self@.subrange(0, n as int) =~= self@);
        }
        while i > 0
            invariant
                i <= n,
                n == self.records.len(),
                spec_get_last(self@, recipe_id@) == spec_get_last(
                    self@.subrange(0, i as int),
                    recipe_id@,
                ),
            decreases i,
        {
            i = i - 1;
            proof {
                assert(self@.subrange(0, i + 1).last() == self@[i as int]);
                assert(self@.subrange(0, i + 1).drop_last() =~= self@.subrange(0, i as int));
            }
            if crate::strutil::str_eq(self.records[i].request.recipe_id.as_str(), recipe_id) {
                return Some(&self.records[i]);
            }
        }
        proof {
            assert(self@.subrange(0, 0) =~= Seq::<RecordView>::empty());
        }
        None
    }
}

} // verus!
