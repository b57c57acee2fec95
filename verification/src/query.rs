//! The payloads of one exchange, and the fixed parameters of a batch.

use rand::rngs::ThreadRng;
use rand::Rng;
use vstd::prelude::*;

verus! {

/// The endpoint that every request of a batch is posted to.
pub const DEST_HOST: &'static str = "https://httpbin.org/post";

/// How many requests one batch sends.
pub const QUERIES_PER_RUN: usize = 30;

/// The least value a query is sent with.
pub const QUERY_MIN: u32 = 0;

/// The greatest value a query is sent with.
pub const QUERY_MAX: u32 = 10;

/// The payload of one request: a single number, which the endpoint is
/// expected to echo.
#[derive(Clone, Copy, Debug, PartialEq, Eq, Structural)]
pub struct Query {
    pub value: u32,
}

/// The part of a response that is read: the request payload as the endpoint
/// echoes it under `json`. Nothing ties the echoed value to the one sent.
#[derive(Clone, Copy, Debug, PartialEq, Eq, Structural)]
pub struct Reply {
    pub json: Query,
}

/// `rand::rngs::ThreadRng`, the handle to a thread's generator: carried
/// through, never looked into.
#[verifier::external_type_specification]
#[verifier::external_body]
pub struct ExThreadRng(ThreadRng);

/// `rand::thread_rng` hands out the calling thread's generator. Nothing is
/// claimed of it. (It panics where the operating system cannot seed the
/// generator.)
pub assume_specification[ rand::thread_rng ]() -> (rng: ThreadRng)
;

/// `Rng::gen_range` on an inclusive range of `u32`: the sample lies within
/// the range, both ends included. Which value it is, is not stated. An empty
/// range makes `gen_range` panic, hence the precondition.
#[verifier::external_body]
fn sample_inclusive(rng: &mut ThreadRng, low: u32, high: u32) -> (value: u32)
    requires
        low <= high,
    ensures
        low <= value <= high,
{
    rng.gen_range(low..=high)
}

impl Query {
    /// The value lies in the range that queries are drawn from.
    pub open spec fn in_range(&self) -> bool {
        QUERY_MIN <= self.value <= QUERY_MAX
    }

    /// The query that carries `value`.
    pub fn new(value: u32) -> (query: Query)
        ensures
            query.value == value,
    {
        Query { value }
    }

    /// A query with a value drawn from `rng`, out of the inclusive range from
    /// [`QUERY_MIN`] to [`QUERY_MAX`]. Which value of the range it carries is
    /// the generator's choice; [`Query::new`] says what is made of the draw.
    pub fn random(rng: &mut ThreadRng) -> (query: Query)
        ensures
            query.in_range(),
    {
        Query::new(sample_inclusive(rng, QUERY_MIN, QUERY_MAX))
    }
}

impl Reply {
    /// The echoed value.
    pub fn value(&self) -> (value: u32)
        ensures
            value == self.json.value,
    {
        self.json.value
    }
}

/// The payloads of a batch of `count` requests, each drawn independently
/// from the calling thread's generator.
pub fn random_queries(count: usize) -> (queries: Vec<Query>)
    ensures
        queries@.len() == count,
        forall|i: int| 0 <= i < count ==> (#[trigger] queries@[i]).in_range(),
{
    let mut rng = rand::thread_rng();
    let mut queries: Vec<Query> = Vec::new();
    let mut i: usize = 0;
    while i < count
        invariant
            i <= count,
            queries@.len() == i,
            forall|j: int| 0 <= j < i ==> (#[trigger] queries@[j]).in_range(),
        decreases count - i,
    {
        let query = Query::random(&mut rng);
        queries.push(query);
        i = i + 1;
    }
    queries
}

} // verus!
