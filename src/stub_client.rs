//! A stand-in for the upstream client: it answers from a queue of canned
//! outcomes, one per call, and keeps a log of every request it was given.

use std::collections::VecDeque;

use vstd::prelude::*;

use crate::forward::ProxyResponse;
use crate::headers::Header;

verus! {

/// The failure a call gets when no outcome is queued.
pub const NO_STUBBED_RESPONSE: &'static str = "No stubbed response configured";

/// A request as the stub client saw it.
#[derive(Clone, Debug)]
pub struct RecordedRequest {
    pub method: String,
    pub uri: String,
    pub headers: Vec<Header>,
    pub body: Vec<u8>,
}

/// A client that replays queued outcomes in order and records requests.
pub struct FakeKoboClient {
    responses: VecDeque<Result<ProxyResponse<Vec<u8>>, String>>,
    recorded_requests: Vec<RecordedRequest>,
}

impl FakeKoboClient {
    /// The outcomes still queued, first to be used first.
    pub closed spec fn queue(&self) -> Seq<Result<ProxyResponse<Vec<u8>>, String>> {
        self.responses@
    }

    /// Every request presented so far, in the order of the calls.
    pub closed spec fn log(&self) -> Seq<RecordedRequest> {
        self.recorded_requests@
    }

    /// A client with nothing queued and nothing recorded.
    pub fn new() -> (r: Self)
        ensures
            r.queue().len() == 0,
            r.log().len() == 0,
    {
        FakeKoboClient { responses: VecDeque::new(), recorded_requests: Vec::new() }
    }

    /// Queues a response for a later call.
    pub fn enqueue_response(&mut self, response: ProxyResponse<Vec<u8>>)
        ensures
            final(self).queue() == old(self).queue().push(Ok(response)),
            final(self).log() == old(self).log(),
    {
        self.responses.push_back(Ok(response));
    }

    /// Queues a failure, with its message, for a later call.
    pub fn enqueue_error(&mut self, message: String)
        ensures
            final(self).queue() == old(self).queue().push(Err(message)),
            final(self).log() == old(self).log(),
    {
        self.responses.push_back(Err(message));
    }

    /// The requests presented so far, in order.
    pub fn recorded_requests(&self) -> (r: &[RecordedRequest])
        ensures
            r@ == self.log(),
    {
        self.recorded_requests.as_slice()
    }

    /// Records the request and answers with the first queued outcome, or
    /// fails with `NO_STUBBED_RESPONSE` where none is queued.
    pub fn request(&mut self, request: RecordedRequest) -> (r: Result<ProxyResponse<Vec<u8>>, String>)
        ensures
            final(self).log() == old(self).log().push(request),
            old(self).queue().len() > 0 ==> r == old(self).queue()[0],
            old(self).queue().len() > 0 ==> final(self).queue() == old(self).queue().drop_first(),
            old(self).queue().len() == 0 ==> (r matches Err(m) && m@ == NO_STUBBED_RESPONSE@),
            old(self).queue().len() == 0 ==> final(self).queue().len() == 0,
    {
        self.recorded_requests.push(request);
        match self.responses.pop_front() {
            Some(outcome) => outcome,
            None => Err(NO_STUBBED_RESPONSE.to_string()),
        }
    }
}

impl Default for FakeKoboClient {
    fn default() -> (r: Self)
        ensures
            r.queue().len() == 0,
            r.log().len() == 0,
    {
        FakeKoboClient::new()
    }
}

} // verus!
