//! The search client's pagination driver: which request follows each page.
use crate::client::request::{params_of_url, search_url, Params, ParamsView};
use crate::exchange::Request;
use crate::link::url_parts_of;
use crate::model::Response;
use vstd::prelude::*;

pub mod request;

verus! {

/// Why a paginated search stopped short.
#[derive(Clone, Debug, PartialEq, Eq)]
pub enum Error {
    /// A page's next URL is not a search URL of the API.
    UnexpectedPaginationUrl(String),
}

/// What the caller does after handing a page to the driver.
#[derive(Debug)]
pub enum Step {
    /// Wait for the configured delay, then send this request.
    Fetch(Request),
    /// The result is complete.
    Done,
}

/// What a page's next URL means for the driver.
pub enum Continuation {
    Stop,
    Follow(ParamsView),
    Broken,
}

/// The next URL of a page: that of a success whose paging has a non-empty
/// next URL.
pub open spec fn next_url<D>(r: Response<D>) -> Option<Seq<char>> {
    match r {
        Response::Success(s) => match s.paging {
            Some(p) => if p.next@.len() > 0 {
                Some(p.next@)
            } else {
                None
            },
            None => None,
        },
        Response::Failure { .. } => None,
    }
}

/// Where a next URL leads: nowhere, to the search it names, or to an error
/// when it names none.
pub open spec fn continuation(next: Option<Seq<char>>) -> Continuation {
    match next {
        None => Continuation::Stop,
        Some(u) => match url_parts_of(u) {
            Some(parts) => match params_of_url(parts) {
                Some(p) => Continuation::Follow(p),
                None => Continuation::Broken,
            },
            None => Continuation::Broken,
        },
    }
}

/// The driver's state: the URLs requested so far, in order, and whether it
/// has stopped, and whether it stopped on an error.
pub struct DriverView {
    pub requests: Seq<Seq<char>>,
    pub done: bool,
    pub failed: bool,
}

/// The driver's state after a page with the given next URL.
pub open spec fn after_page(s: DriverView, next: Option<Seq<char>>) -> DriverView {
    match continuation(next) {
        Continuation::Stop => DriverView { requests: s.requests, done: true, failed: false },
        Continuation::Follow(p) => DriverView {
            requests: s.requests.push(search_url(p)),
            done: false,
            failed: false,
        },
        Continuation::Broken => DriverView { requests: s.requests, done: true, failed: true },
    }
}

/// The driver's state after the pages with the given next URLs, in order;
/// pages after it has stopped are not read.
pub open spec fn run(s: DriverView, nexts: Seq<Option<Seq<char>>>) -> DriverView
    decreases nexts.len(),
{
    if nexts.len() == 0 || s.done {
        s
    } else {
        run(after_page(s, nexts[0]), nexts.drop_first())
    }
}

/// Pagination terminates: when every page but the last leads to a search and
/// the last has no next URL, the driver stops without error after one request
/// per page, each request after the first being the search that the page
/// before it leads to.
pub proof fn lemma_pagination_terminates(s: DriverView, nexts: Seq<Option<Seq<char>>>)
    requires
        !s.done,
        nexts.len() >= 1,
        forall|i: int| 0 <= i < nexts.len() - 1 ==> #[trigger] continuation(nexts[i]) is Follow,
        nexts.last() is None,
    ensures
        run(s, nexts).done,
        !run(s, nexts).failed,
        run(s, nexts).requests.len() == s.requests.len() + nexts.len() - 1,
        run(s, nexts).requests.subrange(0, s.requests.len() as int) == s.requests,
        forall|i: int|
            0 <= i < nexts.len() - 1 ==> run(s, nexts).requests[s.requests.len() + i] == search_url(
                (#[trigger] continuation(nexts[i]))->Follow_0,
            ),
    decreases nexts.len(),
{
    let t = after_page(s, nexts[0]);
    if nexts.len() == 1 {
        assert(continuation(nexts[0]) is Stop);
        assert(run(t, nexts.drop_first()) == t);
        assert(s.requests.subrange(0, s.requests.len() as int) =~= s.requests);
    } else {
        let rest = nexts.drop_first();
        assert(continuation(nexts[0]) is Follow);
        assert forall|i: int| 0 <= i < rest.len() - 1 implies #[trigger] continuation(rest[i]) is Follow by {
            assert(rest[i] == nexts[i + 1]);
        }
        lemma_pagination_terminates(t, rest);
        let r = run(t, rest);
        assert(r.requests.subrange(0, s.requests.len() as int) =~= r.requests.subrange(
            0,
            t.requests.len() as int,
        ).subrange(0, s.requests.len() as int));
        assert(t.requests.subrange(0, s.requests.len() as int) =~= s.requests);
        assert forall|i: int| 0 <= i < nexts.len() - 1 implies r.requests[s.requests.len() + i]
            == search_url((#[trigger] continuation(nexts[i]))->Follow_0) by {
            if i == 0 {
                assert(r.requests[s.requests.len() as int] == r.requests.subrange(0, t.requests.len() as int)[s.requests.len() as int]);
            } else {
                assert(rest[i - 1] == nexts[i]);
                assert(continuation(rest[i - 1]) is Follow);
            }
        }
    }
}

/// The pagination driver of one search.
pub struct Pager<D> {
    /// The pages received so far, in request order.
    pub responses: Vec<Response<D>>,
    pub done: bool,
    pub failed: bool,
    /// The URLs requested so far, in order.
    pub requested: Ghost<Seq<Seq<char>>>,
}

impl<D> Pager<D> {
    /// The driver's state.
    pub open spec fn state(&self) -> DriverView {
        DriverView { requests: self.requested@, done: self.done, failed: self.failed }
    }

    /// Starts a search: the driver, and the request of its first page.
    pub fn start(params: &Params) -> (r: (Pager<D>, Request))
        ensures
            r.0.responses@.len() == 0,
            r.0.state() == (DriverView { requests: seq![search_url(params@)], done: false, failed: false }),
            r.1.url@ == search_url(params@),
            r.1.timestamp is None,
    {
        let request = params.build_request(None);
        let requested: Ghost<Seq<Seq<char>>> = Ghost(Seq::<Seq<char>>::empty().push(search_url(params@)));
        let pager = Pager {
            responses: Vec::new(),
            done: false,
            failed: false,
            requested,
        };
        (pager, request)
    }

    /// Takes the next page: keeps it, success or failure, and says whether the
    /// search continues and with which request.
    pub fn on_response(&mut self, response: Response<D>) -> (r: Result<Step, Error>)
        requires
            !old(self).done,
        ensures
            final(self).responses@ == old(self).responses@.push(response),
            final(self).state() == after_page(old(self).state(), next_url(response)),
            match continuation(next_url(response)) {
                Continuation::Stop => r matches Ok(Step::Done),
                Continuation::Follow(p) => r matches Ok(Step::Fetch(req)) && req.url@ == search_url(p)
                    && req.timestamp is None,
                Continuation::Broken => r matches Err(Error::UnexpectedPaginationUrl(u)) && Some(
                    u@,
                ) == next_url(response),
            },
    {
        let next: Option<String> = match response.paging() {
            Some(p) => {
                if p.next.as_str().unicode_len() > 0 {
                    Some(p.next.clone())
                } else {
                    None
                }
            },
            None => None,
        };
        assert(next.deep_view() == next_url(response));
        self.responses.push(response);
        match next {
            None => {
                self.done = true;
                self.failed = false;
                Ok(Step::Done)
            },
            Some(u) => match Params::parse_url_text(u.as_str()) {
                Some(p) => {
                    let request = p.build_request(None);
                    let requested: Ghost<Seq<Seq<char>>> = Ghost(self.requested@.push(search_url(p@)));
                    self.requested = requested;
                    self.failed = false;
                    Ok(Step::Fetch(request))
                },
                None => {
                    self.done = true;
                    self.failed = true;
                    Err(Error::UnexpectedPaginationUrl(u))
                },
            },
        }
    }

    /// The pages received, in request order.
    pub fn into_responses(self) -> (r: Vec<Response<D>>)
        ensures
            r@ == self.responses@,
    {
        self.responses
    }
}

} // verus!
