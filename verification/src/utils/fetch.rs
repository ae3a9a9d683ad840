//! Pagination: which page to ask for next, and when a fetch is complete.
//!
//! A fetch wants `limit` clips and the platform answers with at most
//! `PAGE_CAP` at a time. The caller sends each `PageRequest` and hands the
//! answer to `ClipFetch::advance`, which either names the next request or
//! closes the fetch. The state lives in the `ClipFetch` value alone.

use vstd::prelude::*;
use crate::utils::api::{PageRequest, TwitchClip, TwitchGetClipsResponse, TwitchPagination, PAGE_CAP};

verus! {

/// Why a fetch was given up: no clip of it can be trusted.
#[derive(Debug, Clone, PartialEq, Eq)]
pub enum SourceError {
    /// The request did not reach the platform, or no answer came back.
    Transport(String),
    /// An answer came back that is not a page of clips.
    Unparsable(String),
}

/// What a fetch has asked and gathered so far.
pub struct FetchModel {
    /// The number of clips the fetch was started for.
    pub limit: nat,
    /// The clips still wanted when the outstanding request was sent.
    pub remaining: nat,
    /// The requests sent so far, the outstanding one included.
    pub requests: nat,
    /// The clips of the pages answered so far, in the order they came.
    pub clips: Seq<TwitchClip>,
    /// The pagination of the first page, once it has been answered.
    pub pagination: Option<TwitchPagination>,
}

/// The cursor that leads past `page`, if the platform gave one.
pub open spec fn next_cursor(page: TwitchGetClipsResponse) -> Option<String> {
    match page.pagination {
        Some(p) => p.cursor,
        None => None,
    }
}

/// The least number of pages of `PAGE_CAP` clips that hold `limit` clips.
pub open spec fn pages_for(limit: nat) -> nat {
    ((limit + PAGE_CAP - 1) / (PAGE_CAP as int)) as nat
}

impl FetchModel {
    /// A fetch for `limit` clips whose first request is under way.
    pub open spec fn start(limit: nat) -> FetchModel {
        FetchModel {
            limit,
            remaining: limit,
            requests: 1,
            clips: Seq::empty(),
            pagination: None,
        }
    }

    /// Every request before the outstanding one was for a full page.
    pub open spec fn wf(self) -> bool {
        &&& self.requests >= 1
        &&& self.remaining + PAGE_CAP * (self.requests - 1) == self.limit
    }

    /// The number of clips the outstanding request asks for.
    pub open spec fn page_size(self) -> nat {
        if self.remaining <= PAGE_CAP {
            self.remaining
        } else {
            PAGE_CAP as nat
        }
    }

    /// Whether another request follows the answer `page`: more than a page
    /// was still wanted, and the platform says there is more.
    pub open spec fn continues(self, page: TwitchGetClipsResponse) -> bool {
        self.remaining > PAGE_CAP && next_cursor(page) is Some
    }

    /// The fetch with the clips of `page` added behind those it held.
    pub open spec fn absorb(self, page: TwitchGetClipsResponse) -> FetchModel {
        FetchModel {
            clips: self.clips + page.data@,
            pagination: if self.requests == 1 {
                page.pagination
            } else {
                self.pagination
            },
            ..self
        }
    }

    /// The fetch after `page` was answered and the request after it sent.
    pub open spec fn turn(self, page: TwitchGetClipsResponse) -> FetchModel {
        FetchModel {
            remaining: (self.remaining - PAGE_CAP) as nat,
            requests: self.requests + 1,
            ..self.absorb(page)
        }
    }

    /// The number of requests the fetch has sent by the time it closes, or
    /// by the time `pages` runs out, when the platform answers its requests
    /// with `pages`, one after the other.
    pub open spec fn requests_sent(self, pages: Seq<TwitchGetClipsResponse>) -> nat
        decreases pages.len(),
    {
        if pages.len() > 0 && self.continues(pages[0]) {
            self.turn(pages[0]).requests_sent(pages.drop_first())
        } else {
            self.requests
        }
    }

    /// The number of `pages` the fetch takes in before it closes.
    pub open spec fn pages_taken(self, pages: Seq<TwitchGetClipsResponse>) -> nat
        decreases pages.len(),
    {
        if pages.len() == 0 {
            0
        } else if self.continues(pages[0]) {
            1 + self.turn(pages[0]).pages_taken(pages.drop_first())
        } else {
            1
        }
    }

    /// The clips the fetch holds once it has taken in what it takes of
    /// `pages`.
    pub open spec fn gathered(self, pages: Seq<TwitchGetClipsResponse>) -> Seq<TwitchClip>
        decreases pages.len(),
    {
        if pages.len() == 0 {
            self.clips
        } else if self.continues(pages[0]) {
            self.turn(pages[0]).gathered(pages.drop_first())
        } else {
            self.absorb(pages[0]).clips
        }
    }
}

/// The clips of `pages`, page after page, each page in its own order.
pub open spec fn clips_in_order(pages: Seq<TwitchGetClipsResponse>) -> Seq<TwitchClip>
    decreases pages.len(),
{
    if pages.len() == 0 {
        Seq::empty()
    } else {
        pages[0].data@ + clips_in_order(pages.drop_first())
    }
}

/// A fetch in progress: one request is outstanding.
#[derive(Debug)]
pub struct ClipFetch {
    limit: u32,
    remaining: u32,
    requests: u32,
    clips: Vec<TwitchClip>,
    pagination: Option<TwitchPagination>,
}

/// What follows an answer.
#[derive(Debug)]
pub enum FetchStep {
    /// The fetch goes on: send this request, and hand its answer to the
    /// fetch that comes with it.
    Request(ClipFetch, PageRequest),
    /// The fetch is complete: all clips gathered, in the platform's order,
    /// with the pagination of the first page.
    Done(TwitchGetClipsResponse),
    /// The fetch is given up.
    Failed(SourceError),
}

impl View for ClipFetch {
    type V = FetchModel;

    closed spec fn view(&self) -> FetchModel {
        FetchModel {
            limit: self.limit as nat,
            remaining: self.remaining as nat,
            requests: self.requests as nat,
            clips: self.clips@,
            pagination: self.pagination,
        }
    }
}

impl ClipFetch {
    #[verifier::type_invariant]
    spec fn inv(self) -> bool {
        self@.wf()
    }

    /// Starts a fetch for `limit` clips and names its first request.
    pub fn begin(limit: u32) -> (started: (ClipFetch, PageRequest))
        ensures
            started.0@ == FetchModel::start(limit as nat),
            started.0@.wf(),
            started.1.first == started.0@.page_size(),
            started.1.after is None,
    {
        let fetch = ClipFetch {
            limit,
            remaining: limit,
            requests: 1,
            clips: Vec::new(),
            pagination: None,
        };
        let first: u32 = if limit <= PAGE_CAP {
            limit
        } else {
            PAGE_CAP
        };
        (fetch, PageRequest { first, after: None })
    }

    /// The number of requests sent so far, the outstanding one included.
    pub fn requests_issued(&self) -> (n: u32)
        ensures
            n == self@.requests,
            self@.wf(),
    {
        proof {
            use_type_invariant(self);
        }
        self.requests
    }

    /// The number of clips gathered so far.
    pub fn gathered_count(&self) -> (n: usize)
        ensures
            n == self@.clips.len(),
    {
        self.clips.len()
    }

    /// Takes the answer to the outstanding request and decides what follows.
    ///
    /// A failure gives the fetch up. A page is added behind the clips held.
    /// If more than a page was still wanted and the page carries a cursor,
    /// the next request asks for the rest, a page at most, after that
    /// cursor; otherwise the fetch closes with what it has, which may be
    /// fewer clips than wanted and may be none.
    pub fn advance(self, answer: Result<TwitchGetClipsResponse, SourceError>) -> (step: FetchStep)
        ensures
            self@.wf(),
            match answer {
                Err(e) => step == FetchStep::Failed(e),
                Ok(page) => if self@.continues(page) {
                    &&& step matches FetchStep::Request(next, request)
                    &&& next@ == self@.turn(page)
                    &&& next@.wf()
                    &&& request.first == next@.page_size()
                    &&& request.after == next_cursor(page)
                } else {
                    &&& step matches FetchStep::Done(batch)
                    &&& batch.data@ == self@.absorb(page).clips
                    &&& batch.pagination == self@.absorb(page).pagination
                },
            },
    {
        proof {
            use_type_invariant(&self);
        }
        match answer {
            Err(e) => FetchStep::Failed(e),
            Ok(page) => {
                let ghost before = self@;
                let ClipFetch { limit, remaining, requests, clips, pagination } = self;
                let TwitchGetClipsResponse { data, pagination: page_pagination } = page;
                let mut clips: Vec<TwitchClip> = clips;
                let mut data: Vec<TwitchClip> = data;
                clips.append(&mut data);
                let cursor: Option<String> = match &page_pagination {
                    Some(p) => match &p.cursor {
                        Some(c) => Some(c.clone()),
                        None => None,
                    },
                    None => None,
                };
                let kept: Option<TwitchPagination> = if requests == 1 {
                    page_pagination
                } else {
                    pagination
                };
                if remaining > PAGE_CAP && cursor.is_some() {
                    let rest: u32 = remaining - PAGE_CAP;
                    let first: u32 = if rest <= PAGE_CAP {
                        rest
                    } else {
                        PAGE_CAP
                    };
                    assert(requests < u32::MAX) by (nonlinear_arith)
                        requires
                            requests >= 1,
                            remaining > 100,
                            remaining + 100 * (requests - 1) == limit,
                            limit <= u32::MAX,
                    ;
                    let next = ClipFetch {
                        limit,
                        remaining: rest,
                        requests: requests + 1,
                        clips,
                        pagination: kept,
                    };
                    assert(next@ == before.turn(page));
                    FetchStep::Request(next, PageRequest { first, after: cursor })
                } else {
                    FetchStep::Done(TwitchGetClipsResponse { data: clips, pagination: kept })
                }
            },
        }
    }
}

/// With `remaining` clips still wanted, a fetch sends at most
/// `pages_for(remaining)` requests from the outstanding one on, and no more
/// than one past each answer it gets.
proof fn lemma_requests_bounded_from(m: FetchModel, pages: Seq<TwitchGetClipsResponse>)
    requires
        m.wf(),
        m.remaining >= 1,
    ensures
        m.requests <= m.requests_sent(pages),
        m.requests_sent(pages) <= m.requests + pages_for(m.remaining) - 1,
        m.requests_sent(pages) <= m.requests + pages.len(),
    decreases pages.len(),
{
    if pages.len() > 0 && m.continues(pages[0]) {
        lemma_requests_bounded_from(m.turn(pages[0]), pages.drop_first());
    }
}

/// While the platform keeps giving cursors and answers, a fetch sends
/// exactly `pages_for(remaining)` requests from the outstanding one on.
proof fn lemma_requests_exact_from(m: FetchModel, pages: Seq<TwitchGetClipsResponse>)
    requires
        m.wf(),
        m.remaining >= 1,
        pages.len() + 1 >= pages_for(m.remaining),
        forall|i: int| 0 <= i < pages.len() ==> next_cursor(#[trigger] pages[i]) is Some,
    ensures
        m.requests_sent(pages) == m.requests + pages_for(m.remaining) - 1,
    decreases pages.len(),
{
    if pages.len() > 0 && m.continues(pages[0]) {
        let rest = pages.drop_first();
        assert forall|i: int| 0 <= i < rest.len() implies next_cursor(#[trigger] rest[i]) is Some by {
            assert(rest[i] == pages[i + 1]);
        }
        lemma_requests_exact_from(m.turn(pages[0]), rest);
    }
}

/// A fetch sends nothing after an answer without a cursor.
proof fn lemma_requests_stop_from(m: FetchModel, pages: Seq<TwitchGetClipsResponse>, k: int)
    requires
        0 <= k < pages.len(),
        next_cursor(pages[k]) is None,
    ensures
        m.requests_sent(pages) <= m.requests + k,
    decreases pages.len(),
{
    if m.continues(pages[0]) {
        assert(k > 0);
        let rest = pages.drop_first();
        assert(rest[k - 1] == pages[k]);
        lemma_requests_stop_from(m.turn(pages[0]), rest, k - 1);
    }
}

/// What a fetch gathers is what it held, then the pages it takes in, in the
/// order they were answered.
proof fn lemma_gathered_from(m: FetchModel, pages: Seq<TwitchGetClipsResponse>)
    ensures
        m.pages_taken(pages) <= pages.len(),
        m.gathered(pages) == m.clips + clips_in_order(pages.take(m.pages_taken(pages) as int)),
    decreases pages.len(),
{
    if pages.len() == 0 {
        assert(pages.take(0) =~= Seq::<TwitchGetClipsResponse>::empty());
        assert(m.gathered(pages) =~= m.clips + clips_in_order(pages.take(0)));
    } else if m.continues(pages[0]) {
        let next = m.turn(pages[0]);
        let rest = pages.drop_first();
        lemma_gathered_from(next, rest);
        let n = next.pages_taken(rest) as int;
        let head = pages.take(n + 1);
        assert(head[0] == pages[0]);
        assert(head.drop_first() =~= rest.take(n));
        assert(clips_in_order(head) == pages[0].data@ + clips_in_order(rest.take(n)));
        assert(m.gathered(pages) =~= m.clips + clips_in_order(head));
    } else {
        let head = pages.take(1);
        assert(head[0] == pages[0]);
        assert(head.drop_first() =~= Seq::<TwitchGetClipsResponse>::empty());
        assert(clips_in_order(head.drop_first()) =~= Seq::<TwitchClip>::empty());
        assert(clips_in_order(head) =~= pages[0].data@);
        assert(m.gathered(pages) =~= m.clips + clips_in_order(head));
    }
}

/// A fetch for no more clips than one page holds sends exactly one request,
/// whatever the platform answers.
pub proof fn lemma_one_request_within_cap(limit: nat, pages: Seq<TwitchGetClipsResponse>)
    requires
        limit <= PAGE_CAP,
    ensures
        FetchModel::start(limit).requests_sent(pages) == 1,
{
}

/// A fetch for more clips than one page holds sends at most
/// `pages_for(limit)` requests, the least number of pages that hold them.
pub proof fn lemma_requests_bounded(limit: nat, pages: Seq<TwitchGetClipsResponse>)
    requires
        limit > PAGE_CAP,
    ensures
        1 <= FetchModel::start(limit).requests_sent(pages) <= pages_for(limit),
{
    lemma_requests_bounded_from(FetchModel::start(limit), pages);
}

/// A fetch for more clips than one page holds sends exactly
/// `pages_for(limit)` requests when every answer carries a cursor and
/// enough answers come.
pub proof fn lemma_requests_exact(limit: nat, pages: Seq<TwitchGetClipsResponse>)
    requires
        limit > PAGE_CAP,
        pages.len() + 1 >= pages_for(limit),
        forall|i: int| 0 <= i < pages.len() ==> next_cursor(#[trigger] pages[i]) is Some,
    ensures
        FetchModel::start(limit).requests_sent(pages) == pages_for(limit),
{
    lemma_requests_exact_from(FetchModel::start(limit), pages);
}

/// A fetch whose answer number `k` (counted from zero) carries no cursor
/// sends no more than `k + 1` requests: it closes with what it has.
pub proof fn lemma_requests_stop_at_exhaustion(
    limit: nat,
    pages: Seq<TwitchGetClipsResponse>,
    k: int,
)
    requires
        0 <= k < pages.len(),
        next_cursor(pages[k]) is None,
    ensures
        FetchModel::start(limit).requests_sent(pages) <= k + 1,
{
    lemma_requests_stop_from(FetchModel::start(limit), pages, k);
}

/// The clips a fetch gathers are those of the pages it took in, page after
/// page in the order they were answered, each page in the platform's own
/// order: nothing is sorted, dropped or repeated.
pub proof fn lemma_order_preserved(limit: nat, pages: Seq<TwitchGetClipsResponse>)
    ensures
        FetchModel::start(limit).pages_taken(pages) <= pages.len(),
        FetchModel::start(limit).gathered(pages) == clips_in_order(
            pages.take(FetchModel::start(limit).pages_taken(pages) as int),
        ),
{
    let m = FetchModel::start(limit);
    lemma_gathered_from(m, pages);
    assert(m.clips + clips_in_order(pages.take(m.pages_taken(pages) as int)) =~= clips_in_order(
        pages.take(m.pages_taken(pages) as int),
    ));
}

} // verus!
