use vstd::prelude::*;

use crate::classify::{
    accepted_of, classify_entries, directories_of, keeps, lemma_accepted_concat,
    process_response_body, Page,
};
use crate::error::ListError;
use crate::record::{clone_opt_string, FileObjectFilter, ObjectRecord};

verus! {

/// The largest number of entries the store returns in one page, and the cap on
/// results when the caller sets none.
pub const AWS_MAX_LIST_OBJECTS: u32 = 1000;

/// The most results a listing returns.
pub open spec fn cap_of(max_keys: Option<u32>) -> nat {
    match max_keys {
        Some(n) => n as nat,
        None => AWS_MAX_LIST_OBJECTS as nat,
    }
}

/// The page size to ask the store for: the largest page when a filter is set,
/// since filtering happens here and must not under-fetch; otherwise the
/// caller's cap, but never more than the largest page.
pub open spec fn spec_effective_max_keys(has_filter: bool, max_keys: Option<u32>) -> u32 {
    if has_filter {
        AWS_MAX_LIST_OBJECTS
    } else {
        match max_keys {
            Some(n) => if n < AWS_MAX_LIST_OBJECTS {
                n
            } else {
                AWS_MAX_LIST_OBJECTS
            },
            None => AWS_MAX_LIST_OBJECTS,
        }
    }
}

pub fn get_effective_max_keys(filter: &Option<FileObjectFilter>, max_keys: Option<u32>) -> (r: u32)
    ensures
        r == spec_effective_max_keys(filter is Some, max_keys),
{
    if filter.is_some() {
        AWS_MAX_LIST_OBJECTS
    } else {
        match max_keys {
            Some(n) => if n < AWS_MAX_LIST_OBJECTS {
                n
            } else {
                AWS_MAX_LIST_OBJECTS
            },
            None => AWS_MAX_LIST_OBJECTS,
        }
    }
}

/// `s` cut down to at most `cap` entries.
pub open spec fn truncate(s: Seq<ObjectRecord>, cap: nat) -> Seq<ObjectRecord> {
    if s.len() <= cap {
        s
    } else {
        s.take(cap as int)
    }
}

pub open spec fn opt_view(p: Option<String>) -> Option<Seq<char>> {
    match p {
        Some(s) => Some(s@),
        None => None,
    }
}

/// Whether directory `d` is already among the prefixes `q`.
pub open spec fn listed(q: Seq<Option<String>>, d: String) -> bool {
    exists|i: int| 0 <= i < q.len() && #[trigger] opt_view(q[i]) == Some(d@)
}

/// `q` with each directory of `dirs` appended in order, unless it is already there.
pub open spec fn enqueue_all(q: Seq<Option<String>>, dirs: Seq<String>) -> Seq<Option<String>>
    decreases dirs.len(),
{
    if dirs.len() == 0 {
        q
    } else {
        let q2 = enqueue_all(q, dirs.drop_last());
        if listed(q2, dirs.last()) {
            q2
        } else {
            q2.push(Some(dirs.last()))
        }
    }
}

/// No prefix occurs twice.
pub open spec fn distinct_prefixes(q: Seq<Option<String>>) -> bool {
    forall|i: int, j: int|
        0 <= i < j < q.len() ==> #[trigger] opt_view(q[i]) != #[trigger] opt_view(q[j])
}

/// What a listing asks for: its parameters, and the request state that the
/// engine advances between pages.
#[derive(Debug)]
pub struct ListFilesParams {
    /// The prefix being listed; `None` is the bucket root.
    pub prefix: Option<String>,
    /// The cap on results; `None` means `AWS_MAX_LIST_OBJECTS`.
    pub max_keys: Option<u32>,
    /// The token for the next page of `prefix`, if any.
    pub continuation_token: Option<String>,
    pub recursive: bool,
    pub filter: Option<FileObjectFilter>,
}

/// One page request for the caller to send.
#[derive(Debug)]
pub struct PageRequest {
    pub endpoint: String,
    pub prefix: Option<String>,
    pub max_keys: u32,
    pub continuation_token: Option<String>,
}

/// What came back for the last page request.
#[derive(Debug)]
pub enum PageEvent {
    /// The store redirected the request to this endpoint.
    Redirected(String),
    /// The request failed.
    Failed(ListError),
    /// The response body, and what the listing parser made of it.
    Received(String, Result<Page, String>),
    /// A page that the backend delivers already decoded, as a local
    /// filesystem does.
    Listed(Page),
}

#[derive(Debug)]
pub enum ListingStatus {
    /// A request is to be sent.
    Running,
    /// The listing is complete: the cap was reached or nothing is left to list.
    Finished,
    /// The listing stopped on this error.
    Failed(ListError),
}

/// The state of a listing as a mathematical value. Besides what the engine
/// holds, it records what the listing has seen so far: every entry received
/// (`received`), the directories found under prefixes already completed
/// (`found`), and how many pages, redirects and answers of any kind came back.
#[verifier::ext_equal]
pub struct TraversalView {
    pub origin: Option<String>,
    pub prefix: Option<String>,
    pub max_keys: Option<u32>,
    pub continuation_token: Option<String>,
    pub recursive: bool,
    pub filter: Option<FileObjectFilter>,
    pub endpoint: String,
    /// Every prefix queued so far, in queue order; those before `next_prefix`
    /// have been taken from the queue.
    pub prefixes: Seq<Option<String>>,
    pub next_prefix: nat,
    /// Directories found under the current prefix, queued when it is done.
    pub pending: Seq<String>,
    pub results: Seq<ObjectRecord>,
    /// Whether the current request has already followed a redirect.
    pub redirected: bool,
    pub status: ListingStatus,
    pub received: Seq<ObjectRecord>,
    pub found: Seq<String>,
    pub pages: nat,
    pub redirects: nat,
    pub answered: nat,
}

/// The state of a listing that has sent nothing yet.
pub open spec fn initial_view(params: ListFilesParams, endpoint: String) -> TraversalView {
    TraversalView {
        origin: params.prefix,
        prefix: params.prefix,
        max_keys: params.max_keys,
        continuation_token: params.continuation_token,
        recursive: params.recursive,
        filter: params.filter,
        endpoint,
        prefixes: seq![params.prefix],
        next_prefix: 1,
        pending: seq![],
        results: seq![],
        redirected: false,
        status: if cap_of(params.max_keys) == 0 {
            ListingStatus::Finished
        } else {
            ListingStatus::Running
        },
        received: seq![],
        found: seq![],
        pages: 0,
        redirects: 0,
        answered: 0,
    }
}

/// The request a listing sends next: none once it has stopped.
pub open spec fn request_of(v: TraversalView) -> Option<PageRequest> {
    if v.status is Running {
        Some(
            PageRequest {
                endpoint: v.endpoint,
                prefix: v.prefix,
                max_keys: spec_effective_max_keys(v.filter is Some, v.max_keys),
                continuation_token: v.continuation_token,
            },
        )
    } else {
        None
    }
}

/// A page with `entries` and next token `token` came back. Its kept entries
/// join the results up to the cap, and its directories are noted. At the cap
/// the listing stops; with a token it asks for the next page of the same
/// prefix; otherwise the prefix is done: its directories are queued and the
/// next queued prefix, if any, is listed from its first page.
pub open spec fn after_page(
    v: TraversalView,
    entries: Seq<ObjectRecord>,
    token: Option<String>,
) -> TraversalView {
    let cap = cap_of(v.max_keys);
    let results = truncate(v.results + accepted_of(entries, v.filter), cap);
    let pending = v.pending + directories_of(entries, v.recursive);
    let v1 = TraversalView {
        results,
        pending,
        received: v.received + entries,
        pages: v.pages + 1,
        answered: v.answered + 1,
        redirected: false,
        ..v
    };
    if results.len() >= cap {
        TraversalView { status: ListingStatus::Finished, ..v1 }
    } else if token is Some {
        TraversalView { continuation_token: token, ..v1 }
    } else {
        let prefixes = enqueue_all(v.prefixes, pending);
        let v2 = TraversalView {
            prefixes,
            found: v.found + pending,
            pending: seq![],
            continuation_token: None,
            ..v1
        };
        if v.next_prefix < prefixes.len() {
            TraversalView { prefix: prefixes[v.next_prefix as int], next_prefix: v.next_prefix + 1, ..v2 }
        } else {
            TraversalView { status: ListingStatus::Finished, ..v2 }
        }
    }
}

/// How a listing moves on one answer to its last request. A stopped listing
/// ignores answers. A redirect is followed once per request: the same request
/// goes to the corrected endpoint, which later requests keep; a second
/// redirect for the same request is a loop. A failed request, or a body that
/// does not parse, stops the listing with that error. An empty body is a page
/// with no entries and no token.
pub open spec fn step_spec(v: TraversalView, event: PageEvent) -> TraversalView {
    if !(v.status is Running) {
        v
    } else {
        match event {
            PageEvent::Redirected(e) => if v.redirected {
                TraversalView {
                    status: ListingStatus::Failed(ListError::RedirectLoop),
                    redirects: v.redirects + 1,
                    answered: v.answered + 1,
                    ..v
                }
            } else {
                TraversalView {
                    endpoint: e,
                    redirected: true,
                    redirects: v.redirects + 1,
                    answered: v.answered + 1,
                    ..v
                }
            },
            PageEvent::Failed(err) => TraversalView {
                status: ListingStatus::Failed(err),
                answered: v.answered + 1,
                ..v
            },
            PageEvent::Received(body, parsed) => if body@.len() == 0 {
                after_page(v, seq![], None)
            } else {
                match parsed {
                    Err(msg) => TraversalView {
                        status: ListingStatus::Failed(ListError::Parse(msg)),
                        answered: v.answered + 1,
                        ..v
                    },
                    Ok(page) => after_page(v, page.entries@, page.next_token),
                }
            },
            PageEvent::Listed(page) => after_page(v, page.entries@, page.next_token),
        }
    }
}

/// The invariant of a listing.
pub open spec fn wf_view(v: TraversalView) -> bool {
    let cap = cap_of(v.max_keys);
    &&& v.results.len() <= cap
    &&& v.results == truncate(accepted_of(v.received, v.filter), cap)
    &&& v.prefixes == enqueue_all(seq![v.origin], v.found)
    &&& distinct_prefixes(v.prefixes)
    &&& 1 <= v.next_prefix <= v.prefixes.len()
    &&& (v.status is Running ==> v.prefix == v.prefixes[v.next_prefix - 1] && v.results.len()
        < cap)
    &&& (!v.recursive ==> v.found.len() == 0 && v.pending.len() == 0)
    &&& (v.status is Finished ==> v.results.len() == cap || (v.next_prefix == v.prefixes.len()
        && v.pending.len() == 0 && v.continuation_token is None))
    &&& (!(v.status is Failed) ==> v.answered == v.pages + v.redirects)
}

proof fn lemma_enqueue_extends(q: Seq<Option<String>>, dirs: Seq<String>)
    ensures
        enqueue_all(q, dirs).len() >= q.len(),
        forall|i: int| 0 <= i < q.len() ==> #[trigger] enqueue_all(q, dirs)[i] == q[i],
    decreases dirs.len(),
{
    if dirs.len() > 0 {
        lemma_enqueue_extends(q, dirs.drop_last());
    }
}

proof fn lemma_enqueue_distinct(q: Seq<Option<String>>, dirs: Seq<String>)
    requires
        distinct_prefixes(q),
    ensures
        distinct_prefixes(enqueue_all(q, dirs)),
    decreases dirs.len(),
{
    if dirs.len() > 0 {
        lemma_enqueue_distinct(q, dirs.drop_last());
        let q2 = enqueue_all(q, dirs.drop_last());
        if !listed(q2, dirs.last()) {
            let q3 = q2.push(Some(dirs.last()));
            assert forall|i: int, j: int| 0 <= i < j < q3.len() implies #[trigger] opt_view(q3[i])
                != #[trigger] opt_view(q3[j]) by {
                if j == q2.len() {
                    assert(q3[i] == q2[i]);
                    assert(opt_view(q3[j]) == Some(dirs.last()@));
                } else {
                    assert(q3[i] == q2[i]);
                    assert(q3[j] == q2[j]);
                }
            }
        }
    }
}

proof fn lemma_enqueue_concat(q: Seq<Option<String>>, a: Seq<String>, b: Seq<String>)
    ensures
        enqueue_all(enqueue_all(q, a), b) == enqueue_all(q, a + b),
    decreases b.len(),
{
    if b.len() == 0 {
        assert(a + b =~= a);
    } else {
        lemma_enqueue_concat(q, a, b.drop_last());
        assert((a + b).drop_last() =~= a + b.drop_last());
        assert((a + b).last() == b.last());
    }
}

proof fn lemma_no_directories_when_flat(entries: Seq<ObjectRecord>)
    ensures
        directories_of(entries, false) == Seq::<String>::empty(),
    decreases entries.len(),
{
    if entries.len() > 0 {
        lemma_no_directories_when_flat(entries.drop_last());
    }
}

proof fn lemma_accepted_keeps(entries: Seq<ObjectRecord>, filter: Option<FileObjectFilter>)
    ensures
        forall|i: int|
            0 <= i < accepted_of(entries, filter).len() ==> keeps(
                #[trigger] accepted_of(entries, filter)[i],
                filter,
            ),
    decreases entries.len(),
{
    if entries.len() > 0 {
        lemma_accepted_keeps(entries.drop_last(), filter);
        let rest = accepted_of(entries.drop_last(), filter);
        let all = accepted_of(entries, filter);
        assert forall|i: int| 0 <= i < all.len() implies keeps(#[trigger] all[i], filter) by {
            if i < rest.len() {
                assert(all[i] == rest[i]);
            }
        }
    }
}

/// Appending `extra` to the results of a listing below its cap gives the
/// results of everything received, cut at the cap.
proof fn lemma_results_extend(v: TraversalView, entries: Seq<ObjectRecord>)
    requires
        wf_view(v),
        v.results.len() < cap_of(v.max_keys),
    ensures
        truncate(v.results + accepted_of(entries, v.filter), cap_of(v.max_keys)) == truncate(
            accepted_of(v.received + entries, v.filter),
            cap_of(v.max_keys),
        ),
{
    lemma_accepted_concat(v.received, entries, v.filter);
    assert(v.results == accepted_of(v.received, v.filter));
}

proof fn lemma_after_page_wf(v: TraversalView, entries: Seq<ObjectRecord>, token: Option<String>)
    requires
        wf_view(v),
        v.status is Running,
    ensures
        wf_view(after_page(v, entries, token)),
{
    let cap = cap_of(v.max_keys);
    let w = after_page(v, entries, token);
    lemma_results_extend(v, entries);
    let pending = v.pending + directories_of(entries, v.recursive);
    if !v.recursive {
        lemma_no_directories_when_flat(entries);
        assert(pending =~= Seq::<String>::empty());
    }
    let results = truncate(v.results + accepted_of(entries, v.filter), cap);
    if results.len() >= cap {
    } else if token is Some {
    } else {
        let prefixes = enqueue_all(v.prefixes, pending);
        lemma_enqueue_concat(seq![v.origin], v.found, pending);
        lemma_enqueue_distinct(v.prefixes, pending);
        lemma_enqueue_extends(v.prefixes, pending);
        if !v.recursive {
            assert(v.found + pending =~= v.found);
        }
    }
}

/// Every answer keeps the invariant of a listing.
pub proof fn lemma_step_wf(v: TraversalView, event: PageEvent)
    requires
        wf_view(v),
    ensures
        wf_view(step_spec(v, event)),
{
    if v.status is Running {
        match event {
            PageEvent::Received(body, parsed) => {
                if body@.len() == 0 {
                    lemma_after_page_wf(v, seq![], None);
                } else {
                    match parsed {
                        Ok(page) => lemma_after_page_wf(v, page.entries@, page.next_token),
                        Err(_) => {},
                    }
                }
            },
            PageEvent::Listed(page) => lemma_after_page_wf(v, page.entries@, page.next_token),
            _ => {},
        }
    }
}

/// A new listing satisfies the invariant.
pub proof fn lemma_initial_wf(params: ListFilesParams, endpoint: String)
    ensures
        wf_view(initial_view(params, endpoint)),
{
    let v = initial_view(params, endpoint);
    assert(accepted_of(Seq::<ObjectRecord>::empty(), params.filter) =~= Seq::<ObjectRecord>::empty());
    assert(distinct_prefixes(v.prefixes));
}

fn cap_exec(max_keys: Option<u32>) -> (r: u32)
    ensures
        r as nat == cap_of(max_keys),
{
    match max_keys {
        Some(n) => n,
        None => AWS_MAX_LIST_OBJECTS,
    }
}

/// Whether directory `d` is among the prefixes `q`, comparing names.
fn is_listed(q: &Vec<Option<String>>, d: &String) -> (r: bool)
    ensures
        r == listed(q@, *d),
{
    let mut i: usize = 0;
    while i < q.len()
        invariant
            i <= q@.len(),
            forall|j: int| 0 <= j < i ==> #[trigger] opt_view(q@[j]) != Some(d@),
        decreases q.len() - i,
    {
        match &q[i] {
            Some(p) => {
                if *p == *d {
                    assert(opt_view(q@[i as int]) == Some(d@));
                    return true;
                }
            },
            None => {},
        }
        i = i + 1;
    }
    false
}

/// Queues each directory of `dirs` in order, unless it is already queued.
fn enqueue_directories(prefixes: &mut Vec<Option<String>>, dirs: &Vec<String>)
    ensures
        final(prefixes)@ == enqueue_all(old(prefixes)@, dirs@),
{
    let mut k: usize = 0;
    while k < dirs.len()
        invariant
            k <= dirs@.len(),
            prefixes@ == enqueue_all(old(prefixes)@, dirs@.take(k as int)),
        decreases dirs.len() - k,
    {
        assert(dirs@.take(k + 1).drop_last() =~= dirs@.take(k as int));
        assert(dirs@.take(k + 1).last() == dirs@[k as int]);
        let seen = is_listed(prefixes, &dirs[k]);
        if !seen {
            prefixes.push(Some(dirs[k].clone()));
        }
        k = k + 1;
    }
    assert(dirs@.take(dirs@.len() as int) =~= dirs@);
}

/// Appends `accepted` to `results` in order, stopping at `cap` entries.
fn push_capped(results: &mut Vec<ObjectRecord>, accepted: &Vec<ObjectRecord>, cap: usize)
    requires
        old(results)@.len() < cap,
    ensures
        final(results)@ == truncate(old(results)@ + accepted@, cap as nat),
{
    let mut i: usize = 0;
    while i < accepted.len() && results.len() < cap
        invariant
            i <= accepted@.len(),
            results@ == old(results)@ + accepted@.take(i as int),
            results@.len() <= cap,
        decreases accepted.len() - i,
    {
        results.push(accepted[i].clone());
        assert(accepted@.take(i + 1) =~= accepted@.take(i as int).push(accepted@[i as int]));
        i = i + 1;
    }
    let ghost all = old(results)@ + accepted@;
    proof {
        if i == accepted.len() {
            assert(accepted@.take(i as int) =~= accepted@);
        } else {
            assert(results@ =~= all.take(cap as int));
        }
    }
}

/// A listing in progress: a state machine that names the next page request
/// and moves on each answer. The caller sends the requests and feeds back what
/// came of them, until `next_request` gives none.
pub struct Traversal {
    origin: Ghost<Option<String>>,
    params: ListFilesParams,
    endpoint: String,
    prefixes: Vec<Option<String>>,
    next_prefix: usize,
    pending: Vec<String>,
    results: Vec<ObjectRecord>,
    redirected: bool,
    status: ListingStatus,
    received: Ghost<Seq<ObjectRecord>>,
    found: Ghost<Seq<String>>,
    pages: Ghost<nat>,
    redirects: Ghost<nat>,
    answered: Ghost<nat>,
}

impl View for Traversal {
    type V = TraversalView;

    closed spec fn view(&self) -> TraversalView {
        TraversalView {
            origin: self.origin@,
            prefix: self.params.prefix,
            max_keys: self.params.max_keys,
            continuation_token: self.params.continuation_token,
            recursive: self.params.recursive,
            filter: self.params.filter,
            endpoint: self.endpoint,
            prefixes: self.prefixes@,
            next_prefix: self.next_prefix as nat,
            pending: self.pending@,
            results: self.results@,
            redirected: self.redirected,
            status: self.status,
            received: self.received@,
            found: self.found@,
            pages: self.pages@,
            redirects: self.redirects@,
            answered: self.answered@,
        }
    }
}

impl Traversal {
    pub open spec fn well_formed(&self) -> bool {
        wf_view(self@)
    }

    /// Starts a listing of `params.prefix` against `endpoint`.
    pub fn new(params: ListFilesParams, endpoint: String) -> (r: Traversal)
        ensures
            r@ == initial_view(params, endpoint),
            r.well_formed(),
    {
        proof {
            lemma_initial_wf(params, endpoint);
        }
        let ghost origin = params.prefix;
        let first = clone_opt_string(&params.prefix);
        let mut prefixes: Vec<Option<String>> = Vec::new();
        prefixes.push(first);
        let status = if cap_exec(params.max_keys) == 0 {
            ListingStatus::Finished
        } else {
            ListingStatus::Running
        };
        let r = Traversal {
            origin: Ghost(origin),
            params,
            endpoint,
            prefixes,
            next_prefix: 1,
            pending: Vec::new(),
            results: Vec::new(),
            redirected: false,
            status,
            received: Ghost(Seq::empty()),
            found: Ghost(Seq::empty()),
            pages: Ghost(0),
            redirects: Ghost(0),
            answered: Ghost(0),
        };
        assert(r@.prefixes =~= seq![origin]);
        assert(r@.pending =~= Seq::<String>::empty());
        assert(r@.results =~= Seq::<ObjectRecord>::empty());
        assert(r@ =~= initial_view(params, endpoint));
        r
    }

    pub fn is_running(&self) -> (r: bool)
        ensures
            r == (self@.status is Running),
    {
        match &self.status {
            ListingStatus::Running => true,
            _ => false,
        }
    }

    /// The request to send next, or none once the listing has stopped.
    pub fn next_request(&self) -> (r: Option<PageRequest>)
        ensures
            r == request_of(self@),
    {
        if self.is_running() {
            Some(
                PageRequest {
                    endpoint: self.endpoint.clone(),
                    prefix: clone_opt_string(&self.params.prefix),
                    max_keys: get_effective_max_keys(&self.params.filter, self.params.max_keys),
                    continuation_token: clone_opt_string(&self.params.continuation_token),
                },
            )
        } else {
            None
        }
    }

    /// Takes a page whose directories are already in `pending`.
    fn commit_page(
        &mut self,
        accepted: Vec<ObjectRecord>,
        token: Option<String>,
        Ghost(v): Ghost<TraversalView>,
        Ghost(entries): Ghost<Seq<ObjectRecord>>,
    ) -> (added: usize)
        requires
            wf_view(v),
            v.status is Running,
            old(self)@ == (TraversalView {
                pending: v.pending + directories_of(entries, v.recursive),
                ..v
            }),
            accepted@ == accepted_of(entries, v.filter),
        ensures
            final(self)@ == after_page(v, entries, token),
            final(self)@.results.len() == v.results.len() + added,
    {
        let cap = cap_exec(self.params.max_keys) as usize;
        let old_len = self.results.len();
        push_capped(&mut self.results, &accepted, cap);
        self.received = Ghost(self.received@ + entries);
        self.pages = Ghost(self.pages@ + 1);
        self.answered = Ghost(self.answered@ + 1);
        self.redirected = false;
        if self.results.len() >= cap {
            self.status = ListingStatus::Finished;
        } else if token.is_some() {
            self.params.continuation_token = token;
        } else {
            let ghost pending = self.pending@;
            enqueue_directories(&mut self.prefixes, &self.pending);
            self.found = Ghost(self.found@ + pending);
            self.pending = Vec::new();
            self.params.continuation_token = None;
            proof {
                lemma_enqueue_extends(v.prefixes, pending);
            }
            if self.next_prefix < self.prefixes.len() {
                self.params.prefix = clone_opt_string(&self.prefixes[self.next_prefix]);
                self.next_prefix = self.next_prefix + 1;
            } else {
                self.status = ListingStatus::Finished;
            }
        }
        assert(self@ =~= after_page(v, entries, token));
        self.results.len() - old_len
    }

    /// Moves the listing on the answer to its last request (see `step_spec`),
    /// and tells how many results that answer added.
    pub fn step(&mut self, event: PageEvent) -> (added: usize)
        requires
            old(self).well_formed(),
        ensures
            final(self)@ == step_spec(old(self)@, event),
            final(self).well_formed(),
            final(self)@.results.len() == old(self)@.results.len() + added,
    {
        proof {
            lemma_step_wf(self@, event);
        }
        if !self.is_running() {
            return 0;
        }
        let ghost v = self@;
        match event {
            PageEvent::Redirected(e) => {
                if self.redirected {
                    self.status = ListingStatus::Failed(ListError::RedirectLoop);
                } else {
                    self.endpoint = e;
                    self.redirected = true;
                }
                self.redirects = Ghost(self.redirects@ + 1);
                self.answered = Ghost(self.answered@ + 1);
                assert(self@ =~= step_spec(v, event));
                0
            },
            PageEvent::Failed(err) => {
                self.status = ListingStatus::Failed(err);
                self.answered = Ghost(self.answered@ + 1);
                assert(self@ =~= step_spec(v, event));
                0
            },
            PageEvent::Received(body, parsed) => {
                let ghost entries: Seq<ObjectRecord> = if body@.len() == 0 || parsed is Err {
                    seq![]
                } else {
                    parsed->Ok_0.entries@
                };
                let mut accepted: Vec<ObjectRecord> = Vec::new();
                let outcome = process_response_body(
                    body.as_str(),
                    parsed,
                    self.params.recursive,
                    &self.params.filter,
                    &mut accepted,
                    &mut self.pending,
                );
                match outcome {
                    Err(e) => {
                        self.status = ListingStatus::Failed(e);
                        self.answered = Ghost(self.answered@ + 1);
                        assert(self@ =~= step_spec(v, event));
                        0
                    },
                    Ok(token) => {
                        if body.as_str().is_empty() {
                            assert(accepted_of(entries, v.filter) =~= Seq::<ObjectRecord>::empty());
                            assert(directories_of(entries, v.recursive) =~= Seq::<String>::empty());
                            assert(accepted@ =~= accepted_of(entries, v.filter));
                            assert(self.pending@ =~= v.pending + directories_of(entries, v.recursive));
                        }
                        assert(self@ =~= (TraversalView {
                            pending: v.pending + directories_of(entries, v.recursive),
                            ..v
                        }));
                        self.commit_page(accepted, token, Ghost(v), Ghost(entries))
                    },
                }
            },
            PageEvent::Listed(page) => {
                let ghost entries = page.entries@;
                let mut accepted: Vec<ObjectRecord> = Vec::new();
                classify_entries(
                    &page.entries,
                    self.params.recursive,
                    &self.params.filter,
                    &mut self.pending,
                    &mut accepted,
                );
                assert(self@ =~= (TraversalView {
                    pending: v.pending + directories_of(entries, v.recursive),
                    ..v
                }));
                self.commit_page(accepted, page.next_token, Ghost(v), Ghost(entries))
            },
        }
    }

    pub fn results(&self) -> (r: &Vec<ObjectRecord>)
        ensures
            r@ == self@.results,
    {
        &self.results
    }

    pub fn status(&self) -> (r: &ListingStatus)
        ensures
            *r == self@.status,
    {
        &self.status
    }

    /// The endpoint that requests go to, corrected by any redirect followed.
    pub fn endpoint(&self) -> (r: &String)
        ensures
            *r == self@.endpoint,
    {
        &self.endpoint
    }

    /// Ends the listing: its error if it failed, else its results.
    pub fn finish(self) -> (r: Result<Vec<ObjectRecord>, ListError>)
        ensures
            match self@.status {
                ListingStatus::Failed(e) => r == Err::<Vec<ObjectRecord>, ListError>(e),
                _ => r matches Ok(v) && v@ == self@.results,
            },
    {
        match self.status {
            ListingStatus::Failed(e) => Err(e),
            _ => Ok(self.results),
        }
    }
}

/// A listing never holds more results than its cap, and holds as many of the
/// kept entries received as the cap allows. Once finished, it holds exactly
/// the cap, or else every kept entry it received, with every queued prefix
/// listed to its last page.
pub proof fn lemma_results_capped(v: TraversalView)
    requires
        wf_view(v),
    ensures
        v.results.len() <= cap_of(v.max_keys),
        v.results.len() == (if accepted_of(v.received, v.filter).len() < cap_of(v.max_keys) {
            accepted_of(v.received, v.filter).len()
        } else {
            cap_of(v.max_keys)
        }),
        v.status is Finished && v.results.len() < cap_of(v.max_keys) ==> {
            &&& v.results == accepted_of(v.received, v.filter)
            &&& v.next_prefix == v.prefixes.len()
            &&& v.pending.len() == 0
            &&& v.continuation_token is None
        },
{
}

/// Every result passes the filter; with a filter set, no virtual directory
/// is among the results.
pub proof fn lemma_results_match_filter(v: TraversalView)
    requires
        wf_view(v),
    ensures
        forall|i: int| 0 <= i < v.results.len() ==> keeps(#[trigger] v.results[i], v.filter),
        v.filter matches Some(f) ==> forall|i: int|
            0 <= i < v.results.len() ==> f.spec_matches(#[trigger] v.results[i])
                && !v.results[i].spec_is_directory(),
{
    let all = accepted_of(v.received, v.filter);
    lemma_accepted_keeps(v.received, v.filter);
    assert forall|i: int| 0 <= i < v.results.len() implies keeps(#[trigger] v.results[i], v.filter) by {
        assert(v.results[i] == all[i]);
    }
}

/// A listing that is not recursive only ever lists the prefix it was given.
pub proof fn lemma_flat_listing_stays(v: TraversalView, event: PageEvent)
    requires
        wf_view(v),
        !v.recursive,
    ensures
        v.prefixes == seq![v.origin],
        v.status is Running ==> v.prefix == v.origin,
        request_of(v) matches Some(req) ==> req.prefix == v.origin,
        step_spec(v, event).prefixes == seq![v.origin],
        request_of(step_spec(v, event)) matches Some(req) ==> req.prefix == v.origin,
{
    assert(v.found =~= Seq::<String>::empty());
    assert(enqueue_all(seq![v.origin], v.found) == seq![v.origin]);
    lemma_step_wf(v, event);
    let w = step_spec(v, event);
    assert(w.found =~= Seq::<String>::empty());
    assert(enqueue_all(seq![w.origin], w.found) == seq![w.origin]);
}

/// Prefixes are listed in the order they were queued, and directories are
/// queued in the order they were found, each at most once: the queue is the
/// starting prefix followed by the found directories, repeats left out. An
/// answer only appends to the queue, and the listing either stays on its
/// prefix or takes the next one in the queue.
pub proof fn lemma_queue_order(v: TraversalView, event: PageEvent)
    requires
        wf_view(v),
    ensures
        v.prefixes == enqueue_all(seq![v.origin], v.found),
        distinct_prefixes(v.prefixes),
        step_spec(v, event).prefixes.len() >= v.prefixes.len(),
        forall|i: int|
            0 <= i < v.prefixes.len() ==> #[trigger] step_spec(v, event).prefixes[i]
                == v.prefixes[i],
        step_spec(v, event).status is Running ==> {
            ||| step_spec(v, event).next_prefix == v.next_prefix && step_spec(v, event).prefix
                == v.prefix
            ||| step_spec(v, event).next_prefix == v.next_prefix + 1 && step_spec(v, event).prefix
                == step_spec(v, event).prefixes[v.next_prefix as int]
        },
{
    if v.status is Running {
        match event {
            PageEvent::Received(body, parsed) => {
                if body@.len() == 0 {
                    lemma_enqueue_extends(v.prefixes, v.pending + directories_of(seq![], v.recursive));
                } else if parsed is Ok {
                    let page = parsed->Ok_0;
                    lemma_enqueue_extends(
                        v.prefixes,
                        v.pending + directories_of(page.entries@, v.recursive),
                    );
                }
            },
            PageEvent::Listed(page) => {
                lemma_enqueue_extends(
                    v.prefixes,
                    v.pending + directories_of(page.entries@, v.recursive),
                );
            },
            _ => {},
        }
    }
}

/// A redirect is followed once: the same request goes again, to the corrected
/// endpoint. A second redirect in a row fails the listing with a redirect loop;
/// a page received instead lets it go on, and later requests keep the
/// corrected endpoint.
pub proof fn lemma_redirect_once(
    v: TraversalView,
    endpoint: String,
    again: String,
    body: String,
    page: Page,
)
    requires
        wf_view(v),
        v.status is Running,
        !v.redirected,
    ensures
        ({
            let w = step_spec(v, PageEvent::Redirected(endpoint));
            &&& w.status is Running
            &&& w.endpoint == endpoint
            &&& request_of(w) == Some(
                PageRequest {
                    endpoint,
                    prefix: v.prefix,
                    max_keys: spec_effective_max_keys(v.filter is Some, v.max_keys),
                    continuation_token: v.continuation_token,
                },
            )
            &&& step_spec(w, PageEvent::Redirected(again)).status == ListingStatus::Failed(
                ListError::RedirectLoop,
            )
            &&& !(step_spec(w, PageEvent::Received(body, Ok(page))).status is Failed)
            &&& step_spec(w, PageEvent::Received(body, Ok(page))).endpoint == endpoint
            &&& !step_spec(w, PageEvent::Received(body, Ok(page))).redirected
        }),
{
}

/// Each request is answered once, by a page or a redirect, until the listing
/// fails: a listing that met exactly one redirect has sent one request more
/// than the pages it needed.
pub proof fn lemma_request_count(v: TraversalView)
    requires
        wf_view(v),
        !(v.status is Failed),
    ensures
        v.answered == v.pages + v.redirects,
        v.redirects == 1 ==> v.answered == v.pages + 1,
{
}

} // verus!
