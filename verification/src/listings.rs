//! The retrieval orchestrator: page-count computation, per-page outcome
//! classification, order-preserving aggregation with all-or-nothing failure
//! semantics, and the state machine that one retrieval call steps through.
//!
//! The orchestrator performs no I/O itself. A driver owns a [`State`],
//! feeds each [`Event`] to [`step`], and performs the [`Action`] it gets
//! back; the state machine decides everything else.

use vstd::prelude::*;
use crate::client::{extract_csrf_token, extracted_token_model};
use crate::errors::{ErrorModel, FetchListingsError};
use crate::graphql::{classify_model, classify_response, GraphQLResponse, ListingNode, FIRST};

verus! {

/// Configuration for fetching listings.
pub struct SearchConfig {
    /// Maximum number of pages to fetch.
    pub max_pages: usize,
    /// Timeout in seconds for each request.
    pub timeout_secs: u64,
}

impl Default for SearchConfig {
    /// The zero-config form: an unbounded page count and a generous
    /// per-page timeout.
    fn default() -> (r: Self)
        ensures
            r.max_pages == usize::MAX,
            r.timeout_secs == 60,
    {
        SearchConfig { max_pages: usize::MAX, timeout_secs: 60 }
    }
}

/// Total pages of a query: the ceiling of `total_count / page_size`,
/// clamped to the configured maximum page count.
pub open spec fn total_pages_model(total_count: nat, page_size: nat, max_pages: nat) -> nat
    recommends
        page_size > 0,
{
    let pages = (total_count + page_size - 1) / page_size as int;
    if pages <= max_pages {
        pages as nat
    } else {
        max_pages
    }
}

/// Computes [`total_pages_model`] without overflow.
pub fn compute_total_pages(total_count: u32, page_size: u32, max_pages: usize) -> (r: usize)
    requires
        page_size > 0,
    ensures
        r == total_pages_model(total_count as nat, page_size as nat, max_pages as nat),
{
    let pages: u64 = (total_count as u64 + page_size as u64 - 1) / page_size as u64;
    if pages <= max_pages as u64 {
        pages as usize
    } else {
        max_pages
    }
}

/// The zero-based item offset of each page after the first: page `i + 1`
/// starts at item `(i + 1) * page_size`.
pub fn page_offsets(total_pages: usize, page_size: u32) -> (r: Vec<u32>)
    requires
        total_pages >= 1,
        page_size >= 1,
        (total_pages - 1) * page_size <= u32::MAX,
    ensures
        r@.len() == total_pages - 1,
        forall|i: int| 0 <= i < r@.len() ==> r@[i] == (i + 1) * page_size,
{
    let mut offsets: Vec<u32> = Vec::new();
    let mut page: usize = 1;
    while page < total_pages
        invariant
            1 <= page <= total_pages,
            page_size >= 1,
            (total_pages - 1) * page_size <= u32::MAX,
            offsets@.len() == page - 1,
            forall|i: int| 0 <= i < offsets@.len() ==> offsets@[i] == (i + 1) * page_size,
        decreases total_pages - page,
    {
        proof {
            assert(page * page_size <= (total_pages - 1) * page_size) by (nonlinear_arith)
                requires
                    page <= total_pages - 1,
                    page_size >= 0,
            ;
            assert(page <= page * page_size) by (nonlinear_arith)
                requires
                    page >= 0,
                    page_size >= 1,
            ;
        }
        offsets.push((page as u32) * page_size);
        page = page + 1;
    }
    offsets
}

/// How one launched page fetch ended, as the driver observed it: it ran
/// past its time budget, it failed in transport with a message, or it
/// produced a response envelope.
pub enum PageOutcome {
    TimedOut,
    Transport(String),
    Response(GraphQLResponse),
}

/// The classified result of one page fetch: exceeding the time budget is
/// the timeout failure, a transport failure keeps its message, and a
/// response envelope is classified by its shape.
pub open spec fn resolve_model(o: PageOutcome) -> Result<(u32, Seq<ListingNode>), ErrorModel> {
    match o {
        PageOutcome::TimedOut => Err(ErrorModel::Timeout),
        PageOutcome::Transport(m) => Err(ErrorModel::Request(m@)),
        PageOutcome::Response(resp) => classify_model(resp),
    }
}

/// Classifies one observed page outcome, exactly as [`resolve_model`]
/// states.
pub fn resolve_page_outcome(o: PageOutcome) -> (r: Result<
    (u32, Vec<ListingNode>),
    FetchListingsError,
>)
    ensures
        r is Ok <==> resolve_model(o) is Ok,
        r matches Ok((total, nodes)) ==> {
            let m = resolve_model(o)->Ok_0;
            total == m.0 && nodes@ == m.1
        },
        r matches Err(e) ==> e@ == resolve_model(o)->Err_0,
{
    match o {
        PageOutcome::TimedOut => Err(FetchListingsError::TimeoutError),
        PageOutcome::Transport(m) => Err(FetchListingsError::RequestError(m)),
        PageOutcome::Response(resp) => classify_response(resp),
    }
}

/// What aggregation yields: walking the launched pages in launch order,
/// the first failed page's error; or, when every page succeeded, the
/// accumulated listings, each page's listings appended in launch order.
pub open spec fn aggregate_model(acc: Seq<ListingNode>, outcomes: Seq<PageOutcome>) -> Result<
    Seq<ListingNode>,
    ErrorModel,
>
    decreases outcomes.len(),
{
    if outcomes.len() == 0 {
        Ok(acc)
    } else {
        match resolve_model(outcomes[0]) {
            Err(e) => Err(e),
            Ok(page) => aggregate_model(acc + page.1, outcomes.drop_first()),
        }
    }
}

/// Aggregates one call's pages, exactly as [`aggregate_model`] states:
/// the first page's listings followed by every remaining page's listings
/// in launch order — or the first failure in launch order, and then no
/// partial sequence at all.
pub fn aggregate(first_page: Vec<ListingNode>, outcomes: Vec<PageOutcome>) -> (r: Result<
    Vec<ListingNode>,
    FetchListingsError,
>)
    ensures
        r is Ok <==> aggregate_model(first_page@, outcomes@) is Ok,
        r matches Ok(all) ==> all@ == aggregate_model(first_page@, outcomes@)->Ok_0,
        r matches Err(e) ==> e@ == aggregate_model(first_page@, outcomes@)->Err_0,
{
    let mut acc = first_page;
    let mut rest = outcomes;
    loop
        invariant
            aggregate_model(first_page@, outcomes@) == aggregate_model(acc@, rest@),
        decreases rest@.len(),
    {
        if rest.len() == 0 {
            return Ok(acc);
        }
        let ghost pre = rest@;
        let outcome = rest.remove(0);
        proof {
            assert(rest@ =~= pre.drop_first());
        }
        match resolve_page_outcome(outcome) {
            Err(e) => {
                proof {
                    assert(aggregate_model(acc@, pre) == Err::<Seq<ListingNode>, ErrorModel>(
                        resolve_model(outcome)->Err_0,
                    ));
                }
                return Err(e);
            },
            Ok((_total, mut nodes)) => {
                proof {
                    assert(aggregate_model(acc@, pre) == aggregate_model(
                        acc@ + nodes@,
                        pre.drop_first(),
                    ));
                }
                acc.append(&mut nodes);
            },
        }
    }
}

/// How the session handshake ended, as the driver observed it: a transport
/// failure with its message, or the session's cookie header (empty when
/// the response set no cookie at all).
pub enum BootstrapOutcome {
    Transport(String),
    Cookies(Vec<u8>),
}

/// The stages of one retrieval call. A call starts at `Init` and ends at
/// `Succeeded` or `Failed`; the states between carry everything the next
/// stage needs, the anti-forgery token among it, copied once after
/// bootstrap and never changed after.
pub enum State {
    Init,
    Bootstrapping,
    FetchingFirstPage { token: Vec<u8> },
    FetchingRemainingPages { token: Vec<u8>, first_page: Vec<ListingNode>, num_remaining: usize },
    Succeeded { listings: Vec<ListingNode> },
    Failed { error: FetchListingsError },
}

/// What the driver reports back to the orchestrator.
pub enum Event {
    Start,
    BootstrapFinished { outcome: BootstrapOutcome },
    FirstPageFinished { outcome: PageOutcome },
    RemainingPagesFinished { outcomes: Vec<PageOutcome> },
}

/// What the orchestrator asks the driver to do next. Offsets of
/// `FetchRemainingPages` are launched concurrently, in the order given,
/// each bounded by the configured per-page timeout; `Finish` means the
/// call has ended and nothing more is to be fetched.
pub enum Action {
    Bootstrap,
    FetchFirstPage { offset: u32 },
    FetchRemainingPages { offsets: Vec<u32> },
    Finish,
}

/// Which event each state is waiting for: the number of reported outcomes
/// must equal the number of launched pages.
pub open spec fn accepts(state: State, event: Event) -> bool {
    match (state, event) {
        (State::Init, Event::Start) => true,
        (State::Bootstrapping, Event::BootstrapFinished { .. }) => true,
        (State::FetchingFirstPage { .. }, Event::FirstPageFinished { .. }) => true,
        (
            State::FetchingRemainingPages { num_remaining, .. },
            Event::RemainingPagesFinished { outcomes },
        ) => outcomes@.len() == num_remaining,
        _ => false,
    }
}

/// The transition out of `Bootstrapping`: a transport failure fails the
/// call with that message; otherwise the cookie header decides — its
/// anti-forgery token starts the first page fetch, and its absence fails
/// the call with the token error before any page fetch is asked for.
pub open spec fn bootstrap_transition(
    outcome: BootstrapOutcome,
    post: State,
    action: Action,
) -> bool {
    match outcome {
        BootstrapOutcome::Transport(m) => (post matches State::Failed { error } && error@
            == ErrorModel::Request(m@)) && action is Finish,
        BootstrapOutcome::Cookies(header) => match extracted_token_model(header@) {
            Some(tok) => (post matches State::FetchingFirstPage { token } && token@ == tok) && (
            action matches Action::FetchFirstPage { offset } && offset == 0),
            None => (post matches State::Failed { error } && error@ == ErrorModel::Csrf(
                "Failed to obtain CSRF token"@,
            )) && action is Finish,
        },
    }
}

/// The transition out of `FetchingFirstPage`: a failed first page fails
/// the call; a successful one fixes the page count from the reported
/// total, and either the call is already complete or the remaining pages
/// are asked for, in ascending page order at offsets `page * page_size`.
pub open spec fn first_page_transition(
    config: SearchConfig,
    token: Seq<u8>,
    outcome: PageOutcome,
    post: State,
    action: Action,
) -> bool {
    match resolve_model(outcome) {
        Err(e) => (post matches State::Failed { error } && error@ == e) && action is Finish,
        Ok((total, nodes)) => {
            let pages = total_pages_model(total as nat, FIRST as nat, config.max_pages as nat);
            if pages <= 1 {
                (post matches State::Succeeded { listings } && listings@ == nodes)
                    && action is Finish
            } else {
                (post matches State::FetchingRemainingPages { token: t, first_page, num_remaining }
                    && t@ == token && first_page@ == nodes && num_remaining == pages - 1) && (
                action matches Action::FetchRemainingPages { offsets } && offsets@.len() == pages
                    - 1 && (forall|i: int|
                    0 <= i < offsets@.len() ==> offsets@[i] == (i + 1) * FIRST))
            }
        },
    }
}

/// The transition out of `FetchingRemainingPages`: the launched pages'
/// outcomes, reported in launch order, are aggregated as
/// [`aggregate_model`] states, and the call ends.
pub open spec fn remaining_transition(
    first_page: Seq<ListingNode>,
    outcomes: Seq<PageOutcome>,
    post: State,
    action: Action,
) -> bool {
    action is Finish && match aggregate_model(first_page, outcomes) {
        Ok(all) => (post matches State::Succeeded { listings } && listings@ == all),
        Err(e) => (post matches State::Failed { error } && error@ == e),
    }
}

/// Advances one retrieval call by one stage: from the current state and
/// the driver's event to the next state and the next thing to do.
pub fn step(config: &SearchConfig, state: State, event: Event) -> (r: (State, Action))
    requires
        accepts(state, event),
    ensures
        state is Init ==> r.0 is Bootstrapping && r.1 is Bootstrap,
        state is Bootstrapping ==> (event matches Event::BootstrapFinished { outcome }
            ==> bootstrap_transition(outcome, r.0, r.1)),
        state matches State::FetchingFirstPage { token } ==> (event matches Event::FirstPageFinished {
            outcome,
        } ==> first_page_transition(*config, token@, outcome, r.0, r.1)),
        state matches State::FetchingRemainingPages { first_page, .. } ==> (event matches Event::RemainingPagesFinished {
            outcomes,
        } ==> remaining_transition(first_page@, outcomes@, r.0, r.1)),
{
    match (state, event) {
        (State::Init, Event::Start) => (State::Bootstrapping, Action::Bootstrap),
        (State::Bootstrapping, Event::BootstrapFinished { outcome }) => match outcome {
            BootstrapOutcome::Transport(m) => (
                State::Failed { error: FetchListingsError::RequestError(m) },
                Action::Finish,
            ),
            BootstrapOutcome::Cookies(header) => match extract_csrf_token(&header) {
                Some(token) => (
                    State::FetchingFirstPage { token },
                    Action::FetchFirstPage { offset: 0 },
                ),
                None => (
                    State::Failed {
                        error: FetchListingsError::CsrfTokenError(
                            String::from_str("Failed to obtain CSRF token"),
                        ),
                    },
                    Action::Finish,
                ),
            },
        },
        (State::FetchingFirstPage { token }, Event::FirstPageFinished { outcome }) => match resolve_page_outcome(
            outcome,
        ) {
            Err(e) => (State::Failed { error: e }, Action::Finish),
            Ok((total, nodes)) => {
                let pages = compute_total_pages(total, FIRST, config.max_pages);
                if pages <= 1 {
                    (State::Succeeded { listings: nodes }, Action::Finish)
                } else {
                    proof {
                        lemma_offsets_fit(total as nat, config.max_pages as nat);
                    }
                    let offsets = page_offsets(pages, FIRST);
                    (
                        State::FetchingRemainingPages {
                            token,
                            first_page: nodes,
                            num_remaining: pages - 1,
                        },
                        Action::FetchRemainingPages { offsets },
                    )
                }
            },
        },
        (
            State::FetchingRemainingPages { token: _, first_page, num_remaining: _ },
            Event::RemainingPagesFinished { outcomes },
        ) => match aggregate(first_page, outcomes) {
            Ok(all) => (State::Succeeded { listings: all }, Action::Finish),
            Err(e) => (State::Failed { error: e }, Action::Finish),
        },
        _ => {
            proof {
                assert(false);
            }
            (State::Init, Action::Finish)
        },
    }
}

/// The number of page fetches one retrieval call attempts once the first
/// page has reported a total of `total_count`: the first page itself,
/// plus one fetch per remaining page the orchestrator asks for.
pub open spec fn pages_attempted_model(total_count: nat, page_size: nat, max_pages: nat) -> nat {
    let pages = total_pages_model(total_count, page_size, max_pages);
    if pages <= 1 {
        1
    } else {
        pages
    }
}

/// Law: for a reported total of `k` listings and page size `p`, a
/// retrieval call attempts exactly `min(ceil(k / p), max_pages)` pages
/// whenever `k >= 1`; and for `k = 0` it attempts exactly one page, the
/// first.
pub proof fn lemma_pages_attempted(total_count: nat, page_size: nat, max_pages: nat)
    requires
        page_size >= 1,
        max_pages >= 1,
    ensures
        total_count >= 1 ==> pages_attempted_model(total_count, page_size, max_pages)
            == total_pages_model(total_count, page_size, max_pages),
        total_count == 0 ==> pages_attempted_model(total_count, page_size, max_pages) == 1,
{
    if total_count >= 1 {
        let p = page_size as int;
        let q = (total_count + p - 1) / p;
        vstd::arithmetic::div_mod::lemma_fundamental_div_mod(total_count as int + p - 1, p);
        vstd::arithmetic::div_mod::lemma_mod_bound(total_count as int + p - 1, p);
        assert(p * q >= 1);
        if q < 1 {
            assert(p * q <= 0) by (nonlinear_arith)
                requires
                    p >= 1,
                    q <= 0,
            ;
        }
    } else {
        vstd::arithmetic::div_mod::lemma_basic_div(page_size as int - 1, page_size as int);
    }
}

/// Which pages succeeded: the listing sequence each page outcome carries,
/// in launch order.
pub open spec fn pages_model(outcomes: Seq<PageOutcome>) -> Seq<Seq<ListingNode>> {
    outcomes.map_values(|o: PageOutcome| resolve_model(o)->Ok_0.1)
}

/// Law (order invariance): when every launched page succeeds, aggregation
/// yields the first page's listings followed by each remaining page's
/// listings in launch order — page 0, then page 1, and so on.
pub proof fn lemma_order_invariant(first_page: Seq<ListingNode>, outcomes: Seq<PageOutcome>)
    requires
        forall|i: int| 0 <= i < outcomes.len() ==> resolve_model(#[trigger] outcomes[i]) is Ok,
    ensures
        aggregate_model(first_page, outcomes) == Ok::<_, ErrorModel>(
            first_page + pages_model(outcomes).flatten(),
        ),
    decreases outcomes.len(),
{
    if outcomes.len() == 0 {
        assert(pages_model(outcomes) =~= Seq::<Seq<ListingNode>>::empty());
        assert(first_page + pages_model(outcomes).flatten() =~= first_page);
    } else {
        let page0 = resolve_model(outcomes[0])->Ok_0.1;
        lemma_order_invariant(first_page + page0, outcomes.drop_first());
        assert(pages_model(outcomes.drop_first()) =~= pages_model(outcomes).drop_first());
        assert(pages_model(outcomes).first() == page0);
        assert((first_page + page0) + pages_model(outcomes).drop_first().flatten() =~= first_page
            + pages_model(outcomes).flatten());
    }
}

/// Law (all-or-nothing): aggregation fails exactly when some launched
/// page failed, and then its result is the first failed page's error —
/// never a partial listing sequence.
pub proof fn lemma_all_or_nothing(first_page: Seq<ListingNode>, outcomes: Seq<PageOutcome>)
    ensures
        aggregate_model(first_page, outcomes) is Err <==> exists|i: int|
            0 <= i < outcomes.len() && resolve_model(#[trigger] outcomes[i]) is Err,
        aggregate_model(first_page, outcomes) matches Err(e) ==> exists|i: int|
            0 <= i < outcomes.len() && resolve_model(#[trigger] outcomes[i]) == Err::<
                (u32, Seq<ListingNode>),
                ErrorModel,
            >(e) && (forall|j: int| 0 <= j < i ==> resolve_model(outcomes[j]) is Ok),
    decreases outcomes.len(),
{
    if outcomes.len() == 0 {
    } else {
        match resolve_model(outcomes[0]) {
            Err(e) => {
                assert(resolve_model(outcomes[0]) is Err);
            },
            Ok(page) => {
                lemma_all_or_nothing(first_page + page.1, outcomes.drop_first());
                let rest = outcomes.drop_first();
                if aggregate_model(first_page, outcomes) is Err {
                    let i0 = choose|i: int|
                        0 <= i < rest.len() && resolve_model(#[trigger] rest[i]) is Err;
                    assert(resolve_model(outcomes[i0 + 1]) is Err);
                    {
                        let e = aggregate_model(first_page, outcomes)->Err_0;
                        let i1 = choose|i: int|
                            0 <= i < rest.len() && resolve_model(#[trigger] rest[i]) == Err::<
                                (u32, Seq<ListingNode>),
                                ErrorModel,
                            >(e) && (forall|j: int| 0 <= j < i ==> resolve_model(rest[j]) is Ok);
                        assert(resolve_model(outcomes[i1 + 1]) == Err::<
                            (u32, Seq<ListingNode>),
                            ErrorModel,
                        >(e));
                        assert(forall|j: int|
                            0 <= j < i1 + 1 ==> resolve_model(outcomes[j]) is Ok) by {
                            assert(forall|j: int|
                                1 <= j < i1 + 1 ==> resolve_model(#[trigger] outcomes[j])
                                    == resolve_model(rest[j - 1]));
                        }
                    }
                } else {
                    if exists|i: int|
                        0 <= i < outcomes.len() && resolve_model(#[trigger] outcomes[i]) is Err {
                        let i0 = choose|i: int|
                            0 <= i < outcomes.len() && resolve_model(
                                #[trigger] outcomes[i],
                            ) is Err;
                        assert(i0 >= 1);
                        assert(resolve_model(rest[i0 - 1]) is Err);
                        assert(false);
                    }
                }
            },
        }
    }
}

/// Whether some pair of `completions` carries launch index `idx`.
pub open spec fn has_index(completions: Seq<(usize, PageOutcome)>, idx: int) -> bool {
    exists|j: int| 0 <= j < completions.len() && (#[trigger] completions[j].0) == idx
}

/// Whether `completions` pairs every launch index below `n` with exactly
/// one outcome: each pair carries the index its page was launched under,
/// in whatever order the pages happened to complete.
pub open spec fn indexes_all_pages(completions: Seq<(usize, PageOutcome)>, n: nat) -> bool {
    &&& completions.len() == n
    &&& forall|j: int| 0 <= j < completions.len() ==> (#[trigger] completions[j].0) < n
    &&& forall|j: int, k: int|
        0 <= j < k < completions.len() ==> (#[trigger] completions[j].0) != (
        #[trigger] completions[k].0)
    &&& forall|idx: int| 0 <= idx < n ==> #[trigger] has_index(completions, idx)
}

/// The outcome of the page launched under index `idx`.
pub open spec fn outcome_at(completions: Seq<(usize, PageOutcome)>, idx: int) -> PageOutcome {
    completions[choose|j: int| 0 <= j < completions.len() && (#[trigger] completions[j].0) == idx].1
}

/// The outcomes of `n` launched pages rearranged into launch order, out
/// of whatever completion order the driver observed them in.
pub fn collect_in_launch_order(n: usize, completions: Vec<(usize, PageOutcome)>) -> (r: Vec<
    PageOutcome,
>)
    requires
        indexes_all_pages(completions@, n as nat),
    ensures
        r@.len() == n,
        forall|i: int| 0 <= i < n ==> r@[i] == outcome_at(completions@, i),
{
    let ghost all = completions@;
    let mut slots: Vec<Option<PageOutcome>> = Vec::new();
    while slots.len() < n
        invariant
            slots@.len() <= n,
            forall|i: int| 0 <= i < slots@.len() ==> slots@[i] is None,
        decreases n - slots@.len(),
    {
        slots.push(None);
    }
    let mut rem = completions;
    while rem.len() > 0
        invariant
            slots@.len() == n,
            rem@.len() <= all.len(),
            rem@ == all.take(rem@.len() as int),
            indexes_all_pages(all, n as nat),
            forall|j: int|
                rem@.len() <= j < all.len() ==> slots@[all[j].0 as int] == Some(all[j].1),
            forall|i: int|
                0 <= i < n && #[trigger] slots@[i] is Some ==> exists|j: int|
                    rem@.len() <= j < all.len() && (#[trigger] all[j].0) == i,
        decreases rem@.len(),
    {
        let ghost m = rem@.len() as int;
        let pair = rem.pop().unwrap();
        proof {
            assert(all.take(m)[m - 1] == all[m - 1]);
            assert(rem@ =~= all.take(m - 1));
        }
        let (idx, outcome) = pair;
        slots[idx] = Some(outcome);
    }
    proof {
        assert(rem@.len() == 0);
        assert forall|i: int| 0 <= i < n implies slots@[i] is Some by {
            assert(has_index(all, i));
            let j = choose|j: int| 0 <= j < all.len() && (#[trigger] all[j].0) == i;
            assert(slots@[all[j].0 as int] == Some(all[j].1));
        }
    }
    let ghost filled = slots@;
    let mut out: Vec<PageOutcome> = Vec::new();
    let mut rest = slots;
    while out.len() < n
        invariant
            out@.len() <= n,
            filled.len() == n,
            rest@ == filled.skip(out@.len() as int),
            forall|i: int| 0 <= i < n ==> filled[i] is Some,
            forall|i: int| 0 <= i < out@.len() ==> Some(#[trigger] out@[i]) == filled[i],
        decreases n - out@.len(),
    {
        let ghost k = out@.len() as int;
        match rest.remove(0) {
            Some(o) => {
                out.push(o);
            },
            None => {
                proof {
                    assert(filled.skip(k)[0] == filled[k]);
                    assert(false);
                }
            },
        }
        proof {
            assert(rest@ =~= filled.skip(k + 1));
        }
    }
    proof {
        assert forall|i: int| 0 <= i < n implies out@[i] == outcome_at(all, i) by {
            assert(has_index(all, i));
            let j0 = choose|j: int| 0 <= j < all.len() && (#[trigger] all[j].0) == i;
            assert(slots_hold_launch_order(all, filled, i, j0));
        }
    }
    out
}

/// Helper fact for [`collect_in_launch_order`]: slot `i` holds the
/// outcome of the pair whose launch index is `i`.
spec fn slots_hold_launch_order(
    all: Seq<(usize, PageOutcome)>,
    filled: Seq<Option<PageOutcome>>,
    i: int,
    j0: int,
) -> bool {
    0 <= j0 < all.len() && all[j0].0 == i && filled[i] == Some(all[j0].1)
}

/// Law (completion order is irrelevant): two completion orders that pair
/// the launch indexes with the same outcomes collect to the same
/// launch-ordered sequence, so aggregation cannot see completion timing.
pub proof fn lemma_completion_order_irrelevant(
    first_page: Seq<ListingNode>,
    c1: Seq<(usize, PageOutcome)>,
    c2: Seq<(usize, PageOutcome)>,
    n: nat,
)
    requires
        indexes_all_pages(c1, n),
        indexes_all_pages(c2, n),
        forall|p: (usize, PageOutcome)| c1.contains(p) <==> c2.contains(p),
    ensures
        forall|i: int| 0 <= i < n ==> outcome_at(c1, i) == outcome_at(c2, i),
        aggregate_model(first_page, Seq::new(n, |i: int| outcome_at(c1, i))) == aggregate_model(
            first_page,
            Seq::new(n, |i: int| outcome_at(c2, i)),
        ),
{
    assert forall|i: int| 0 <= i < n implies outcome_at(c1, i) == outcome_at(c2, i) by {
        assert(has_index(c1, i));
        assert(has_index(c2, i));
        let j1 = choose|j: int| 0 <= j < c1.len() && (#[trigger] c1[j].0) == i;
        assert(0 <= j1 < c1.len() && c1[j1].0 == i);
        let p = c1[j1];
        assert(c1.contains(p));
        assert(c2.contains(p));
        let j2 = choose|j: int| 0 <= j < c2.len() && c2[j] == p;
        let j2c = choose|j: int| 0 <= j < c2.len() && (#[trigger] c2[j].0) == i;
        assert(0 <= j2c < c2.len() && c2[j2c].0 == i);
        if j2 != j2c {
            assert(c2[j2].0 == i && c2[j2c].0 == i);
            assert(false);
        }
        assert(outcome_at(c2, i) == p.1);
    }
    assert(Seq::new(n, |i: int| outcome_at(c1, i)) =~= Seq::new(n, |i: int| outcome_at(c2, i)));
}

/// Law (timeout): a launched page that ran past its time budget fails the
/// whole call.
pub proof fn lemma_timeout_fails_call(
    first_page: Seq<ListingNode>,
    outcomes: Seq<PageOutcome>,
    i: int,
)
    requires
        0 <= i < outcomes.len(),
        outcomes[i] is TimedOut,
    ensures
        aggregate_model(first_page, outcomes) is Err,
{
    lemma_all_or_nothing(first_page, outcomes);
}

/// Law (bootstrap precondition): when the anti-forgery cookie is absent
/// after the handshake, the call fails with the token error and no page
/// fetch is asked for.
pub proof fn lemma_bootstrap_precondition(header: Vec<u8>, post: State, action: Action)
    requires
        extracted_token_model(header@) is None,
        bootstrap_transition(BootstrapOutcome::Cookies(header), post, action),
    ensures
        (post matches State::Failed { error } && error@ == ErrorModel::Csrf(
            "Failed to obtain CSRF token"@,
        )),
        action is Finish,
        !(action matches Action::FetchFirstPage { .. }),
        !(action matches Action::FetchRemainingPages { .. }),
{
}

/// Law (empty result): when the first page reports a total of zero and
/// carries no listings, the call succeeds at once with the empty sequence
/// and no further page is asked for.
pub proof fn lemma_zero_total(
    config: SearchConfig,
    token: Seq<u8>,
    outcome: PageOutcome,
    post: State,
    action: Action,
)
    requires
        first_page_transition(config, token, outcome, post, action),
        (resolve_model(outcome) matches Ok((total, nodes)) && total == 0 && nodes.len() == 0),
    ensures
        (post matches State::Succeeded { listings } && listings@.len() == 0),
        action is Finish,
{
}

/// Every page offset the orchestrator can ask for fits in the offset's
/// integer type: page `i < total_pages` starts before the reported total,
/// which itself fits.
proof fn lemma_offsets_fit(total: nat, max_pages: nat)
    requires
        total <= u32::MAX,
    ensures
        (total_pages_model(total, FIRST as nat, max_pages) - 1) * FIRST < total + FIRST,
        (total_pages_model(total, FIRST as nat, max_pages) - 1) * FIRST <= u32::MAX,
{
    let p = FIRST as int;
    let q = (total + p - 1) / p;
    vstd::arithmetic::div_mod::lemma_fundamental_div_mod(total as int + p - 1, p);
    vstd::arithmetic::div_mod::lemma_mod_bound(total as int + p - 1, p);
    assert(p * q <= total + p - 1);
    let pages = total_pages_model(total, FIRST as nat, max_pages) as int;
    assert(pages <= q);
    vstd::arithmetic::mul::lemma_mul_inequality(pages - 1, q - 1, p);
    assert((q - 1) * p == q * p - p) by (nonlinear_arith);
    assert(q * p == p * q) by (nonlinear_arith);
}

} // verus!
