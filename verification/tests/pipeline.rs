//! Tests of the retrieval orchestrator: page counting, the state machine,
//! ordered aggregation and the all-or-nothing failure policy.

use tutti_frutti::errors::FetchListingsError;
use tutti_frutti::graphql::{
    classify_response, Edge, GraphQLData, GraphQLResponse, Listings, ListingsByQuery, ListingNode,
    SellerInfo,
};
use tutti_frutti::listings::{
    aggregate, collect_in_launch_order, compute_total_pages, page_offsets, resolve_page_outcome,
    step, Action, BootstrapOutcome, Event, PageOutcome, SearchConfig, State,
};

fn node(id: &str) -> ListingNode {
    ListingNode {
        listingID: id.to_string(),
        title: format!("title {}", id),
        body: format!("body {}", id),
        timestamp: "2024-01-01T00:00:00Z".to_string(),
        formattedPrice: Some("CHF 20.-".to_string()),
        sellerInfo: SellerInfo { alias: format!("seller {}", id) },
        thumbnail: None,
    }
}

fn page_response(total: u32, ids: &[&str]) -> GraphQLResponse {
    GraphQLResponse {
        data: Some(GraphQLData {
            searchListingsByQuery: ListingsByQuery {
                listings: Listings {
                    totalCount: total,
                    edges: ids.iter().map(|id| Edge { node: node(id) }).collect(),
                },
            },
        }),
        errors: None,
    }
}

fn config(max_pages: usize) -> SearchConfig {
    SearchConfig { max_pages, timeout_secs: 10 }
}

#[test]
fn test_total_pages_formula() {
    // ceil(45 / 30) = 2
    assert_eq!(compute_total_pages(45, 30, usize::MAX), 2);
    // an empty result set needs no page beyond the first
    assert_eq!(compute_total_pages(0, 30, usize::MAX), 0);
    assert_eq!(compute_total_pages(1, 30, usize::MAX), 1);
    assert_eq!(compute_total_pages(30, 30, usize::MAX), 1);
    assert_eq!(compute_total_pages(31, 30, usize::MAX), 2);
    // the configured maximum caps the count
    assert_eq!(compute_total_pages(300, 30, 3), 3);
    assert_eq!(compute_total_pages(300, 30, usize::MAX), 10);
}

#[test]
fn test_page_offsets_ascending() {
    let offsets = page_offsets(4, 30);
    assert_eq!(offsets, vec![30, 60, 90]);
    let none = page_offsets(1, 30);
    assert!(none.is_empty());
}

#[test]
fn test_start_transition() {
    let (state, action) = step(&config(5), State::Init, Event::Start);
    assert!(matches!(state, State::Bootstrapping));
    assert!(matches!(action, Action::Bootstrap));
}

#[test]
fn test_bootstrap_extracts_token() {
    let header = b"first=1; tutti_csrftoken=tok-123; other=2".to_vec();
    let (state, action) = step(
        &config(5),
        State::Bootstrapping,
        Event::BootstrapFinished { outcome: BootstrapOutcome::Cookies(header) },
    );
    match &state {
        State::FetchingFirstPage { token } => assert_eq!(token, &b"tok-123".to_vec()),
        _ => panic!("expected FetchingFirstPage"),
    }
    assert!(matches!(action, Action::FetchFirstPage { offset: 0 }));
}

#[test]
fn test_bootstrap_missing_cookie_fails_before_any_fetch() {
    let header = b"first=1; other=2".to_vec();
    let (state, action) = step(
        &config(5),
        State::Bootstrapping,
        Event::BootstrapFinished { outcome: BootstrapOutcome::Cookies(header) },
    );
    match &state {
        State::Failed { error } => match error {
            FetchListingsError::CsrfTokenError(msg) => {
                assert_eq!(msg, "Failed to obtain CSRF token")
            }
            other => panic!("expected CsrfTokenError, got {:?}", other),
        },
        _ => panic!("expected Failed"),
    }
    assert!(matches!(action, Action::Finish));
}

#[test]
fn test_bootstrap_transport_failure() {
    let (state, action) = step(
        &config(5),
        State::Bootstrapping,
        Event::BootstrapFinished {
            outcome: BootstrapOutcome::Transport("connection refused".to_string()),
        },
    );
    match &state {
        State::Failed { error } => match error {
            FetchListingsError::RequestError(msg) => assert_eq!(msg, "connection refused"),
            other => panic!("expected RequestError, got {:?}", other),
        },
        _ => panic!("expected Failed"),
    }
    assert!(matches!(action, Action::Finish));
}

#[test]
fn test_page_count_capping() {
    // totalCount 300 at page size 30 implies 10 pages; max_pages 3 caps the
    // call at 3 fetches: the first page plus two remaining offsets.
    let (state, action) = step(
        &config(3),
        State::FetchingFirstPage { token: b"tok".to_vec() },
        Event::FirstPageFinished {
            outcome: PageOutcome::Response(page_response(300, &["a", "b", "c"])),
        },
    );
    match &state {
        State::FetchingRemainingPages { num_remaining, .. } => assert_eq!(*num_remaining, 2),
        _ => panic!("expected FetchingRemainingPages"),
    }
    match &action {
        Action::FetchRemainingPages { offsets } => assert_eq!(offsets, &vec![30, 60]),
        _ => panic!("expected FetchRemainingPages"),
    }
}

#[test]
fn test_zero_total_fetches_one_page_and_yields_empty() {
    let (state, action) = step(
        &config(5),
        State::FetchingFirstPage { token: b"tok".to_vec() },
        Event::FirstPageFinished { outcome: PageOutcome::Response(page_response(0, &[])) },
    );
    match &state {
        State::Succeeded { listings } => assert!(listings.is_empty()),
        _ => panic!("expected Succeeded"),
    }
    assert!(matches!(action, Action::Finish));
}

#[test]
fn test_single_page_completes_at_once() {
    let (state, action) = step(
        &config(5),
        State::FetchingFirstPage { token: b"tok".to_vec() },
        Event::FirstPageFinished {
            outcome: PageOutcome::Response(page_response(2, &["a", "b"])),
        },
    );
    match &state {
        State::Succeeded { listings } => {
            assert_eq!(listings.len(), 2);
            assert_eq!(listings[0].listingID, "a");
            assert_eq!(listings[1].listingID, "b");
        }
        _ => panic!("expected Succeeded"),
    }
    assert!(matches!(action, Action::Finish));
}

#[test]
fn test_first_page_failure_fails_call() {
    let (state, action) = step(
        &config(5),
        State::FetchingFirstPage { token: b"tok".to_vec() },
        Event::FirstPageFinished {
            outcome: PageOutcome::Transport("reset by peer".to_string()),
        },
    );
    match &state {
        State::Failed { error } => {
            assert!(matches!(error, FetchListingsError::RequestError(_)))
        }
        _ => panic!("expected Failed"),
    }
    assert!(matches!(action, Action::Finish));
}

#[test]
fn test_end_to_end_pencil_query() {
    // Query "pencil", page size 30, totalCount 45: two pages, offsets 0 and
    // 30, 30 + 15 listings, page 0's first in server order.
    let cfg = config(usize::MAX);
    let first_ids: Vec<String> = (0..30).map(|i| format!("p0-{}", i)).collect();
    let first_refs: Vec<&str> = first_ids.iter().map(|s| s.as_str()).collect();
    let (state, action) = step(
        &cfg,
        State::FetchingFirstPage { token: b"tok".to_vec() },
        Event::FirstPageFinished {
            outcome: PageOutcome::Response(page_response(45, &first_refs)),
        },
    );
    match &action {
        Action::FetchRemainingPages { offsets } => assert_eq!(offsets, &vec![30]),
        _ => panic!("expected FetchRemainingPages"),
    }
    let second_ids: Vec<String> = (0..15).map(|i| format!("p1-{}", i)).collect();
    let second_refs: Vec<&str> = second_ids.iter().map(|s| s.as_str()).collect();
    let (state, action) = step(
        &cfg,
        state,
        Event::RemainingPagesFinished {
            outcomes: vec![PageOutcome::Response(page_response(45, &second_refs))],
        },
    );
    match &state {
        State::Succeeded { listings } => {
            assert_eq!(listings.len(), 45);
            for i in 0..30 {
                assert_eq!(listings[i].listingID, format!("p0-{}", i));
            }
            for i in 0..15 {
                assert_eq!(listings[30 + i].listingID, format!("p1-{}", i));
            }
        }
        _ => panic!("expected Succeeded"),
    }
    assert!(matches!(action, Action::Finish));
}

#[test]
fn test_all_or_nothing() {
    // Three launched pages, one fails: the call yields that error and no
    // partial sequence.
    let outcomes = vec![
        PageOutcome::Response(page_response(90, &["a"])),
        PageOutcome::Transport("broken pipe".to_string()),
        PageOutcome::Response(page_response(90, &["b"])),
    ];
    match aggregate(vec![node("z")], outcomes) {
        Err(FetchListingsError::RequestError(msg)) => assert_eq!(msg, "broken pipe"),
        other => panic!("expected RequestError, got {:?}", other.map(|v| v.len())),
    }
}

#[test]
fn test_timeout_fails_call() {
    // A page that ran past its budget resolves to the timeout error...
    match resolve_page_outcome(PageOutcome::TimedOut) {
        Err(FetchListingsError::TimeoutError) => {}
        other => panic!("expected TimeoutError, got {:?}", other.map(|v| v.1.len())),
    }
    // ...and fails the whole call.
    let outcomes = vec![
        PageOutcome::Response(page_response(60, &["a"])),
        PageOutcome::TimedOut,
    ];
    match aggregate(vec![node("z")], outcomes) {
        Err(FetchListingsError::TimeoutError) => {}
        other => panic!("expected TimeoutError, got {:?}", other.map(|v| v.len())),
    }
}

#[test]
fn test_aggregate_keeps_launch_order() {
    let outcomes = vec![
        PageOutcome::Response(page_response(90, &["p1-a", "p1-b"])),
        PageOutcome::Response(page_response(90, &["p2-a"])),
    ];
    let all = aggregate(vec![node("p0-a")], outcomes).unwrap();
    let ids: Vec<&str> = all.iter().map(|n| n.listingID.as_str()).collect();
    assert_eq!(ids, vec!["p0-a", "p1-a", "p1-b", "p2-a"]);
}

#[test]
fn test_completion_order_is_irrelevant() {
    // The same three page outcomes observed in two different completion
    // orders collect to the same launch-ordered sequence, so aggregation
    // yields the same listings either way.
    let build = |order: &[usize]| -> Vec<(usize, PageOutcome)> {
        order
            .iter()
            .map(|&i| {
                (
                    i,
                    PageOutcome::Response(page_response(
                        120,
                        &[format!("page-{}", i).as_str()],
                    )),
                )
            })
            .collect()
    };
    let collected_a = collect_in_launch_order(3, build(&[2, 0, 1]));
    let collected_b = collect_in_launch_order(3, build(&[1, 2, 0]));
    let first = vec![node("page-first")];
    let result_a = aggregate(first.clone(), collected_a).unwrap();
    let result_b = aggregate(first, collected_b).unwrap();
    let ids_a: Vec<&str> = result_a.iter().map(|n| n.listingID.as_str()).collect();
    let ids_b: Vec<&str> = result_b.iter().map(|n| n.listingID.as_str()).collect();
    assert_eq!(ids_a, vec!["page-first", "page-0", "page-1", "page-2"]);
    assert_eq!(ids_a, ids_b);
}

#[test]
fn test_classify_response_server_error() {
    let resp = GraphQLResponse {
        data: None,
        errors: Some("bad query".to_string()),
    };
    match classify_response(resp) {
        Err(FetchListingsError::ParseError(msg)) => {
            assert_eq!(msg, "API returned errors: bad query")
        }
        other => panic!("expected ParseError, got {:?}", other.map(|v| v.0)),
    }
}

#[test]
fn test_classify_response_empty_data() {
    let resp = GraphQLResponse { data: None, errors: None };
    match classify_response(resp) {
        Err(FetchListingsError::ParseError(msg)) => assert_eq!(msg, "Empty data in response"),
        other => panic!("expected ParseError, got {:?}", other.map(|v| v.0)),
    }
}

#[test]
fn test_classify_response_extracts_listings() {
    let (total, nodes) = classify_response(page_response(45, &["x", "y"])).unwrap();
    assert_eq!(total, 45);
    assert_eq!(nodes.len(), 2);
    assert_eq!(nodes[0].listingID, "x");
    assert_eq!(nodes[1].listingID, "y");
}

#[test]
fn test_error_messages() {
    assert_eq!(
        FetchListingsError::RequestError("boom".to_string()).message(),
        "Request error: boom"
    );
    assert_eq!(FetchListingsError::TimeoutError.message(), "Request timed out");
    assert_eq!(
        FetchListingsError::CsrfTokenError("no cookie".to_string()).message(),
        "CSRF token error: no cookie"
    );
    assert_eq!(
        FetchListingsError::ParseError("bad envelope".to_string()).message(),
        "Parse error: bad envelope"
    );
}

#[test]
fn test_default_config() {
    let cfg = SearchConfig::default();
    assert_eq!(cfg.max_pages, usize::MAX);
    assert_eq!(cfg.timeout_secs, 60);
}
