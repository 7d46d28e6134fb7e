use metasearch_core::aggregate::{search_merge, EngineOutcome, EngineReport};
use metasearch_core::error::{EngineError, EngineErrorKind};
use metasearch_core::results::{RawSearchResult, ResultMap};

fn success_map(urls: &[&str], engine: &str) -> ResultMap {
    let mut m = ResultMap::new();
    for url in urls {
        m.upsert(RawSearchResult::new(
            format!("title {}", url),
            url.to_string(),
            format!("desc {}", url),
            vec![engine.to_string()],
        ));
    }
    m
}

#[test]
fn partial_failure_returns_the_two_results_and_one_hard_failure() {
    let reports = vec![
        EngineReport {
            engine: "alpha".to_string(),
            outcome: EngineOutcome::Failure(EngineError::request_error(
                "connection refused".to_string(),
            )),
        },
        EngineReport {
            engine: "beta".to_string(),
            outcome: EngineOutcome::Success(success_map(
                &["https://one.example/", "https://two.example/"],
                "beta",
            )),
        },
        EngineReport {
            engine: "gamma".to_string(),
            outcome: EngineOutcome::Failure(EngineError::empty_result_set(
                "upstream engine reported no results".to_string(),
            )),
        },
    ];
    let out = search_merge(&reports);
    assert_eq!(out.merged.len(), 2);
    assert!(out.merged.get(&"https://one.example/".to_string()).is_some());
    assert!(out.merged.get(&"https://two.example/".to_string()).is_some());
    assert_eq!(out.failures.len(), 1);
    assert_eq!(out.failures[0].engine, "alpha");
    assert_eq!(out.failures[0].error.kind, EngineErrorKind::RequestError);
    assert_eq!(out.empty_engines, vec!["gamma".to_string()]);
}

#[test]
fn all_adapters_failing_still_returns_the_empty_mapping() {
    let reports = vec![
        EngineReport {
            engine: "alpha".to_string(),
            outcome: EngineOutcome::Failure(EngineError::request_error("timeout".to_string())),
        },
        EngineReport {
            engine: "beta".to_string(),
            outcome: EngineOutcome::Failure(EngineError::unexpected(
                "invalid CSS selector: <<<".to_string(),
            )),
        },
    ];
    let out = search_merge(&reports);
    assert_eq!(out.merged.len(), 0);
    assert_eq!(out.failures.len(), 2);
    assert_eq!(out.failures[0].engine, "alpha");
    assert_eq!(out.failures[0].error.kind, EngineErrorKind::RequestError);
    assert_eq!(out.failures[1].engine, "beta");
    assert_eq!(out.failures[1].error.kind, EngineErrorKind::UnexpectedError);
    assert!(out.empty_engines.is_empty());
}

#[test]
fn colliding_urls_union_attribution_across_engines() {
    let reports = vec![
        EngineReport {
            engine: "x".to_string(),
            outcome: EngineOutcome::Success(success_map(&["https://shared.example/"], "x")),
        },
        EngineReport {
            engine: "y".to_string(),
            outcome: EngineOutcome::Success(success_map(&["https://shared.example/"], "y")),
        },
    ];
    let out = search_merge(&reports);
    assert_eq!(out.merged.len(), 1);
    let shared = out.merged.get(&"https://shared.example/".to_string()).unwrap();
    assert_eq!(shared.engines, vec!["x".to_string(), "y".to_string()]);
    assert!(out.failures.is_empty());
}

#[test]
fn outcome_order_does_not_change_the_url_set() {
    let a = || EngineReport {
        engine: "x".to_string(),
        outcome: EngineOutcome::Success(success_map(
            &["https://shared.example/", "https://xa.example/"],
            "x",
        )),
    };
    let b = || EngineReport {
        engine: "y".to_string(),
        outcome: EngineOutcome::Success(success_map(
            &["https://shared.example/", "https://yb.example/"],
            "y",
        )),
    };
    let ab = search_merge(&vec![a(), b()]);
    let ba = search_merge(&vec![b(), a()]);
    assert_eq!(ab.merged.len(), 3);
    assert_eq!(ba.merged.len(), 3);
    for url in [
        "https://shared.example/",
        "https://xa.example/",
        "https://yb.example/",
    ] {
        let ra = ab.merged.get(&url.to_string()).unwrap();
        let rb = ba.merged.get(&url.to_string()).unwrap();
        let mut ea = ra.engines.clone();
        let mut eb = rb.engines.clone();
        ea.sort();
        eb.sort();
        assert_eq!(ea, eb);
    }
}

#[test]
fn error_constructors_carry_kind_and_diagnostic() {
    let r = EngineError::request_error("dns failure".to_string());
    assert_eq!(r.kind, EngineErrorKind::RequestError);
    assert_eq!(r.diagnostic().as_str(), "dns failure");
    let e = EngineError::empty_result_set("nothing".to_string());
    assert_eq!(e.kind, EngineErrorKind::EmptyResultSet);
    let u = EngineError::unexpected("bad shape".to_string());
    assert_eq!(u.kind, EngineErrorKind::UnexpectedError);
    assert!(r.kind.hard_failure());
    assert!(!e.kind.hard_failure());
    assert!(u.kind.hard_failure());
}
