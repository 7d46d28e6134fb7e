use metasearch_core::adapter::{build_request, parse_response, response_outcome, EngineConfig};
use metasearch_core::error::EngineErrorKind;
use metasearch_core::searx::searx_config;

const SENTINEL: &str =
    "we didn't find any results. Please use another query or search in more categories";

fn test_config() -> EngineConfig {
    let mut cfg = searx_config();
    cfg.name = "searx".to_string();
    cfg
}

#[test]
fn searx_config_shape() {
    let cfg = searx_config();
    assert_eq!(cfg.name, "searx");
    assert_eq!(cfg.url_prefix, "https://searx.work/search?q=");
    assert_eq!(cfg.url_infix, "&pageno=");
    assert_eq!(cfg.referer, "https://google.com/");
    assert_eq!(cfg.content_type, "application/x-www-form-urlencoded");
    assert_eq!(cfg.no_result_selector, "#urls>.dialog-error>p");
    assert_eq!(cfg.sentinel, SENTINEL);
    assert_eq!(cfg.card_selector, ".result");
    assert_eq!(cfg.title_selector, "h3>a");
    assert_eq!(cfg.href_selector, "h3>a");
    assert_eq!(cfg.desc_selector, ".content");
    assert!(cfg.cookie.starts_with("categories=general; language=auto;"));
}

#[test]
fn build_request_url_and_headers() {
    let cfg = searx_config();
    let r = build_request(&cfg, "rust verifier", 2, "agent/1.0");
    assert_eq!(r.url, "https://searx.work/search?q=rust%20verifier&pageno=2");
    assert_eq!(r.headers.len(), 4);
    assert_eq!(r.headers[0].name, "user-agent");
    assert_eq!(r.headers[0].value, "agent/1.0");
    assert_eq!(r.headers[1].name, "referer");
    assert_eq!(r.headers[1].value, "https://google.com/");
    assert_eq!(r.headers[2].name, "content-type");
    assert_eq!(r.headers[2].value, "application/x-www-form-urlencoded");
    assert_eq!(r.headers[3].name, "cookie");
    assert_eq!(r.headers[3].value, cfg.cookie);
}

#[test]
fn build_request_percent_encodes_reserved_characters() {
    let cfg = searx_config();
    let r = build_request(&cfg, "a&b=c#caf\u{e9}", 0, "agent/1.0");
    assert_eq!(
        r.url,
        "https://searx.work/search?q=a%26b%3Dc%23caf%C3%A9&pageno=0"
    );
}

#[test]
fn sentinel_body_reports_empty_result_set() {
    let cfg = test_config();
    let body = format!(
        "<html><body><div id=\"urls\"><div class=\"dialog-error\"><p>sorry</p><p>{}</p></div></div></body></html>",
        SENTINEL
    );
    let out = parse_response(&cfg, &body);
    match out {
        Err(e) => assert_eq!(e.kind, EngineErrorKind::EmptyResultSet),
        Ok(_) => panic!("sentinel body must not parse as a success mapping"),
    }
}

#[test]
fn sentinel_in_any_slot_reports_empty_result_set() {
    // Any matching dialog element carrying the sentinel counts.
    let cfg = test_config();
    let body = format!(
        "<html><body><div id=\"urls\"><div class=\"dialog-error\"><p>{}</p></div></div></body></html>",
        SENTINEL
    );
    let out = parse_response(&cfg, &body);
    match out {
        Err(e) => assert_eq!(e.kind, EngineErrorKind::EmptyResultSet),
        Ok(_) => panic!("a sentinel dialog must not parse as a success mapping"),
    }
}

#[test]
fn dialog_without_sentinel_is_not_empty_result() {
    let cfg = test_config();
    let body = "<html><body><div id=\"urls\"><div class=\"dialog-error\"><p>some other notice</p></div></div></body></html>".to_string();
    let out = parse_response(&cfg, &body).expect("a dialog without the sentinel is no empty-result signal");
    assert_eq!(out.len(), 0);
}

#[test]
fn malformed_selector_reports_unexpected_error() {
    let mut cfg = test_config();
    cfg.no_result_selector = "<<<".to_string();
    let out = parse_response(&cfg, &"<html></html>".to_string());
    match out {
        Err(e) => {
            assert_eq!(e.kind, EngineErrorKind::UnexpectedError);
            assert_eq!(e.diagnostic().as_str(), "invalid CSS selector: <<<");
        },
        Ok(_) => panic!("a malformed selector must fail the adapter call"),
    }
}

#[test]
fn malformed_card_selector_reports_its_own_text() {
    let mut cfg = test_config();
    cfg.card_selector = ":::nope".to_string();
    let out = parse_response(&cfg, &"<html></html>".to_string());
    match out {
        Err(e) => {
            assert_eq!(e.kind, EngineErrorKind::UnexpectedError);
            assert_eq!(e.diagnostic().as_str(), "invalid CSS selector: :::nope");
        },
        Ok(_) => panic!("a malformed selector must fail the adapter call"),
    }
}

fn results_page() -> String {
    let mut body = String::new();
    body.push_str("<html><body><div id=\"urls\">");
    body.push_str(
        "<div class=\"result\"><h3><a href=\"https://one.example/\">  Title One \n</a></h3><div class=\"content\">\t Desc One </div></div>",
    );
    body.push_str(
        "<div class=\"result\"><h3><a href=\"https://two.example/\">Title Two</a></h3><div class=\"content\">Desc Two</div></div>",
    );
    body.push_str("<div class=\"result\"><h3>no anchor here</h3><div class=\"content\">x</div></div>");
    body.push_str(
        "<div class=\"result\"><h3><a href=\"\">Empty Href</a></h3><div class=\"content\">y</div></div>",
    );
    body.push_str("</div></body></html>");
    body
}

#[test]
fn cards_are_extracted_trimmed_and_keyed_by_url() {
    let cfg = test_config();
    let out = parse_response(&cfg, &results_page()).expect("a results page parses");
    assert_eq!(out.len(), 2);
    let one = out.get(&"https://one.example/".to_string()).unwrap();
    assert_eq!(one.title, "Title One");
    assert_eq!(one.description, "Desc One");
    assert_eq!(one.engines, vec!["searx".to_string()]);
    let two = out.get(&"https://two.example/".to_string()).unwrap();
    assert_eq!(two.title, "Title Two");
    assert_eq!(two.description, "Desc Two");
}

#[test]
fn later_card_with_same_url_shadows_earlier() {
    let cfg = test_config();
    let mut body = String::new();
    body.push_str("<html><body>");
    body.push_str(
        "<div class=\"result\"><h3><a href=\"https://one.example/\">First</a></h3><div class=\"content\">a</div></div>",
    );
    body.push_str(
        "<div class=\"result\"><h3><a href=\"https://one.example/\">Second</a></h3><div class=\"content\">b</div></div>",
    );
    body.push_str("</body></html>");
    let out = parse_response(&cfg, &body).expect("a results page parses");
    assert_eq!(out.len(), 1);
    let one = out.get(&"https://one.example/".to_string()).unwrap();
    assert_eq!(one.title, "Second");
    assert_eq!(one.description, "b");
}

#[test]
fn transport_failure_becomes_request_error() {
    let cfg = test_config();
    let out = response_outcome(&cfg, Err("connection refused".to_string()));
    match out {
        Err(e) => {
            assert_eq!(e.kind, EngineErrorKind::RequestError);
            assert_eq!(e.diagnostic().as_str(), "connection refused");
        },
        Ok(_) => panic!("a transport failure must not yield a mapping"),
    }
}

#[test]
fn fetched_body_goes_through_the_parser() {
    let cfg = test_config();
    let out = response_outcome(&cfg, Ok((200, results_page()))).expect("a fetched body parses");
    assert_eq!(out.len(), 2);
}

#[test]
fn non_success_status_becomes_request_error() {
    let cfg = test_config();
    let out = response_outcome(&cfg, Ok((503, results_page())));
    match out {
        Err(e) => {
            assert_eq!(e.kind, EngineErrorKind::RequestError);
            assert_eq!(e.diagnostic().as_str(), "upstream returned HTTP status 503");
        },
        Ok(_) => panic!("an error page must not be scraped as results"),
    }
}
