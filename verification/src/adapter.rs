//! The uniform engine-adapter pipeline. Per-engine variation is confined to
//! a configuration value: base URL template, header and cookie set, the
//! no-results sentinel text, and the selector strings. The control flow —
//! build request, detect the sentinel, extract cards, normalize — is the
//! same for every engine, which is what makes adapters substitutable.

use vstd::prelude::*;

use crate::error::{EngineError, EngineErrorKind};
use crate::results::{engines_set, RawSearchResult, ResultMap, ResultView};
use crate::scrape::{
    card_views, compile_selector_checked, extract_cards, extracted_cards, parse_document,
    select_inner_texts, selected_texts, selector_compiles, text_views,
};
use crate::text::{decimal_of, encode_query, percent_encoded, push_decimal, trim_spec, trimmed};

verus! {

/// Everything that distinguishes one upstream engine from another.
pub struct EngineConfig {
    /// This engine's name, placed in each record's attribution set.
    pub name: String,
    /// The search URL up to and including the query parameter.
    pub url_prefix: String,
    /// The part between the query and the page number.
    pub url_infix: String,
    /// Referer header value sent so the upstream serves the human-facing page.
    pub referer: String,
    /// Content-type header value.
    pub content_type: String,
    /// Cookie encoding the search preferences this engine expects.
    pub cookie: String,
    /// Selector locating the explicit no-results dialog.
    pub no_result_selector: String,
    /// The exact text the no-results dialog carries.
    pub sentinel: String,
    /// Selector locating the repeating result cards.
    pub card_selector: String,
    /// Selector locating a card's title anchor.
    pub title_selector: String,
    /// Selector locating a card's destination anchor.
    pub href_selector: String,
    /// Selector locating a card's description node.
    pub desc_selector: String,
}

/// One header to send: name and value.
pub struct HeaderPair {
    pub name: String,
    pub value: String,
}

/// A fully built upstream request: target URL and spoofed headers.
pub struct EngineRequest {
    pub url: String,
    pub headers: Vec<HeaderPair>,
}

/// Builds the engine-specific request for a query, a page number and the
/// caller-supplied rotating client-identity string: a pure function of its
/// arguments, constructed fresh per call. The query is percent-encoded into
/// the URL's query string.
pub fn build_request(cfg: &EngineConfig, query: &str, page: u32, user_agent: &str) -> (r:
    EngineRequest)
    ensures
        r.url@ == cfg.url_prefix@ + encode_query(query@) + cfg.url_infix@ + decimal_of(
            page as nat,
        ),
        r.headers@.len() == 4,
        r.headers@[0].name@ == "user-agent"@ && r.headers@[0].value@ == user_agent@,
        r.headers@[1].name@ == "referer"@ && r.headers@[1].value@ == cfg.referer@,
        r.headers@[2].name@ == "content-type"@ && r.headers@[2].value@ == cfg.content_type@,
        r.headers@[3].name@ == "cookie"@ && r.headers@[3].value@ == cfg.cookie@,
{
    let mut url = cfg.url_prefix.clone();
    let encoded = percent_encoded(query);
    url.append(encoded.as_str());
    url.append(cfg.url_infix.as_str());
    push_decimal(&mut url, page);
    let mut headers: Vec<HeaderPair> = Vec::new();
    headers.push(
        HeaderPair { name: String::from_str("user-agent"), value: String::from_str(user_agent) },
    );
    headers.push(HeaderPair { name: String::from_str("referer"), value: cfg.referer.clone() });
    headers.push(
        HeaderPair { name: String::from_str("content-type"), value: cfg.content_type.clone() },
    );
    headers.push(HeaderPair { name: String::from_str("cookie"), value: cfg.cookie.clone() });
    EngineRequest { url, headers }
}

/// All five selector texts of a configuration compile.
pub open spec fn selectors_wf(cfg: EngineConfig) -> bool {
    selector_compiles(cfg.no_result_selector@) && selector_compiles(cfg.card_selector@)
        && selector_compiles(cfg.title_selector@) && selector_compiles(cfg.href_selector@)
        && selector_compiles(cfg.desc_selector@)
}

/// The upstream page explicitly reports no results: some element matching
/// the no-results selector carries exactly the sentinel text.
pub open spec fn sentinel_found(cfg: EngineConfig, body: Seq<char>) -> bool {
    exists|i: int|
        0 <= i < selected_texts(body, cfg.no_result_selector@).len() && #[trigger] selected_texts(
            body,
            cfg.no_result_selector@,
        )[i] == cfg.sentinel@
}

/// The mapping a list of scraped cards yields: one record per well-formed
/// card (title, link and description present, link non-empty), keyed by the
/// scraped URL (a later card shadows an earlier one with the same URL),
/// title and description whitespace-trimmed, attributed to this engine
/// alone. Malformed cards are skipped, never fatal.
pub open spec fn card_results(
    cards: Seq<(Option<Seq<char>>, Option<Seq<char>>, Option<Seq<char>>)>,
    engine: Seq<char>,
) -> Map<Seq<char>, ResultView>
    decreases cards.len(),
{
    if cards.len() == 0 {
        Map::empty()
    } else {
        let m = card_results(cards.drop_last(), engine);
        let c = cards.last();
        if c.0 is Some && c.1 is Some && c.2 is Some && c.1->0.len() > 0 {
            m.insert(
                c.1->0,
                ResultView {
                    title: trim_spec(c.0->0),
                    url: c.1->0,
                    description: trim_spec(c.2->0),
                    engines: Set::empty().insert(engine),
                },
            )
        } else {
            m
        }
    }
}

/// The cards a response body yields under a configuration's selectors.
pub open spec fn body_cards(cfg: EngineConfig, body: Seq<char>) -> Seq<
    (Option<Seq<char>>, Option<Seq<char>>, Option<Seq<char>>),
> {
    extracted_cards(
        body,
        cfg.card_selector@,
        cfg.title_selector@,
        cfg.href_selector@,
        cfg.desc_selector@,
    )
}

/// The result is the selector-compilation failure for selector text `sel`,
/// with the offending selector attached for operators.
pub open spec fn selector_failure(r: Result<ResultMap, EngineError>, sel: Seq<char>) -> bool {
    r matches Err(e) && e.kind == EngineErrorKind::UnexpectedError && e.message@
        == "invalid CSS selector: "@ + sel
}

/// The per-body contract every adapter's parse step meets: the explicit
/// no-results sentinel yields `EmptyResultSet`; a selector that fails to
/// compile yields `UnexpectedError` carrying the offending selector text
/// (selectors checked in a fixed order: no-results, card, title, link,
/// description); otherwise the well-formed cards become exactly the
/// URL-keyed mapping `card_results` describes.
pub open spec fn parse_contract(
    cfg: EngineConfig,
    body: Seq<char>,
    r: Result<ResultMap, EngineError>,
) -> bool {
    &&& !selector_compiles(cfg.no_result_selector@) ==> selector_failure(
        r,
        cfg.no_result_selector@,
    )
    &&& selector_compiles(cfg.no_result_selector@) && sentinel_found(cfg, body) ==> (r matches
        Err(e) && e.kind == EngineErrorKind::EmptyResultSet)
    &&& selector_compiles(cfg.no_result_selector@) && !sentinel_found(cfg, body)
        && !selector_compiles(cfg.card_selector@) ==> selector_failure(r, cfg.card_selector@)
    &&& selector_compiles(cfg.no_result_selector@) && !sentinel_found(cfg, body)
        && selector_compiles(cfg.card_selector@) && !selector_compiles(cfg.title_selector@)
        ==> selector_failure(r, cfg.title_selector@)
    &&& selector_compiles(cfg.no_result_selector@) && !sentinel_found(cfg, body)
        && selector_compiles(cfg.card_selector@) && selector_compiles(cfg.title_selector@)
        && !selector_compiles(cfg.href_selector@) ==> selector_failure(r, cfg.href_selector@)
    &&& selector_compiles(cfg.no_result_selector@) && !sentinel_found(cfg, body)
        && selector_compiles(cfg.card_selector@) && selector_compiles(cfg.title_selector@)
        && selector_compiles(cfg.href_selector@) && !selector_compiles(cfg.desc_selector@)
        ==> selector_failure(r, cfg.desc_selector@)
    &&& selectors_wf(cfg) && !sentinel_found(cfg, body) ==> (r matches Ok(m) && m.wf() && m@
        == card_results(body_cards(cfg, body), cfg.name@))
}

/// Turns a fetched response body into this engine's outcome, exactly as
/// `parse_contract` states.
pub fn parse_response(cfg: &EngineConfig, body: &String) -> (r: Result<ResultMap, EngineError>)
    ensures
        parse_contract(*cfg, body@, r),
{
    let no_result_sel = match compile_selector_checked(&cfg.no_result_selector) {
        Result::Ok(s) => s,
        Result::Err(e) => {
            return Result::Err(e);
        },
    };
    let document = parse_document(body.as_str());
    let dialog_texts = select_inner_texts(&document, &no_result_sel);
    let ghost dt = selected_texts(body@, cfg.no_result_selector@);
    let mut t: usize = 0;
    while t < dialog_texts.len()
        invariant
            selector_compiles(cfg.no_result_selector@),
            text_views(dialog_texts@) == dt,
            dt == selected_texts(body@, cfg.no_result_selector@),
            0 <= t <= dialog_texts@.len(),
            forall|i: int| 0 <= i < t ==> dt[i] != cfg.sentinel@,
        decreases dialog_texts@.len() - t,
    {
        if dialog_texts[t] == cfg.sentinel {
            proof {
                assert(text_views(dialog_texts@)[t as int] == dialog_texts@[t as int]@);
                assert(selected_texts(body@, cfg.no_result_selector@)[t as int] == cfg.sentinel@);
                assert(sentinel_found(*cfg, body@));
            }
            return Result::Err(
                EngineError::empty_result_set(
                    String::from_str("upstream engine reported no results"),
                ),
            );
        }
        proof {
            assert(text_views(dialog_texts@)[t as int] == dialog_texts@[t as int]@);
        }
        t = t + 1;
    }
    proof {
        assert(dt.len() == dialog_texts@.len());
        assert(!sentinel_found(*cfg, body@));
    }
    let card_sel = match compile_selector_checked(&cfg.card_selector) {
        Result::Ok(s) => s,
        Result::Err(e) => {
            return Result::Err(e);
        },
    };
    let title_sel = match compile_selector_checked(&cfg.title_selector) {
        Result::Ok(s) => s,
        Result::Err(e) => {
            return Result::Err(e);
        },
    };
    let href_sel = match compile_selector_checked(&cfg.href_selector) {
        Result::Ok(s) => s,
        Result::Err(e) => {
            return Result::Err(e);
        },
    };
    let desc_sel = match compile_selector_checked(&cfg.desc_selector) {
        Result::Ok(s) => s,
        Result::Err(e) => {
            return Result::Err(e);
        },
    };
    let cards = extract_cards(&document, &card_sel, &title_sel, &href_sel, &desc_sel);
    let ghost cs = body_cards(*cfg, body@);
    let mut out = ResultMap::new();
    proof {
        assert(cs.take(0) =~= Seq::<
            (Option<Seq<char>>, Option<Seq<char>>, Option<Seq<char>>),
        >::empty());
    }
    let mut j: usize = 0;
    while j < cards.len()
        invariant
            card_views(cards@) == cs,
            0 <= j <= cards@.len(),
            out.wf(),
            out@ == card_results(cs.take(j as int), cfg.name@),
        decreases cards@.len() - j,
    {
        proof {
            assert(cs.take(j + 1).drop_last() =~= cs.take(j as int));
            assert(cs.take(j + 1).last() == cs[j as int]);
            assert(cs[j as int] == cards@[j as int]@);
        }
        let c = &cards[j];
        match (&c.title, &c.href, &c.description) {
            (Option::Some(t), Option::Some(h), Option::Some(d)) => {
                if !h.as_str().is_empty() {
                    let mut engines: Vec<String> = Vec::new();
                    engines.push(cfg.name.clone());
                    proof {
                        assert(engines@.drop_last() =~= Seq::<String>::empty());
                        assert(engines_set(Seq::<String>::empty()) =~= Set::<Seq<char>>::empty());
                        assert(engines_set(engines@) =~= Set::empty().insert(cfg.name@));
                    }
                    let rec = RawSearchResult::new(
                        trimmed(t.as_str()),
                        h.clone(),
                        trimmed(d.as_str()),
                        engines,
                    );
                    proof {
                        assert(rec@ =~= (ResultView {
                            title: trim_spec(cs[j as int].0->0),
                            url: cs[j as int].1->0,
                            description: trim_spec(cs[j as int].2->0),
                            engines: Set::empty().insert(cfg.name@),
                        }));
                    }
                    out.upsert(rec);
                }
            },
            _ => {},
        }
        j = j + 1;
    }
    proof {
        assert(cs.take(cs.len() as int) =~= cs);
    }
    Result::Ok(out)
}


/// The HTTP status codes that count as a successful upstream answer.
pub open spec fn success_status(status: u16) -> bool {
    200 <= status < 300
}

/// One adapter call's decision on a completed transport attempt, uniform
/// across engines: a transport failure (DNS, refused connection, timeout, a
/// failed body read) becomes `RequestError` carrying the transport
/// diagnostic; an answer with a non-success HTTP status becomes
/// `RequestError` naming that status; a successfully fetched body is parsed
/// as `parse_contract` states. A malformed result card is skipped, never
/// fatal to the call.
pub fn response_outcome(cfg: &EngineConfig, fetched: Result<(u16, String), String>) -> (r: Result<
    ResultMap,
    EngineError,
>)
    ensures
        fetched matches Err(d) ==> (r matches Err(e) && e.kind == EngineErrorKind::RequestError
            && e.message@ == d@),
        fetched matches Ok(sb) ==> (!success_status(sb.0) ==> (r matches Err(e) && e.kind
            == EngineErrorKind::RequestError && e.message@ == "upstream returned HTTP status "@
            + decimal_of(sb.0 as nat))),
        fetched matches Ok(sb) ==> (success_status(sb.0) ==> parse_contract(*cfg, sb.1@, r)),
{
    match fetched {
        Result::Ok((status, body)) => {
            if status < 200 || status >= 300 {
                let mut msg = String::from_str("upstream returned HTTP status ");
                push_decimal(&mut msg, status as u32);
                Result::Err(EngineError::request_error(msg))
            } else {
                parse_response(cfg, &body)
            }
        },
        Result::Err(diagnostic) => Result::Err(EngineError::request_error(diagnostic)),
    }
}

} // verus!
