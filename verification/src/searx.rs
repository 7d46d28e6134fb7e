//! The searx engine adapter's configuration: a generic searx instance,
//! queried with spoofed headers and a preference cookie so the upstream
//! serves the human-facing result page.

use vstd::prelude::*;

use crate::adapter::EngineConfig;

verus! {

/// The configuration of the upstream searx instance: its search URL shape,
/// the spoofed header and cookie set, its no-results sentinel, and the
/// selectors locating its result cards and their fields.
pub fn searx_config() -> (cfg: EngineConfig)
    ensures
        cfg.name@ == "searx"@,
        cfg.url_prefix@ == "https://searx.work/search?q="@,
        cfg.url_infix@ == "&pageno="@,
        cfg.referer@ == "https://google.com/"@,
        cfg.content_type@ == "application/x-www-form-urlencoded"@,
        cfg.cookie@ == "categories=general; language=auto; locale=en; autocomplete=duckduckgo; image_proxy=1; method=POST; safesearch=2; theme=simple; results_on_new_tab=1; doi_resolver=oadoi.org; simple_style=auto; center_alignment=1; query_in_title=1; infinite_scroll=0; disabled_engines=; enabled_engines=\"archive is__general\\054yep__general\\054curlie__general\\054currency__general\\054ddg definitions__general\\054wikidata__general\\054duckduckgo__general\\054tineye__general\\054lingva__general\\054startpage__general\\054yahoo__general\\054wiby__general\\054marginalia__general\\054alexandria__general\\054wikibooks__general\\054wikiquote__general\\054wikisource__general\\054wikiversity__general\\054wikivoyage__general\\054dictzone__general\\054seznam__general\\054mojeek__general\\054naver__general\\054wikimini__general\\054brave__general\\054petalsearch__general\\054goo__general\"; disabled_plugins=; enabled_plugins=\"searx.plugins.hostname_replace\\054searx.plugins.oa_doi_rewrite\\054searx.plugins.vim_hotkeys\"; tokens=; maintab=on; enginetab=on"@,
        cfg.no_result_selector@ == "#urls>.dialog-error>p"@,
        cfg.sentinel@
            == "we didn't find any results. Please use another query or search in more categories"@,
        cfg.card_selector@ == ".result"@,
        cfg.title_selector@ == "h3>a"@,
        cfg.href_selector@ == "h3>a"@,
        cfg.desc_selector@ == ".content"@,
{
    EngineConfig {
        name: String::from_str("searx"),
        url_prefix: String::from_str("https://searx.work/search?q="),
        url_infix: String::from_str("&pageno="),
        referer: String::from_str("https://google.com/"),
        content_type: String::from_str("application/x-www-form-urlencoded"),
        cookie: String::from_str(
            "categories=general; language=auto; locale=en; autocomplete=duckduckgo; image_proxy=1; method=POST; safesearch=2; theme=simple; results_on_new_tab=1; doi_resolver=oadoi.org; simple_style=auto; center_alignment=1; query_in_title=1; infinite_scroll=0; disabled_engines=; enabled_engines=\"archive is__general\\054yep__general\\054curlie__general\\054currency__general\\054ddg definitions__general\\054wikidata__general\\054duckduckgo__general\\054tineye__general\\054lingva__general\\054startpage__general\\054yahoo__general\\054wiby__general\\054marginalia__general\\054alexandria__general\\054wikibooks__general\\054wikiquote__general\\054wikisource__general\\054wikiversity__general\\054wikivoyage__general\\054dictzone__general\\054seznam__general\\054mojeek__general\\054naver__general\\054wikimini__general\\054brave__general\\054petalsearch__general\\054goo__general\"; disabled_plugins=; enabled_plugins=\"searx.plugins.hostname_replace\\054searx.plugins.oa_doi_rewrite\\054searx.plugins.vim_hotkeys\"; tokens=; maintab=on; enginetab=on",
        ),
        no_result_selector: String::from_str("#urls>.dialog-error>p"),
        sentinel: String::from_str(
            "we didn't find any results. Please use another query or search in more categories",
        ),
        card_selector: String::from_str(".result"),
        title_selector: String::from_str("h3>a"),
        href_selector: String::from_str("h3>a"),
        desc_selector: String::from_str(".content"),
    }
}

} // verus!
