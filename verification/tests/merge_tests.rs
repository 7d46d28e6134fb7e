use metasearch_core::aggregate::merge_into;
use metasearch_core::results::{RawSearchResult, ResultMap};

fn rec(title: &str, url: &str, desc: &str, engine: &str) -> RawSearchResult {
    RawSearchResult::new(
        title.to_string(),
        url.to_string(),
        desc.to_string(),
        vec![engine.to_string()],
    )
}

fn map_of_recs(recs: Vec<RawSearchResult>) -> ResultMap {
    let mut m = ResultMap::new();
    for r in recs {
        m.upsert(r);
    }
    m
}

#[test]
fn upsert_and_get_roundtrip() {
    let mut m = ResultMap::new();
    assert_eq!(m.len(), 0);
    m.upsert(rec("A", "https://one.example/", "da", "searx"));
    m.upsert(rec("B", "https://two.example/", "db", "searx"));
    assert_eq!(m.len(), 2);
    let got = m.get(&"https://one.example/".to_string()).unwrap();
    assert_eq!(got.title, "A");
    assert_eq!(got.description, "da");
    assert_eq!(got.engines, vec!["searx".to_string()]);
    assert!(m.get(&"https://absent.example/".to_string()).is_none());
}

#[test]
fn upsert_replaces_same_url() {
    let mut m = ResultMap::new();
    m.upsert(rec("A", "https://one.example/", "da", "searx"));
    m.upsert(rec("B", "https://one.example/", "db", "searx"));
    assert_eq!(m.len(), 1);
    let got = m.get(&"https://one.example/".to_string()).unwrap();
    assert_eq!(got.title, "B");
}

#[test]
fn merge_disjoint_is_commutative() {
    let a = map_of_recs(vec![rec("A1", "https://a1.example/", "d", "x")]);
    let b = map_of_recs(vec![rec("B1", "https://b1.example/", "d", "y")]);

    let mut ab = ResultMap::new();
    merge_into(&mut ab, &a);
    merge_into(&mut ab, &b);
    let mut ba = ResultMap::new();
    merge_into(&mut ba, &b);
    merge_into(&mut ba, &a);

    assert_eq!(ab.len(), 2);
    assert_eq!(ba.len(), 2);
    for url in ["https://a1.example/", "https://b1.example/"] {
        let ra = ab.get(&url.to_string()).unwrap();
        let rb = ba.get(&url.to_string()).unwrap();
        assert_eq!(ra.title, rb.title);
        assert_eq!(ra.description, rb.description);
        assert_eq!(ra.engines, rb.engines);
    }
}

#[test]
fn merge_overlapping_urls_commutative_in_url_set_sense() {
    let a = map_of_recs(vec![
        rec("A1", "https://shared.example/", "da", "x"),
        rec("A2", "https://a2.example/", "d", "x"),
    ]);
    let b = map_of_recs(vec![
        rec("B1", "https://shared.example/", "db", "y"),
        rec("B2", "https://b2.example/", "d", "y"),
    ]);

    let mut ab = ResultMap::new();
    merge_into(&mut ab, &a);
    merge_into(&mut ab, &b);
    let mut ba = ResultMap::new();
    merge_into(&mut ba, &b);
    merge_into(&mut ba, &a);

    // Same URL set either way.
    assert_eq!(ab.len(), 3);
    assert_eq!(ba.len(), 3);
    // Same attribution either way; first-writer-wins on the text fields.
    let sab = ab.get(&"https://shared.example/".to_string()).unwrap();
    let sba = ba.get(&"https://shared.example/".to_string()).unwrap();
    let mut eab = sab.engines.clone();
    let mut eba = sba.engines.clone();
    eab.sort();
    eba.sort();
    assert_eq!(eab, eba);
    assert_eq!(eab, vec!["x".to_string(), "y".to_string()]);
    assert_eq!(sab.title, "A1");
    assert_eq!(sba.title, "B1");
}

#[test]
fn attribution_union_on_collision() {
    let a = map_of_recs(vec![rec("Kept", "https://shared.example/", "kept", "x")]);
    let b = map_of_recs(vec![rec("Dropped", "https://shared.example/", "dropped", "y")]);
    let mut m = ResultMap::new();
    merge_into(&mut m, &a);
    merge_into(&mut m, &b);
    assert_eq!(m.len(), 1);
    let s = m.get(&"https://shared.example/".to_string()).unwrap();
    assert_eq!(s.engines, vec!["x".to_string(), "y".to_string()]);
    assert_eq!(s.title, "Kept");
    assert_eq!(s.description, "kept");
}

#[test]
fn remerge_same_mapping_is_idempotent() {
    let b = map_of_recs(vec![
        rec("B1", "https://b1.example/", "d", "y"),
        rec("B2", "https://b2.example/", "d", "y"),
    ]);
    let mut m = ResultMap::new();
    merge_into(&mut m, &b);
    merge_into(&mut m, &b);
    assert_eq!(m.len(), 2);
    let r1 = m.get(&"https://b1.example/".to_string()).unwrap();
    // No duplicate engine attribution: set semantics, not sequence semantics.
    assert_eq!(r1.engines, vec!["y".to_string()]);
}

#[test]
fn duplicate_copies_all_fields() {
    let r = rec("T", "https://u.example/", "D", "e");
    let d = r.duplicate();
    assert_eq!(d.title, "T");
    assert_eq!(d.visiting_url, "https://u.example/");
    assert_eq!(d.description, "D");
    assert_eq!(d.engines, vec!["e".to_string()]);
}
