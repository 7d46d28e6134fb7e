//! Cross-engine aggregation: merging per-adapter result mappings into one
//! deduplicated mapping and classifying per-adapter failures.

use vstd::prelude::*;

use crate::error::{EngineError, EngineErrorKind};
use crate::results::{merge_record, map_of, url_keyed, ResultMap, ResultView};

verus! {

/// The merge of two URL-keyed mappings: keys are unioned; on a collision the
/// left (first-merged) record keeps its text fields and gains the right
/// record's engine attribution.
pub open spec fn merge_maps(
    a: Map<Seq<char>, ResultView>,
    b: Map<Seq<char>, ResultView>,
) -> Map<Seq<char>, ResultView> {
    Map::new(
        |k: Seq<char>| a.contains_key(k) || b.contains_key(k),
        |k: Seq<char>|
            if a.contains_key(k) && b.contains_key(k) {
                merge_record(a[k], b[k])
            } else if a.contains_key(k) {
                a[k]
            } else {
                b[k]
            },
    )
}

/// Merging one more record into `m` is one key update of `merge_maps`.
pub proof fn lemma_merge_maps_step(
    a: Map<Seq<char>, ResultView>,
    m: Map<Seq<char>, ResultView>,
    v: ResultView,
)
    ensures
        merge_maps(a, m.insert(v.url, v)) =~= (if a.contains_key(v.url) {
            merge_maps(a, m).insert(v.url, merge_record(a[v.url], v))
        } else {
            merge_maps(a, m).insert(v.url, v)
        }),
{
}

/// Merges every record of `incoming` into `acc`, per the merge discipline:
/// union of keys, first-writer-wins text fields, unioned attribution.
pub fn merge_into(acc: &mut ResultMap, incoming: &ResultMap)
    requires
        old(acc).wf(),
        incoming.wf(),
    ensures
        final(acc).wf(),
        final(acc)@ == merge_maps(old(acc)@, incoming@),
{
    let ghost a0 = old(acc)@;
    let mut j: usize = 0;
    proof {
        assert(incoming.entries@.take(0) =~= Seq::<crate::results::RawSearchResult>::empty());
        assert(merge_maps(a0, map_of(incoming.entries@.take(0))) =~= a0);
    }
    while j < incoming.entries.len()
        invariant
            incoming.wf(),
            acc.wf(),
            0 <= j <= incoming.entries@.len(),
            acc@ == merge_maps(a0, map_of(incoming.entries@.take(j as int))),
        decreases incoming.entries@.len() - j,
    {
        let e = &incoming.entries[j];
        proof {
            assert(incoming.entries@.take(j + 1).drop_last() =~= incoming.entries@.take(j as int));
            assert(incoming.entries@.take(j + 1).last() == incoming.entries@[j as int]);
            crate::results::lemma_map_of_contains(incoming.entries@.take(j as int));
            assert(!map_of(incoming.entries@.take(j as int)).contains_key(e.visiting_url@));
            lemma_merge_maps_step(a0, map_of(incoming.entries@.take(j as int)), e@);
        }
        acc.merge_entry(e);
        j = j + 1;
    }
    proof {
        assert(incoming.entries@.take(incoming.entries@.len() as int) =~= incoming.entries@);
    }
}

/// Law: the merge is commutative in the URL-set sense. Both merge orders
/// yield the same key set, the same destination URL and the same engine
/// attribution at every key; and on disjoint key sets the two orders yield
/// the very same mapping. (Only the retained title and description depend on
/// the order, first-writer-wins.)
pub proof fn lemma_merge_url_commutative(
    a: Map<Seq<char>, ResultView>,
    b: Map<Seq<char>, ResultView>,
)
    ensures
        merge_maps(a, b).dom() =~= merge_maps(b, a).dom(),
        forall|k: Seq<char>| #[trigger]
            merge_maps(a, b).contains_key(k) ==> merge_maps(a, b)[k].engines
                == merge_maps(b, a)[k].engines,
        a.dom().disjoint(b.dom()) ==> merge_maps(a, b) =~= merge_maps(b, a),
{
    assert forall|k: Seq<char>| #[trigger]
        merge_maps(a, b).contains_key(k) implies merge_maps(a, b)[k].engines
        == merge_maps(b, a)[k].engines by {
        if a.contains_key(k) && b.contains_key(k) {
            assert(a[k].engines.union(b[k].engines) =~= b[k].engines.union(a[k].engines));
        }
    }
    if a.dom().disjoint(b.dom()) {
        assert forall|k: Seq<char>| #[trigger]
            merge_maps(a, b).contains_key(k) implies merge_maps(a, b)[k]
            == merge_maps(b, a)[k] by {
            if a.contains_key(k) {
                assert(!b.contains_key(k));
            }
        }
    }
}

/// Law: when engines X and Y both return a record for the same URL, the
/// merged record's attribution is exactly the union of the two records'
/// engine sets, and the first-merged record's title and description are the
/// ones retained.
pub proof fn lemma_attribution_union(
    a: Map<Seq<char>, ResultView>,
    b: Map<Seq<char>, ResultView>,
    k: Seq<char>,
)
    requires
        a.contains_key(k),
        b.contains_key(k),
    ensures
        merge_maps(a, b).contains_key(k),
        merge_maps(a, b)[k].engines == a[k].engines.union(b[k].engines),
        merge_maps(a, b)[k].title == a[k].title,
        merge_maps(a, b)[k].description == a[k].description,
{
}

/// Law: the merge is associative: merging adapter outcomes pairwise in any
/// grouping yields the same mapping, so an incremental merge-as-they-complete
/// accumulator and a single join-point merge agree.
pub proof fn lemma_merge_associative(
    a: Map<Seq<char>, ResultView>,
    b: Map<Seq<char>, ResultView>,
    c: Map<Seq<char>, ResultView>,
)
    ensures
        merge_maps(merge_maps(a, b), c) =~= merge_maps(a, merge_maps(b, c)),
{
    assert forall|k: Seq<char>| #[trigger]
        merge_maps(merge_maps(a, b), c).contains_key(k) implies merge_maps(merge_maps(a, b), c)[k]
        == merge_maps(a, merge_maps(b, c))[k] by {
        if a.contains_key(k) && b.contains_key(k) && c.contains_key(k) {
            assert(a[k].engines.union(b[k].engines).union(c[k].engines) =~= a[k].engines.union(
                b[k].engines.union(c[k].engines),
            ));
            assert(merge_maps(merge_maps(a, b), c)[k] =~= merge_maps(a, merge_maps(b, c))[k]);
        }
    }
}

/// Law: re-merging the same mapping a second time changes nothing — no
/// duplicate records, no duplicate engine attribution (set semantics).
pub proof fn lemma_remerge_idempotent(
    a: Map<Seq<char>, ResultView>,
    b: Map<Seq<char>, ResultView>,
)
    ensures
        merge_maps(merge_maps(a, b), b) =~= merge_maps(a, b),
{
    assert forall|k: Seq<char>| #[trigger]
        merge_maps(merge_maps(a, b), b).contains_key(k) implies merge_maps(merge_maps(a, b), b)[k]
        == merge_maps(a, b)[k] by {
        if b.contains_key(k) {
            if a.contains_key(k) {
                assert(a[k].engines.union(b[k].engines).union(b[k].engines) =~= a[k].engines.union(
                    b[k].engines,
                ));
                assert(merge_maps(merge_maps(a, b), b)[k] =~= merge_maps(a, b)[k]);
            } else {
                assert(b[k].engines.union(b[k].engines) =~= b[k].engines);
                assert(merge_maps(merge_maps(a, b), b)[k] =~= merge_maps(a, b)[k]);
            }
        }
    }
}


/// The outcome of one adapter's fetch: a URL-keyed mapping, or a typed error.
pub enum EngineOutcome {
    Success(ResultMap),
    Failure(EngineError),
}

/// One adapter's outcome, labelled with the engine's name.
pub struct EngineReport {
    pub engine: String,
    pub outcome: EngineOutcome,
}

/// One hard failure surfaced to the caller: which engine, and what failed.
pub struct FailureEntry {
    pub engine: String,
    pub error: EngineError,
}

/// What one aggregation call returns: the merged mapping, the hard failures,
/// and the engines that explicitly reported an empty result set.
pub struct SearchOutcome {
    pub merged: ResultMap,
    pub failures: Vec<FailureEntry>,
    pub empty_engines: Vec<String>,
}

/// A report is well formed when a successful outcome carries a well-formed
/// mapping.
pub open spec fn report_wf(r: EngineReport) -> bool {
    match r.outcome {
        EngineOutcome::Success(m) => m.wf(),
        EngineOutcome::Failure(_) => true,
    }
}

/// The mapping that merging the successful outcomes in order yields.
pub open spec fn merged_of(s: Seq<EngineReport>) -> Map<Seq<char>, ResultView>
    decreases s.len(),
{
    if s.len() == 0 {
        Map::empty()
    } else {
        match s.last().outcome {
            EngineOutcome::Success(m) => merge_maps(merged_of(s.drop_last()), m@),
            EngineOutcome::Failure(_) => merged_of(s.drop_last()),
        }
    }
}

/// The hard failures among the outcomes, in order: engine name, error kind
/// and diagnostic. An explicitly empty result set is not among them.
pub open spec fn failures_of(s: Seq<EngineReport>) -> Seq<(Seq<char>, EngineErrorKind, Seq<char>)>
    decreases s.len(),
{
    if s.len() == 0 {
        Seq::empty()
    } else {
        let rest = failures_of(s.drop_last());
        match s.last().outcome {
            EngineOutcome::Failure(err) => if err.kind.is_hard_failure() {
                rest.push((s.last().engine@, err.kind, err.message@))
            } else {
                rest
            },
            EngineOutcome::Success(_) => rest,
        }
    }
}

/// The engines that explicitly reported zero matches, in order.
pub open spec fn empty_engines_of(s: Seq<EngineReport>) -> Seq<Seq<char>>
    decreases s.len(),
{
    if s.len() == 0 {
        Seq::empty()
    } else {
        let rest = empty_engines_of(s.drop_last());
        match s.last().outcome {
            EngineOutcome::Failure(err) => if !err.kind.is_hard_failure() {
                rest.push(s.last().engine@)
            } else {
                rest
            },
            EngineOutcome::Success(_) => rest,
        }
    }
}

/// The mathematical shape of one surfaced failure.
pub open spec fn failure_view(f: FailureEntry) -> (Seq<char>, EngineErrorKind, Seq<char>) {
    (f.engine@, f.error.kind, f.error.message@)
}

/// The shapes of a list of surfaced failures.
pub open spec fn failure_views(s: Seq<FailureEntry>) -> Seq<
    (Seq<char>, EngineErrorKind, Seq<char>),
> {
    s.map_values(|f: FailureEntry| failure_view(f))
}

/// The views of a list of engine names.
pub open spec fn name_views(s: Seq<String>) -> Seq<Seq<char>> {
    s.map_values(|n: String| n@)
}

/// Collects the per-adapter outcomes of one fan-out, independent of the
/// order in which the adapters completed: merges every successful mapping in
/// order, surfaces every hard failure beside its engine name, and records the
/// engines that explicitly found nothing. One adapter's failure never blocks
/// another adapter's results; if all fail, the (empty) merged mapping is
/// still returned beside the full failure list.
pub fn search_merge(reports: &Vec<EngineReport>) -> (out: SearchOutcome)
    requires
        forall|i: int| 0 <= i < reports@.len() ==> #[trigger] report_wf(reports@[i]),
    ensures
        out.merged.wf(),
        out.merged@ == merged_of(reports@),
        failure_views(out.failures@) == failures_of(reports@),
        name_views(out.empty_engines@) == empty_engines_of(reports@),
{
    let mut merged = ResultMap::new();
    let mut failures: Vec<FailureEntry> = Vec::new();
    let mut empty_engines: Vec<String> = Vec::new();
    proof {
        assert(reports@.take(0) =~= Seq::<EngineReport>::empty());
        assert(failure_views(failures@) =~= failures_of(reports@.take(0)));
        assert(name_views(empty_engines@) =~= empty_engines_of(reports@.take(0)));
    }
    let mut j: usize = 0;
    while j < reports.len()
        invariant
            forall|i: int| 0 <= i < reports@.len() ==> #[trigger] report_wf(reports@[i]),
            0 <= j <= reports@.len(),
            merged.wf(),
            merged@ == merged_of(reports@.take(j as int)),
            failure_views(failures@) == failures_of(reports@.take(j as int)),
            name_views(empty_engines@) == empty_engines_of(reports@.take(j as int)),
        decreases reports@.len() - j,
    {
        proof {
            assert(reports@.take(j + 1).drop_last() =~= reports@.take(j as int));
            assert(reports@.take(j + 1).last() == reports@[j as int]);
            assert(report_wf(reports@[j as int]));
        }
        let r = &reports[j];
        match &r.outcome {
            EngineOutcome::Success(m) => {
                merge_into(&mut merged, m);
            },
            EngineOutcome::Failure(err) => {
                if err.kind.hard_failure() {
                    let ghost fv0 = failures@;
                    failures.push(
                        FailureEntry { engine: r.engine.clone(), error: err.duplicate() },
                    );
                    proof {
                        assert(failures@.drop_last() =~= fv0);
                        assert(failure_views(failures@) =~= failure_views(fv0).push(
                            failure_view(failures@.last()),
                        ));
                    }
                } else {
                    let ghost ev0 = empty_engines@;
                    empty_engines.push(r.engine.clone());
                    proof {
                        assert(empty_engines@.drop_last() =~= ev0);
                        assert(name_views(empty_engines@) =~= name_views(ev0).push(
                            empty_engines@.last()@,
                        ));
                    }
                }
            },
        }
        j = j + 1;
    }
    proof {
        assert(reports@.take(reports@.len() as int) =~= reports@);
    }
    SearchOutcome { merged, failures, empty_engines }
}


/// Law: merging preserves the URL-keyed discipline: when both mappings hold
/// each record under its own destination URL, so does their merge.
pub proof fn lemma_merge_preserves_url_keyed(
    a: Map<Seq<char>, ResultView>,
    b: Map<Seq<char>, ResultView>,
)
    requires
        url_keyed(a),
        url_keyed(b),
    ensures
        url_keyed(merge_maps(a, b)),
{
}

} // verus!
