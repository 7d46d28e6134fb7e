//! The normalized result record and the URL-keyed result mapping that every
//! engine adapter produces and the aggregator merges.

use vstd::prelude::*;

verus! {

/// Mathematical shape of one normalized result: the engine attribution is a
/// set, so re-reporting the same engine can never duplicate it.
#[verifier::ext_equal]
pub struct ResultView {
    pub title: Seq<char>,
    pub url: Seq<char>,
    pub description: Seq<char>,
    pub engines: Set<Seq<char>>,
}

/// One scraped hit from one engine: display title, destination URL (the
/// dedup key), snippet, and the names of the engines that produced it.
pub struct RawSearchResult {
    pub title: String,
    pub visiting_url: String,
    pub description: String,
    pub engines: Vec<String>,
}

/// The set of engine names held by a list of attribution entries.
pub open spec fn engines_set(s: Seq<String>) -> Set<Seq<char>>
    decreases s.len(),
{
    if s.len() == 0 {
        Set::empty()
    } else {
        engines_set(s.drop_last()).insert(s.last()@)
    }
}

/// No engine name appears twice in an attribution list.
pub open spec fn engines_unique(s: Seq<String>) -> bool {
    forall|i: int, j: int| 0 <= i < j < s.len() ==> s[i]@ != s[j]@
}

pub proof fn lemma_engines_set_membership(s: Seq<String>)
    ensures
        forall|e: Seq<char>|
            #[trigger] engines_set(s).contains(e) <==> (exists|i: int|
                0 <= i < s.len() && s[i]@ == e),
    decreases s.len(),
{
    if s.len() > 0 {
        lemma_engines_set_membership(s.drop_last());
        assert forall|e: Seq<char>| #[trigger]
            engines_set(s).contains(e) implies (exists|i: int|
            0 <= i < s.len() && s[i]@ == e) by {
            if e == s.last()@ {
                assert(s[s.len() - 1]@ == e);
            } else {
                assert(engines_set(s.drop_last()).contains(e));
                let i = choose|i: int| 0 <= i < s.drop_last().len() && s.drop_last()[i]@ == e;
                assert(s.drop_last()[i] == s[i]);
                assert(s[i]@ == e);
            }
        }
        assert forall|e: Seq<char>| (exists|i: int|
            0 <= i < s.len() && s[i]@ == e) implies #[trigger] engines_set(s).contains(e) by {
            let i = choose|i: int| 0 <= i < s.len() && s[i]@ == e;
            if i < s.len() - 1 {
                assert(s.drop_last()[i] == s[i]);
                assert(s.drop_last()[i]@ == e);
                assert(engines_set(s.drop_last()).contains(e));
            }
        }
    }
}

impl View for RawSearchResult {
    type V = ResultView;

    open spec fn view(&self) -> ResultView {
        ResultView {
            title: self.title@,
            url: self.visiting_url@,
            description: self.description@,
            engines: engines_set(self.engines@),
        }
    }
}

impl RawSearchResult {
    /// A record is well formed when its destination URL is non-empty and its
    /// attribution list is a non-empty set of distinct engine names.
    pub open spec fn wf(&self) -> bool {
        self.visiting_url@.len() > 0 && self.engines@.len() > 0 && engines_unique(self.engines@)
    }

    /// Builds a record from scraped fields and an attribution list.
    pub fn new(
        title: String,
        visiting_url: String,
        description: String,
        engines: Vec<String>,
    ) -> (r: RawSearchResult)
        requires
            visiting_url@.len() > 0,
            engines@.len() > 0,
            engines_unique(engines@),
        ensures
            r@.title == title@,
            r@.url == visiting_url@,
            r@.description == description@,
            r@.engines == engines_set(engines@),
            r.wf(),
    {
        RawSearchResult { title, visiting_url, description, engines }
    }

    /// A structural copy with the same view.
    pub fn duplicate(&self) -> (r: RawSearchResult)
        ensures
            r@ == self@,
            r.wf() == self.wf(),
            r.engines@.len() == self.engines@.len(),
            forall|i: int| 0 <= i < self.engines@.len() ==> r.engines@[i]@ == self.engines@[i]@,
    {
        let mut engines: Vec<String> = Vec::new();
        let mut k: usize = 0;
        while k < self.engines.len()
            invariant
                0 <= k <= self.engines@.len(),
                engines@.len() == k,
                forall|i: int| 0 <= i < k ==> engines@[i]@ == self.engines@[i]@,
            decreases self.engines@.len() - k,
        {
            engines.push(self.engines[k].clone());
            k = k + 1;
        }
        proof {
            lemma_engines_set_pointwise(engines@, self.engines@);
        }
        RawSearchResult {
            title: self.title.clone(),
            visiting_url: self.visiting_url.clone(),
            description: self.description.clone(),
            engines,
        }
    }
}

/// Two attribution lists equal element by element hold the same engine set.
pub proof fn lemma_engines_set_pointwise(a: Seq<String>, b: Seq<String>)
    requires
        a.len() == b.len(),
        forall|i: int| 0 <= i < a.len() ==> a[i]@ == b[i]@,
    ensures
        engines_set(a) == engines_set(b),
        engines_unique(a) == engines_unique(b),
    decreases a.len(),
{
    if a.len() > 0 {
        lemma_engines_set_pointwise(a.drop_last(), b.drop_last());
    }
    assert(engines_unique(a) ==> engines_unique(b));
    assert(engines_unique(b) ==> engines_unique(a));
}

fn contains_engine(v: &Vec<String>, e: &String) -> (r: bool)
    ensures
        r == engines_set(v@).contains(e@),
{
    proof {
        lemma_engines_set_membership(v@);
    }
    let mut i: usize = 0;
    while i < v.len()
        invariant
            0 <= i <= v@.len(),
            forall|j: int| 0 <= j < i ==> v@[j]@ != e@,
        decreases v@.len() - i,
    {
        if v[i] == *e {
            proof {
                lemma_engines_set_membership(v@);
                assert(v@[i as int]@ == e@);
            }
            return true;
        }
        i = i + 1;
    }
    proof {
        lemma_engines_set_membership(v@);
    }
    false
}

/// Unions the engine names of `src` into `dst`, keeping set semantics:
/// a name already present is not added again.
pub fn union_engines(dst: &mut Vec<String>, src: &Vec<String>)
    requires
        engines_unique(old(dst)@),
        engines_unique(src@),
    ensures
        engines_unique(final(dst)@),
        engines_set(final(dst)@) == engines_set(old(dst)@).union(engines_set(src@)),
        final(dst)@.len() >= old(dst)@.len(),
{
    let ghost d0 = dst@;
    let mut k: usize = 0;
    proof {
        assert(src@.take(0) =~= Seq::<String>::empty());
        assert(engines_set(d0).union(engines_set(src@.take(0))) =~= engines_set(d0));
    }
    while k < src.len()
        invariant
            engines_unique(src@),
            engines_unique(dst@),
            0 <= k <= src@.len(),
            dst@.len() >= d0.len(),
            engines_set(dst@) == engines_set(d0).union(engines_set(src@.take(k as int))),
        decreases src@.len() - k,
    {
        proof {
            assert(src@.take(k + 1).drop_last() =~= src@.take(k as int));
            assert(src@.take(k + 1).last() == src@[k as int]);
        }
        let present: bool = contains_engine(dst, &src[k]);
        if !present {
            let ghost before = dst@;
            proof {
                lemma_engines_set_membership(before);
            }
            dst.push(src[k].clone());
            proof {
                assert(dst@.drop_last() =~= before);
                assert(dst@.last()@ == src@[k as int]@);
                assert(engines_set(dst@) == engines_set(before).insert(src@[k as int]@));
                assert(engines_set(d0).union(engines_set(src@.take(k as int))).insert(
                    src@[k as int]@,
                ) =~= engines_set(d0).union(engines_set(src@.take(k + 1))));
            }
        } else {
            proof {
                assert(engines_set(d0).union(engines_set(src@.take(k as int))) =~= engines_set(
                    d0,
                ).union(engines_set(src@.take(k + 1))));
            }
        }
        k = k + 1;
    }
    proof {
        assert(src@.take(src@.len() as int) =~= src@);
    }
}

/// How two records for the same URL merge: the first writer's title and
/// description are kept, and the engine attributions are unioned.
pub open spec fn merge_record(a: ResultView, b: ResultView) -> ResultView {
    ResultView {
        title: a.title,
        url: a.url,
        description: a.description,
        engines: a.engines.union(b.engines),
    }
}

/// No destination URL appears twice among the entries.
pub open spec fn urls_unique(s: Seq<RawSearchResult>) -> bool {
    forall|i: int, j: int| 0 <= i < j < s.len() ==> s[i].visiting_url@ != s[j].visiting_url@
}

/// The mapping from destination URL to record that a list of entries holds;
/// a later entry with the same URL shadows an earlier one.
pub open spec fn map_of(s: Seq<RawSearchResult>) -> Map<Seq<char>, ResultView>
    decreases s.len(),
{
    if s.len() == 0 {
        Map::empty()
    } else {
        map_of(s.drop_last()).insert(s.last().visiting_url@, s.last()@)
    }
}

pub proof fn lemma_map_of_contains(s: Seq<RawSearchResult>)
    ensures
        forall|k: Seq<char>|
            #[trigger] map_of(s).contains_key(k) <==> (exists|i: int|
                0 <= i < s.len() && s[i].visiting_url@ == k),
    decreases s.len(),
{
    if s.len() > 0 {
        lemma_map_of_contains(s.drop_last());
        assert forall|k: Seq<char>| #[trigger]
            map_of(s).contains_key(k) implies (exists|i: int|
            0 <= i < s.len() && s[i].visiting_url@ == k) by {
            if k == s.last().visiting_url@ {
                assert(s[s.len() - 1].visiting_url@ == k);
            } else {
                assert(map_of(s.drop_last()).contains_key(k));
                let i = choose|i: int|
                    0 <= i < s.drop_last().len() && s.drop_last()[i].visiting_url@ == k;
                assert(s.drop_last()[i] == s[i]);
                assert(s[i].visiting_url@ == k);
            }
        }
        assert forall|k: Seq<char>| (exists|i: int|
            0 <= i < s.len() && s[i].visiting_url@ == k) implies #[trigger] map_of(
            s,
        ).contains_key(k) by {
            let i = choose|i: int| 0 <= i < s.len() && s[i].visiting_url@ == k;
            if i < s.len() - 1 {
                assert(s.drop_last()[i] == s[i]);
                assert(s.drop_last()[i].visiting_url@ == k);
                assert(map_of(s.drop_last()).contains_key(k));
            }
        }
    }
}

pub proof fn lemma_map_of_index(s: Seq<RawSearchResult>, i: int)
    requires
        urls_unique(s),
        0 <= i < s.len(),
    ensures
        map_of(s).contains_key(s[i].visiting_url@),
        map_of(s)[s[i].visiting_url@] == s[i]@,
    decreases s.len(),
{
    lemma_map_of_contains(s);
    if i < s.len() - 1 {
        assert(s[i].visiting_url@ != s.last().visiting_url@);
        lemma_map_of_index(s.drop_last(), i);
        assert(s.drop_last()[i] == s[i]);
    }
}

pub proof fn lemma_map_of_update(s: Seq<RawSearchResult>, i: int, e: RawSearchResult)
    requires
        urls_unique(s),
        0 <= i < s.len(),
        e.visiting_url@ == s[i].visiting_url@,
    ensures
        map_of(s.update(i, e)) =~= map_of(s).insert(e.visiting_url@, e@),
        urls_unique(s.update(i, e)),
    decreases s.len(),
{
    let k = e.visiting_url@;
    if i == s.len() - 1 {
        assert(s.update(i, e).drop_last() =~= s.drop_last());
        assert(s.update(i, e).last() == e);
    } else {
        assert(s.update(i, e).drop_last() =~= s.drop_last().update(i, e));
        assert(s.update(i, e).last() == s.last());
        lemma_map_of_update(s.drop_last(), i, e);
        assert(s[i].visiting_url@ != s.last().visiting_url@);
    }
}

/// The URL-keyed result mapping one adapter returns and the aggregator
/// accumulates, with set semantics on keys.
pub struct ResultMap {
    pub entries: Vec<RawSearchResult>,
}

impl View for ResultMap {
    type V = Map<Seq<char>, ResultView>;

    open spec fn view(&self) -> Map<Seq<char>, ResultView> {
        map_of(self.entries@)
    }
}

impl ResultMap {
    /// Every entry is well formed and no URL is keyed twice.
    pub open spec fn wf(&self) -> bool {
        urls_unique(self.entries@) && (forall|i: int|
            0 <= i < self.entries@.len() ==> self.entries@[i].wf())
    }

    /// An empty mapping.
    pub fn new() -> (r: ResultMap)
        ensures
            r@ == Map::<Seq<char>, ResultView>::empty(),
            r.wf(),
            r.entries@.len() == 0,
    {
        ResultMap { entries: Vec::new() }
    }

    /// Number of records held.
    pub fn len(&self) -> (n: usize)
        ensures
            n == self.entries@.len(),
    {
        self.entries.len()
    }

    fn find(&self, url: &String) -> (r: Option<usize>)
        ensures
            match r {
                Some(i) => 0 <= i < self.entries@.len() && self.entries@[i as int].visiting_url@ == url@,
                None => forall|j: int|
                    0 <= j < self.entries@.len() ==> self.entries@[j].visiting_url@
                        != url@,
            },
    {
        let mut i: usize = 0;
        while i < self.entries.len()
            invariant
                0 <= i <= self.entries@.len(),
                forall|j: int| 0 <= j < i ==> self.entries@[j].visiting_url@ != url@,
            decreases self.entries@.len() - i,
        {
            if self.entries[i].visiting_url == *url {
                return Some(i);
            }
            i = i + 1;
        }
        None
    }

    /// Looks a record up by its destination URL.
    pub fn get(&self, url: &String) -> (r: Option<&RawSearchResult>)
        requires
            self.wf(),
        ensures
            match r {
                Some(e) => self@.contains_key(url@) && e@ == self@[url@] && e.wf(),
                None => !self@.contains_key(url@),
            },
    {
        proof {
            lemma_map_of_contains(self.entries@);
        }
        match self.find(url) {
            Some(i) => {
                proof {
                    lemma_map_of_index(self.entries@, i as int);
                }
                Some(&self.entries[i])
            },
            None => None,
        }
    }

    /// Inserts a record, replacing any record already keyed by its URL.
    pub fn upsert(&mut self, e: RawSearchResult)
        requires
            old(self).wf(),
            e.wf(),
        ensures
            final(self).wf(),
            final(self)@ == old(self)@.insert(e@.url, e@),
            final(self).entries@.len() <= old(self).entries@.len() + 1,
    {
        match self.find(&e.visiting_url) {
            Some(i) => {
                proof {
                    lemma_map_of_update(self.entries@, i as int, e);
                }
                let slot = &mut self.entries[i];
                *slot = e;
            },
            None => {
                let ghost before = self.entries@;
                self.entries.push(e);
                proof {
                    assert(self.entries@.drop_last() =~= before);
                    assert(self.entries@.last() == e);
                }
            },
        }
    }
}


impl ResultMap {
    /// Merges one incoming record: a new URL is inserted as is; a URL already
    /// present keeps its title and description and only gains attribution.
    pub fn merge_entry(&mut self, e: &RawSearchResult)
        requires
            old(self).wf(),
            e.wf(),
        ensures
            final(self).wf(),
            final(self)@ == (if old(self)@.contains_key(e@.url) {
                old(self)@.insert(e@.url, merge_record(old(self)@[e@.url], e@))
            } else {
                old(self)@.insert(e@.url, e@)
            }),
    {
        proof {
            lemma_map_of_contains(self.entries@);
        }
        match self.find(&e.visiting_url) {
            Some(i) => {
                proof {
                    lemma_map_of_index(self.entries@, i as int);
                }
                let ghost before = self.entries@;
                let slot = &mut self.entries[i];
                let ghost v0 = *slot;
                union_engines(&mut slot.engines, &e.engines);
                proof {
                    assert(slot.visiting_url@ == v0.visiting_url@);
                    assert(slot@ =~= merge_record(v0@, e@));
                    lemma_map_of_update(before, i as int, *slot);
                    assert(self.entries@ =~= before.update(i as int, *slot));
                }
            },
            None => {
                let d = e.duplicate();
                let ghost before = self.entries@;
                self.entries.push(d);
                proof {
                    assert(self.entries@.drop_last() =~= before);
                    assert(self.entries@.last()@ == e@);
                    assert(map_of(self.entries@) =~= map_of(before).insert(e@.url, e@));
                }
            },
        }
    }
}


/// Every record of a mapping sits under its own destination URL as the key.
pub open spec fn url_keyed(m: Map<Seq<char>, ResultView>) -> bool {
    forall|k: Seq<char>| #[trigger] m.contains_key(k) ==> m[k].url == k
}

/// Law: a well-formed result mapping is keyed by exactly the records' own
/// destination URLs.
pub proof fn lemma_result_map_url_keyed(m: ResultMap)
    requires
        m.wf(),
    ensures
        url_keyed(m@),
{
    lemma_map_of_contains(m.entries@);
    assert forall|k: Seq<char>| #[trigger] m@.contains_key(k) implies m@[k].url == k by {
        let i = choose|i: int| 0 <= i < m.entries@.len() && m.entries@[i].visiting_url@ == k;
        lemma_map_of_index(m.entries@, i);
    }
}

} // verus!
