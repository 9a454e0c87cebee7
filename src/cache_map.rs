//! Reconciliation of uploaded ids back to local files: ids that a single input
//! owns map to that input, ids shared by a packed sheet are fetched once into
//! a cache folder.
use vstd::prelude::*;
use crate::manifest::{AssetName, InputManifest, Manifest, strictly_increasing};
use crate::text::{decimal, decimal_chars, chars_of, join_path, path_join, string_from_chars};
use std::collections::BTreeMap;

verus! {

/// The names of the inputs last uploaded to `id`, in manifest order.
pub open spec fn contributors(inputs: Seq<(AssetName, InputManifest)>, id: u64) -> Seq<Seq<char>>
    decreases inputs.len(),
{
    if inputs.len() == 0 {
        Seq::empty()
    } else {
        let rest = contributors(inputs.drop_last(), id);
        if inputs.last().1.uploaded_id == Some(id) {
            rest.push(inputs.last().0@)
        } else {
            rest
        }
    }
}

/// One line of the cache map: the file that holds the content of `id`, and
/// whether that content must first be fetched into it.
#[derive(Clone, Debug)]
pub struct CacheEntry {
    pub id: u64,
    pub path: String,
    pub fetch: bool,
}

/// `e` is the right entry for its id: an id of one input maps to that input's
/// name and is not fetched; an id shared by several inputs is fetched into a
/// file of the cache folder named by the id.
pub open spec fn cache_entry_ok(
    inputs: Seq<(AssetName, InputManifest)>,
    cache_dir: Seq<char>,
    e: CacheEntry,
) -> bool {
    let c = contributors(inputs, e.id);
    &&& c.len() > 0
    &&& e.fetch == (c.len() > 1)
    &&& if e.fetch {
        e.path@ == path_join(cache_dir, decimal(e.id as nat))
    } else {
        e.path@ == c[0]
    }
}

/// The ids of a list of cache entries.
pub open spec fn entry_ids(plan: Seq<CacheEntry>) -> Seq<u64> {
    plan.map_values(|e: CacheEntry| e.id)
}

/// `plan` holds one entry per uploaded id, ascending by id, each right for
/// its id.
pub open spec fn is_cache_plan(
    inputs: Seq<(AssetName, InputManifest)>,
    cache_dir: Seq<char>,
    plan: Seq<CacheEntry>,
) -> bool {
    &&& strictly_increasing(entry_ids(plan))
    &&& forall|k: int| 0 <= k < plan.len() ==> cache_entry_ok(inputs, cache_dir, #[trigger] plan[k])
    &&& forall|id: u64|
        contributors(inputs, id).len() > 0 ==> exists|k: int|
            0 <= k < plan.len() && (#[trigger] plan[k]).id == id
}

/// The cache map as the index file records it: id and file path of each entry.
pub open spec fn index_entries(plan: Seq<CacheEntry>) -> Seq<(u64, Seq<char>)> {
    plan.map_values(|e: CacheEntry| (e.id, e.path@))
}

/// The pretty-printed JSON object that maps each id, written as a string key,
/// to its path.
pub uninterp spec fn pretty_json_index(entries: Seq<(u64, Seq<char>)>) -> Seq<char>;

/// Relies on `serde_json::to_string_pretty` of a `BTreeMap<u64, String>`: the
/// document is a function of the entries alone, and encoding such a map into
/// memory cannot fail (numeric keys are written as quoted strings).
#[verifier::external_body]
fn index_to_json(entries: &Vec<(u64, String)>) -> (r: Option<String>)
    ensures
        r is Some,
        r->0@ == pretty_json_index(entries@.map_values(|e: (u64, String)| (e.0, e.1@))),
{
    let map: BTreeMap<u64, String> = entries.iter().cloned().collect();
    serde_json::to_string_pretty(&map).ok()
}

struct IdGroup {
    id: u64,
    first: String,
    shared: bool,
}

spec fn group_ok(inputs: Seq<(AssetName, InputManifest)>, g: IdGroup) -> bool {
    let c = contributors(inputs, g.id);
    &&& c.len() > 0
    &&& g.first@ == c[0]
    &&& g.shared == (c.len() > 1)
}

spec fn groups_ok(inputs: Seq<(AssetName, InputManifest)>, groups: Seq<IdGroup>) -> bool {
    &&& forall|a: int, b: int| 0 <= a < b < groups.len() ==> groups[a].id < groups[b].id
    &&& forall|k: int| 0 <= k < groups.len() ==> group_ok(inputs, #[trigger] groups[k])
    &&& forall|id: u64|
        contributors(inputs, id).len() > 0 ==> exists|k: int|
            0 <= k < groups.len() && (#[trigger] groups[k]).id == id
}

proof fn lemma_contributors_push(s: Seq<(AssetName, InputManifest)>, e: (AssetName, InputManifest), id: u64)
    ensures
        contributors(s.push(e), id) == if e.1.uploaded_id == Some(id) {
            contributors(s, id).push(e.0@)
        } else {
            contributors(s, id)
        },
{
    assert(s.push(e).drop_last() =~= s);
}

proof fn lemma_contributors_single(s: Seq<(AssetName, InputManifest)>, id: u64, a: int)
    requires
        0 <= a < s.len(),
        s[a].1.uploaded_id == Some(id),
        forall|j: int| 0 <= j < s.len() && j != a ==> (#[trigger] s[j]).1.uploaded_id != Some(id),
    ensures
        contributors(s, id) == seq![s[a].0@],
    decreases s.len(),
{
    let prefix = s.drop_last();
    if a == s.len() - 1 {
        lemma_contributors_none(prefix, id);
    } else {
        assert forall|j: int| 0 <= j < prefix.len() && j != a implies (#[trigger] prefix[j]).1.uploaded_id != Some(id) by {
            assert(prefix[j] == s[j]);
        }
        lemma_contributors_single(prefix, id, a);
    }
}

proof fn lemma_contributors_none(s: Seq<(AssetName, InputManifest)>, id: u64)
    requires
        forall|j: int| 0 <= j < s.len() ==> (#[trigger] s[j]).1.uploaded_id != Some(id),
    ensures
        contributors(s, id).len() == 0,
    decreases s.len(),
{
    if s.len() > 0 {
        let prefix = s.drop_last();
        assert forall|j: int| 0 <= j < prefix.len() implies (#[trigger] prefix[j]).1.uploaded_id != Some(id) by {
            assert(prefix[j] == s[j]);
        }
        lemma_contributors_none(prefix, id);
    }
}

proof fn lemma_contributors_count(s: Seq<(AssetName, InputManifest)>, id: u64, a: int, b: int)
    requires
        0 <= a < s.len(),
        a <= b < s.len(),
        s[a].1.uploaded_id == Some(id),
        s[b].1.uploaded_id == Some(id),
    ensures
        contributors(s, id).len() >= if a < b { 2int } else { 1int },
    decreases s.len(),
{
    let prefix = s.drop_last();
    if b == s.len() - 1 {
        if a < b {
            assert(prefix[a] == s[a]);
            lemma_contributors_count(prefix, id, a, a);
        }
    } else {
        assert(prefix[a] == s[a]);
        assert(prefix[b] == s[b]);
        lemma_contributors_count(prefix, id, a, b);
    }
}

/// In a cache plan of a manifest, two inputs uploaded to the same id are
/// served by exactly one entry for that id, which fetches the shared content
/// once into the cache folder; both inputs resolve to that one path.
pub proof fn lemma_cache_plan_shared(
    inputs: Seq<(AssetName, InputManifest)>,
    cache_dir: Seq<char>,
    plan: Seq<CacheEntry>,
    a: int,
    b: int,
    id: u64,
)
    requires
        is_cache_plan(inputs, cache_dir, plan),
        0 <= a < b < inputs.len(),
        inputs[a].1.uploaded_id == Some(id),
        inputs[b].1.uploaded_id == Some(id),
    ensures
        exists|k: int|
            {
                &&& 0 <= k < plan.len()
                &&& #[trigger] plan[k].id == id
                &&& plan[k].fetch
                &&& plan[k].path@ == path_join(cache_dir, decimal(id as nat))
                &&& forall|j: int| 0 <= j < plan.len() && #[trigger] plan[j].id == id ==> j == k
            },
{
    lemma_contributors_count(inputs, id, a, b);
    let k = choose|k: int| 0 <= k < plan.len() && (#[trigger] plan[k]).id == id;
    assert(cache_entry_ok(inputs, cache_dir, plan[k]));
    assert forall|j: int| 0 <= j < plan.len() && #[trigger] plan[j].id == id implies j == k by {
        if j < k {
            assert(entry_ids(plan)[j] < entry_ids(plan)[k]);
        } else if j > k {
            assert(entry_ids(plan)[k] < entry_ids(plan)[j]);
        }
    }
}

/// In a cache plan of a manifest, an id that a single input was uploaded to
/// has one entry, which fetches nothing and maps the id to that input's name.
pub proof fn lemma_cache_plan_single(
    inputs: Seq<(AssetName, InputManifest)>,
    cache_dir: Seq<char>,
    plan: Seq<CacheEntry>,
    a: int,
    id: u64,
)
    requires
        is_cache_plan(inputs, cache_dir, plan),
        0 <= a < inputs.len(),
        inputs[a].1.uploaded_id == Some(id),
        forall|j: int| 0 <= j < inputs.len() && j != a ==> (#[trigger] inputs[j]).1.uploaded_id != Some(id),
    ensures
        exists|k: int|
            {
                &&& 0 <= k < plan.len()
                &&& #[trigger] plan[k].id == id
                &&& !plan[k].fetch
                &&& plan[k].path@ == inputs[a].0@
                &&& forall|j: int| 0 <= j < plan.len() && #[trigger] plan[j].id == id ==> j == k
            },
{
    lemma_contributors_single(inputs, id, a);
    let k = choose|k: int| 0 <= k < plan.len() && (#[trigger] plan[k]).id == id;
    assert(cache_entry_ok(inputs, cache_dir, plan[k]));
    assert forall|j: int| 0 <= j < plan.len() && #[trigger] plan[j].id == id implies j == k by {
        if j < k {
            assert(entry_ids(plan)[j] < entry_ids(plan)[k]);
        } else if j > k {
            assert(entry_ids(plan)[k] < entry_ids(plan)[j]);
        }
    }
}

/// Groups the inputs by uploaded id.
fn group_by_id(inputs: &Vec<(AssetName, InputManifest)>) -> (r: Vec<IdGroup>)
    ensures
        groups_ok(inputs@, r@),
{
    let mut groups: Vec<IdGroup> = Vec::new();
    let mut i: usize = 0;
    while i < inputs.len()
        invariant
            i <= inputs@.len(),
            groups_ok(inputs@.subrange(0, i as int), groups@),
        decreases inputs@.len() - i,
    {
        let ghost prev = inputs@.subrange(0, i as int);
        let ghost next = inputs@.subrange(0, i + 1);
        proof {
            assert(next =~= prev.push(inputs@[i as int]));
            assert forall|id: u64| #[trigger] contributors(next, id) == if inputs@[i as int].1.uploaded_id == Some(id) {
                contributors(prev, id).push(inputs@[i as int].0@)
            } else {
                contributors(prev, id)
            } by {
                lemma_contributors_push(prev, inputs@[i as int], id);
            }
        }
        match inputs[i].1.uploaded_id {
            None => {
                assert forall|k: int| 0 <= k < groups@.len() implies group_ok(next, #[trigger] groups@[k]) by {
                    assert(group_ok(prev, groups@[k]));
                }
                assert forall|id: u64| contributors(next, id).len() > 0 implies exists|k: int|
                    0 <= k < groups@.len() && (#[trigger] groups@[k]).id == id by {
                    assert(contributors(prev, id).len() > 0);
                }
            },
            Some(id) => {
                let mut p: usize = 0;
                while p < groups.len() && groups[p].id < id
                    invariant
                        p <= groups@.len(),
                        forall|k: int| 0 <= k < p ==> groups@[k].id < id,
                    decreases groups@.len() - p,
                {
                    p = p + 1;
                }
                let ghost old_groups = groups@;
                if p < groups.len() && groups[p].id == id {
                    let first = groups[p].first.clone();
                    groups.set(p, IdGroup { id, first, shared: true });
                    assert forall|k: int| 0 <= k < groups@.len() implies group_ok(next, #[trigger] groups@[k]) by {
                        assert(group_ok(prev, old_groups[k]));
                    }
                    assert forall|id2: u64| contributors(next, id2).len() > 0 implies exists|k: int|
                        0 <= k < groups@.len() && (#[trigger] groups@[k]).id == id2 by {
                        if id2 != id {
                            assert(contributors(prev, id2).len() > 0);
                            let k = choose|k: int| 0 <= k < old_groups.len() && (#[trigger] old_groups[k]).id == id2;
                            assert(groups@[k].id == id2);
                        } else {
                            assert(groups@[p as int].id == id2);
                        }
                    }
                } else {
                    proof {
                        if contributors(prev, id).len() > 0 {
                            let k = choose|k: int| 0 <= k < old_groups.len() && (#[trigger] old_groups[k]).id == id;
                            if k > p {
                                assert(old_groups[p as int].id < old_groups[k].id);
                            }
                        }
                    }
                    let first = inputs[i].0.clone();
                    groups.insert(p, IdGroup { id, first, shared: false });
                    assert forall|k: int| 0 <= k < groups@.len() implies group_ok(next, #[trigger] groups@[k]) by {
                        if k < p {
                            assert(groups@[k] == old_groups[k]);
                            assert(group_ok(prev, old_groups[k]));
                        } else if k > p {
                            assert(groups@[k] == old_groups[k - 1]);
                            assert(group_ok(prev, old_groups[k - 1]));
                        }
                    }
                    assert forall|id2: u64| contributors(next, id2).len() > 0 implies exists|k: int|
                        0 <= k < groups@.len() && (#[trigger] groups@[k]).id == id2 by {
                        if id2 != id {
                            assert(contributors(prev, id2).len() > 0);
                            let k = choose|k: int| 0 <= k < old_groups.len() && (#[trigger] old_groups[k]).id == id2;
                            if k < p {
                                assert(groups@[k].id == id2);
                            } else {
                                assert(groups@[k + 1].id == id2);
                            }
                        } else {
                            assert(groups@[p as int].id == id2);
                        }
                    }
                    assert forall|a: int, b: int| 0 <= a < b < groups@.len() implies groups@[a].id < groups@[b].id by {
                        if b < p {
                        } else if a > p {
                            assert(old_groups[a - 1].id < old_groups[b - 1].id);
                        } else if a == p {
                            assert(groups@[b] == old_groups[b - 1]);
                            if p < old_groups.len() {
                                assert(old_groups[p as int].id > id);
                                if b - 1 > p {
                                    assert(old_groups[p as int].id < old_groups[b - 1].id);
                                }
                            }
                        } else if b == p {
                        } else {
                            assert(groups@[b] == old_groups[b - 1]);
                            assert(old_groups[a].id < id);
                            if p < old_groups.len() {
                                assert(old_groups[p as int].id > id);
                                if b - 1 > p {
                                    assert(old_groups[p as int].id < old_groups[b - 1].id);
                                }
                            }
                        }
                    }
                }
            },
        }
        i = i + 1;
    }
    assert(inputs@.subrange(0, i as int) =~= inputs@);
    groups
}

impl Manifest {
    /// The cache map of this manifest with packed sheets stored under
    /// `cache_dir`: one entry per uploaded id, ascending; an id of a single
    /// input maps to that input's name, an id shared by several inputs is to
    /// be fetched into `cache_dir` under its decimal id.
    pub fn cache_plan(&self, cache_dir: &str) -> (r: Vec<CacheEntry>)
        ensures
            is_cache_plan(self.inputs@, cache_dir@, r@),
    {
        let groups = group_by_id(&self.inputs);
        let dir = chars_of(cache_dir);
        let mut plan: Vec<CacheEntry> = Vec::new();
        let mut k: usize = 0;
        while k < groups.len()
            invariant
                k <= groups@.len(),
                dir@ == cache_dir@,
                groups_ok(self.inputs@, groups@),
                plan@.len() == k,
                forall|j: int| 0 <= j < k ==> (#[trigger] plan@[j]).id == groups@[j].id,
                forall|j: int| 0 <= j < k ==> cache_entry_ok(self.inputs@, cache_dir@, #[trigger] plan@[j]),
            decreases groups@.len() - k,
        {
            let id = groups[k].id;
            assert(group_ok(self.inputs@, groups@[k as int]));
            let entry = if groups[k].shared {
                let name = decimal_chars(id);
                let path = join_path(&dir, &name);
                CacheEntry { id, path: string_from_chars(&path), fetch: true }
            } else {
                CacheEntry { id, path: groups[k].first.clone(), fetch: false }
            };
            plan.push(entry);
            k = k + 1;
        }
        assert forall|a: int, b: int| 0 <= a < b < plan@.len() implies entry_ids(plan@)[a] < entry_ids(plan@)[b] by {
            assert(plan@[a].id == groups@[a].id);
            assert(plan@[b].id == groups@[b].id);
        }
        assert forall|id: u64| contributors(self.inputs@, id).len() > 0 implies exists|j: int|
            0 <= j < plan@.len() && (#[trigger] plan@[j]).id == id by {
            let j = choose|j: int| 0 <= j < groups@.len() && (#[trigger] groups@[j]).id == id;
            assert(plan@[j].id == id);
        }
        plan
    }
}

/// The index file of a cache map: a pretty-printed JSON object from each id
/// to its file path.
pub fn cache_index_document(plan: &Vec<CacheEntry>) -> (r: Option<String>)
    ensures
        r is Some,
        r->0@ == pretty_json_index(index_entries(plan@)),
{
    let mut entries: Vec<(u64, String)> = Vec::new();
    let mut k: usize = 0;
    while k < plan.len()
        invariant
            k <= plan@.len(),
            entries@.len() == k,
            forall|j: int| 0 <= j < k ==> (#[trigger] entries@[j]).0 == plan@[j].id && entries@[j].1@ == plan@[j].path@,
        decreases plan@.len() - k,
    {
        entries.push((plan[k].id, plan[k].path.clone()));
        k = k + 1;
    }
    assert(entries@.map_values(|e: (u64, String)| (e.0, e.1@)) =~= index_entries(plan@));
    index_to_json(&entries)
}

} // verus!
