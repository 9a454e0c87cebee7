//! The persisted synchronisation manifest and the list of assets it refers to.
use vstd::prelude::*;
use crate::text::{decimal, push_decimal, string_from_chars};

verus! {

/// A project-relative name that identifies one input image.
pub type AssetName = String;

/// A snapshot of configuration settings, as key and value text.
#[derive(Clone, Debug)]
pub struct GroupConfig {
    pub settings: Vec<(String, String)>,
}

/// The hierarchical configuration applied to one input, as key and value text.
#[derive(Clone, Debug)]
pub struct InputConfig {
    pub settings: Vec<(String, String)>,
}

/// The sub-rectangle of a packed sheet occupied by one input.
#[derive(Clone, Copy, Debug, PartialEq, Eq)]
pub struct ImageSlice {
    pub min: (u32, u32),
    pub max: (u32, u32),
}

/// Where an uploaded asset ended up: a remote numeric id, or a path relative
/// to a local content folder.
#[derive(Clone, Debug)]
pub enum AssetId {
    Id(u64),
    Path(String),
}

/// What is known of one input as of the last synchronisation.
#[derive(Clone, Debug)]
pub struct InputManifest {
    /// Hex-encoded digest of the contents the last time they were uploaded.
    pub uploaded_hash: Option<String>,
    /// The remote id holding this input after its last upload.
    pub uploaded_id: Option<u64>,
    /// Where this input lies inside a packed sheet, if it was packed.
    pub uploaded_slice: Option<ImageSlice>,
    /// The configuration applied at the last upload.
    pub uploaded_config: Option<InputConfig>,
}

/// What is known of one group as of the last synchronisation.
#[derive(Clone, Debug)]
pub struct GroupManifest {
    /// The inputs that belonged to the group, in ascending order of name.
    pub inputs: Vec<AssetName>,
    /// The remote ids the group produced, in ascending order.
    pub outputs: Vec<u64>,
    /// The configuration that produced the group.
    pub config: GroupConfig,
}

/// The whole synchronisation state: groups and inputs, each keyed by name and
/// kept in ascending order of name.
#[derive(Clone, Debug)]
pub struct Manifest {
    pub groups: Vec<(String, GroupManifest)>,
    pub inputs: Vec<(AssetName, InputManifest)>,
}

/// Why the manifest could not be read or written.
#[derive(Clone, Debug)]
pub enum ManifestError {
    DeserializeToml { file_path: String, message: String },
    SerializeToml { message: String },
    Io { file_path: String, not_found: bool, message: String },
}

/// The values of `s` rise strictly: sorted ascending, without repetition.
pub open spec fn strictly_increasing(s: Seq<u64>) -> bool {
    forall|i: int, j: int| 0 <= i < j < s.len() ==> s[i] < s[j]
}

/// `a` comes strictly before `b` in lexicographic order of characters, as
/// `String`'s `Ord` orders them.
pub open spec fn lex_less(a: Seq<char>, b: Seq<char>) -> bool
    decreases a.len(),
{
    if a.len() == 0 {
        b.len() > 0
    } else if b.len() == 0 {
        false
    } else if a[0] < b[0] {
        true
    } else if a[0] == b[0] {
        lex_less(a.drop_first(), b.drop_first())
    } else {
        false
    }
}

/// The names rise strictly in lexicographic order: sorted, without repetition,
/// as the keys of an ordered map or set are.
pub open spec fn sorted_names(names: Seq<String>) -> bool {
    forall|i: int, j: int| 0 <= i < j < names.len() ==> lex_less(names[i]@, names[j]@)
}

/// The keys of a list of keyed entries.
pub open spec fn keys_of<V>(entries: Seq<(String, V)>) -> Seq<String> {
    entries.map_values(|e: (String, V)| e.0)
}

/// Some input of `inputs` was last uploaded to `id`.
pub open spec fn has_uploaded_id(inputs: Seq<(AssetName, InputManifest)>, id: u64) -> bool {
    exists|i: int| 0 <= i < inputs.len() && #[trigger] inputs[i].1.uploaded_id == Some(id)
}

/// The lines of an asset list: each id in decimal, followed by a newline.
pub open spec fn id_lines(ids: Seq<u64>) -> Seq<char>
    decreases ids.len(),
{
    if ids.len() == 0 {
        Seq::empty()
    } else {
        id_lines(ids.drop_last()) + decimal(ids.last() as nat) + seq!['\n']
    }
}

impl GroupManifest {
    pub open spec fn wf(&self) -> bool {
        &&& sorted_names(self.inputs@)
        &&& strictly_increasing(self.outputs@)
    }
}

impl ManifestError {
    /// Whether this error says that the manifest file does not exist.
    pub fn is_not_found(&self) -> (r: bool)
        ensures
            r == (self matches ManifestError::Io { not_found, .. } && *not_found),
    {
        match self {
            ManifestError::Io { not_found, .. } => *not_found,
            _ => false,
        }
    }
}

/// Inserts `x` into the strictly increasing `v`, keeping it so.
fn insert_sorted(v: &mut Vec<u64>, x: u64)
    requires
        strictly_increasing(old(v)@),
    ensures
        strictly_increasing(final(v)@),
        forall|y: u64| final(v)@.contains(y) <==> (old(v)@.contains(y) || y == x),
{
    let mut p: usize = 0;
    while p < v.len() && v[p] < x
        invariant
            p <= v.len(),
            forall|k: int| 0 <= k < p ==> v@[k] < x,
        decreases v.len() - p,
    {
        p = p + 1;
    }
    if p < v.len() && v[p] == x {
        assert(v@.contains(x));
        return;
    }
    let ghost before = v@;
    assert(before == old(v)@);
    v.insert(p, x);
    assert forall|y: u64| v@.contains(y) <==> (before.contains(y) || y == x) by {
        if v@.contains(y) {
            let k = choose|k: int| 0 <= k < v@.len() && v@[k] == y;
            if k < p {
                assert(before[k] == y);
            } else if k > p {
                assert(before[k - 1] == y);
            }
        }
        if before.contains(y) {
            let k = choose|k: int| 0 <= k < before.len() && before[k] == y;
            if k < p {
                assert(v@[k] == y);
            } else {
                assert(v@[k + 1] == y);
            }
        }
        if y == x {
            assert(v@[p as int] == x);
        }
    }
    assert(forall|y: u64| v@.contains(y) <==> (old(v)@.contains(y) || y == x));
    assert(strictly_increasing(v@));
}

impl Manifest {
    /// A manifest with no groups and no inputs.
    pub fn new() -> (r: Manifest)
        ensures
            r.groups@.len() == 0,
            r.inputs@.len() == 0,
            r.wf(),
    {
        Manifest { groups: Vec::new(), inputs: Vec::new() }
    }

    /// Groups and inputs are kept in ascending order of name, so at most one
    /// entry stands for each name, and each group is well formed.
    pub open spec fn wf(&self) -> bool {
        &&& sorted_names(keys_of(self.groups@))
        &&& sorted_names(keys_of(self.inputs@))
        &&& forall|i: int| 0 <= i < self.groups@.len() ==> (#[trigger] self.groups@[i]).1.wf()
    }

    /// The distinct ids that inputs were last uploaded to, in ascending order.
    pub fn uploaded_ids(&self) -> (r: Vec<u64>)
        ensures
            strictly_increasing(r@),
            forall|id: u64| r@.contains(id) <==> has_uploaded_id(self.inputs@, id),
    {
        let mut ids: Vec<u64> = Vec::new();
        let mut i: usize = 0;
        while i < self.inputs.len()
            invariant
                i <= self.inputs@.len(),
                strictly_increasing(ids@),
                forall|id: u64|
                    ids@.contains(id) <==> has_uploaded_id(self.inputs@.subrange(0, i as int), id),
            decreases self.inputs@.len() - i,
        {
            let ghost before = ids@;
            if let Some(id) = self.inputs[i].1.uploaded_id {
                insert_sorted(&mut ids, id);
            }
            proof {
                let prev = self.inputs@.subrange(0, i as int);
                let next = self.inputs@.subrange(0, i + 1);
                assert forall|id: u64|
                    ids@.contains(id) <==> has_uploaded_id(next, id) by {
                    if has_uploaded_id(prev, id) {
                        let k = choose|k: int| 0 <= k < prev.len() && #[trigger] prev[k].1.uploaded_id == Some(id);
                        assert(next[k] == prev[k]);
                    }
                    if has_uploaded_id(next, id) {
                        let k = choose|k: int| 0 <= k < next.len() && #[trigger] next[k].1.uploaded_id == Some(id);
                        if k < i {
                            assert(prev[k] == next[k]);
                        }
                    }
                    if self.inputs@[i as int].1.uploaded_id == Some(id) {
                        assert(next[i as int] == self.inputs@[i as int]);
                    }
                }
            }
            i = i + 1;
        }
        assert(self.inputs@.subrange(0, i as int) =~= self.inputs@);
        ids
    }
}

/// The text of an asset list: each id in decimal on a line of its own.
pub fn asset_list_text(ids: &Vec<u64>) -> (r: String)
    ensures
        r@ == id_lines(ids@),
{
    let mut out: Vec<char> = Vec::new();
    let mut i: usize = 0;
    while i < ids.len()
        invariant
            i <= ids@.len(),
            out@ == id_lines(ids@.subrange(0, i as int)),
        decreases ids@.len() - i,
    {
        push_decimal(&mut out, ids[i]);
        out.push('\n');
        proof {
            let next = ids@.subrange(0, i + 1);
            assert(next.drop_last() =~= ids@.subrange(0, i as int));
        }
        i = i + 1;
    }
    assert(ids@.subrange(0, i as int) =~= ids@);
    string_from_chars(&out)
}

/// The asset list of a manifest: every id that an input was last uploaded
/// to, once each, ascending, one per line.
pub fn manifest_asset_list(manifest: &Manifest) -> (r: String)
    ensures
        exists|ids: Seq<u64>|
            {
                &&& strictly_increasing(ids)
                &&& (forall|id: u64| ids.contains(id) <==> has_uploaded_id(manifest.inputs@, id))
                &&& r@ == id_lines(ids)
            },
{
    let ids = manifest.uploaded_ids();
    asset_list_text(&ids)
}

} // verus!
