use vstd::prelude::*;

use crate::text::{chars_of, contains, has_infix};
use crate::RecentError;

verus! {

broadcast use vstd::seq_lib::group_seq_properties;

/// How many levels below an aggregator root the search for member manifests
/// goes, counting the manifest file itself.
pub const MEMBER_SEARCH_DEPTH: usize = 3;

/// What a directory holds under the manifest's file name.
#[derive(Debug)]
pub enum ManifestProbe {
    /// No manifest.
    Absent,
    /// A manifest that could not be read.
    Unreadable,
    /// A manifest, and its text.
    Text(String),
}

/// What was learned of one directory on the way up from a changed file.
#[derive(Debug)]
pub struct DirProbe {
    pub dir: String,
    pub manifest: ManifestProbe,
    /// The directory holds the version-control metadata directory.
    pub has_vcs_marker: bool,
}

/// The outcome of the ascent, by index into the probed directories.
#[derive(Debug, Clone, Copy, PartialEq, Eq, Structural)]
pub enum Ascent {
    /// The nearest directory with a manifest that is no aggregator, met
    /// before any aggregator: the project.
    Project(usize),
    /// The topmost aggregator manifest up to the repository root: its members
    /// are to be searched.
    Aggregator(usize),
    /// Neither a manifest nor a repository root on the whole way up.
    NotFound,
}

/// The text of the section header that makes a manifest an aggregator.
pub open spec fn workspace_header() -> Seq<char> {
    seq!['[', 'w', 'o', 'r', 'k', 's', 'p', 'a', 'c', 'e', ']']
}

/// A manifest whose text declares it an aggregator of sub-projects.
pub open spec fn declares_workspace(t: Seq<char>) -> bool {
    has_infix(t, workspace_header())
}

/// The ascent over `probes`, nearest directory first, from index `k` on, with
/// `found` the aggregator remembered below `k`, if any. A manifest that is no
/// aggregator, met while no aggregator is remembered, is the project; an
/// aggregator is remembered, the topmost one winning; an unreadable manifest on
/// the way fails. The ascent ends at the repository root (the first directory
/// with the version-control marker): there, with no aggregator remembered, no
/// project can be found.
pub open spec fn ascent_from(probes: Seq<DirProbe>, k: int, found: Ascent) -> Result<
    Ascent,
    RecentError,
>
    decreases probes.len() - k,
{
    if k < 0 || k >= probes.len() {
        Ok(found)
    } else if probes[k].manifest is Unreadable {
        Err(RecentError::ManifestUnreadable)
    } else if is_plain_probe(probes[k]) && found is NotFound {
        Ok(Ascent::Project(k as usize))
    } else {
        let next = if is_aggregator_probe(probes[k]) {
            Ascent::Aggregator(k as usize)
        } else {
            found
        };
        if probes[k].has_vcs_marker {
            if next is NotFound {
                Err(RecentError::NoProjectFound)
            } else {
                Ok(next)
            }
        } else {
            ascent_from(probes, k + 1, next)
        }
    }
}

/// The directory holds an aggregator manifest.
pub open spec fn is_aggregator_probe(p: DirProbe) -> bool {
    p.manifest matches ManifestProbe::Text(t) && declares_workspace(t@)
}

/// The directory holds a readable manifest that is no aggregator.
pub open spec fn is_plain_probe(p: DirProbe) -> bool {
    p.manifest matches ManifestProbe::Text(t) && !declares_workspace(t@)
}

/// The outcome of the ascent over `probes`, nearest directory first.
pub open spec fn ascent(probes: Seq<DirProbe>) -> Result<Ascent, RecentError> {
    ascent_from(probes, 0, Ascent::NotFound)
}

/// `dir` properly contains `file`.
pub open spec fn path_contains(dir: Seq<char>, file: Seq<char>) -> bool {
    let d = dir.push('/');
    d.len() <= file.len() && file.subrange(0, d.len() as int) == d
}

/// The number of separators in `s` from position `i` on.
pub open spec fn separators_from(s: Seq<char>, i: int) -> nat
    decreases s.len() - i,
{
    if i < 0 || i >= s.len() {
        0
    } else {
        (if s[i] == '/' { 1nat } else { 0nat }) + separators_from(s, i + 1)
    }
}

/// `c` lies strictly below `root`, close enough that a manifest in it is at
/// most `MEMBER_SEARCH_DEPTH` levels below `root`.
pub open spec fn within_search(root: Seq<char>, c: Seq<char>) -> bool {
    path_contains(root, c) && separators_from(c, root.len() as int) < MEMBER_SEARCH_DEPTH
}

/// `c` is a member directory of the aggregator at `root` that owns `file`.
pub open spec fn is_owning_member(root: Seq<char>, c: Seq<char>, file: Seq<char>) -> bool {
    within_search(root, c) && path_contains(c, file)
}

/// Whether `c` lies strictly below `root` within the search depth.
pub fn in_search_range(root: &Vec<char>, c: &Vec<char>) -> (r: bool)
    ensures
        r == within_search(root@, c@),
{
    if !contains_path(root, c) {
        return false;
    }
    let mut count: usize = 0;
    let mut i: usize = c.len();
    while i > root.len()
        invariant
            root.len() <= i <= c.len(),
            count == separators_from(c@, i as int),
            count < MEMBER_SEARCH_DEPTH,
        decreases i,
    {
        i = i - 1;
        if c[i] == '/' {
            count = count + 1;
            if count >= MEMBER_SEARCH_DEPTH {
                proof {
                    lemma_separators_at_least(c@, root.len() as int, i as int);
                }
                return false;
            }
        }
    }
    true
}

pub proof fn lemma_separators_at_least(s: Seq<char>, i: int, j: int)
    requires
        0 <= i <= j,
    ensures
        separators_from(s, j) <= separators_from(s, i),
    decreases j - i,
{
    if i < j {
        lemma_separators_at_least(s, i + 1, j);
    }
}

/// Decides the ascent from a changed file toward the repository root.
/// `probes` describes the directories that hold the file, nearest first.
pub fn ascend(probes: &Vec<DirProbe>) -> (r: Result<Ascent, RecentError>)
    ensures
        r == ascent(probes@),
{
    let header = vec!['[', 'w', 'o', 'r', 'k', 's', 'p', 'a', 'c', 'e', ']'];
    let mut found = Ascent::NotFound;
    let mut k: usize = 0;
    while k < probes.len()
        invariant
            k <= probes.len(),
            header@ == workspace_header(),
            ascent(probes@) == ascent_from(probes@, k as int, found),
            match found {
                Ascent::Aggregator(i) => i < k,
                Ascent::NotFound => true,
                Ascent::Project(_) => false,
            },
        decreases probes.len() - k,
    {
        let aggregator = match &probes[k].manifest {
            ManifestProbe::Unreadable => {
                return Err(RecentError::ManifestUnreadable);
            },
            ManifestProbe::Text(t) => {
                let agg = contains(&chars_of(t.as_str()), &header);
                if !agg && found == Ascent::NotFound {
                    return Ok(Ascent::Project(k));
                }
                agg
            },
            ManifestProbe::Absent => false,
        };
        if aggregator {
            found = Ascent::Aggregator(k);
        }
        if probes[k].has_vcs_marker {
            if found == Ascent::NotFound {
                return Err(RecentError::NoProjectFound);
            }
            return Ok(found);
        }
        k = k + 1;
    }
    Ok(found)
}

/// Where the directory at `w` is the nearest one with a manifest, that manifest
/// an aggregator, and no other aggregator stands above it up to the repository
/// root, the ascent gives `w` as the aggregator root; `pick_member` then gives
/// `w` back where no member within the search depth contains the file.
pub proof fn lemma_nearest_aggregator_is_root(probes: Seq<DirProbe>, w: int)
    requires
        0 <= w < probes.len(),
        forall|j: int| 0 <= j < w ==> (#[trigger] probes[j]).manifest is Absent && !probes[j].has_vcs_marker,
        is_aggregator_probe(probes[w]),
        forall|j: int|
            w < j < probes.len() && (forall|m: int| w <= m < j ==> !(#[trigger] probes[m]).has_vcs_marker)
                ==> !((#[trigger] probes[j]).manifest is Unreadable) && !is_aggregator_probe(probes[j]),
    ensures
        ascent(probes) == Ok::<Ascent, RecentError>(Ascent::Aggregator(w as usize)),
{
    lemma_ascent_below(probes, w, 0);
}

proof fn lemma_ascent_below(probes: Seq<DirProbe>, w: int, k: int)
    requires
        0 <= k <= w < probes.len(),
        forall|j: int| 0 <= j < w ==> (#[trigger] probes[j]).manifest is Absent && !probes[j].has_vcs_marker,
        is_aggregator_probe(probes[w]),
        forall|j: int|
            w < j < probes.len() && (forall|m: int| w <= m < j ==> !(#[trigger] probes[m]).has_vcs_marker)
                ==> !((#[trigger] probes[j]).manifest is Unreadable) && !is_aggregator_probe(probes[j]),
    ensures
        ascent_from(probes, k, Ascent::NotFound) == Ok::<Ascent, RecentError>(Ascent::Aggregator(w as usize)),
    decreases w - k,
{
    if k < w {
        lemma_ascent_below(probes, w, k + 1);
    } else if !probes[w].has_vcs_marker {
        lemma_ascent_above(probes, w, w + 1);
    }
}

proof fn lemma_ascent_above(probes: Seq<DirProbe>, w: int, k: int)
    requires
        0 <= w < k <= probes.len(),
        forall|m: int| w <= m < k ==> !(#[trigger] probes[m]).has_vcs_marker,
        forall|j: int|
            w < j < probes.len() && (forall|m: int| w <= m < j ==> !(#[trigger] probes[m]).has_vcs_marker)
                ==> !((#[trigger] probes[j]).manifest is Unreadable) && !is_aggregator_probe(probes[j]),
    ensures
        ascent_from(probes, k, Ascent::Aggregator(w as usize)) == Ok::<Ascent, RecentError>(Ascent::Aggregator(w as usize)),
    decreases probes.len() - k,
{
    if k < probes.len() {
        assert(!(probes[k].manifest is Unreadable) && !is_aggregator_probe(probes[k]));
        if !probes[k].has_vcs_marker {
            lemma_ascent_above(probes, w, k + 1);
        }
    }
}

/// Whether `dir` properly contains `file`.
pub fn contains_path(dir: &Vec<char>, file: &Vec<char>) -> (r: bool)
    ensures
        r == path_contains(dir@, file@),
{
    if dir.len() >= file.len() {
        return false;
    }
    let mut i: usize = 0;
    while i < dir.len()
        invariant
            dir.len() < file.len(),
            i <= dir.len(),
            forall|k: int| 0 <= k < i ==> file@[k] == dir@[k],
        decreases dir.len() - i,
    {
        if dir[i] != file[i] {
            assert(file@.subrange(0, dir.len() + 1)[i as int] != dir@.push('/')[i as int]);
            return false;
        }
        i = i + 1;
    }
    if file[dir.len()] != '/' {
        assert(file@.subrange(0, dir.len() + 1)[dir.len() as int] != dir@.push('/')[dir.len() as int]);
        return false;
    }
    assert(file@.subrange(0, dir.len() + 1) =~= dir@.push('/'));
    true
}

/// The project directory inside the aggregator at `root` that owns `file`: of
/// the directories with a manifest found below `root` within the search depth,
/// the deepest one that contains `file`, or `root` itself where none does. All
/// paths are canonical.
pub fn pick_member(file: &str, root: &str, candidates: &Vec<String>) -> (r: String)
    ensures
        (forall|i: int| 0 <= i < candidates.len() ==> !is_owning_member(root@, #[trigger] candidates@[i]@, file@)) ==> r@ == root@,
        (exists|i: int| 0 <= i < candidates.len() && is_owning_member(root@, #[trigger] candidates@[i]@, file@)) ==> {
            &&& exists|i: int| 0 <= i < candidates.len() && is_owning_member(root@, #[trigger] candidates@[i]@, file@) && candidates@[i]@ == r@
            &&& forall|j: int| 0 <= j < candidates.len() && is_owning_member(root@, #[trigger] candidates@[j]@, file@) ==> candidates@[j]@.len() <= r@.len()
        },
{
    let fc = chars_of(file);
    let rc = chars_of(root);
    let mut best: Option<usize> = None;
    let mut best_len: usize = 0;
    let mut k: usize = 0;
    while k < candidates.len()
        invariant
            k <= candidates.len(),
            fc@ == file@,
            rc@ == root@,
            best is None ==> forall|j: int| 0 <= j < k ==> !is_owning_member(root@, #[trigger] candidates@[j]@, file@),
            best matches Some(b) ==> {
                &&& b < k
                &&& is_owning_member(root@, candidates@[b as int]@, file@)
                &&& best_len == candidates@[b as int]@.len()
                &&& forall|j: int| 0 <= j < k && is_owning_member(root@, #[trigger] candidates@[j]@, file@) ==> candidates@[j]@.len() <= best_len
            },
        decreases candidates.len() - k,
    {
        let cc = chars_of(candidates[k].as_str());
        if in_search_range(&rc, &cc) && contains_path(&cc, &fc) {
            if best.is_none() || cc.len() > best_len {
                best = Some(k);
                best_len = cc.len();
            }
        }
        k = k + 1;
    }
    match best {
        None => String::from_str(root),
        Some(b) => candidates[b].clone(),
    }
}

/// The last resort when the ascent found nothing: the working directory, if it
/// holds a manifest itself.
pub fn working_dir_fallback(cwd: String, cwd_has_manifest: bool) -> (r: Result<String, RecentError>)
    ensures
        cwd_has_manifest ==> (r matches Ok(d) && d@ == cwd@),
        !cwd_has_manifest ==> r == Err::<String, RecentError>(RecentError::NoProjectFound),
{
    if cwd_has_manifest {
        Ok(cwd)
    } else {
        Err(RecentError::NoProjectFound)
    }
}

/// The repository root among the working directory and its ancestors, nearest
/// first: the first that holds the version-control metadata directory.
pub fn repo_root_index(markers: &Vec<bool>) -> (r: Option<usize>)
    ensures
        r matches Some(i) ==> i < markers.len() && markers@[i as int] && forall|j: int| 0 <= j < i ==> !markers@[j],
        r is None <==> forall|j: int| 0 <= j < markers.len() ==> !markers@[j],
{
    let mut k: usize = 0;
    while k < markers.len()
        invariant
            k <= markers.len(),
            forall|j: int| 0 <= j < k ==> !markers@[j],
        decreases markers.len() - k,
    {
        if markers[k] {
            return Some(k);
        }
        k = k + 1;
    }
    None
}

} // verus!
