use vstd::prelude::*;

use crate::text::{blank, chars_of, ends_with, has_suffix, is_blank, lines_of, split_lines};
use crate::RecentError;

verus! {

broadcast use vstd::seq_lib::group_seq_properties;

/// What was learned of one changed file on disk: its absolute path, and its
/// modification time in nanoseconds since the Unix epoch, or `None` where the
/// file is gone or its metadata could not be read.
#[derive(Debug)]
pub struct FileStat {
    pub path: String,
    pub modified: Option<i128>,
}

/// A path is relevant when it names a Rust source file, a manifest or a lock file.
pub open spec fn is_relevant(p: Seq<char>) -> bool {
    has_suffix(p, seq!['.', 'r', 's']) || has_suffix(
        p,
        seq!['C', 'a', 'r', 'g', 'o', '.', 't', 'o', 'm', 'l'],
    ) || has_suffix(p, seq!['C', 'a', 'r', 'g', 'o', '.', 'l', 'o', 'c', 'k'])
}

/// `rel` joined onto `root`: an absolute `rel` replaces `root`, and a separator
/// goes between the two unless `root` is empty or already ends in one.
pub open spec fn join_path(root: Seq<char>, rel: Seq<char>) -> Seq<char> {
    if rel.len() > 0 && rel[0] == '/' {
        rel
    } else if root.len() == 0 || root.last() == '/' {
        root + rel
    } else {
        root + seq!['/'] + rel
    }
}

/// The absolute paths of the relevant files that a diff listing names, in its order.
pub open spec fn changed_paths(root: Seq<char>, diff: Seq<char>) -> Seq<Seq<char>> {
    lines_of(diff).filter(|l: Seq<char>| is_relevant(l)).map_values(
        |l: Seq<char>| join_path(root, l),
    )
}

/// Strict lexicographic order of texts, character by character.
pub open spec fn text_lt(a: Seq<char>, b: Seq<char>) -> bool
    decreases a.len(),
{
    if a.len() == 0 {
        b.len() > 0
    } else if b.len() == 0 {
        false
    } else if a[0] != b[0] {
        (a[0] as u32) < (b[0] as u32)
    } else {
        text_lt(a.drop_first(), b.drop_first())
    }
}

/// `a` is to be preferred over `b`: both were stat'ed, and `a` is newer, or as
/// new with a smaller path.
pub open spec fn newer(a: FileStat, b: FileStat) -> bool {
    &&& a.modified is Some
    &&& b.modified is Some
    &&& a.modified->0 > b.modified->0 || (a.modified->0 == b.modified->0 && text_lt(
        a.path@,
        b.path@,
    ))
}

/// The file at `i` is the latest change among `stats`.
pub open spec fn is_latest(stats: Seq<FileStat>, i: int) -> bool {
    &&& 0 <= i < stats.len()
    &&& stats[i].modified is Some
    &&& forall|j: int| 0 <= j < stats.len() ==> !newer(#[trigger] stats[j], stats[i])
}

pub proof fn lemma_text_lt_transitive(a: Seq<char>, b: Seq<char>, c: Seq<char>)
    requires
        text_lt(a, b),
        text_lt(b, c),
    ensures
        text_lt(a, c),
    decreases a.len(),
{
    if a.len() > 0 && b.len() > 0 && c.len() > 0 && a[0] == b[0] && b[0] == c[0] {
        lemma_text_lt_transitive(a.drop_first(), b.drop_first(), c.drop_first());
    }
}

/// Whether `a` comes strictly before `b` in lexicographic order.
pub fn less_text(a: &Vec<char>, b: &Vec<char>) -> (r: bool)
    ensures
        r == text_lt(a@, b@),
{
    let mut i: usize = 0;
    while i < a.len() && i < b.len()
        invariant
            i <= a.len(),
            i <= b.len(),
            text_lt(a@, b@) == text_lt(a@.skip(i as int), b@.skip(i as int)),
        decreases a.len() - i,
    {
        assert(a@.skip(i as int)[0] == a@[i as int]);
        assert(b@.skip(i as int)[0] == b@[i as int]);
        if a[i] != b[i] {
            return (a[i] as u32) < (b[i] as u32);
        }
        assert(a@.skip(i as int).drop_first() =~= a@.skip(i + 1));
        assert(b@.skip(i as int).drop_first() =~= b@.skip(i + 1));
        i = i + 1;
    }
    i == a.len() && i < b.len()
}

/// Whether a diff line names a relevant file.
pub fn relevant(line: &str) -> (r: bool)
    ensures
        r == is_relevant(line@),
{
    let cs = chars_of(line);
    ends_with(&cs, &vec!['.', 'r', 's']) || ends_with(
        &cs,
        &vec!['C', 'a', 'r', 'g', 'o', '.', 't', 'o', 'm', 'l'],
    ) || ends_with(&cs, &vec!['C', 'a', 'r', 'g', 'o', '.', 'l', 'o', 'c', 'k'])
}

/// `rel` joined onto `root`.
pub fn join(root: &str, rel: &str) -> (r: String)
    ensures
        r@ == join_path(root@, rel@),
{
    let rc = chars_of(rel);
    if rc.len() > 0 && rc[0] == '/' {
        return String::from_str(rel);
    }
    let oc = chars_of(root);
    let mut out = String::from_str(root);
    if !(oc.len() == 0 || oc[oc.len() - 1] == '/') {
        out.append("/");
        proof {
            reveal_strlit("/");
        }
    }
    out.append(rel);
    out
}

/// Reads the output of a diff listing run at `repo_root`. A blank listing means
/// that nothing changed (`None`); otherwise the absolute paths of the relevant
/// files that it names, in its order, are to be stat'ed.
pub fn relevant_changes(repo_root: &str, diff_output: &str) -> (r: Option<Vec<String>>)
    ensures
        r is None <==> is_blank(diff_output@),
        r matches Some(v) ==> v@.map_values(|p: String| p@) == changed_paths(
            repo_root@,
            diff_output@,
        ),
{
    if blank(&chars_of(diff_output)) {
        return None;
    }
    let lines = split_lines(diff_output);
    let ghost ls = lines@.map_values(|l: String| l@);
    let ghost pred = |l: Seq<char>| is_relevant(l);
    let ghost f = |l: Seq<char>| join_path(repo_root@, l);
    let mut out: Vec<String> = Vec::new();
    let mut k: usize = 0;
    while k < lines.len()
        invariant
            k <= lines.len(),
            ls == lines@.map_values(|l: String| l@),
            ls == lines_of(diff_output@),
            pred == (|l: Seq<char>| is_relevant(l)),
            f == (|l: Seq<char>| join_path(repo_root@, l)),
            out@.map_values(|p: String| p@) == ls.take(k as int).filter(pred).map_values(f),
        decreases lines.len() - k,
    {
        let line = &lines[k];
        proof {
            ls.take(k as int).lemma_filter_push(ls[k as int], pred);
            assert(ls.take(k + 1) =~= ls.take(k as int).push(ls[k as int]));
        }
        assert(ls[k as int] == line@);
        let ghost prev = out@.map_values(|p: String| p@);
        if relevant(line.as_str()) {
            let p = join(repo_root, line.as_str());
            out.push(p);
            assert(out@.map_values(|p: String| p@) =~= prev.push(f(line@)));
            assert(out@.map_values(|p: String| p@) =~= ls.take(k + 1).filter(pred).map_values(f));
        } else {
            assert(out@.map_values(|p: String| p@) =~= ls.take(k + 1).filter(pred).map_values(f));
        }
        k = k + 1;
    }
    assert(ls.take(k as int) =~= ls);
    Some(out)
}

/// Picks the latest change among the stat'ed files: the newest, and among
/// equally new ones the smallest path. Fails with `NoValidChange` exactly when
/// no file could be stat'ed.
pub fn select_latest(stats: &Vec<FileStat>) -> (r: Result<usize, RecentError>)
    ensures
        r is Err <==> forall|j: int| 0 <= j < stats.len() ==> (#[trigger] stats@[j]).modified is None,
        r is Err ==> r == Err::<usize, RecentError>(RecentError::NoValidChange),
        r matches Ok(i) ==> is_latest(stats@, i as int),
{
    let mut best: Option<usize> = None;
    let mut k: usize = 0;
    while k < stats.len()
        invariant
            k <= stats.len(),
            best is None ==> forall|j: int| 0 <= j < k ==> (#[trigger] stats@[j]).modified is None,
            best matches Some(b) ==> b < k && stats@[b as int].modified is Some && forall|j: int|
                0 <= j < k ==> !newer(#[trigger] stats@[j], stats@[b as int]),
        decreases stats.len() - k,
    {
        if let Some(t) = stats[k].modified {
            match best {
                None => {
                    proof {
                        lemma_text_lt_irreflexive(stats@[k as int].path@);
                    }
                    best = Some(k);
                },
                Some(b) => {
                    let bt = stats[b].modified.unwrap();
                    let take = if t > bt {
                        true
                    } else if t == bt {
                        less_text(&chars_of(stats[k].path.as_str()), &chars_of(stats[b].path.as_str()))
                    } else {
                        false
                    };
                    if take {
                        proof {
                            assert forall|j: int| 0 <= j <= k implies !newer(
                                #[trigger] stats@[j],
                                stats@[k as int],
                            ) by {
                                if j < k && newer(stats@[j], stats@[k as int]) {
                                    assert(!newer(stats@[j], stats@[b as int]));
                                    if stats@[j].modified->0 == stats@[k as int].modified->0 {
                                        lemma_text_lt_transitive(
                                            stats@[j].path@,
                                            stats@[k as int].path@,
                                            stats@[b as int].path@,
                                        );
                                    }
                                }
                                if j == k {
                                    lemma_text_lt_irreflexive(stats@[j].path@);
                                }
                            }
                        }
                        best = Some(k);
                    }
                },
            }
        }
        k = k + 1;
    }
    match best {
        None => Err(RecentError::NoValidChange),
        Some(b) => Ok(b),
    }
}

pub proof fn lemma_text_lt_irreflexive(a: Seq<char>)
    ensures
        !text_lt(a, a),
    decreases a.len(),
{
    if a.len() > 0 {
        lemma_text_lt_irreflexive(a.drop_first());
    }
}

/// A diff listing that is not blank but names only irrelevant files leaves
/// nothing to stat: whatever was stat'ed, no file has a modification time, so
/// `select_latest` fails with `NoValidChange`.
pub proof fn lemma_only_irrelevant_changes(root: Seq<char>, diff: Seq<char>, stats: Seq<FileStat>)
    requires
        !is_blank(diff),
        forall|i: int| 0 <= i < lines_of(diff).len() ==> !is_relevant(#[trigger] lines_of(diff)[i]),
        stats.map_values(|f: FileStat| f.path@) == changed_paths(root, diff),
    ensures
        changed_paths(root, diff).len() == 0,
        forall|j: int| 0 <= j < stats.len() ==> (#[trigger] stats[j]).modified is None,
{
    let pred = |l: Seq<char>| is_relevant(l);
    assert(lines_of(diff).all(|x: Seq<char>| !pred(x)));
    lines_of(diff).lemma_all_neg_filter_empty(pred);
    assert(stats.map_values(|f: FileStat| f.path@).len() == stats.len());
}

} // verus!
