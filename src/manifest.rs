use vstd::prelude::*;

use crate::text::{chars_of, is_white_space};

verus! {

broadcast use vstd::seq_lib::group_seq_properties;

/// The pattern of a line that declares the package name: at the start of a
/// line, `name`, `=` and a quoted value, white space allowed around each part.
pub const NAME_LINE_PATTERN: &'static str = r#"(?m)^\s*name\s*=\s*"([^"]+)""#;

/// The characters of the name-line pattern.
pub open spec fn name_line_pattern() -> Seq<char> {
    seq![
        '(', '?', 'm', ')', '^', '\\', 's', '*', 'n', 'a', 'm', 'e', '\\', 's', '*', '=', '\\', 's',
        '*', '"', '(', '[', '^', '"', ']', '+', ')', '"',
    ]
}

/// The first index at or after `i` that holds no white space, or the end.
pub open spec fn skip_spaces(s: Seq<char>, i: int) -> int
    decreases s.len() - i,
{
    if 0 <= i < s.len() && is_white_space(s[i]) {
        skip_spaces(s, i + 1)
    } else {
        i
    }
}

/// The first index at or after `i` that holds a double quote, or the end.
pub open spec fn quote_end(s: Seq<char>, i: int) -> int
    decreases s.len() - i,
{
    if 0 <= i < s.len() && s[i] != '"' {
        quote_end(s, i + 1)
    } else {
        i
    }
}

/// A line starts at `i`.
pub open spec fn is_line_start(s: Seq<char>, i: int) -> bool {
    i == 0 || (0 < i <= s.len() && s[i - 1] == '\n')
}

/// The value that a name declaration starting at `i` gives, if one starts there.
pub open spec fn name_match_at(s: Seq<char>, i: int) -> Option<Seq<char>> {
    let a = skip_spaces(s, i);
    let b = skip_spaces(s, a + 4);
    let c = skip_spaces(s, b + 1);
    let d = quote_end(s, c + 1);
    if is_line_start(s, i) && a + 4 <= s.len() && s.subrange(a, a + 4) == seq!['n', 'a', 'm', 'e']
        && b < s.len() && s[b] == '=' && c < s.len() && s[c] == '"' && c + 1 < d && d < s.len() {
        Some(s.subrange(c + 1, d))
    } else {
        None
    }
}

/// The value of the first name declaration that starts at or after `i`.
pub open spec fn name_declaration_from(s: Seq<char>, i: int) -> Option<Seq<char>>
    decreases s.len() + 1 - i,
{
    if i < 0 || i > s.len() {
        None
    } else if name_match_at(s, i) is Some {
        name_match_at(s, i)
    } else {
        name_declaration_from(s, i + 1)
    }
}

/// The value of the first name declaration in a manifest's text.
pub open spec fn name_declaration(s: Seq<char>) -> Option<Seq<char>> {
    name_declaration_from(s, 0)
}

/// Relies on regex::Regex::new and Regex::captures: with the name-line pattern,
/// the first group of the leftmost match, the regex crate's `\s` being Unicode
/// white space and its multi-line `^` matching after a line feed.
#[verifier::external_body]
fn first_name_capture(pattern: &str, haystack: &str) -> (r: Option<String>)
    requires
        pattern@ == name_line_pattern(),
    ensures
        match r {
            Some(v) => name_declaration(haystack@) == Some(v@),
            None => name_declaration(haystack@) is None,
        },
{
    let re = regex::Regex::new(pattern).ok()?;
    let caps = re.captures(haystack)?;
    caps.get(1).map(|m| m.as_str().to_string())
}

/// Where the segment that ends at `e` starts: just after the last separator before `e`.
pub open spec fn segment_start(p: Seq<char>, e: int) -> int
    decreases e,
{
    if e <= 0 {
        0
    } else if p[e - 1] == '/' {
        e
    } else {
        segment_start(p, e - 1)
    }
}

/// The final component of `p` up to position `e`, as a path names it: empty
/// and `.` segments are passed over, and a final `..` gives none.
pub open spec fn final_from(p: Seq<char>, e: int) -> Seq<char>
    decreases e,
{
    if e <= 0 || e > p.len() {
        seq![]
    } else {
        let s = segment_start(p, e);
        if s < 0 || s > e {
            seq![]
        } else {
            let seg = p.subrange(s, e);
            if seg.len() == 0 || seg == seq!['.'] {
                if s == 0 {
                    seq![]
                } else {
                    final_from(p, s - 1)
                }
            } else if seg == seq!['.', '.'] {
                seq![]
            } else {
                seg
            }
        }
    }
}

/// The final component of a path, or empty where it has none.
pub open spec fn final_component(p: Seq<char>) -> Seq<char> {
    final_from(p, p.len() as int)
}

/// The name of the crate in `crate_dir` whose manifest reads `manifest`: the
/// declared name, else the directory's final component.
pub open spec fn crate_name_of(crate_dir: Seq<char>, manifest: Seq<char>) -> Seq<char> {
    match name_declaration(manifest) {
        Some(v) => v,
        None => final_component(crate_dir),
    }
}

pub proof fn lemma_segment_start_bounds(p: Seq<char>, e: int)
    requires
        0 <= e <= p.len(),
    ensures
        0 <= segment_start(p, e) <= e,
        segment_start(p, e) > 0 ==> p[segment_start(p, e) - 1] == '/',
        forall|k: int| segment_start(p, e) <= k < e ==> p[k] != '/',
    decreases e,
{
    if e > 0 && p[e - 1] != '/' {
        lemma_segment_start_bounds(p, e - 1);
    }
}

/// Where the final component of `p` stands in it, as a start and an end.
fn final_component_range(p: &Vec<char>) -> (r: (usize, usize))
    ensures
        r.0 <= r.1 <= p.len(),
        p@.subrange(r.0 as int, r.1 as int) == final_component(p@),
{
    let mut e: usize = p.len();
    while e > 0
        invariant
            e <= p.len(),
            final_component(p@) == final_from(p@, e as int),
        decreases e,
    {
        let mut s: usize = e;
        while s > 0 && p[s - 1] != '/'
            invariant
                s <= e <= p.len(),
                segment_start(p@, s as int) == segment_start(p@, e as int),
            decreases s,
        {
            s = s - 1;
        }
        proof {
            lemma_segment_start_bounds(p@, e as int);
        }
        assert(segment_start(p@, e as int) == s);
        let len: usize = e - s;
        let dot = len == 1 && p[s] == '.';
        let dotdot = len == 2 && p[s] == '.' && p[s + 1] == '.';
        let ghost seg = p@.subrange(s as int, e as int);
        if len == 0 || dot {
            if dot {
                assert(seg =~= seq!['.']);
            }
            if s == 0 {
                assert(p@.subrange(0, 0) =~= final_component(p@));
                return (0, 0);
            }
            e = s - 1;
        } else {
            if dotdot {
                assert(seg =~= seq!['.', '.']);
                assert(p@.subrange(0, 0) =~= final_component(p@));
                return (0, 0);
            }
            assert(seg != seq!['.']) by {
                if len == 1 {
                    assert(seg[0] == p@[s as int]);
                }
            }
            assert(seg != seq!['.', '.']) by {
                if len == 2 {
                    assert(seg[0] == p@[s as int]);
                    assert(seg[1] == p@[s + 1]);
                }
            }
            return (s, e);
        }
    }
    assert(p@.subrange(0, 0) =~= final_component(p@));
    (0, 0)
}

/// The final component of `path`, or empty where it has none.
pub fn final_component_of(path: &str) -> (r: String)
    ensures
        r@ == final_component(path@),
{
    let cs = chars_of(path);
    let (s, e) = final_component_range(&cs);
    String::from_str(path.substring_char(s, e))
}

/// The declared name in a manifest's text, if it has one.
pub fn declared_name(manifest: &str) -> (r: Option<String>)
    ensures
        match r {
            Some(v) => name_declaration(manifest@) == Some(v@),
            None => name_declaration(manifest@) is None,
        },
{
    proof {
        reveal_strlit(r#"(?m)^\s*name\s*=\s*"([^"]+)""#);
    }
    assert(NAME_LINE_PATTERN@ =~= name_line_pattern());
    first_name_capture(NAME_LINE_PATTERN, manifest)
}

/// The name of the crate in `crate_dir`, whose manifest reads `manifest`: the
/// value of its first name declaration, else the directory's final component.
pub fn crate_name(crate_dir: &str, manifest: &str) -> (r: String)
    ensures
        r@ == crate_name_of(crate_dir@, manifest@),
{
    match declared_name(manifest) {
        Some(v) => v,
        None => final_component_of(crate_dir),
    }
}

/// A line `name = "<value>"`, with the white space `w1`, `w2` and `w3`
/// before `name`, before `=` and before the opening quote.
pub open spec fn name_line(w1: Seq<char>, w2: Seq<char>, w3: Seq<char>, value: Seq<char>) -> Seq<
    char,
> {
    w1 + seq!['n', 'a', 'm', 'e'] + w2 + seq!['='] + w3 + seq!['"'] + value + seq!['"']
}

/// All of `w` is white space.
pub open spec fn all_white(w: Seq<char>) -> bool {
    forall|k: int| 0 <= k < w.len() ==> is_white_space(#[trigger] w[k])
}

pub proof fn lemma_skip_spaces_bounds(s: Seq<char>, i: int)
    requires
        0 <= i <= s.len(),
    ensures
        i <= skip_spaces(s, i) <= s.len(),
        forall|k: int| i <= k < skip_spaces(s, i) ==> is_white_space(#[trigger] s[k]),
        skip_spaces(s, i) < s.len() ==> !is_white_space(s[skip_spaces(s, i)]),
    decreases s.len() - i,
{
    if i < s.len() && is_white_space(s[i]) {
        lemma_skip_spaces_bounds(s, i + 1);
    }
}

pub proof fn lemma_quote_end_over(s: Seq<char>, i: int, e: int)
    requires
        0 <= i <= e < s.len(),
        s[e] == '"',
        forall|k: int| i <= k < e ==> s[k] != '"',
    ensures
        quote_end(s, i) == e,
    decreases e - i,
{
    if i < e {
        lemma_quote_end_over(s, i + 1, e);
    }
}

pub proof fn lemma_skip_spaces_over(s: Seq<char>, i: int, e: int)
    requires
        0 <= i <= e < s.len(),
        !is_white_space(s[e]),
        forall|k: int| i <= k < e ==> is_white_space(#[trigger] s[k]),
    ensures
        skip_spaces(s, i) == e,
    decreases e - i,
{
    if i < e {
        lemma_skip_spaces_over(s, i + 1, e);
    }
}

/// Where each part of a name line stands in it.
proof fn lemma_name_line_parts(w1: Seq<char>, w2: Seq<char>, w3: Seq<char>, value: Seq<char>)
    ensures
        ({
            let l = name_line(w1, w2, w3, value);
            let a = w1.len() as int;
            let b = a + 4 + w2.len();
            let c = b + 1 + w3.len();
            let d = c + 1 + value.len();
            &&& l.len() == d + 1
            &&& forall|k: int| 0 <= k < a ==> #[trigger] l[k] == w1[k]
            &&& l.subrange(a, a + 4) == seq!['n', 'a', 'm', 'e']
            &&& forall|k: int| a + 4 <= k < b ==> #[trigger] l[k] == w2[k - a - 4]
            &&& l[b] == '='
            &&& forall|k: int| b + 1 <= k < c ==> #[trigger] l[k] == w3[k - b - 1]
            &&& l[c] == '"'
            &&& l.subrange(c + 1, d) == value
            &&& l[d] == '"'
        }),
{
    let nm = seq!['n', 'a', 'm', 'e'];
    let x1 = w1 + nm;
    let x2 = x1 + w2;
    let x3 = x2 + seq!['='];
    let x4 = x3 + w3;
    let x5 = x4 + seq!['"'];
    let x6 = x5 + value;
    let l = x6 + seq!['"'];
    assert(l == name_line(w1, w2, w3, value));
    assert(x1.subrange(w1.len() as int, x1.len() as int) =~= nm);
    assert(x6.subrange(x5.len() as int, x6.len() as int) =~= value);
    assert(l.subrange(w1.len() as int, w1.len() as int + 4) =~= x1.subrange(w1.len() as int, x1.len() as int));
    assert(l.subrange(x5.len() as int, x6.len() as int) =~= x6.subrange(x5.len() as int, x6.len() as int));
}

/// At the start of a name line, a declaration of its value begins.
#[verifier::rlimit(50)]
proof fn lemma_name_line_matches(
    before: Seq<char>,
    w1: Seq<char>,
    w2: Seq<char>,
    w3: Seq<char>,
    value: Seq<char>,
    after: Seq<char>,
)
    requires
        before.len() == 0 || before.last() == '\n',
        all_white(w1),
        all_white(w2),
        all_white(w3),
        value.len() > 0,
        forall|k: int| 0 <= k < value.len() ==> value[k] != '"',
    ensures
        name_match_at(before + name_line(w1, w2, w3, value) + after, before.len() as int) == Some(
            value,
        ),
{
    let l = name_line(w1, w2, w3, value);
    let s = before + l + after;
    let n = before.len() as int;
    let a = n + w1.len();
    let b = a + 4 + w2.len();
    let c = b + 1 + w3.len();
    let d = c + 1 + value.len();
    lemma_name_line_parts(w1, w2, w3, value);
    assert forall|k: int| 0 <= k < l.len() implies s[n + k] == #[trigger] l[k] by {}
    assert forall|k: int| n <= k < a implies is_white_space(#[trigger] s[k]) by {
        assert(s[n + (k - n)] == l[k - n]);
    }
    assert(s.subrange(a, a + 4) =~= l.subrange(a - n, a - n + 4));
    assert(s[a] == 'n') by {
        assert(s.subrange(a, a + 4)[0] == s[a]);
    }
    assert forall|k: int| a + 4 <= k < b implies is_white_space(#[trigger] s[k]) by {
        assert(s[n + (k - n)] == l[k - n]);
    }
    assert(s[b] == '=') by {
        assert(s[n + (b - n)] == l[b - n]);
    }
    assert forall|k: int| b + 1 <= k < c implies is_white_space(#[trigger] s[k]) by {
        assert(s[n + (k - n)] == l[k - n]);
    }
    assert(s[c] == '"') by {
        assert(s[n + (c - n)] == l[c - n]);
    }
    assert(s.subrange(c + 1, d) =~= l.subrange(c + 1 - n, d - n));
    assert forall|k: int| c + 1 <= k < d implies s[k] != '"' by {
        assert(s.subrange(c + 1, d)[k - c - 1] == s[k]);
    }
    assert(s[d] == '"') by {
        assert(s[n + (d - n)] == l[d - n]);
    }
    lemma_skip_spaces_over(s, n, a);
    lemma_skip_spaces_over(s, a + 4, b);
    lemma_skip_spaces_over(s, b + 1, c);
    lemma_quote_end_over(s, c + 1, d);
    if n > 0 {
        assert(s[n - 1] == before.last());
    }
}

proof fn lemma_declaration_from_reaches(s: Seq<char>, n: int, i: int, value: Seq<char>)
    requires
        0 <= i <= n <= s.len(),
        forall|k: int| 0 <= k < n ==> name_match_at(s, k) is None,
        name_match_at(s, n) == Some(value),
    ensures
        name_declaration_from(s, i) == Some(value),
    decreases n - i,
{
    if i < n {
        lemma_declaration_from_reaches(s, n, i + 1, value);
    }
}

/// The name that a manifest declares on a line `name = "<value>"`, with any
/// white space around `name` and `=`, comes back from the manifest's text
/// unchanged where no declaration begins before that line, whatever the
/// crate's directory and whatever follows the line.
pub proof fn lemma_declared_name_round_trip(
    crate_dir: Seq<char>,
    before: Seq<char>,
    w1: Seq<char>,
    w2: Seq<char>,
    w3: Seq<char>,
    value: Seq<char>,
    after: Seq<char>,
)
    requires
        before.len() == 0 || before.last() == '\n',
        all_white(w1),
        all_white(w2),
        all_white(w3),
        value.len() > 0,
        forall|k: int| 0 <= k < value.len() ==> value[k] != '"',
        forall|i: int|
            0 <= i < before.len() ==> name_match_at(
                before + name_line(w1, w2, w3, value) + after,
                i,
            ) is None,
    ensures
        crate_name_of(crate_dir, before + name_line(w1, w2, w3, value) + after) == value,
{
    let s = before + name_line(w1, w2, w3, value) + after;
    lemma_name_line_matches(before, w1, w2, w3, value, after);
    lemma_declaration_from_reaches(s, before.len() as int, 0, value);
}

proof fn lemma_no_declaration_from(s: Seq<char>, i: int)
    requires
        !crate::text::has_infix(s, seq!['n', 'a', 'm', 'e']),
    ensures
        name_declaration_from(s, i) is None,
    decreases s.len() + 1 - i,
{
    if 0 <= i <= s.len() {
        let a = skip_spaces(s, i);
        lemma_skip_spaces_bounds(s, i);
        if name_match_at(s, i) is Some {
            assert(crate::text::occurs_at(s, seq!['n', 'a', 'm', 'e'], a));
        }
        lemma_no_declaration_from(s, i + 1);
    }
}

/// A manifest whose text never spells `name` declares no name, and the crate
/// is named after its directory's final component.
pub proof fn lemma_missing_name_falls_back(crate_dir: Seq<char>, manifest: Seq<char>)
    requires
        !crate::text::has_infix(manifest, seq!['n', 'a', 'm', 'e']),
    ensures
        crate_name_of(crate_dir, manifest) == final_component(crate_dir),
{
    lemma_no_declaration_from(manifest, 0);
}

} // verus!
