//! The resource-name algebra: `/`-separated selectors where `*` matches one
//! non-empty segment and `**` matches any number of segments, with the
//! intersection and inclusion relations used by routing-table lookups.
use vstd::prelude::*;

use crate::strfmt::str_eq;

verus! {

/// The single-segment wildcard.
pub open spec fn seg_star() -> Seq<char> {
    "*"@
}

/// The multi-segment wildcard.
pub open spec fn seg_dstar() -> Seq<char> {
    "**"@
}

/// The index of the first `/` in `s`, or -1 when there is none.
pub open spec fn spec_first_slash(s: Seq<char>) -> int
    decreases s.len(),
{
    if s.len() == 0 {
        -1
    } else if s[0] == '/' {
        0
    } else {
        let r = spec_first_slash(s.drop_first());
        if r < 0 {
            -1
        } else {
            r + 1
        }
    }
}

/// The segments of a name or selector, split on `/`.
pub open spec fn spec_split(s: Seq<char>) -> Seq<Seq<char>>
    decreases s.len(),
{
    let i = spec_first_slash(s);
    if i < 0 || i >= s.len() {
        seq![s]
    } else {
        seq![s.take(i)] + spec_split(s.skip(i + 1))
    }
}

/// Characterization of `spec_first_slash` by the position of the first
/// slash found by a scan.
proof fn lemma_first_slash(s: Seq<char>, i: int)
    requires
        0 <= i <= s.len(),
        forall|k: int| 0 <= k < i ==> s[k] != '/',
        i < s.len() ==> s[i] == '/',
    ensures
        i == s.len() ==> spec_first_slash(s) == -1,
        i < s.len() ==> spec_first_slash(s) == i,
    decreases s.len(),
{
    if s.len() == 0 {
    } else if s[0] == '/' {
    } else {
        assert(i >= 1);
        let d = s.drop_first();
        assert(forall|k: int| 0 <= k < i - 1 ==> d[k] == s[k + 1] && d[k] != '/');
        lemma_first_slash(d, i - 1);
    }
}

/// Finds the first `/` in `s`.
fn find_slash(s: &str) -> (r: Option<usize>)
    ensures
        match r {
            Some(i) => i < s@.len() && s@[i as int] == '/' && (forall|k: int|
                0 <= k < i ==> s@[k] != '/') && spec_first_slash(s@) == i,
            Option::None => (forall|k: int| 0 <= k < s@.len() ==> s@[k] != '/')
                && spec_first_slash(s@) == -1,
        },
{
    let n = s.unicode_len();
    let mut i: usize = 0;
    while i < n
        invariant
            n == s@.len(),
            i <= n,
            forall|k: int| 0 <= k < i ==> s@[k] != '/',
        decreases n - i,
    {
        if s.get_char(i) == '/' {
            proof {
                lemma_first_slash(s@, i as int);
            }
            return Some(i);
        }
        i += 1;
    }
    proof {
        lemma_first_slash(s@, n as int);
    }
    None
}

/// Splits a name or selector into its segments.
pub fn split_segments(s: &str) -> (r: Vec<String>)
    ensures
        r.deep_view() == spec_split(s@),
        r.len() >= 1,
    decreases s@.len(),
{
    let n = s.unicode_len();
    match find_slash(s) {
        Option::None => {
            let mut r: Vec<String> = Vec::new();
            r.push(String::from_str(s));
            proof {
                assert(r.deep_view() =~= seq![s@]);
            }
            r
        },
        Some(i) => {
            let head = s.substring_char(0, i);
            let tail = s.substring_char(i + 1, n);
            proof {
                assert(head@ == s@.take(i as int));
                assert(tail@ =~= s@.skip(i + 1));
            }
            let rest = split_segments(tail);
            let mut r: Vec<String> = Vec::new();
            r.push(String::from_str(head));
            let mut j: usize = 0;
            while j < rest.len()
                invariant
                    j <= rest.len(),
                    r.len() == j + 1,
                    r.deep_view() == seq![head@] + rest.deep_view().take(j as int),
                decreases rest.len() - j,
            {
                let ghost prev = r.deep_view();
                r.push(rest[j].clone());
                proof {
                    assert(r.deep_view() =~= prev.push(rest.deep_view()[j as int]));
                    assert(prev.push(rest.deep_view()[j as int]) =~= seq![head@]
                        + rest.deep_view().take(j + 1));
                }
                j += 1;
            }
            proof {
                assert(rest.deep_view().take(rest.deep_view().len() as int) =~= rest.deep_view());
                assert(r.deep_view() =~= seq![s@.take(i as int)] + spec_split(s@.skip(i + 1)));
            }
            r
        },
    }
}

/// One segment of each selector can stand for the same concrete segment:
/// they are equal, or one is the single-segment wildcard.
pub open spec fn spec_chunk_intersect(a: Seq<char>, b: Seq<char>) -> bool {
    a == seg_star() || b == seg_star() || a == b
}

/// Every concrete segment matched by `b` is matched by `a`.
pub open spec fn spec_chunk_includes(a: Seq<char>, b: Seq<char>) -> bool {
    a == seg_star() || a == b
}

/// Every segment of `s` is the multi-segment wildcard.
pub open spec fn spec_all_dstar(s: Seq<Seq<char>>) -> bool {
    forall|i: int| 0 <= i < s.len() ==> s[i] == seg_dstar()
}

/// Some concrete name is matched by both selectors.
pub open spec fn spec_intersect(a: Seq<Seq<char>>, b: Seq<Seq<char>>) -> bool
    decreases a.len() + b.len(),
{
    if a.len() == 0 {
        spec_all_dstar(b)
    } else if b.len() == 0 {
        spec_all_dstar(a)
    } else if a[0] == seg_dstar() {
        spec_intersect(a.drop_first(), b) || spec_intersect(a, b.drop_first())
    } else if b[0] == seg_dstar() {
        spec_intersect(a, b.drop_first()) || spec_intersect(a.drop_first(), b)
    } else {
        spec_chunk_intersect(a[0], b[0]) && spec_intersect(a.drop_first(), b.drop_first())
    }
}

/// Every concrete name matched by `b` is matched by `a`.
pub open spec fn spec_includes(a: Seq<Seq<char>>, b: Seq<Seq<char>>) -> bool
    decreases a.len() + b.len(),
{
    if a.len() == 0 {
        b.len() == 0
    } else if a[0] == seg_dstar() {
        if a.len() == 1 {
            true
        } else if b.len() == 0 {
            spec_includes(a.drop_first(), b)
        } else {
            spec_includes(a.drop_first(), b) || spec_includes(a, b.drop_first())
        }
    } else if b.len() == 0 {
        false
    } else if b[0] == seg_dstar() {
        false
    } else {
        spec_chunk_includes(a[0], b[0]) && spec_includes(a.drop_first(), b.drop_first())
    }
}

/// The intersection relation is reflexive: every selector intersects
/// itself.
pub proof fn lemma_intersect_refl(a: Seq<Seq<char>>)
    ensures
        spec_intersect(a, a),
    decreases a.len(),
{
    if a.len() > 0 {
        lemma_intersect_refl(a.drop_first());
        if a[0] == seg_dstar() {
            assert(spec_intersect(a, a.drop_first()));
        }
    }
}

/// The intersection relation is symmetric.
pub proof fn lemma_intersect_sym(a: Seq<Seq<char>>, b: Seq<Seq<char>>)
    ensures
        spec_intersect(a, b) == spec_intersect(b, a),
    decreases a.len() + b.len(),
{
    if a.len() > 0 && b.len() > 0 {
        lemma_intersect_sym(a.drop_first(), b);
        lemma_intersect_sym(a, b.drop_first());
        lemma_intersect_sym(a.drop_first(), b.drop_first());
    }
}

/// The inclusion relation is reflexive: every selector includes itself.
pub proof fn lemma_includes_refl(a: Seq<Seq<char>>)
    ensures
        spec_includes(a, a),
    decreases a.len(),
{
    if a.len() > 0 {
        lemma_includes_refl(a.drop_first());
        if a[0] == seg_dstar() && a.len() > 1 {
            assert(spec_includes(a, a.drop_first()));
        }
    }
}

proof fn lemma_all_dstar_unfold(a: Seq<Seq<char>>)
    requires
        a.len() > 0,
    ensures
        spec_all_dstar(a) == (a[0] == seg_dstar() && spec_all_dstar(a.drop_first())),
{
    let d = a.drop_first();
    if a[0] == seg_dstar() && spec_all_dstar(d) {
        assert forall|i: int| 0 <= i < a.len() implies a[i] == seg_dstar() by {
            if i > 0 {
                assert(a[i] == d[i - 1]);
            }
        }
    }
    if spec_all_dstar(a) {
        assert forall|i: int| 0 <= i < d.len() implies d[i] == seg_dstar() by {
            assert(d[i] == a[i + 1]);
        }
    }
}

/// Including the empty selector takes an all-wildcard selector.
proof fn lemma_includes_empty(a: Seq<Seq<char>>)
    ensures
        spec_includes(a, Seq::<Seq<char>>::empty()) == spec_all_dstar(a),
    decreases a.len(),
{
    if a.len() > 0 {
        lemma_all_dstar_unfold(a);
        if a[0] == seg_dstar() && a.len() > 1 {
            lemma_includes_empty(a.drop_first());
        }
    }
}

/// An all-wildcard selector includes every selector.
proof fn lemma_all_dstar_includes(a: Seq<Seq<char>>, c: Seq<Seq<char>>)
    requires
        spec_all_dstar(a),
        a.len() >= 1,
    ensures
        spec_includes(a, c),
    decreases a.len() + c.len(),
{
    lemma_all_dstar_unfold(a);
    if a.len() > 1 {
        if c.len() == 0 {
            assert(c =~= Seq::<Seq<char>>::empty());
            lemma_includes_empty(a.drop_first());
        } else {
            lemma_all_dstar_includes(a.drop_first(), c);
        }
    }
}

/// The inclusion relation is transitive.
pub proof fn lemma_includes_trans(a: Seq<Seq<char>>, b: Seq<Seq<char>>, c: Seq<Seq<char>>)
    requires
        spec_includes(a, b),
        spec_includes(b, c),
    ensures
        spec_includes(a, c),
    decreases a.len() + b.len() + c.len(),
{
    if a.len() == 0 {
        // b is empty, so c is empty too
    } else if a[0] == seg_dstar() {
        if a.len() == 1 {
        } else if b.len() == 0 {
            assert(b =~= c);
        } else {
            if spec_includes(a.drop_first(), b) {
                lemma_includes_trans(a.drop_first(), b, c);
            } else {
                assert(spec_includes(a, b.drop_first()));
                if b[0] == seg_dstar() {
                    if b.len() == 1 {
                        assert(b.drop_first() =~= Seq::<Seq<char>>::empty());
                        lemma_includes_empty(a);
                        lemma_all_dstar_includes(a, c);
                    } else if c.len() == 0 {
                        lemma_includes_trans(a, b.drop_first(), c);
                    } else if spec_includes(b.drop_first(), c) {
                        lemma_includes_trans(a, b.drop_first(), c);
                    } else {
                        assert(spec_includes(b, c.drop_first()));
                        lemma_includes_trans(a, b, c.drop_first());
                    }
                } else {
                    lemma_includes_trans(a, b.drop_first(), c.drop_first());
                }
            }
        }
    } else {
        lemma_includes_trans(a.drop_first(), b.drop_first(), c.drop_first());
    }
}

fn is_seg(s: &String, pat: &str) -> (r: bool)
    ensures
        r == (s@ == pat@),
{
    str_eq(s.as_str(), pat)
}

fn chunk_intersect(a: &String, b: &String) -> (r: bool)
    ensures
        r == spec_chunk_intersect(a@, b@),
{
    is_seg(a, "*") || is_seg(b, "*") || str_eq(a.as_str(), b.as_str())
}

fn chunk_includes(a: &String, b: &String) -> (r: bool)
    ensures
        r == spec_chunk_includes(a@, b@),
{
    is_seg(a, "*") || str_eq(a.as_str(), b.as_str())
}

fn all_dstar_from(v: &Vec<String>, i: usize) -> (r: bool)
    requires
        i <= v.len(),
    ensures
        r == spec_all_dstar(v.deep_view().skip(i as int)),
{
    let mut j: usize = i;
    while j < v.len()
        invariant
            i <= j <= v.len(),
            forall|k: int| i <= k < j ==> v.deep_view()[k] == seg_dstar(),
        decreases v.len() - j,
    {
        if !is_seg(&v[j], "**") {
            proof {
                assert(v.deep_view().skip(i as int)[j - i] != seg_dstar());
            }
            return false;
        }
        j += 1;
    }
    proof {
        assert forall|k: int| 0 <= k < v.deep_view().skip(i as int).len() implies v.deep_view().skip(
            i as int,
        )[k] == seg_dstar() by {
            assert(v.deep_view().skip(i as int)[k] == v.deep_view()[k + i]);
        }
    }
    true
}

fn intersect_at(a: &Vec<String>, b: &Vec<String>, i: usize, j: usize) -> (r: bool)
    requires
        i <= a.len(),
        j <= b.len(),
    ensures
        r == spec_intersect(a.deep_view().skip(i as int), b.deep_view().skip(j as int)),
    decreases a.len() + b.len() - i - j,
{
    let ghost av = a.deep_view().skip(i as int);
    let ghost bv = b.deep_view().skip(j as int);
    proof {
        assert(av.len() == a.len() - i);
        assert(bv.len() == b.len() - j);
        if i < a.len() {
            assert(av[0] == a.deep_view()[i as int]);
            assert(av.drop_first() =~= a.deep_view().skip(i + 1));
        }
        if j < b.len() {
            assert(bv[0] == b.deep_view()[j as int]);
            assert(bv.drop_first() =~= b.deep_view().skip(j + 1));
        }
    }
    if i == a.len() {
        all_dstar_from(b, j)
    } else if j == b.len() {
        all_dstar_from(a, i)
    } else if is_seg(&a[i], "**") {
        intersect_at(a, b, i + 1, j) || intersect_at(a, b, i, j + 1)
    } else if is_seg(&b[j], "**") {
        intersect_at(a, b, i, j + 1) || intersect_at(a, b, i + 1, j)
    } else {
        chunk_intersect(&a[i], &b[j]) && intersect_at(a, b, i + 1, j + 1)
    }
}

fn includes_at(a: &Vec<String>, b: &Vec<String>, i: usize, j: usize) -> (r: bool)
    requires
        i <= a.len(),
        j <= b.len(),
    ensures
        r == spec_includes(a.deep_view().skip(i as int), b.deep_view().skip(j as int)),
    decreases a.len() + b.len() - i - j,
{
    let ghost av = a.deep_view().skip(i as int);
    let ghost bv = b.deep_view().skip(j as int);
    proof {
        assert(av.len() == a.len() - i);
        assert(bv.len() == b.len() - j);
        if i < a.len() {
            assert(av[0] == a.deep_view()[i as int]);
            assert(av.drop_first() =~= a.deep_view().skip(i + 1));
        }
        if j < b.len() {
            assert(bv[0] == b.deep_view()[j as int]);
            assert(bv.drop_first() =~= b.deep_view().skip(j + 1));
        }
    }
    if i == a.len() {
        j == b.len()
    } else if is_seg(&a[i], "**") {
        if i + 1 == a.len() {
            true
        } else if j == b.len() {
            includes_at(a, b, i + 1, j)
        } else {
            includes_at(a, b, i + 1, j) || includes_at(a, b, i, j + 1)
        }
    } else if j == b.len() {
        false
    } else if is_seg(&b[j], "**") {
        false
    } else {
        chunk_includes(&a[i], &b[j]) && includes_at(a, b, i + 1, j + 1)
    }
}

/// A selector delivers on a name when the two intersect; with a concrete
/// name this is exactly the matching relation used by routing tables.
pub open spec fn spec_matches(selector: Seq<char>, name: Seq<char>) -> bool {
    spec_intersect(spec_split(selector), spec_split(name))
}

/// A well-formed name or selector: it starts with `/`, ends with another
/// character, and holds no empty segment.
pub open spec fn spec_valid_name(s: Seq<char>) -> bool {
    &&& s.len() >= 2
    &&& s[0] == '/'
    &&& s[s.len() - 1] != '/'
    &&& forall|i: int| 0 <= i < s.len() - 1 ==> !((#[trigger] s[i]) == '/' && s[i + 1] == '/')
}

/// Checks a name or selector for well-formedness.
pub fn is_valid_name(s: &str) -> (r: bool)
    ensures
        r == spec_valid_name(s@),
{
    let n = s.unicode_len();
    if n < 2 {
        return false;
    }
    if s.get_char(0) != '/' {
        return false;
    }
    if s.get_char(n - 1) == '/' {
        return false;
    }
    let mut i: usize = 0;
    while i + 1 < n
        invariant
            n == s@.len(),
            i < n,
            forall|k: int| 0 <= k < i ==> !((#[trigger] s@[k]) == '/' && s@[k + 1] == '/'),
        decreases n - i,
    {
        if s.get_char(i) == '/' && s.get_char(i + 1) == '/' {
            return false;
        }
        i += 1;
    }
    true
}

/// Two selectors intersect: at least one concrete name satisfies both.
pub fn intersect(s1: &str, s2: &str) -> (r: bool)
    ensures
        r == spec_intersect(spec_split(s1@), spec_split(s2@)),
{
    let v1 = split_segments(s1);
    let v2 = split_segments(s2);
    let r = intersect_at(&v1, &v2, 0, 0);
    proof {
        assert(v1.deep_view().skip(0) =~= spec_split(s1@));
        assert(v2.deep_view().skip(0) =~= spec_split(s2@));
    }
    r
}

/// The first selector includes the second: every concrete name satisfying
/// the second satisfies the first.
pub fn includes(s1: &str, s2: &str) -> (r: bool)
    ensures
        r == spec_includes(spec_split(s1@), spec_split(s2@)),
{
    let v1 = split_segments(s1);
    let v2 = split_segments(s2);
    let r = includes_at(&v1, &v2, 0, 0);
    proof {
        assert(v1.deep_view().skip(0) =~= spec_split(s1@));
        assert(v2.deep_view().skip(0) =~= spec_split(s2@));
    }
    r
}

} // verus!
