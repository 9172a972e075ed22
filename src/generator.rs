//! Candidate patterns: every ordering of every choice of dots, kept where
//! consecutive dots stay close enough.
use vstd::prelude::*;

use itertools::Itertools;
use permutator::Permutation;

use crate::config::{GRID_SIZE, PATTERN_DISTANCE_MAX};
use crate::geometry::{chebyshev, chebyshev_distance};

verus! {

/// The dot sequences held by a list of vectors.
pub open spec fn views(v: Seq<Vec<u16>>) -> Seq<Seq<u16>> {
    v.map_values(|x: Vec<u16>| x@)
}

/// Every two consecutive dots of `p` are at most `max` apart.
pub open spec fn path_within(p: Seq<u16>, grid: int, max: int) -> bool {
    forall|i: int| 0 <= i < p.len() - 1 ==> chebyshev(#[trigger] p[i] as int, p[i + 1] as int, grid) <= max
}

/// The `k`-element selections of `s`, each in the order of `s`, listed in
/// lexicographic order of the positions chosen.
pub open spec fn combos(s: Seq<u16>, k: nat) -> Seq<Seq<u16>>
    decreases s.len(),
{
    if k == 0 {
        seq![Seq::<u16>::empty()]
    } else if s.len() == 0 {
        Seq::empty()
    } else {
        combos(s.drop_first(), (k - 1) as nat).map_values(|c: Seq<u16>| seq![s[0]] + c) + combos(
            s.drop_first(),
            k,
        )
    }
}

/// The orderings of `s` in the order that Heap's algorithm visits them,
/// `s` itself first.
pub uninterp spec fn heap_order(s: Seq<u16>) -> Seq<Seq<u16>>;

/// The orderings of `combo` that keep consecutive dots within `max`.
pub open spec fn valid_orderings(combo: Seq<u16>, grid: int, max: int) -> Seq<Seq<u16>> {
    heap_order(combo).filter(|p: Seq<u16>| path_within(p, grid, max))
}

/// The valid orderings of the first `n` selections of `cs`, one selection
/// after another.
pub open spec fn orderings_of(cs: Seq<Seq<u16>>, n: int, grid: int, max: int) -> Seq<Seq<u16>>
    decreases n,
{
    if n <= 0 {
        Seq::empty()
    } else {
        orderings_of(cs, n - 1, grid, max) + valid_orderings(cs[n - 1], grid, max)
    }
}

/// The patterns of exactly `len` dots.
pub open spec fn patterns_of_len(dots: Seq<u16>, len: nat, grid: int, max: int) -> Seq<Seq<u16>> {
    let cs = combos(dots, len);
    orderings_of(cs, cs.len() as int, grid, max)
}

/// The patterns of `lo` to `hi` dots, shorter ones first.
pub open spec fn patterns(dots: Seq<u16>, lo: int, hi: int, grid: int, max: int) -> Seq<Seq<u16>>
    decreases hi - lo + 1,
{
    if hi < lo || hi < 0 {
        Seq::empty()
    } else {
        patterns(dots, lo, hi - 1, grid, max) + patterns_of_len(dots, hi as nat, grid, max)
    }
}

/// A pattern that may be tried: its length is within bounds, it uses dots
/// of the set, none twice, and its consecutive dots stay within `max`.
pub open spec fn well_formed(p: Seq<u16>, dots: Seq<u16>, lo: int, hi: int, grid: int, max: int) -> bool {
    &&& lo <= p.len() <= hi
    &&& (dots.no_duplicates() ==> p.no_duplicates())
    &&& forall|i: int| 0 <= i < p.len() ==> dots.contains(#[trigger] p[i])
    &&& path_within(p, grid, max)
}

/// Each selection has `k` elements, taken from `s` without reuse of a
/// position.
proof fn lemma_combos(s: Seq<u16>, k: nat)
    ensures
        forall|j: int| 0 <= j < combos(s, k).len() ==> {
            let c = #[trigger] combos(s, k)[j];
            &&& c.len() == k
            &&& (s.no_duplicates() ==> c.no_duplicates())
            &&& forall|i: int| 0 <= i < c.len() ==> s.contains(#[trigger] c[i])
        },
    decreases s.len(),
{
    if k == 0 {
    } else if s.len() == 0 {
    } else {
        let t = s.drop_first();
        lemma_combos(t, (k - 1) as nat);
        lemma_combos(t, k);
        let left = combos(t, (k - 1) as nat).map_values(|c: Seq<u16>| seq![s[0]] + c);
        assert forall|j: int| 0 <= j < combos(s, k).len() implies {
            let c = #[trigger] combos(s, k)[j];
            &&& c.len() == k
            &&& (s.no_duplicates() ==> c.no_duplicates())
            &&& forall|i: int| 0 <= i < c.len() ==> s.contains(#[trigger] c[i])
        } by {
            let c = combos(s, k)[j];
            if j < left.len() {
                let d = combos(t, (k - 1) as nat)[j];
                assert(c == seq![s[0]] + d);
                assert forall|i: int| 0 <= i < c.len() implies s.contains(#[trigger] c[i]) by {
                    if i == 0 {
                        assert(s[0] == c[i]);
                    } else {
                        assert(c[i] == d[i - 1]);
                        assert(t.contains(d[i - 1]));
                        let w = choose|w: int| 0 <= w < t.len() && t[w] == d[i - 1];
                        assert(s[w + 1] == c[i]);
                    }
                }
                if s.no_duplicates() {
                    assert(t.no_duplicates());
                    assert forall|a: int, b: int| 0 <= a < c.len() && 0 <= b < c.len() && a != b implies c[a] != c[b] by {
                        if a == 0 && b > 0 {
                            assert(c[b] == d[b - 1]);
                            assert(t.contains(d[b - 1]));
                            let w = choose|w: int| 0 <= w < t.len() && t[w] == d[b - 1];
                            assert(s[w + 1] == c[b]);
                        } else if b == 0 && a > 0 {
                            assert(c[a] == d[a - 1]);
                            assert(t.contains(d[a - 1]));
                            let w = choose|w: int| 0 <= w < t.len() && t[w] == d[a - 1];
                            assert(s[w + 1] == c[a]);
                        } else if a > 0 && b > 0 {
                            assert(c[a] == d[a - 1]);
                            assert(c[b] == d[b - 1]);
                        }
                    }
                }
            } else {
                let d = combos(t, k)[j - left.len()];
                assert(c == d);
                assert forall|i: int| 0 <= i < c.len() implies s.contains(#[trigger] c[i]) by {
                    assert(t.contains(d[i]));
                    let w = choose|w: int| 0 <= w < t.len() && t[w] == d[i];
                    assert(s[w + 1] == c[i]);
                }
                if s.no_duplicates() {
                    assert(t.no_duplicates());
                }
            }
        }
    }
}

/// Relies on itertools' `Itertools::combinations`: the `k`-element
/// selections by position, in lexicographic order of the positions, one
/// empty selection for `k == 0`, none where `k` exceeds the length.
#[verifier::external_body]
fn combinations_of(dots: &Vec<u16>, k: usize) -> (r: Vec<Vec<u16>>)
    ensures
        views(r@) == combos(dots@, k as nat),
{
    dots.iter().copied().combinations(k).collect()
}

/// Relies on permutator's `Permutation::permutation` on a `Vec`: every
/// ordering that Heap's algorithm produces, each a rearrangement of the
/// input.
#[verifier::external_body]
fn permutations_of(items: &Vec<u16>) -> (r: Vec<Vec<u16>>)
    ensures
        views(r@) == heap_order(items@),
        forall|i: int| 0 <= i < r@.len() ==> (#[trigger] r@[i])@.to_multiset() == items@.to_multiset(),
{
    let mut data = items.clone();
    data.permutation().collect()
}

/// Whether every two consecutive dots of `dots` are at most `max_distance`
/// apart on a grid `grid_size` dots wide.
pub fn within_distance(dots: &Vec<u16>, grid_size: u16, max_distance: u16) -> (r: bool)
    requires
        grid_size > 0,
    ensures
        r == path_within(dots@, grid_size as int, max_distance as int),
{
    let mut i: usize = 0;
    while i < dots.len() && i + 1 < dots.len()
        invariant
            grid_size > 0,
            i <= dots@.len(),
            forall|k: int| 0 <= k < i && k < dots@.len() - 1 ==> chebyshev(#[trigger] dots@[k] as int, dots@[k + 1] as int, grid_size as int) <= max_distance,
        decreases dots@.len() - i,
    {
        if chebyshev_distance(dots[i], dots[i + 1], grid_size) > max_distance {
            return false;
        }
        i = i + 1;
    }
    true
}

/// Whether every two consecutive dots of a pattern are at most the
/// configured distance apart on the configured grid.
pub fn valid_distance(dots: &Vec<&u16>) -> (r: bool)
    ensures
        r == path_within(dots@.map_values(|d: &u16| *d), GRID_SIZE as int, PATTERN_DISTANCE_MAX as int),
{
    let mut plain: Vec<u16> = Vec::new();
    let mut i: usize = 0;
    while i < dots.len()
        invariant
            i <= dots@.len(),
            plain@ == dots@.subrange(0, i as int).map_values(|d: &u16| *d),
        decreases dots@.len() - i,
    {
        plain.push(*dots[i]);
        i = i + 1;
        assert(plain@ =~= dots@.subrange(0, i as int).map_values(|d: &u16| *d));
    }
    assert(dots@.subrange(0, i as int) =~= dots@);
    within_distance(&plain, GRID_SIZE, PATTERN_DISTANCE_MAX)
}

/// A rearrangement of `c` has its length and its elements, and repeats none
/// where `c` repeats none.
proof fn lemma_rearrangement(p: Seq<u16>, c: Seq<u16>)
    requires
        p.to_multiset() == c.to_multiset(),
    ensures
        p.len() == c.len(),
        forall|x: u16| p.contains(x) <==> c.contains(x),
        c.no_duplicates() ==> p.no_duplicates(),
{
    vstd::seq_lib::to_multiset_len(p);
    vstd::seq_lib::to_multiset_len(c);
    assert forall|x: u16| p.contains(x) <==> c.contains(x) by {
        vstd::seq_lib::to_multiset_contains(p, x);
        vstd::seq_lib::to_multiset_contains(c, x);
    }
    if c.no_duplicates() {
        c.lemma_multiset_has_no_duplicates();
        p.lemma_multiset_has_no_duplicates_conv();
    }
}

/// The orderings among `orderings` whose consecutive dots stay within
/// `max_distance`, in their given order.
pub fn keep_within(orderings: &Vec<Vec<u16>>, grid_size: u16, max_distance: u16) -> (r: Vec<Vec<u16>>)
    requires
        grid_size > 0,
    ensures
        views(r@) == views(orderings@).filter(|p: Seq<u16>| path_within(p, grid_size as int, max_distance as int)),
        forall|k: int| 0 <= k < r@.len() ==> path_within(#[trigger] r@[k]@, grid_size as int, max_distance as int),
        forall|k: int| 0 <= k < r@.len() ==> views(orderings@).contains(#[trigger] r@[k]@),
{
    let ghost pred = |p: Seq<u16>| path_within(p, grid_size as int, max_distance as int);
    let mut r: Vec<Vec<u16>> = Vec::new();
    let mut i: usize = 0;
    while i < orderings.len()
        invariant
            grid_size > 0,
            pred == (|p: Seq<u16>| path_within(p, grid_size as int, max_distance as int)),
            i <= orderings@.len(),
            views(r@) == views(orderings@.subrange(0, i as int)).filter(pred),
            forall|k: int| 0 <= k < r@.len() ==> path_within(#[trigger] r@[k]@, grid_size as int, max_distance as int),
            forall|k: int| 0 <= k < r@.len() ==> views(orderings@).contains(#[trigger] r@[k]@),
        decreases orderings@.len() - i,
    {
        let ghost before = orderings@.subrange(0, i as int);
        let ghost old_r0 = r@;
        let ghost after = orderings@.subrange(0, i as int + 1);
        assert(views(after).drop_last() =~= views(before));
        assert(views(after).last() == orderings@[i as int]@);
        reveal_with_fuel(Seq::<_>::filter, 1);
        assert(views(after).filter(pred) == (if pred(orderings@[i as int]@) {
            views(before).filter(pred).push(orderings@[i as int]@)
        } else {
            views(before).filter(pred)
        }));
        if within_distance(&orderings[i], grid_size, max_distance) {
            let c = orderings[i].clone();
            assert(c@ =~= orderings@[i as int]@);
            let ghost old_r = r@;
            r.push(c);
            assert(views(r@) =~= views(old_r).push(c@));
            assert(r@[r@.len() - 1] == c);
            assert(r@[r@.len() - 1]@ == orderings@[i as int]@);
            assert(views(orderings@)[i as int] == c@);
            assert forall|k: int| 0 <= k < r@.len() implies views(orderings@).contains(#[trigger] r@[k]@) by {
                if k < old_r.len() {
                    assert(r@[k] == old_r[k]);
                } else {
                    assert(r@[k]@ == orderings@[i as int]@);
                }
            }
        }
        i = i + 1;
    }
    assert(orderings@.subrange(0, i as int) =~= orderings@);
    r
}

/// Every pattern of `len_min` to `len_max` dots drawn from `dots` whose
/// consecutive dots are at most `max_distance` apart on a grid `grid_size`
/// dots wide. Shorter patterns come first; within a length, the selections
/// of dots come in lexicographic order, and the orderings of one selection
/// in the order of Heap's algorithm.
pub fn generate_patterns(dots: &Vec<u16>, grid_size: u16, len_min: u16, len_max: u16, max_distance: u16) -> (r: Vec<Vec<u16>>)
    requires
        grid_size > 0,
    ensures
        views(r@) == patterns(dots@, len_min as int, len_max as int, grid_size as int, max_distance as int),
        forall|j: int| 0 <= j < r@.len() ==> well_formed(#[trigger] r@[j]@, dots@, len_min as int, len_max as int, grid_size as int, max_distance as int),
{
    let ghost g = grid_size as int;
    let ghost m = max_distance as int;
    let mut r: Vec<Vec<u16>> = Vec::new();
    let mut n: u32 = len_min as u32;
    while n <= len_max as u32
        invariant
            grid_size > 0,
            g == grid_size as int,
            m == max_distance as int,
            len_min <= n,
            n <= len_max + 1 || n == len_min,
            views(r@) == patterns(dots@, len_min as int, n as int - 1, g, m),
            forall|j: int| 0 <= j < r@.len() ==> well_formed(#[trigger] r@[j]@, dots@, len_min as int, len_max as int, g, m),
        decreases len_max + 1 - n,
    {
        let cs = combinations_of(dots, n as usize);
        proof {
            lemma_combos(dots@, n as nat);
        }
        let ghost base = views(r@);
        let mut j: usize = 0;
        while j < cs.len()
            invariant
                grid_size > 0,
                g == grid_size as int,
                m == max_distance as int,
                len_min <= n <= len_max,
                j <= cs@.len(),
                views(cs@) == combos(dots@, n as nat),
                forall|q: int| 0 <= q < combos(dots@, n as nat).len() ==> {
                    let c = #[trigger] combos(dots@, n as nat)[q];
                    &&& c.len() == n
                    &&& (dots@.no_duplicates() ==> c.no_duplicates())
                    &&& forall|i: int| 0 <= i < c.len() ==> dots@.contains(#[trigger] c[i])
                },
                views(r@) == base + orderings_of(views(cs@), j as int, g, m),
                forall|k: int| 0 <= k < r@.len() ==> well_formed(#[trigger] r@[k]@, dots@, len_min as int, len_max as int, g, m),
            decreases cs@.len() - j,
        {
            let perms = permutations_of(&cs[j]);
            let mut kept = keep_within(&perms, grid_size, max_distance);
            let ghost c = cs@[j as int]@;
            assert(views(cs@)[j as int] == c);
            assert(views(perms@) == heap_order(c));
            let ghost old_r = r@;
            let ghost added = kept@;
            r.append(&mut kept);
            assert(views(r@) =~= views(old_r) + views(added));
            assert forall|k: int| 0 <= k < r@.len() implies well_formed(#[trigger] r@[k]@, dots@, len_min as int, len_max as int, g, m) by {
                if k >= old_r.len() {
                    let p = added[k - old_r.len()]@;
                    assert(r@[k]@ == p);
                    assert(views(perms@).contains(p));
                    let w = choose|w: int| 0 <= w < views(perms@).len() && views(perms@)[w] == p;
                    assert(p == perms@[w]@);
                    lemma_rearrangement(p, c);
                    assert forall|i: int| 0 <= i < p.len() implies dots@.contains(#[trigger] p[i]) by {
                        assert(p.contains(p[i]));
                        assert(c.contains(p[i]));
                        let y = choose|y: int| 0 <= y < c.len() && c[y] == p[i];
                        assert(dots@.contains(c[y]));
                    }
                } else {
                    assert(r@[k] == old_r[k]);
                }
            }
            j = j + 1;
        }
        assert(views(r@) == patterns(dots@, len_min as int, n as int, g, m));
        n = n + 1;
    }
    r
}

} // verus!
