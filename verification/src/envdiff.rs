//! Environment diffing: the traced process's `KEY=VALUE` environment
//! entries, as decoded from an exec call, compared against the baseline
//! environment captured at startup.
//!
//! The diff is characterized purely by key lookups, so it does not depend on
//! the order of the arrays: a key is added when only the traced environment
//! has it, removed when only the baseline has it, modified when both have it
//! with different values, unchanged when both have it with the same value.

use vstd::prelude::*;

use crate::event::{bytes_eq, bytes_views, clone_bytes};

verus! {

/// The views of a sequence of key/value byte-string pairs.
pub open spec fn pairs_views(s: Seq<(Vec<u8>, Vec<u8>)>) -> Seq<(Seq<u8>, Seq<u8>)> {
    s.map_values(|p: (Vec<u8>, Vec<u8>)| (p.0@, p.1@))
}

/// The value of the first pair at or past `o` whose key is `k`, if any.
pub open spec fn first_val_from(s: Seq<(Seq<u8>, Seq<u8>)>, k: Seq<u8>, o: int) -> Option<Seq<u8>>
    decreases s.len() - o,
{
    if o < 0 || o >= s.len() {
        Option::None
    } else if s[o].0 == k {
        Some(s[o].1)
    } else {
        first_val_from(s, k, o + 1)
    }
}

/// The value bound to `k`, under first-occurrence-wins semantics.
pub open spec fn lookup(s: Seq<(Seq<u8>, Seq<u8>)>, k: Seq<u8>) -> Option<Seq<u8>> {
    first_val_from(s, k, 0)
}

/// Position of the first `=` at or past `o`, if any.
pub open spec fn first_eq_from(s: Seq<u8>, o: int) -> Option<int>
    decreases s.len() - o,
{
    if o < 0 || o >= s.len() {
        Option::None
    } else if s[o] == 61u8 {
        Some(o)
    } else {
        first_eq_from(s, o + 1)
    }
}

/// How a raw `KEY=VALUE` entry splits: at its first `=`, except that an
/// entry starting with `=` splits at the next one; an entry with no
/// separator is a key with an empty value.
pub open spec fn spec_split_env(e: Seq<u8>) -> (Seq<u8>, Seq<u8>) {
    let start: int = if e.len() > 0 && e[0] == 61u8 {
        1
    } else {
        0
    };
    match first_eq_from(e, start) {
        Some(p) => (e.subrange(0, p), e.subrange(p + 1, e.len() as int)),
        Option::None => (e, Seq::empty()),
    }
}

/// The split key/value pairs of a sequence of raw entries.
pub open spec fn split_pairs(envp: Seq<Seq<u8>>) -> Seq<(Seq<u8>, Seq<u8>)> {
    envp.map_values(|e: Seq<u8>| spec_split_env(e))
}

/// The traced environment's binding for `k`: the value of the first raw
/// entry whose key is `k`.
pub open spec fn traced_lookup(envp: Seq<Seq<u8>>, k: Seq<u8>) -> Option<Seq<u8>> {
    lookup(split_pairs(envp), k)
}

/// Whether `keys` holds `k`.
pub open spec fn contains_key(keys: Seq<Seq<u8>>, k: Seq<u8>) -> bool {
    exists|i: int| 0 <= i < keys.len() && keys[i] == k
}

/// If no pair in `s[o..i]` has key `k`, the first binding at or past `o` is
/// the first at or past `i`.
pub proof fn lemma_first_val_skip(s: Seq<(Seq<u8>, Seq<u8>)>, k: Seq<u8>, o: int, i: int)
    requires
        0 <= o <= i <= s.len(),
        forall|j: int| o <= j < i ==> s[j].0 != k,
    ensures
        first_val_from(s, k, o) == first_val_from(s, k, i),
    decreases i - o,
{
    if o < i {
        lemma_first_val_skip(s, k, o + 1, i);
    }
}

/// Appending a pair binds `k` exactly when the sequence already did, or the
/// new pair's key is `k`.
pub proof fn lemma_first_val_push(s: Seq<(Seq<u8>, Seq<u8>)>, p: (Seq<u8>, Seq<u8>), k: Seq<u8>, o: int)
    requires
        0 <= o <= s.len(),
    ensures
        first_val_from(s.push(p), k, o) == (match first_val_from(s, k, o) {
            Some(v) => Some(v),
            Option::None => if p.0 == k {
                Some(p.1)
            } else {
                Option::None
            },
        }),
    decreases s.len() - o,
{
    if o == s.len() {
        assert(s.push(p)[o] == p);
    } else {
        assert(s.push(p)[o] == s[o]);
        if s[o].0 != k {
            lemma_first_val_push(s, p, k, o + 1);
        }
    }
}

/// A bound key is bound by some pair.
proof fn lemma_first_val_some_exists(s: Seq<(Seq<u8>, Seq<u8>)>, k: Seq<u8>, o: int)
    requires
        0 <= o,
        first_val_from(s, k, o) is Some,
    ensures
        exists|i: int|
            o <= i < s.len() && (#[trigger] s[i]).0 == k && s[i].1 == first_val_from(
                s,
                k,
                o,
            ).unwrap(),
    decreases s.len() - o,
{
    if o < s.len() && s[o].0 != k {
        lemma_first_val_some_exists(s, k, o + 1);
    }
}

/// With unique keys, any pair with key `k` gives the binding.
proof fn lemma_lookup_at_index(s: Seq<(Seq<u8>, Seq<u8>)>, k: Seq<u8>, i: int, o: int)
    requires
        unique_keys(s),
        0 <= o <= i < s.len(),
        s[i].0 == k,
    ensures
        first_val_from(s, k, o) == Some(s[i].1),
    decreases i - o,
{
    if o < i {
        assert(s[o].0 != s[i].0);
        lemma_lookup_at_index(s, k, i, o + 1);
    }
}

/// Environment bindings do not depend on the order of the raw entries: two
/// arrays holding the same entries (each with duplicate-free keys) bind
/// every key alike — so the diff, whose classes are characterized by these
/// bindings alone, is independent of array order.
pub proof fn lemma_traced_lookup_order_independent(p: Seq<Seq<u8>>, q: Seq<Seq<u8>>)
    requires
        unique_keys(split_pairs(p)),
        unique_keys(split_pairs(q)),
        forall|e: Seq<u8>| p.contains(e) <==> q.contains(e),
    ensures
        forall|k: Seq<u8>| #[trigger] traced_lookup(p, k) == traced_lookup(q, k),
{
    assert forall|k: Seq<u8>| #[trigger] traced_lookup(p, k) == traced_lookup(q, k) by {
        if traced_lookup(p, k) is Some {
            lemma_traced_lookup_subsumed(p, q, k);
        } else if traced_lookup(q, k) is Some {
            lemma_traced_lookup_subsumed(q, p, k);
        }
    }
}

/// One direction of the order-independence argument: a binding in `p` is a
/// binding in `q`.
proof fn lemma_traced_lookup_subsumed(p: Seq<Seq<u8>>, q: Seq<Seq<u8>>, k: Seq<u8>)
    requires
        unique_keys(split_pairs(q)),
        forall|e: Seq<u8>| p.contains(e) ==> q.contains(e),
        traced_lookup(p, k) is Some,
    ensures
        traced_lookup(q, k) == traced_lookup(p, k),
{
    let sp = split_pairs(p);
    let sq = split_pairs(q);
    lemma_first_val_some_exists(sp, k, 0);
    let i = choose|i: int|
        0 <= i < sp.len() && (#[trigger] sp[i]).0 == k && sp[i].1 == first_val_from(
            sp,
            k,
            0,
        ).unwrap();
    assert(sp[i] == spec_split_env(p[i]));
    assert(p.contains(p[i]));
    assert(q.contains(p[i]));
    let j = choose|j: int| 0 <= j < q.len() && q[j] == p[i];
    assert(sq[j] == spec_split_env(q[j]));
    lemma_lookup_at_index(sq, k, j, 0);
}

/// Splits a raw `KEY=VALUE` entry at its first `=` (at its second when it
/// starts with one); an entry with no separator is a key with empty value.
pub fn split_env_entry(e: &Vec<u8>) -> (r: (Vec<u8>, Vec<u8>))
    ensures
        (r.0@, r.1@) == spec_split_env(e@),
{
    let start: usize = if e.len() > 0 && e[0] == 61u8 {
        1
    } else {
        0
    };
    let mut i: usize = start;
    while i < e.len()
        invariant
            start <= i <= e@.len(),
            start as int == (if e@.len() > 0 && e@[0] == 61u8 {
                1int
            } else {
                0int
            }),
            forall|j: int| start <= j < i ==> e@[j] != 61u8,
        decreases e.len() - i,
    {
        if e[i] == 61u8 {
            proof {
                lemma_first_eq_skip(e@, start as int, i as int);
                assert(first_eq_from(e@, i as int) == Some(i as int));
                assert(first_eq_from(e@, start as int) == Some(i as int));
            }
            let mut key: Vec<u8> = Vec::new();
            let mut k: usize = 0;
            while k < i
                invariant
                    0 <= k <= i <= e@.len(),
                    key@ == e@.subrange(0, k as int),
                decreases i - k,
            {
                key.push(e[k]);
                proof {
                    assert(key@ =~= e@.subrange(0, k + 1 as int));
                }
                k += 1;
            }
            let mut val: Vec<u8> = Vec::new();
            let mut m: usize = i + 1;
            while m < e.len()
                invariant
                    i + 1 <= m <= e@.len(),
                    val@ == e@.subrange(i + 1 as int, m as int),
                decreases e.len() - m,
            {
                val.push(e[m]);
                proof {
                    assert(val@ =~= e@.subrange(i + 1 as int, m + 1 as int));
                }
                m += 1;
            }
            proof {
                assert(key@ == e@.subrange(0, i as int));
                assert(val@ == e@.subrange(i + 1 as int, e@.len() as int));
                assert(first_eq_from(e@, start as int) == Some(i as int));
                assert(spec_split_env(e@).0 == key@);
                assert(spec_split_env(e@).1 == val@);
            }
            return (key, val);
        }
        i += 1;
    }
    proof {
        lemma_first_eq_skip(e@, start as int, e@.len() as int);
    }
    let mut key: Vec<u8> = Vec::new();
    let mut k: usize = 0;
    while k < e.len()
        invariant
            0 <= k <= e@.len(),
            key@ == e@.subrange(0, k as int),
        decreases e.len() - k,
    {
        key.push(e[k]);
        proof {
            assert(key@ =~= e@.subrange(0, k + 1 as int));
        }
        k += 1;
    }
    proof {
        assert(key@ =~= e@);
    }
    (key, Vec::new())
}

/// If `s[o..i]` holds no `=`, the first `=` at or past `o` is the first at
/// or past `i`.
proof fn lemma_first_eq_skip(s: Seq<u8>, o: int, i: int)
    requires
        0 <= o <= i <= s.len(),
        forall|j: int| o <= j < i ==> s[j] != 61u8,
    ensures
        first_eq_from(s, o) == first_eq_from(s, i),
    decreases i - o,
{
    if o < i {
        lemma_first_eq_skip(s, o + 1, i);
    }
}

/// The index of the first pair whose key equals `k`, if any.
fn find_key(v: &Vec<(Vec<u8>, Vec<u8>)>, k: &Vec<u8>) -> (r: Option<usize>)
    ensures
        match r {
            Some(i) => i < v@.len() && pairs_views(v@)[i as int].0 == k@ && lookup(
                pairs_views(v@),
                k@,
            ) == Some(pairs_views(v@)[i as int].1),
            Option::None => lookup(pairs_views(v@), k@) is None,
        },
{
    let ghost pv = pairs_views(v@);
    let mut i: usize = 0;
    while i < v.len()
        invariant
            0 <= i <= v@.len(),
            pv == pairs_views(v@),
            pv.len() == v@.len(),
            forall|j: int| 0 <= j < i ==> pv[j].0 != k@,
        decreases v.len() - i,
    {
        if bytes_eq(&v[i].0, k) {
            proof {
                assert(pv[i as int].0 == k@);
                lemma_first_val_skip(pv, k@, 0, i as int);
            }
            return Some(i);
        }
        proof {
            assert(pv[i as int].0 == v@[i as int].0@);
        }
        i += 1;
    }
    proof {
        lemma_first_val_skip(pv, k@, 0, pv.len() as int);
    }
    Option::None
}

/// Clones a key/value pair.
fn clone_pair(p: &(Vec<u8>, Vec<u8>)) -> (r: (Vec<u8>, Vec<u8>))
    ensures
        (r.0@, r.1@) == (p.0@, p.1@),
{
    (clone_bytes(&p.0), clone_bytes(&p.1))
}

/// Whether the keys of `s` are pairwise distinct.
pub open spec fn unique_keys(s: Seq<(Seq<u8>, Seq<u8>)>) -> bool {
    forall|i: int, j: int|
        0 <= i < s.len() && 0 <= j < s.len() && i != j ==> (#[trigger] s[i]).0 != (
        #[trigger] s[j]).0
}

/// The baseline environment snapshot, captured once at startup from the
/// tracer's own environment and immutable for the session: the reference
/// point for reporting what a traced process's environment changed.
pub struct BaselineInfo {
    env: Vec<(Vec<u8>, Vec<u8>)>,
}

impl View for BaselineInfo {
    type V = Seq<(Seq<u8>, Seq<u8>)>;

    closed spec fn view(&self) -> Seq<(Seq<u8>, Seq<u8>)> {
        pairs_views(self.env@)
    }
}

impl BaselineInfo {
    /// Keys are unique.
    pub open spec fn wf(&self) -> bool {
        unique_keys(self@)
    }

    /// Builds the snapshot from key/value pairs; under first-occurrence-wins
    /// semantics, every binding is kept and the keys come out unique.
    pub fn new(pairs: Vec<(Vec<u8>, Vec<u8>)>) -> (r: Self)
        ensures
            r.wf(),
            forall|k: Seq<u8>| #[trigger] lookup(r@, k) == lookup(pairs_views(pairs@), k),
            r@.len() <= pairs@.len(),
    {
        let ghost pv = pairs_views(pairs@);
        let mut out: Vec<(Vec<u8>, Vec<u8>)> = Vec::new();
        let mut i: usize = 0;
        while i < pairs.len()
            invariant
                0 <= i <= pairs@.len(),
                pv == pairs_views(pairs@),
                pv.len() == pairs@.len(),
                out@.len() <= i,
                unique_keys(pairs_views(out@)),
                forall|k: Seq<u8>| #[trigger] lookup(pairs_views(out@), k) == lookup(
                    pv.subrange(0, i as int),
                    k,
                ),
            decreases pairs.len() - i,
        {
            let ghost out0 = pairs_views(out@);
            let ghost pre0 = pv.subrange(0, i as int);
            let ghost pre1 = pv.subrange(0, i + 1 as int);
            proof {
                assert(pre1 =~= pre0.push(pv[i as int]));
                assert(pv[i as int] == (pairs@[i as int].0@, pairs@[i as int].1@));
            }
            match find_key(&out, &pairs[i].0) {
                Some(_) => {
                    proof {
                        assert forall|k: Seq<u8>| #[trigger] lookup(pairs_views(out@), k)
                            == lookup(pre1, k) by {
                            assert(lookup(out0, k) == lookup(pre0, k));
                            lemma_first_val_push(pre0, pv[i as int], k, 0);
                        }
                    }
                },
                Option::None => {
                    let p = clone_pair(&pairs[i]);
                    out.push(p);
                    proof {
                        assert(pairs_views(out@) =~= out0.push(pv[i as int]));
                        assert forall|k: Seq<u8>| #[trigger] lookup(pairs_views(out@), k)
                            == lookup(pre1, k) by {
                            assert(lookup(out0, k) == lookup(pre0, k));
                            lemma_first_val_push(out0, pv[i as int], k, 0);
                            lemma_first_val_push(pre0, pv[i as int], k, 0);
                        }
                        assert(unique_keys(pairs_views(out@))) by {
                            let ov = pairs_views(out@);
                            assert forall|a: int, b: int|
                                0 <= a < ov.len() && 0 <= b < ov.len() && a != b implies (
                            #[trigger] ov[a]).0 != (#[trigger] ov[b]).0 by {
                                if a == ov.len() - 1 || b == ov.len() - 1 {
                                    let other = if a == ov.len() - 1 {
                                        b
                                    } else {
                                        a
                                    };
                                    if out0[other].0 == pv[i as int].0 {
                                        lemma_first_val_skip(out0, out0[other].0, 0, other);
                                        assert(lookup(out0, pv[i as int].0) is Some);
                                        assert(false);
                                    }
                                }
                            }
                        }
                    }
                },
            }
            i += 1;
        }
        proof {
            assert(pv.subrange(0, pv.len() as int) =~= pv);
        }
        BaselineInfo { env: out }
    }

    /// Number of entries.
    pub fn len(&self) -> (r: usize)
        ensures
            r == self@.len(),
    {
        self.env.len()
    }

    /// A clone of the entry at index `i`.
    pub fn entry_at(&self, i: usize) -> (r: (Vec<u8>, Vec<u8>))
        requires
            i < self@.len(),
        ensures
            (r.0@, r.1@) == self@[i as int],
    {
        clone_pair(&self.env[i])
    }

    /// The value bound to `key`, if any.
    pub fn get(&self, key: &Vec<u8>) -> (r: Option<Vec<u8>>)
        ensures
            match r {
                Some(v) => lookup(self@, key@) == Some(v@),
                Option::None => lookup(self@, key@) is None,
            },
    {
        match find_key(&self.env, key) {
            Some(i) => Some(clone_bytes(&self.env[i].1)),
            Option::None => Option::None,
        }
    }
}

/// The report of an environment diff: each class characterized purely by
/// lookups, independent of the order of either array.
#[derive(Debug, Clone, PartialEq, Eq)]
pub struct EnvDiff {
    /// Bindings the traced environment has and the baseline lacks.
    pub added: Vec<(Vec<u8>, Vec<u8>)>,
    /// Bindings the baseline has and the traced environment lacks.
    pub removed: Vec<(Vec<u8>, Vec<u8>)>,
    /// Keys both have, with the traced (new) value.
    pub modified: Vec<(Vec<u8>, Vec<u8>)>,
    /// Keys both bind to the same value.
    pub unchanged: Vec<Vec<u8>>,
}

/// Diffs the traced environment entries against the baseline: a key is
/// added when only the traced environment binds it, removed when only the
/// baseline does, modified when both do with different values (reporting the
/// traced value), unchanged when both bind the same value. Duplicate keys in
/// `envp` count by their first occurrence.
pub fn diff_env(baseline: &BaselineInfo, envp: &Vec<Vec<u8>>) -> (r: EnvDiff)
    requires
        baseline.wf(),
    ensures
        ({
            let base = baseline@;
            let tr = bytes_views(envp@);
            &&& forall|k: Seq<u8>| #[trigger] lookup(pairs_views(r.added@), k) == (match
                traced_lookup(tr, k) {
                Some(v) => if lookup(base, k) is None {
                    Some(v)
                } else {
                    Option::None
                },
                Option::None => Option::None,
            })
            &&& forall|k: Seq<u8>| #[trigger] lookup(pairs_views(r.modified@), k) == (match (
                traced_lookup(tr, k),
                lookup(base, k),
            ) {
                (Some(v), Some(b)) => if v != b {
                    Some(v)
                } else {
                    Option::None
                },
                _ => Option::None,
            })
            &&& forall|k: Seq<u8>|
                #[trigger] contains_key(bytes_views(r.unchanged@), k) <==> (traced_lookup(tr, k)
                    is Some && lookup(base, k) == traced_lookup(tr, k))
            &&& forall|k: Seq<u8>| #[trigger] lookup(pairs_views(r.removed@), k) == (match lookup(
                base,
                k,
            ) {
                Some(b) => if traced_lookup(tr, k) is None {
                    Some(b)
                } else {
                    Option::None
                },
                Option::None => Option::None,
            })
        }),
{
    let ghost tr = bytes_views(envp@);
    let ghost sp = split_pairs(tr);
    // the traced environment under first-occurrence-wins semantics
    let mut traced: Vec<(Vec<u8>, Vec<u8>)> = Vec::new();
    let mut i: usize = 0;
    while i < envp.len()
        invariant
            0 <= i <= envp@.len(),
            tr == bytes_views(envp@),
            sp == split_pairs(tr),
            sp.len() == envp@.len(),
            unique_keys(pairs_views(traced@)),
            forall|k: Seq<u8>| #[trigger] lookup(pairs_views(traced@), k) == lookup(
                sp.subrange(0, i as int),
                k,
            ),
        decreases envp.len() - i,
    {
        let ghost t0 = pairs_views(traced@);
        let ghost pre0 = sp.subrange(0, i as int);
        let ghost pre1 = sp.subrange(0, i + 1 as int);
        let (key, val) = split_env_entry(&envp[i]);
        proof {
            assert(pre1 =~= pre0.push(sp[i as int]));
            assert(tr[i as int] == envp@[i as int]@);
            assert(sp[i as int] == spec_split_env(tr[i as int]));
            assert((key@, val@) == sp[i as int]);
        }
        match find_key(&traced, &key) {
            Some(_) => {
                proof {
                    assert forall|k: Seq<u8>| #[trigger] lookup(pairs_views(traced@), k) == lookup(
                        pre1,
                        k,
                    ) by {
                        assert(lookup(t0, k) == lookup(pre0, k));
                        lemma_first_val_push(pre0, sp[i as int], k, 0);
                    }
                }
            },
            Option::None => {
                traced.push((key, val));
                proof {
                    assert(pairs_views(traced@) =~= t0.push(sp[i as int]));
                    assert forall|k: Seq<u8>| #[trigger] lookup(pairs_views(traced@), k) == lookup(
                        pre1,
                        k,
                    ) by {
                        assert(lookup(t0, k) == lookup(pre0, k));
                        lemma_first_val_push(t0, sp[i as int], k, 0);
                        lemma_first_val_push(pre0, sp[i as int], k, 0);
                    }
                    assert(unique_keys(pairs_views(traced@))) by {
                        let ov = pairs_views(traced@);
                        assert forall|a: int, b: int|
                            0 <= a < ov.len() && 0 <= b < ov.len() && a != b implies (
                        #[trigger] ov[a]).0 != (#[trigger] ov[b]).0 by {
                            if a == ov.len() - 1 || b == ov.len() - 1 {
                                let other = if a == ov.len() - 1 {
                                    b
                                } else {
                                    a
                                };
                                if t0[other].0 == sp[i as int].0 {
                                    lemma_first_val_skip(t0, t0[other].0, 0, other);
                                    assert(lookup(t0, sp[i as int].0) is Some);
                                    assert(false);
                                }
                            }
                        }
                    }
                }
            },
        }
        i += 1;
    }
    proof {
        assert(sp.subrange(0, sp.len() as int) =~= sp);
    }
    let ghost tpv = pairs_views(traced@);
    // classify each traced binding against the baseline
    let mut added: Vec<(Vec<u8>, Vec<u8>)> = Vec::new();
    let mut modified: Vec<(Vec<u8>, Vec<u8>)> = Vec::new();
    let mut unchanged: Vec<Vec<u8>> = Vec::new();
    let mut j: usize = 0;
    while j < traced.len()
        invariant
            0 <= j <= traced@.len(),
            tpv == pairs_views(traced@),
            tpv.len() == traced@.len(),
            unique_keys(tpv),
            baseline.wf(),
            forall|k: Seq<u8>| #[trigger] lookup(tpv, k) == traced_lookup(
                bytes_views(envp@),
                k,
            ),
            forall|k: Seq<u8>| #[trigger] lookup(pairs_views(added@), k) == (match lookup(
                tpv.subrange(0, j as int),
                k,
            ) {
                Some(v) => if lookup(baseline@, k) is None {
                    Some(v)
                } else {
                    Option::None
                },
                Option::None => Option::None,
            }),
            forall|k: Seq<u8>| #[trigger] lookup(pairs_views(modified@), k) == (match (lookup(
                tpv.subrange(0, j as int),
                k,
            ), lookup(baseline@, k)) {
                (Some(v), Some(b)) => if v != b {
                    Some(v)
                } else {
                    Option::None
                },
                _ => Option::None,
            }),
            forall|k: Seq<u8>|
                #[trigger] contains_key(bytes_views(unchanged@), k) <==> (lookup(
                    tpv.subrange(0, j as int),
                    k,
                ) is Some && lookup(baseline@, k) == lookup(tpv.subrange(0, j as int), k)),
        decreases traced.len() - j,
    {
        let ghost pre0 = tpv.subrange(0, j as int);
        let ghost pre1 = tpv.subrange(0, j + 1 as int);
        let ghost a0 = pairs_views(added@);
        let ghost m0 = pairs_views(modified@);
        let ghost u0 = bytes_views(unchanged@);
        proof {
            assert(pre1 =~= pre0.push(tpv[j as int]));
            // the key is new to the prefix: traced keys are unique
            assert forall|x: int| 0 <= x < j implies pre0[x].0 != tpv[j as int].0 by {
                assert(pre0[x] == tpv[x]);
            }
            lemma_first_val_skip(pre0, tpv[j as int].0, 0, pre0.len() as int);
            assert(lookup(pre0, tpv[j as int].0) is None);
        }
        let entry = &traced[j];
        proof {
            assert(tpv[j as int] == (entry.0@, entry.1@));
        }
        match baseline.get(&entry.0) {
            Option::None => {
                added.push(clone_pair(entry));
                proof {
                    assert(pairs_views(added@) =~= a0.push(tpv[j as int]));
                }
            },
            Some(bval) => {
                if bytes_eq(&bval, &entry.1) {
                    unchanged.push(clone_bytes(&entry.0));
                    proof {
                        assert(bytes_views(unchanged@) =~= u0.push(tpv[j as int].0));
                    }
                } else {
                    modified.push(clone_pair(entry));
                    proof {
                        assert(pairs_views(modified@) =~= m0.push(tpv[j as int]));
                    }
                }
            },
        }
        proof {
            assert forall|k: Seq<u8>| #[trigger] lookup(pairs_views(added@), k) == (match lookup(
                pre1,
                k,
            ) {
                Some(v) => if lookup(baseline@, k) is None {
                    Some(v)
                } else {
                    Option::None
                },
                Option::None => Option::None,
            }) by {
                assert(lookup(a0, k) == (match lookup(pre0, k) {
                    Some(v) => if lookup(baseline@, k) is None {
                        Some(v)
                    } else {
                        Option::None
                    },
                    Option::None => Option::None,
                }));
                lemma_first_val_push(pre0, tpv[j as int], k, 0);
                if pairs_views(added@) != a0 {
                    lemma_first_val_push(a0, tpv[j as int], k, 0);
                }
            }
            assert forall|k: Seq<u8>| #[trigger] lookup(pairs_views(modified@), k) == (match (
                lookup(pre1, k),
                lookup(baseline@, k),
            ) {
                (Some(v), Some(b)) => if v != b {
                    Some(v)
                } else {
                    Option::None
                },
                _ => Option::None,
            }) by {
                assert(lookup(m0, k) == (match (lookup(pre0, k), lookup(baseline@, k)) {
                    (Some(v), Some(b)) => if v != b {
                        Some(v)
                    } else {
                        Option::None
                    },
                    _ => Option::None,
                }));
                lemma_first_val_push(pre0, tpv[j as int], k, 0);
                if pairs_views(modified@) != m0 {
                    lemma_first_val_push(m0, tpv[j as int], k, 0);
                }
            }
            assert forall|k: Seq<u8>|
                #[trigger] contains_key(bytes_views(unchanged@), k) <==> (lookup(pre1, k) is Some
                    && lookup(baseline@, k) == lookup(pre1, k)) by {
                assert(contains_key(u0, k) <==> (lookup(pre0, k) is Some && lookup(baseline@, k)
                    == lookup(pre0, k)));
                lemma_first_val_push(pre0, tpv[j as int], k, 0);
                if bytes_views(unchanged@) != u0 {
                    assert(bytes_views(unchanged@) == u0.push(tpv[j as int].0));
                    if contains_key(u0.push(tpv[j as int].0), k) {
                        let w = choose|x: int|
                            0 <= x < u0.push(tpv[j as int].0).len() && u0.push(tpv[j as int].0)[x]
                                == k;
                        if w < u0.len() {
                            assert(contains_key(u0, k));
                        }
                    }
                    if contains_key(u0, k) {
                        let w = choose|x: int| 0 <= x < u0.len() && u0[x] == k;
                        assert(u0.push(tpv[j as int].0)[w] == k);
                        assert(contains_key(u0.push(tpv[j as int].0), k));
                    }
                    if k == tpv[j as int].0 {
                        assert(u0.push(k)[u0.len() as int] == k);
                        assert(contains_key(u0.push(k), k));
                    }
                } else {
                    if contains_key(u0, k) && k == tpv[j as int].0 {
                        // this key was classified before j, impossible
                    }
                }
            }
        }
        j += 1;
    }
    proof {
        assert(tpv.subrange(0, tpv.len() as int) =~= tpv);
    }
    // bindings only the baseline has
    let mut removed: Vec<(Vec<u8>, Vec<u8>)> = Vec::new();
    let base_len = baseline.len();
    let mut m: usize = 0;
    while m < base_len
        invariant
            0 <= m <= baseline@.len(),
            base_len == baseline@.len(),
            baseline.wf(),
            tpv == pairs_views(traced@),
            forall|k: Seq<u8>| #[trigger] lookup(tpv, k) == traced_lookup(
                bytes_views(envp@),
                k,
            ),
            forall|k: Seq<u8>| #[trigger] lookup(pairs_views(removed@), k) == (match lookup(
                baseline@.subrange(0, m as int),
                k,
            ) {
                Some(b) => if lookup(tpv, k) is None {
                    Some(b)
                } else {
                    Option::None
                },
                Option::None => Option::None,
            }),
        decreases base_len - m,
    {
        let ghost pre0 = baseline@.subrange(0, m as int);
        let ghost pre1 = baseline@.subrange(0, m + 1 as int);
        let ghost r0 = pairs_views(removed@);
        proof {
            assert(pre1 =~= pre0.push(baseline@[m as int]));
            assert forall|x: int| 0 <= x < m implies pre0[x].0 != baseline@[m as int].0 by {
                assert(pre0[x] == baseline@[x]);
            }
            lemma_first_val_skip(pre0, baseline@[m as int].0, 0, pre0.len() as int);
            assert(lookup(pre0, baseline@[m as int].0) is None);
        }
        let entry = baseline.entry_at(m);
        proof {
            assert((entry.0@, entry.1@) == baseline@[m as int]);
        }
        match find_key(&traced, &entry.0) {
            Some(_) => {},
            Option::None => {
                removed.push(entry);
                proof {
                    assert(pairs_views(removed@) =~= r0.push(baseline@[m as int]));
                }
            },
        }
        proof {
            assert forall|k: Seq<u8>| #[trigger] lookup(pairs_views(removed@), k) == (match lookup(
                pre1,
                k,
            ) {
                Some(b) => if lookup(tpv, k) is None {
                    Some(b)
                } else {
                    Option::None
                },
                Option::None => Option::None,
            }) by {
                assert(lookup(r0, k) == (match lookup(pre0, k) {
                    Some(b) => if lookup(tpv, k) is None {
                        Some(b)
                    } else {
                        Option::None
                    },
                    Option::None => Option::None,
                }));
                lemma_first_val_push(pre0, baseline@[m as int], k, 0);
                if pairs_views(removed@) != r0 {
                    lemma_first_val_push(r0, baseline@[m as int], k, 0);
                }
            }
        }
        m += 1;
    }
    proof {
        assert(baseline@.subrange(0, baseline@.len() as int) =~= baseline@);
    }
    EnvDiff { added, removed, modified, unchanged }
}

} // verus!
