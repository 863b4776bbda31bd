//! Sequence facts and helpers shared by the bookkeeping code.
use vstd::prelude::*;

use crate::id::RoleId;

verus! {

/// `s` without repetitions, each element kept at its first occurrence.
pub open spec fn dedup<A>(s: Seq<A>) -> Seq<A>
    decreases s.len(),
{
    if s.len() == 0 {
        s
    } else {
        let d = dedup(s.drop_last());
        if d.contains(s.last()) {
            d
        } else {
            d.push(s.last())
        }
    }
}

pub proof fn lemma_dedup_contains<A>(s: Seq<A>, x: A)
    ensures
        dedup(s).contains(x) <==> s.contains(x),
        dedup(s).no_duplicates(),
    decreases s.len(),
{
    if s.len() > 0 {
        let p = s.drop_last();
        let l = s.last();
        let d = dedup(p);
        lemma_dedup_contains(p, x);
        lemma_dedup_contains(p, l);
        assert(s =~= p.push(l));
        assert(s.contains(x) <==> (p.contains(x) || x == l)) by {
            if s.contains(x) {
                let i = choose|i: int| 0 <= i < s.len() && s[i] == x;
                if i < s.len() - 1 {
                    assert(p[i] == x);
                }
            }
            if p.contains(x) {
                let i = choose|i: int| 0 <= i < p.len() && p[i] == x;
                assert(s[i] == x);
            }
            if x == l {
                assert(s[s.len() - 1] == x);
            }
        }
        if !d.contains(l) {
            assert(d.push(l).contains(x) <==> (d.contains(x) || x == l)) by {
                if d.push(l).contains(x) {
                    let i = choose|i: int| 0 <= i < d.push(l).len() && d.push(l)[i] == x;
                    if i < d.len() {
                        assert(d[i] == x);
                    }
                }
                if d.contains(x) {
                    let i = choose|i: int| 0 <= i < d.len() && d[i] == x;
                    assert(d.push(l)[i] == x);
                }
                if x == l {
                    assert(d.push(l)[d.len() as int] == x);
                }
            }
            assert(d.push(l).no_duplicates()) by {
                assert forall|i: int, j: int|
                    0 <= i < d.push(l).len() && 0 <= j < d.push(l).len() && i != j implies d.push(
                        l,
                    )[i] != d.push(l)[j] by {
                    if i < d.len() && j < d.len() {
                    } else if i < d.len() {
                        assert(d.push(l)[i] == d[i]);
                    } else {
                        assert(d.push(l)[j] == d[j]);
                    }
                }
            }
        }
    }
}

/// Whether `role` is among `roles`.
pub fn contains_role(roles: &[RoleId], role: RoleId) -> (r: bool)
    ensures
        r == roles@.contains(role),
{
    let mut i: usize = 0;
    while i < roles.len()
        invariant
            i <= roles@.len(),
            forall|j: int| 0 <= j < i ==> roles@[j] != role,
        decreases roles@.len() - i,
    {
        if roles[i] == role {
            assert(roles@[i as int] == role);
            return true;
        }
        i = i + 1;
    }
    false
}

} // verus!
