//! Sets of job ids, kept as strictly ascending vectors. The ascending
//! order is what makes the waiting list FIFO by submission: the smallest
//! id is the oldest job.

use vstd::prelude::*;

verus! {

/// Strictly ascending: no duplicates, smallest first.
pub open spec fn sorted_strict(s: Seq<u64>) -> bool {
    forall|i: int, j: int| 0 <= i < j < s.len() ==> s[i] < s[j]
}

/// Membership test.
pub fn contains_id(v: &Vec<u64>, x: u64) -> (r: bool)
    ensures
        r == v@.contains(x),
{
    let mut i: usize = 0;
    while i < v.len()
        invariant
            i <= v.len(),
            forall|k: int| 0 <= k < i ==> v@[k] != x,
        decreases v.len() - i,
    {
        if v[i] == x {
            return true;
        }
        i += 1;
    }
    false
}

/// Inserts `x` into a strictly ascending vector, keeping the order.
pub fn insert_id(v: &mut Vec<u64>, x: u64)
    requires
        sorted_strict(old(v)@),
        !old(v)@.contains(x),
    ensures
        sorted_strict(final(v)@),
        final(v)@.len() == old(v)@.len() + 1,
        forall|y: u64| final(v)@.contains(y) <==> (old(v)@.contains(y) || y == x),
        final(v)@.contains(x),
        (forall|y: u64| old(v)@.contains(y) ==> y < x) ==> final(v)@ == old(v)@.push(x),
{
    let ghost orig = v@;
    let mut i: usize = 0;
    while i < v.len() && v[i as usize] < x
        invariant
            v@ == orig,
            i <= v@.len(),
            forall|k: int| 0 <= k < i ==> v@[k] < x,
        decreases v.len() - i,
    {
        i += 1;
    }
    proof {
        assert(forall|k: int| i <= k < orig.len() ==> orig[k] > x) by {
            assert forall|k: int| i <= k < orig.len() implies orig[k] > x by {
                if k == i {
                    assert(orig[k] != x) by {
                        assert(orig.contains(x) == false);
                        assert(orig[k] == x ==> orig.contains(x));
                    }
                } else {
                    assert(orig[i as int] >= x);
                    assert(orig[i as int] != x) by {
                        assert(orig[i as int] == x ==> orig.contains(x));
                    }
                    assert(orig[k] > orig[i as int]);
                }
            }
        }
    }
    v.insert(i, x);
    proof {
        let fin = v@;
        assert(sorted_strict(fin)) by {
            assert forall|a: int, b: int| 0 <= a < b < fin.len() implies fin[a] < fin[b] by {
                assert(fin == orig.insert(i as int, x));
            }
        }
        assert forall|y: u64| fin.contains(y) <==> (orig.contains(y) || y == x) by {
            if fin.contains(y) {
                let k = choose|k: int| 0 <= k < fin.len() && fin[k] == y;
                if k < i {
                    assert(orig[k] == y);
                    assert(orig.contains(y));
                } else if k == i {
                    assert(y == x);
                } else {
                    assert(orig[k - 1] == y);
                    assert(orig.contains(y));
                }
            }
            if orig.contains(y) {
                let k = choose|k: int| 0 <= k < orig.len() && orig[k] == y;
                if k < i {
                    assert(fin[k] == y);
                } else {
                    assert(fin[k + 1] == y);
                }
            }
            if y == x {
                assert(fin[i as int] == y);
            }
        }
        if forall|y: u64| orig.contains(y) ==> y < x {
            assert(i == orig.len()) by {
                if i < orig.len() {
                    assert(orig.contains(orig[i as int]));
                }
            }
            assert(fin =~= orig.push(x));
        }
    }
}

/// Removes `x` from a strictly ascending vector, if present.
pub fn remove_id(v: &mut Vec<u64>, x: u64)
    requires
        sorted_strict(old(v)@),
    ensures
        sorted_strict(final(v)@),
        forall|y: u64| final(v)@.contains(y) <==> (old(v)@.contains(y) && y != x),
        old(v)@.contains(x) ==> final(v)@.len() == old(v)@.len() - 1,
        !old(v)@.contains(x) ==> final(v)@ == old(v)@,
{
    let ghost orig = v@;
    let mut i: usize = 0;
    while i < v.len()
        invariant
            orig == old(v)@,
            v@ == orig,
            i <= v@.len(),
            sorted_strict(orig),
            forall|k: int| 0 <= k < i ==> v@[k] != x,
        decreases v.len() - i,
    {
        if v[i] == x {
            v.remove(i);
            proof {
                let fin = v@;
                assert(fin == orig.remove(i as int));
                assert(orig[i as int] == x);
                assert(orig.contains(x));
                assert(sorted_strict(fin)) by {
                    assert forall|a: int, b: int| 0 <= a < b < fin.len() implies fin[a] < fin[b]
                    by {
                        if a < i {
                            assert(fin[a] == orig[a]);
                        } else {
                            assert(fin[a] == orig[a + 1]);
                        }
                        if b < i {
                            assert(fin[b] == orig[b]);
                        } else {
                            assert(fin[b] == orig[b + 1]);
                        }
                    }
                }
                assert forall|y: u64| fin.contains(y) <==> (orig.contains(y) && y != x) by {
                    assert(forall|a: int, b: int|
                        0 <= a < orig.len() && 0 <= b < orig.len() && a != b ==> orig[a]
                            != orig[b]);
                    if fin.contains(y) {
                        let k = choose|k: int| 0 <= k < fin.len() && fin[k] == y;
                        if k < i {
                            assert(orig[k] == y);
                            assert(orig.contains(y));
                            assert(y != x);
                        } else {
                            assert(orig[k + 1] == y);
                            assert(orig.contains(y));
                            assert(orig[i as int] == x && k + 1 != i);
                            assert(y != x);
                        }
                    }
                    if orig.contains(y) && y != x {
                        let k = choose|k: int| 0 <= k < orig.len() && orig[k] == y;
                        assert(k != i);
                        if k < i {
                            assert(fin[k] == y);
                        } else {
                            assert(fin[k - 1] == y);
                        }
                    }
                }
            }
            return ;
        }
        i += 1;
    }
    proof {
        assert(!orig.contains(x)) by {
            assert(forall|k: int| 0 <= k < orig.len() ==> orig[k] != x);
        }
    }
}

/// The smallest entry that is not in `exclude`; removes nothing.
pub fn first_not_excluded(v: &Vec<u64>, exclude: &Vec<u64>) -> (r: Option<u64>)
    requires
        sorted_strict(v@),
    ensures
        match r {
            Some(x) => v@.contains(x) && !exclude@.contains(x) && forall|y: u64|
                v@.contains(y) && y < x ==> exclude@.contains(y),
            None => forall|y: u64| v@.contains(y) ==> exclude@.contains(y),
        },
{
    let mut i: usize = 0;
    while i < v.len()
        invariant
            i <= v@.len(),
            sorted_strict(v@),
            forall|k: int| 0 <= k < i ==> exclude@.contains(v@[k]),
        decreases v.len() - i,
    {
        let x = v[i];
        if !contains_id(exclude, x) {
            proof {
                assert(v@.contains(x)) by {
                    assert(v@[i as int] == x);
                }
                assert forall|y: u64| v@.contains(y) && y < x implies exclude@.contains(y) by {
                    let k = choose|k: int| 0 <= k < v@.len() && v@[k] == y;
                    assert(k < i) by {
                        if k > i {
                            assert(v@[i as int] < v@[k]);
                        }
                    }
                }
            }
            return Some(x);
        }
        i += 1;
    }
    proof {
        assert forall|y: u64| v@.contains(y) implies exclude@.contains(y) by {
            let k = choose|k: int| 0 <= k < v@.len() && v@[k] == y;
        }
    }
    None
}

} // verus!
