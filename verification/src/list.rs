//! The shape of list spines.

use vstd::prelude::*;

use crate::data::{Tree, TermData};
use crate::fli::{landing, resolve, walk, binding, binding_some, Fli};
use crate::term::ListShape;

verus! {

/// What is left of the list `t` after `n` cells, if it has that many.
pub open spec fn tail_after(trail: Seq<(usize, Tree)>, t: Tree, n: nat) -> Option<Tree>
    decreases n,
{
    if n == 0 {
        Some(t)
    } else {
        match tail_after(trail, t, (n - 1) as nat) {
            Some(u) => match resolve(trail, u) {
                Tree::Pair(head, tail) => Some(*tail),
                _ => None,
            },
            None => None,
        }
    }
}

/// The `n`-th element of the list `t`, if it has that many.
pub open spec fn element_at(trail: Seq<(usize, Tree)>, t: Tree, n: nat) -> Option<Tree> {
    match tail_after(trail, t, n) {
        Some(u) => match resolve(trail, u) {
            Tree::Pair(head, tail) => Some(*head),
            _ => None,
        },
        None => None,
    }
}

/// Whether the spine of `t` is bound to something other than a list cell or
/// `[]` after `n` cells.
pub open spec fn spine_breaks(trail: Seq<(usize, Tree)>, t: Tree, n: nat) -> bool {
    tail_after(trail, t, n) matches Some(u) && {
        let end = resolve(trail, u);
        !(end is Pair) && !(end is Nil) && !(end is Var)
    }
}

/// Whether the spine of `t` ends in an unbound variable after `n` cells.
pub open spec fn spine_opens(trail: Seq<(usize, Tree)>, t: Tree, n: nat) -> bool {
    tail_after(trail, t, n) matches Some(u) && resolve(trail, u) is Var
}

/// Whether `shape` is the shape of the list spine of `t`.
pub open spec fn has_shape(trail: Seq<(usize, Tree)>, t: Tree, shape: ListShape) -> bool {
    match shape {
        ListShape::Proper { len } => tail_after(trail, t, len as nat) matches Some(u) && resolve(
            trail,
            u,
        ) is Nil,
        ListShape::Partial => exists|n: nat| spine_opens(trail, t, n),
        ListShape::Improper => exists|n: nat| n > 0 && #[trigger] spine_breaks(trail, t, n),
        ListShape::Cyclic => forall|n: nat| #[trigger] tail_after(trail, t, n) is Some,
        ListShape::NotAList => spine_breaks(trail, t, 0),
    }
}

/// Beyond the end of a spine there is nothing.
proof fn spine_ends_once(trail: Seq<(usize, Tree)>, t: Tree, n: nat, m: nat)
    requires
        tail_after(trail, t, n) matches Some(u) && !(resolve(trail, u) is Pair),
        m > n,
    ensures
        tail_after(trail, t, m) is None,
    decreases m,
{
    if m > n + 1 {
        spine_ends_once(trail, t, n, (m - 1) as nat);
    }
}

/// A term's list spine has at most one shape.
pub proof fn shape_is_unique(trail: Seq<(usize, Tree)>, t: Tree, a: ListShape, b: ListShape)
    requires
        has_shape(trail, t, a),
        has_shape(trail, t, b),
    ensures
        a == b,
{
    let n = shape_end(trail, t, a);
    let m = shape_end(trail, t, b);
    if !(a is Cyclic) && m > n {
        spine_ends_once(trail, t, n, m);
    }
    if !(b is Cyclic) && n > m {
        spine_ends_once(trail, t, m, n);
    }
    if a is Cyclic && !(b is Cyclic) {
        spine_ends_once(trail, t, m, m + 1);
    }
    if b is Cyclic && !(a is Cyclic) {
        spine_ends_once(trail, t, n, n + 1);
    }
}

/// The shape of a term's list spine.
pub open spec fn shape_of(trail: Seq<(usize, Tree)>, t: Tree) -> ListShape {
    choose|shape: ListShape| has_shape(trail, t, shape)
}

/// A shape that a term's list spine has is its shape.
pub proof fn shape_is(trail: Seq<(usize, Tree)>, t: Tree, shape: ListShape)
    requires
        has_shape(trail, t, shape),
    ensures
        shape_of(trail, t) == shape,
{
    shape_is_unique(trail, t, shape_of(trail, t), shape);
}

/// Where a spine of the given shape ends.
spec fn shape_end(trail: Seq<(usize, Tree)>, t: Tree, shape: ListShape) -> nat {
    match shape {
        ListShape::Proper { len } => len as nat,
        ListShape::Partial => choose|n: nat| spine_opens(trail, t, n),
        ListShape::Improper => choose|n: nat| n > 0 && #[trigger] spine_breaks(trail, t, n),
        ListShape::Cyclic => 0,
        ListShape::NotAList => 0,
    }
}

/// What a term stands for is fixed by the last binding that leads there.
proof fn landing_decides(trail: Seq<(usize, Tree)>, from: nat, t: Tree)
    ensures
        landing(trail, from, t) matches Some(i) ==> from <= i < trail.len() && walk(trail, from, t)
            == trail[i as int].1,
    decreases trail.len() - from,
{
    if let Tree::Var(id) = t {
        binding_some(trail, from, id);
        if let Some(i) = binding(trail, from, id) {
            landing_decides(trail, i + 1, trail[i as int].1);
            landing_none(trail, i + 1, trail[i as int].1);
        }
    }
}

/// Where no binding is followed, a term stands for itself.
proof fn landing_none(trail: Seq<(usize, Tree)>, from: nat, t: Tree)
    ensures
        landing(trail, from, t) is None ==> walk(trail, from, t) == t,
{
    if let Tree::Var(id) = t {
        binding_some(trail, from, id);
    }
}

/// A spine that comes back to where it was repeats itself.
proof fn spine_repeats(trail: Seq<(usize, Tree)>, t: Tree, m: nat, n: nat, k: nat)
    requires
        m < n,
        tail_after(trail, t, m) is Some,
        tail_after(trail, t, n) is Some,
        resolve(trail, tail_after(trail, t, m)->0) == resolve(trail, tail_after(trail, t, n)->0),
        k > m,
    ensures
        tail_after(trail, t, k) == tail_after(trail, t, (k + n - m) as nat),
    decreases k,
{
    if k > m + 1 {
        spine_repeats(trail, t, m, n, (k - 1) as nat);
    }
}

/// A spine that comes back to where it was never ends.
proof fn spine_is_endless(trail: Seq<(usize, Tree)>, t: Tree, m: nat, n: nat, k: nat)
    requires
        m < n,
        tail_after(trail, t, m) is Some,
        tail_after(trail, t, n) is Some,
        resolve(trail, tail_after(trail, t, m)->0) == resolve(trail, tail_after(trail, t, n)->0),
    ensures
        tail_after(trail, t, k) is Some,
    decreases k,
{
    if k <= n {
        spine_prefix(trail, t, k, n);
    } else {
        spine_is_endless(trail, t, m, n, (k - (n - m)) as nat);
        spine_repeats(trail, t, m, n, (k - (n - m)) as nat);
    }
}

/// A spine that reaches cell `n` reaches every earlier one.
proof fn spine_prefix(trail: Seq<(usize, Tree)>, t: Tree, k: nat, n: nat)
    requires
        k <= n,
        tail_after(trail, t, n) is Some,
    ensures
        tail_after(trail, t, k) is Some,
    decreases n,
{
    if k < n {
        spine_prefix(trail, t, k, (n - 1) as nat);
    }
}

/// Before its end, a proper list has a cell.
pub proof fn spine_goes_on(trail: Seq<(usize, Tree)>, t: Tree, i: nat, len: nat)
    requires
        i < len,
        tail_after(trail, t, len) is Some,
    ensures
        tail_after(trail, t, i) matches Some(u) && resolve(trail, u) is Pair,
{
    spine_prefix(trail, t, i, len);
    spine_prefix(trail, t, i + 1, len);
}

/// How many entries are still `false`.
spec fn unseen(seen: Seq<bool>) -> nat
    decreases seen.len(),
{
    if seen.len() == 0 {
        0
    } else {
        unseen(seen.drop_last()) + if seen.last() {
            0nat
        } else {
            1nat
        }
    }
}

/// Marking an entry leaves one fewer.
proof fn unseen_falls(seen: Seq<bool>, i: int)
    requires
        0 <= i < seen.len(),
        !seen[i],
    ensures
        unseen(seen.update(i, true)) < unseen(seen),
    decreases seen.len(),
{
    let next = seen.update(i, true);
    if i < seen.len() - 1 {
        assert(next.drop_last() =~= seen.drop_last().update(i, true));
        unseen_falls(seen.drop_last(), i);
    } else {
        assert(next.drop_last() =~= seen.drop_last());
    }
}

/// The elements of a list spine as far as it goes, and its shape.
pub fn spine<'a>(fli: &'a Fli, data: &'a TermData) -> (r: (Vec<&'a TermData>, ListShape))
    ensures
        has_shape(fli@.trail, data@, r.1),
        r.1 matches ListShape::Proper { len } ==> r.0@.len() == len,
        forall|i: int|
            0 <= i < r.0@.len() ==> element_at(fli@.trail, data@, i as nat) == Some(
                (#[trigger] r.0@[i])@,
            ),
{
    let ghost trail = fli@.trail;
    let ghost t = data@;
    let mut heads: Vec<&'a TermData> = Vec::new();
    let mut seen: Vec<bool> = Vec::new();
    let n: usize = fli.trail_len();
    while seen.len() < n
        invariant
            seen@.len() <= n,
            forall|i: int| 0 <= i < seen@.len() ==> !(#[trigger] seen@[i]),
        decreases n - seen@.len(),
    {
        seen.push(false);
    }
    let mut cursor: &'a TermData = data;
    // For each binding seen, where on the spine it was followed.
    let ghost mut place: Map<int, nat> = Map::empty();
    loop
        invariant
            trail == fli@.trail,
            t == data@,
            n == trail.len(),
            seen@.len() == n,
            tail_after(trail, t, heads@.len()) == Some(cursor@),
            forall|i: int|
                0 <= i < heads@.len() ==> element_at(trail, t, i as nat) == Some(
                    (#[trigger] heads@[i])@,
                ),
            forall|i: int|
                0 <= i < n && #[trigger] seen@[i] ==> place[i] < heads@.len() && tail_after(
                    trail,
                    t,
                    place[i],
                ) is Some && landing(trail, 0, tail_after(trail, t, place[i])->0) == Some(
                    i as nat,
                ),
        decreases unseen(seen@), cursor,
    {
        let (value, last) = fli.resolved(cursor);
        proof {
            landing_decides(trail, 0, cursor@);
        }
        match value {
            TermData::Pair(head, tail) => {
                let ghost here = heads@.len();
                match last {
                    Some(i) => {
                        if seen[i] {
                            proof {
                                let m = place[i as int];
                                landing_decides(trail, 0, tail_after(trail, t, m)->0);
                                assert forall|k: nat| #[trigger] tail_after(trail, t, k) is Some by {
                                    spine_is_endless(trail, t, m, here, k);
                                }
                            }
                            return (heads, ListShape::Cyclic);
                        }
                        proof {
                            unseen_falls(seen@, i as int);
                            place = place.insert(i as int, here);
                        }
                        seen.set(i, true);
                    },
                    None => {},
                }
                heads.push(head);
                assert(tail_after(trail, t, heads@.len()) == Some(tail@));
                cursor = tail;
            },
            TermData::Nil => {
                let len: usize = heads.len();
                return (heads, ListShape::Proper { len });
            },
            TermData::Var(_) => {
                assert(spine_opens(trail, t, heads@.len()));
                return (heads, ListShape::Partial);
            },
            _ => {
                assert(spine_breaks(trail, t, heads@.len()));
                if heads.len() == 0 {
                    return (heads, ListShape::NotAList);
                }
                return (heads, ListShape::Improper);
            },
        }
    }
}

} // verus!
