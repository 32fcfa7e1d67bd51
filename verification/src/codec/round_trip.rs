//! What is written is read back: the term that stands for a value stands for
//! that value.

use std::sync::Arc;

use vstd::prelude::*;

use crate::codec::lists::{encoded_items, items_fault, reads_list};
use crate::codec::maps::{
    collected, encoded_pairs, key_position, key_position_holds, keys_differ, names, pairs_fault,
    pairs_read, values, TermMap, TermMapKey,
};
use crate::codec::tuples::{elements, reads_tuple, tuple_fault, DecodeChain};
use crate::codec::{
    fields_of, field_position, field_position_holds, key_text, list_tree, no_repeated_key,
    CodecFault, FromTerm, FromTerms, ToTerm, ToTerms,
};
use crate::data::{Key, Tree};
use crate::dict::{
    dict_tree, distinct_rearranged, in_order, key_before, key_order, order_is_sorted, order_is_stable,
    rearranged, sorted_by_key, zipped,
};

use crate::list::{element_at, has_shape, shape_is, shape_of, tail_after};
use crate::term::ListShape;
use crate::text::text_before;

verus! {

/// Values that are read back from the term that stands for them.
pub trait RoundTrip: ToTerm + FromTerm {
    /// Whether the two are the same value.
    spec fn same(&self, other: &Self) -> bool;

    /// The term that stands for the value stands for it alone.
    proof fn reads_back(&self, trail: Seq<(usize, Tree)>, t: Tree, value: Self)
        ensures
            self.encoded() == Ok::<Tree, CodecFault>(t) ==> Self::read_fault(trail, t) is None && (
            Self::reads(trail, t, value) ==> self.same(&value)),
    ;

    /// The field that stands for the value, which may be left out, stands for
    /// it alone.
    proof fn field_reads_back(
        &self,
        trail: Seq<(usize, Tree)>,
        t: Option<Tree>,
        name: Seq<char>,
        value: Self,
    )
        ensures
            self.encoded_field() == Ok::<Option<Tree>, CodecFault>(t) ==> Self::read_field_fault(
                trail,
                t,
                name,
            ) is None && (Self::reads_field(trail, t, value) ==> self.same(&value)),
    ;
}

impl RoundTrip for bool {
    open spec fn same(&self, other: &Self) -> bool {
        *self == *other
    }

    proof fn reads_back(&self, trail: Seq<(usize, Tree)>, t: Tree, value: Self) {
        reveal_strlit("true");
        reveal_strlit("false");
        reveal_strlit("on");
        reveal_strlit("off");
        assert("true"@.len() == 4 && "false"@.len() == 5 && "on"@.len() == 2);
    }

    proof fn field_reads_back(
        &self,
        trail: Seq<(usize, Tree)>,
        t: Option<Tree>,
        name: Seq<char>,
        value: Self,
    ) {
        self.reads_back(trail, t->0, value);
    }
}

impl RoundTrip for i8 {
    open spec fn same(&self, other: &Self) -> bool {
        *self == *other
    }

    proof fn reads_back(&self, trail: Seq<(usize, Tree)>, t: Tree, value: Self) {
    }

    proof fn field_reads_back(
        &self,
        trail: Seq<(usize, Tree)>,
        t: Option<Tree>,
        name: Seq<char>,
        value: Self,
    ) {
        self.reads_back(trail, t->0, value);
    }
}

impl RoundTrip for i16 {
    open spec fn same(&self, other: &Self) -> bool {
        *self == *other
    }

    proof fn reads_back(&self, trail: Seq<(usize, Tree)>, t: Tree, value: Self) {
    }

    proof fn field_reads_back(
        &self,
        trail: Seq<(usize, Tree)>,
        t: Option<Tree>,
        name: Seq<char>,
        value: Self,
    ) {
        self.reads_back(trail, t->0, value);
    }
}

impl RoundTrip for i32 {
    open spec fn same(&self, other: &Self) -> bool {
        *self == *other
    }

    proof fn reads_back(&self, trail: Seq<(usize, Tree)>, t: Tree, value: Self) {
    }

    proof fn field_reads_back(
        &self,
        trail: Seq<(usize, Tree)>,
        t: Option<Tree>,
        name: Seq<char>,
        value: Self,
    ) {
        self.reads_back(trail, t->0, value);
    }
}

impl RoundTrip for i64 {
    open spec fn same(&self, other: &Self) -> bool {
        *self == *other
    }

    proof fn reads_back(&self, trail: Seq<(usize, Tree)>, t: Tree, value: Self) {
    }

    proof fn field_reads_back(
        &self,
        trail: Seq<(usize, Tree)>,
        t: Option<Tree>,
        name: Seq<char>,
        value: Self,
    ) {
        self.reads_back(trail, t->0, value);
    }
}

impl RoundTrip for isize {
    open spec fn same(&self, other: &Self) -> bool {
        *self == *other
    }

    proof fn reads_back(&self, trail: Seq<(usize, Tree)>, t: Tree, value: Self) {
    }

    proof fn field_reads_back(
        &self,
        trail: Seq<(usize, Tree)>,
        t: Option<Tree>,
        name: Seq<char>,
        value: Self,
    ) {
        self.reads_back(trail, t->0, value);
    }
}

impl RoundTrip for u8 {
    open spec fn same(&self, other: &Self) -> bool {
        *self == *other
    }

    proof fn reads_back(&self, trail: Seq<(usize, Tree)>, t: Tree, value: Self) {
    }

    proof fn field_reads_back(
        &self,
        trail: Seq<(usize, Tree)>,
        t: Option<Tree>,
        name: Seq<char>,
        value: Self,
    ) {
        self.reads_back(trail, t->0, value);
    }
}

impl RoundTrip for u16 {
    open spec fn same(&self, other: &Self) -> bool {
        *self == *other
    }

    proof fn reads_back(&self, trail: Seq<(usize, Tree)>, t: Tree, value: Self) {
    }

    proof fn field_reads_back(
        &self,
        trail: Seq<(usize, Tree)>,
        t: Option<Tree>,
        name: Seq<char>,
        value: Self,
    ) {
        self.reads_back(trail, t->0, value);
    }
}

impl RoundTrip for u32 {
    open spec fn same(&self, other: &Self) -> bool {
        *self == *other
    }

    proof fn reads_back(&self, trail: Seq<(usize, Tree)>, t: Tree, value: Self) {
    }

    proof fn field_reads_back(
        &self,
        trail: Seq<(usize, Tree)>,
        t: Option<Tree>,
        name: Seq<char>,
        value: Self,
    ) {
        self.reads_back(trail, t->0, value);
    }
}

impl RoundTrip for u64 {
    open spec fn same(&self, other: &Self) -> bool {
        *self == *other
    }

    proof fn reads_back(&self, trail: Seq<(usize, Tree)>, t: Tree, value: Self) {
    }

    proof fn field_reads_back(
        &self,
        trail: Seq<(usize, Tree)>,
        t: Option<Tree>,
        name: Seq<char>,
        value: Self,
    ) {
        self.reads_back(trail, t->0, value);
    }
}

impl RoundTrip for usize {
    open spec fn same(&self, other: &Self) -> bool {
        *self == *other
    }

    proof fn reads_back(&self, trail: Seq<(usize, Tree)>, t: Tree, value: Self) {
    }

    proof fn field_reads_back(
        &self,
        trail: Seq<(usize, Tree)>,
        t: Option<Tree>,
        name: Seq<char>,
        value: Self,
    ) {
        self.reads_back(trail, t->0, value);
    }
}

impl RoundTrip for String {
    open spec fn same(&self, other: &Self) -> bool {
        self@ == other@
    }

    proof fn reads_back(&self, trail: Seq<(usize, Tree)>, t: Tree, value: Self) {
    }

    proof fn field_reads_back(
        &self,
        trail: Seq<(usize, Tree)>,
        t: Option<Tree>,
        name: Seq<char>,
        value: Self,
    ) {
        self.reads_back(trail, t->0, value);
    }
}

impl RoundTrip for char {
    open spec fn same(&self, other: &Self) -> bool {
        *self == *other
    }

    proof fn reads_back(&self, trail: Seq<(usize, Tree)>, t: Tree, value: Self) {
        assert(seq![*self][0] == *self);
        assert(seq![value][0] == value);
    }

    proof fn field_reads_back(
        &self,
        trail: Seq<(usize, Tree)>,
        t: Option<Tree>,
        name: Seq<char>,
        value: Self,
    ) {
        self.reads_back(trail, t->0, value);
    }
}

impl<T: RoundTrip> RoundTrip for Option<T> {
    open spec fn same(&self, other: &Self) -> bool {
        match (self, other) {
            (Some(a), Some(b)) => a.same(b),
            (None, None) => true,
            _ => false,
        }
    }

    proof fn reads_back(&self, trail: Seq<(usize, Tree)>, t: Tree, value: Self) {
    }

    proof fn field_reads_back(
        &self,
        trail: Seq<(usize, Tree)>,
        t: Option<Tree>,
        name: Seq<char>,
        value: Self,
    ) {
        if let Some(inner) = self {
            inner.reads_back(trail, t->0, value->0);
        }
    }
}

impl RoundTrip for () {
    open spec fn same(&self, other: &Self) -> bool {
        true
    }

    proof fn reads_back(&self, trail: Seq<(usize, Tree)>, t: Tree, value: Self) {
    }

    proof fn field_reads_back(
        &self,
        trail: Seq<(usize, Tree)>,
        t: Option<Tree>,
        name: Seq<char>,
        value: Self,
    ) {
    }
}

impl<T: RoundTrip> RoundTrip for Box<T> {
    open spec fn same(&self, other: &Self) -> bool {
        (**self).same(&**other)
    }

    proof fn reads_back(&self, trail: Seq<(usize, Tree)>, t: Tree, value: Self) {
        (**self).reads_back(trail, t, *value);
    }

    proof fn field_reads_back(
        &self,
        trail: Seq<(usize, Tree)>,
        t: Option<Tree>,
        name: Seq<char>,
        value: Self,
    ) {
        self.reads_back(trail, t->0, value);
    }
}

/// What a shared value is.
pub open spec fn shared<T>(value: Arc<T>) -> T {
    *value
}

impl<T: RoundTrip> RoundTrip for Arc<T> {
    open spec fn same(&self, other: &Self) -> bool {
        (**self).same(&**other)
    }

    proof fn reads_back(&self, trail: Seq<(usize, Tree)>, t: Tree, value: Self) {
        (**self).reads_back(trail, t, shared(value));
    }

    proof fn field_reads_back(
        &self,
        trail: Seq<(usize, Tree)>,
        t: Option<Tree>,
        name: Seq<char>,
        value: Self,
    ) {
        self.reads_back(trail, t->0, value);
    }
}

/// The proper list of elements has just these elements.
pub proof fn list_reads_back(trail: Seq<(usize, Tree)>, items: Seq<Tree>)
    requires
        items.len() <= usize::MAX,
    ensures
        has_shape(trail, list_tree(items), ListShape::Proper { len: items.len() as usize }),
        elements(trail, list_tree(items), items.len()) == items,
        forall|i: int|
            0 <= i < items.len() ==> element_at(trail, list_tree(items), i as nat) == Some(
                #[trigger] items[i],
            ),
{
    list_tail(trail, items, items.len());
    assert(items.skip(items.len() as int) =~= Seq::empty());
    assert forall|i: int| 0 <= i < items.len() implies element_at(
        trail,
        list_tree(items),
        i as nat,
    ) == Some(#[trigger] items[i]) by {
        list_tail(trail, items, i as nat);
        assert(items.skip(i)[0] == items[i]);
    }
    assert(elements(trail, list_tree(items), items.len()) =~= items);
}

/// What is left of a proper list after some of its cells.
proof fn list_tail(trail: Seq<(usize, Tree)>, items: Seq<Tree>, n: nat)
    requires
        n <= items.len(),
    ensures
        tail_after(trail, list_tree(items), n) == Some(list_tree(items.skip(n as int))),
    decreases n,
{
    if n == 0 {
        assert(items.skip(0) =~= items);
    } else {
        list_tail(trail, items, (n - 1) as nat);
        assert(items.skip(n - 1).drop_first() =~= items.skip(n as int));
    }
}

/// Each item stands for the value at its place.
proof fn items_encoded<T: ToTerm>(vs: Seq<T>, items: Seq<Tree>)
    requires
        encoded_items(vs) == Ok::<Seq<Tree>, CodecFault>(items),
    ensures
        items.len() == vs.len(),
        forall|i: int|
            0 <= i < vs.len() ==> (#[trigger] vs[i]).encoded() == Ok::<Tree, CodecFault>(items[i]),
    decreases vs.len(),
{
    if vs.len() > 0 {
        let before = encoded_items(vs.drop_last())->Ok_0;
        assert(items.drop_last() =~= before);
        items_encoded(vs.drop_last(), before);
        assert forall|i: int| 0 <= i < vs.len() implies (#[trigger] vs[i]).encoded() == Ok::<
            Tree,
            CodecFault,
        >(items[i]) by {
            if i < vs.len() - 1 {
                assert(vs.drop_last()[i] == vs[i]);
            }
        }
    }
}

/// Items that stand for values can be read.
proof fn items_have_no_fault<T: RoundTrip>(
    trail: Seq<(usize, Tree)>,
    vs: Seq<T>,
    items: Seq<Tree>,
    n: nat,
)
    requires
        n <= items.len() == vs.len(),
        forall|i: int|
            0 <= i < vs.len() ==> (#[trigger] vs[i]).encoded() == Ok::<Tree, CodecFault>(items[i]),
        forall|i: int|
            0 <= i < items.len() ==> element_at(trail, list_tree(items), i as nat) == Some(
                #[trigger] items[i],
            ),
    ensures
        items_fault::<T>(trail, list_tree(items), n) is None,
    decreases n,
{
    if n > 0 {
        items_have_no_fault(trail, vs, items, (n - 1) as nat);
        let last = vs[n - 1];
        assert(element_at(trail, list_tree(items), (n - 1) as nat) == Some(items[n - 1]));
        last.reads_back(trail, items[n - 1], last);
    }
}

/// Whether two sequences hold the same values.
pub open spec fn same_items<T: RoundTrip>(a: Seq<T>, b: Seq<T>) -> bool {
    a.len() == b.len() && forall|i: int| 0 <= i < a.len() ==> (#[trigger] a[i]).same(&b[i])
}

/// A list of values is read back.
proof fn values_read_back<T: RoundTrip>(
    trail: Seq<(usize, Tree)>,
    vs: Seq<T>,
    items: Seq<Tree>,
    back: Seq<T>,
)
    requires
        vs.len() <= usize::MAX,
        encoded_items(vs) == Ok::<Seq<Tree>, CodecFault>(items),
    ensures
        items.len() == vs.len(),
        has_shape(trail, list_tree(items), ListShape::Proper { len: items.len() as usize }),
        shape_of(trail, list_tree(items)) == (ListShape::Proper {
            len: items.len() as usize,
        }),
        items_fault::<T>(trail, list_tree(items), items.len()) is None,
        reads_list(trail, list_tree(items), back) ==> same_items(vs, back),
{
    items_encoded(vs, items);
    list_reads_back(trail, items);
    shape_is(trail, list_tree(items), ListShape::Proper { len: items.len() as usize });
    items_have_no_fault(trail, vs, items, items.len());
    if reads_list(trail, list_tree(items), back) {
        shape_is(trail, list_tree(items), ListShape::Proper { len: back.len() as usize });
        assert forall|i: int| 0 <= i < vs.len() implies (#[trigger] vs[i]).same(&back[i]) by {
            assert(element_at(trail, list_tree(items), i as nat) == Some(items[i]));
            vs[i].reads_back(trail, items[i], back[i]);
        }
    }
}

impl<T: RoundTrip> RoundTrip for Vec<T> {
    open spec fn same(&self, other: &Self) -> bool {
        same_items(self@, other@)
    }

    proof fn reads_back(&self, trail: Seq<(usize, Tree)>, t: Tree, value: Self) {
        assert(self@.len() == self.len());
        if self.encoded() is Ok {
            values_read_back(trail, self@, encoded_items(self@)->Ok_0, value@);
        }
    }

    proof fn field_reads_back(
        &self,
        trail: Seq<(usize, Tree)>,
        t: Option<Tree>,
        name: Seq<char>,
        value: Self,
    ) {
        self.reads_back(trail, t->0, value);
    }
}

impl<T: RoundTrip, const N: usize> RoundTrip for [T; N] {
    open spec fn same(&self, other: &Self) -> bool {
        same_items(self@, other@)
    }

    proof fn reads_back(&self, trail: Seq<(usize, Tree)>, t: Tree, value: Self) {
        if self.encoded() is Ok {
            values_read_back(trail, self@, encoded_items(self@)->Ok_0, value@);
        }
    }

    proof fn field_reads_back(
        &self,
        trail: Seq<(usize, Tree)>,
        t: Option<Tree>,
        name: Seq<char>,
        value: Self,
    ) {
        self.reads_back(trail, t->0, value);
    }
}

/// Chains of values that are read back from the terms that stand for them.
pub trait ChainRoundTrip: DecodeChain {
    /// How many values there are.
    spec fn arity() -> nat;

    /// The terms that stand for the values, or why the first one that has none
    /// has none.
    spec fn terms(&self) -> Result<Seq<Tree>, CodecFault>;

    /// Whether the two are the same values.
    spec fn same_chain(&self, other: &Self) -> bool;

    /// The terms that stand for the values stand for them alone.
    proof fn chain_reads_back(
        &self,
        trail: Seq<(usize, Tree)>,
        ts: Seq<Tree>,
        total: nat,
        value: Self,
    )
        requires
            self.terms() == Ok::<Seq<Tree>, CodecFault>(ts),
        ensures
            ts.len() == Self::arity(),
            forall|found: nat| #[trigger] Self::chain_fault(trail, ts, total, found) is None,
            Self::chain_reads(trail, ts, value) ==> self.same_chain(&value),
    ;
}

impl ChainRoundTrip for () {
    open spec fn arity() -> nat {
        0
    }

    open spec fn terms(&self) -> Result<Seq<Tree>, CodecFault> {
        Ok(Seq::empty())
    }

    open spec fn same_chain(&self, other: &Self) -> bool {
        true
    }

    proof fn chain_reads_back(
        &self,
        trail: Seq<(usize, Tree)>,
        ts: Seq<Tree>,
        total: nat,
        value: Self,
    ) {
    }
}

impl<H: RoundTrip, R: ChainRoundTrip> ChainRoundTrip for (H, R) {
    open spec fn arity() -> nat {
        R::arity() + 1
    }

    open spec fn terms(&self) -> Result<Seq<Tree>, CodecFault> {
        match self.0.encoded() {
            Err(fault) => Err(fault),
            Ok(t) => match self.1.terms() {
                Err(fault) => Err(fault),
                Ok(ts) => Ok(seq![t] + ts),
            },
        }
    }

    open spec fn same_chain(&self, other: &Self) -> bool {
        self.0.same(&other.0) && self.1.same_chain(&other.1)
    }

    proof fn chain_reads_back(
        &self,
        trail: Seq<(usize, Tree)>,
        ts: Seq<Tree>,
        total: nat,
        value: Self,
    ) {
        let rest = self.1.terms()->Ok_0;
        assert(ts.drop_first() =~= rest);
        self.0.reads_back(trail, ts[0], value.0);
        self.1.chain_reads_back(trail, rest, total, value.1);
    }
}

/// A list of a tuple's values is read back.
proof fn tuple_reads_back<T: ChainRoundTrip>(
    trail: Seq<(usize, Tree)>,
    chain: T,
    total: nat,
    back: T,
)
    requires
        T::arity() <= 16,
        chain.terms() is Ok,
    ensures
        tuple_fault::<T>(trail, list_tree(chain.terms()->Ok_0), total) is None,
        reads_tuple(trail, list_tree(chain.terms()->Ok_0), back) ==> chain.same_chain(&back),
{
    let ts = chain.terms()->Ok_0;
    chain.chain_reads_back(trail, ts, total, back);
    list_reads_back(trail, ts);
    shape_is(trail, list_tree(ts), ListShape::Proper { len: ts.len() as usize });
}

impl<A: RoundTrip> RoundTrip for (A,) {
    open spec fn same(&self, other: &Self) -> bool {
        &&& self.0.same(&other.0)
    }

    proof fn reads_back(&self, trail: Seq<(usize, Tree)>, t: Tree, value: Self) {
        if self.encoded() is Ok {
            tuple_reads_back(trail, (self.0, ()), 1, (value.0, ()));
        }
    }

    proof fn field_reads_back(
        &self,
        trail: Seq<(usize, Tree)>,
        t: Option<Tree>,
        name: Seq<char>,
        value: Self,
    ) {
        self.reads_back(trail, t->0, value);
    }
}

impl<A: RoundTrip, B: RoundTrip> RoundTrip for (A, B) {
    open spec fn same(&self, other: &Self) -> bool {
        &&& self.0.same(&other.0)
        &&& self.1.same(&other.1)
    }

    proof fn reads_back(&self, trail: Seq<(usize, Tree)>, t: Tree, value: Self) {
        if self.encoded() is Ok {
            tuple_reads_back(trail, (self.0, (self.1, ())), 2, (value.0, (value.1, ())));
        }
    }

    proof fn field_reads_back(
        &self,
        trail: Seq<(usize, Tree)>,
        t: Option<Tree>,
        name: Seq<char>,
        value: Self,
    ) {
        self.reads_back(trail, t->0, value);
    }
}

impl<A: RoundTrip, B: RoundTrip, C: RoundTrip> RoundTrip for (A, B, C) {
    open spec fn same(&self, other: &Self) -> bool {
        &&& self.0.same(&other.0)
        &&& self.1.same(&other.1)
        &&& self.2.same(&other.2)
    }

    proof fn reads_back(&self, trail: Seq<(usize, Tree)>, t: Tree, value: Self) {
        if self.encoded() is Ok {
            tuple_reads_back(trail, (self.0, (self.1, (self.2, ()))), 3, (value.0, (value.1, (value.2, ()))));
        }
    }

    proof fn field_reads_back(
        &self,
        trail: Seq<(usize, Tree)>,
        t: Option<Tree>,
        name: Seq<char>,
        value: Self,
    ) {
        self.reads_back(trail, t->0, value);
    }
}

impl<A: RoundTrip, B: RoundTrip, C: RoundTrip, D: RoundTrip> RoundTrip for (A, B, C, D) {
    open spec fn same(&self, other: &Self) -> bool {
        &&& self.0.same(&other.0)
        &&& self.1.same(&other.1)
        &&& self.2.same(&other.2)
        &&& self.3.same(&other.3)
    }

    proof fn reads_back(&self, trail: Seq<(usize, Tree)>, t: Tree, value: Self) {
        if self.encoded() is Ok {
            tuple_reads_back(trail, (self.0, (self.1, (self.2, (self.3, ())))), 4, (value.0, (value.1, (value.2, (value.3, ())))));
        }
    }

    proof fn field_reads_back(
        &self,
        trail: Seq<(usize, Tree)>,
        t: Option<Tree>,
        name: Seq<char>,
        value: Self,
    ) {
        self.reads_back(trail, t->0, value);
    }
}

impl<A: RoundTrip, B: RoundTrip, C: RoundTrip, D: RoundTrip, E: RoundTrip> RoundTrip for (A, B, C, D, E) {
    open spec fn same(&self, other: &Self) -> bool {
        &&& self.0.same(&other.0)
        &&& self.1.same(&other.1)
        &&& self.2.same(&other.2)
        &&& self.3.same(&other.3)
        &&& self.4.same(&other.4)
    }

    proof fn reads_back(&self, trail: Seq<(usize, Tree)>, t: Tree, value: Self) {
        if self.encoded() is Ok {
            tuple_reads_back(trail, (self.0, (self.1, (self.2, (self.3, (self.4, ()))))), 5, (value.0, (value.1, (value.2, (value.3, (value.4, ()))))));
        }
    }

    proof fn field_reads_back(
        &self,
        trail: Seq<(usize, Tree)>,
        t: Option<Tree>,
        name: Seq<char>,
        value: Self,
    ) {
        self.reads_back(trail, t->0, value);
    }
}

impl<A: RoundTrip, B: RoundTrip, C: RoundTrip, D: RoundTrip, E: RoundTrip, F: RoundTrip> RoundTrip for (A, B, C, D, E, F) {
    open spec fn same(&self, other: &Self) -> bool {
        &&& self.0.same(&other.0)
        &&& self.1.same(&other.1)
        &&& self.2.same(&other.2)
        &&& self.3.same(&other.3)
        &&& self.4.same(&other.4)
        &&& self.5.same(&other.5)
    }

    proof fn reads_back(&self, trail: Seq<(usize, Tree)>, t: Tree, value: Self) {
        if self.encoded() is Ok {
            tuple_reads_back(trail, (self.0, (self.1, (self.2, (self.3, (self.4, (self.5, ())))))), 6, (value.0, (value.1, (value.2, (value.3, (value.4, (value.5, ())))))));
        }
    }

    proof fn field_reads_back(
        &self,
        trail: Seq<(usize, Tree)>,
        t: Option<Tree>,
        name: Seq<char>,
        value: Self,
    ) {
        self.reads_back(trail, t->0, value);
    }
}

impl<A: RoundTrip, B: RoundTrip, C: RoundTrip, D: RoundTrip, E: RoundTrip, F: RoundTrip, G: RoundTrip> RoundTrip for (A, B, C, D, E, F, G) {
    open spec fn same(&self, other: &Self) -> bool {
        &&& self.0.same(&other.0)
        &&& self.1.same(&other.1)
        &&& self.2.same(&other.2)
        &&& self.3.same(&other.3)
        &&& self.4.same(&other.4)
        &&& self.5.same(&other.5)
        &&& self.6.same(&other.6)
    }

    proof fn reads_back(&self, trail: Seq<(usize, Tree)>, t: Tree, value: Self) {
        if self.encoded() is Ok {
            tuple_reads_back(trail, (self.0, (self.1, (self.2, (self.3, (self.4, (self.5, (self.6, ()))))))), 7, (value.0, (value.1, (value.2, (value.3, (value.4, (value.5, (value.6, ()))))))));
        }
    }

    proof fn field_reads_back(
        &self,
        trail: Seq<(usize, Tree)>,
        t: Option<Tree>,
        name: Seq<char>,
        value: Self,
    ) {
        self.reads_back(trail, t->0, value);
    }
}

impl<A: RoundTrip, B: RoundTrip, C: RoundTrip, D: RoundTrip, E: RoundTrip, F: RoundTrip, G: RoundTrip, H: RoundTrip> RoundTrip for (A, B, C, D, E, F, G, H) {
    open spec fn same(&self, other: &Self) -> bool {
        &&& self.0.same(&other.0)
        &&& self.1.same(&other.1)
        &&& self.2.same(&other.2)
        &&& self.3.same(&other.3)
        &&& self.4.same(&other.4)
        &&& self.5.same(&other.5)
        &&& self.6.same(&other.6)
        &&& self.7.same(&other.7)
    }

    proof fn reads_back(&self, trail: Seq<(usize, Tree)>, t: Tree, value: Self) {
        if self.encoded() is Ok {
            tuple_reads_back(trail, (self.0, (self.1, (self.2, (self.3, (self.4, (self.5, (self.6, (self.7, ())))))))), 8, (value.0, (value.1, (value.2, (value.3, (value.4, (value.5, (value.6, (value.7, ())))))))));
        }
    }

    proof fn field_reads_back(
        &self,
        trail: Seq<(usize, Tree)>,
        t: Option<Tree>,
        name: Seq<char>,
        value: Self,
    ) {
        self.reads_back(trail, t->0, value);
    }
}

impl<A: RoundTrip, B: RoundTrip, C: RoundTrip, D: RoundTrip, E: RoundTrip, F: RoundTrip, G: RoundTrip, H: RoundTrip, I: RoundTrip> RoundTrip for (A, B, C, D, E, F, G, H, I) {
    open spec fn same(&self, other: &Self) -> bool {
        &&& self.0.same(&other.0)
        &&& self.1.same(&other.1)
        &&& self.2.same(&other.2)
        &&& self.3.same(&other.3)
        &&& self.4.same(&other.4)
        &&& self.5.same(&other.5)
        &&& self.6.same(&other.6)
        &&& self.7.same(&other.7)
        &&& self.8.same(&other.8)
    }

    proof fn reads_back(&self, trail: Seq<(usize, Tree)>, t: Tree, value: Self) {
        if self.encoded() is Ok {
            tuple_reads_back(trail, (self.0, (self.1, (self.2, (self.3, (self.4, (self.5, (self.6, (self.7, (self.8, ()))))))))), 9, (value.0, (value.1, (value.2, (value.3, (value.4, (value.5, (value.6, (value.7, (value.8, ()))))))))));
        }
    }

    proof fn field_reads_back(
        &self,
        trail: Seq<(usize, Tree)>,
        t: Option<Tree>,
        name: Seq<char>,
        value: Self,
    ) {
        self.reads_back(trail, t->0, value);
    }
}

impl<A: RoundTrip, B: RoundTrip, C: RoundTrip, D: RoundTrip, E: RoundTrip, F: RoundTrip, G: RoundTrip, H: RoundTrip, I: RoundTrip, J: RoundTrip> RoundTrip for (A, B, C, D, E, F, G, H, I, J) {
    open spec fn same(&self, other: &Self) -> bool {
        &&& self.0.same(&other.0)
        &&& self.1.same(&other.1)
        &&& self.2.same(&other.2)
        &&& self.3.same(&other.3)
        &&& self.4.same(&other.4)
        &&& self.5.same(&other.5)
        &&& self.6.same(&other.6)
        &&& self.7.same(&other.7)
        &&& self.8.same(&other.8)
        &&& self.9.same(&other.9)
    }

    proof fn reads_back(&self, trail: Seq<(usize, Tree)>, t: Tree, value: Self) {
        if self.encoded() is Ok {
            tuple_reads_back(trail, (self.0, (self.1, (self.2, (self.3, (self.4, (self.5, (self.6, (self.7, (self.8, (self.9, ())))))))))), 10, (value.0, (value.1, (value.2, (value.3, (value.4, (value.5, (value.6, (value.7, (value.8, (value.9, ())))))))))));
        }
    }

    proof fn field_reads_back(
        &self,
        trail: Seq<(usize, Tree)>,
        t: Option<Tree>,
        name: Seq<char>,
        value: Self,
    ) {
        self.reads_back(trail, t->0, value);
    }
}

impl<A: RoundTrip, B: RoundTrip, C: RoundTrip, D: RoundTrip, E: RoundTrip, F: RoundTrip, G: RoundTrip, H: RoundTrip, I: RoundTrip, J: RoundTrip, K: RoundTrip> RoundTrip for (A, B, C, D, E, F, G, H, I, J, K) {
    open spec fn same(&self, other: &Self) -> bool {
        &&& self.0.same(&other.0)
        &&& self.1.same(&other.1)
        &&& self.2.same(&other.2)
        &&& self.3.same(&other.3)
        &&& self.4.same(&other.4)
        &&& self.5.same(&other.5)
        &&& self.6.same(&other.6)
        &&& self.7.same(&other.7)
        &&& self.8.same(&other.8)
        &&& self.9.same(&other.9)
        &&& self.10.same(&other.10)
    }

    proof fn reads_back(&self, trail: Seq<(usize, Tree)>, t: Tree, value: Self) {
        if self.encoded() is Ok {
            tuple_reads_back(trail, (self.0, (self.1, (self.2, (self.3, (self.4, (self.5, (self.6, (self.7, (self.8, (self.9, (self.10, ()))))))))))), 11, (value.0, (value.1, (value.2, (value.3, (value.4, (value.5, (value.6, (value.7, (value.8, (value.9, (value.10, ()))))))))))));
        }
    }

    proof fn field_reads_back(
        &self,
        trail: Seq<(usize, Tree)>,
        t: Option<Tree>,
        name: Seq<char>,
        value: Self,
    ) {
        self.reads_back(trail, t->0, value);
    }
}

impl<A: RoundTrip, B: RoundTrip, C: RoundTrip, D: RoundTrip, E: RoundTrip, F: RoundTrip, G: RoundTrip, H: RoundTrip, I: RoundTrip, J: RoundTrip, K: RoundTrip, L: RoundTrip> RoundTrip for (A, B, C, D, E, F, G, H, I, J, K, L) {
    open spec fn same(&self, other: &Self) -> bool {
        &&& self.0.same(&other.0)
        &&& self.1.same(&other.1)
        &&& self.2.same(&other.2)
        &&& self.3.same(&other.3)
        &&& self.4.same(&other.4)
        &&& self.5.same(&other.5)
        &&& self.6.same(&other.6)
        &&& self.7.same(&other.7)
        &&& self.8.same(&other.8)
        &&& self.9.same(&other.9)
        &&& self.10.same(&other.10)
        &&& self.11.same(&other.11)
    }

    proof fn reads_back(&self, trail: Seq<(usize, Tree)>, t: Tree, value: Self) {
        if self.encoded() is Ok {
            tuple_reads_back(trail, (self.0, (self.1, (self.2, (self.3, (self.4, (self.5, (self.6, (self.7, (self.8, (self.9, (self.10, (self.11, ())))))))))))), 12, (value.0, (value.1, (value.2, (value.3, (value.4, (value.5, (value.6, (value.7, (value.8, (value.9, (value.10, (value.11, ())))))))))))));
        }
    }

    proof fn field_reads_back(
        &self,
        trail: Seq<(usize, Tree)>,
        t: Option<Tree>,
        name: Seq<char>,
        value: Self,
    ) {
        self.reads_back(trail, t->0, value);
    }
}

impl<A: RoundTrip, B: RoundTrip, C: RoundTrip, D: RoundTrip, E: RoundTrip, F: RoundTrip, G: RoundTrip, H: RoundTrip, I: RoundTrip, J: RoundTrip, K: RoundTrip, L: RoundTrip, M: RoundTrip> RoundTrip for (A, B, C, D, E, F, G, H, I, J, K, L, M) {
    open spec fn same(&self, other: &Self) -> bool {
        &&& self.0.same(&other.0)
        &&& self.1.same(&other.1)
        &&& self.2.same(&other.2)
        &&& self.3.same(&other.3)
        &&& self.4.same(&other.4)
        &&& self.5.same(&other.5)
        &&& self.6.same(&other.6)
        &&& self.7.same(&other.7)
        &&& self.8.same(&other.8)
        &&& self.9.same(&other.9)
        &&& self.10.same(&other.10)
        &&& self.11.same(&other.11)
        &&& self.12.same(&other.12)
    }

    proof fn reads_back(&self, trail: Seq<(usize, Tree)>, t: Tree, value: Self) {
        if self.encoded() is Ok {
            tuple_reads_back(trail, (self.0, (self.1, (self.2, (self.3, (self.4, (self.5, (self.6, (self.7, (self.8, (self.9, (self.10, (self.11, (self.12, ()))))))))))))), 13, (value.0, (value.1, (value.2, (value.3, (value.4, (value.5, (value.6, (value.7, (value.8, (value.9, (value.10, (value.11, (value.12, ()))))))))))))));
        }
    }

    proof fn field_reads_back(
        &self,
        trail: Seq<(usize, Tree)>,
        t: Option<Tree>,
        name: Seq<char>,
        value: Self,
    ) {
        self.reads_back(trail, t->0, value);
    }
}

impl<A: RoundTrip, B: RoundTrip, C: RoundTrip, D: RoundTrip, E: RoundTrip, F: RoundTrip, G: RoundTrip, H: RoundTrip, I: RoundTrip, J: RoundTrip, K: RoundTrip, L: RoundTrip, M: RoundTrip, N: RoundTrip> RoundTrip for (A, B, C, D, E, F, G, H, I, J, K, L, M, N) {
    open spec fn same(&self, other: &Self) -> bool {
        &&& self.0.same(&other.0)
        &&& self.1.same(&other.1)
        &&& self.2.same(&other.2)
        &&& self.3.same(&other.3)
        &&& self.4.same(&other.4)
        &&& self.5.same(&other.5)
        &&& self.6.same(&other.6)
        &&& self.7.same(&other.7)
        &&& self.8.same(&other.8)
        &&& self.9.same(&other.9)
        &&& self.10.same(&other.10)
        &&& self.11.same(&other.11)
        &&& self.12.same(&other.12)
        &&& self.13.same(&other.13)
    }

    proof fn reads_back(&self, trail: Seq<(usize, Tree)>, t: Tree, value: Self) {
        if self.encoded() is Ok {
            tuple_reads_back(trail, (self.0, (self.1, (self.2, (self.3, (self.4, (self.5, (self.6, (self.7, (self.8, (self.9, (self.10, (self.11, (self.12, (self.13, ())))))))))))))), 14, (value.0, (value.1, (value.2, (value.3, (value.4, (value.5, (value.6, (value.7, (value.8, (value.9, (value.10, (value.11, (value.12, (value.13, ())))))))))))))));
        }
    }

    proof fn field_reads_back(
        &self,
        trail: Seq<(usize, Tree)>,
        t: Option<Tree>,
        name: Seq<char>,
        value: Self,
    ) {
        self.reads_back(trail, t->0, value);
    }
}

impl<A: RoundTrip, B: RoundTrip, C: RoundTrip, D: RoundTrip, E: RoundTrip, F: RoundTrip, G: RoundTrip, H: RoundTrip, I: RoundTrip, J: RoundTrip, K: RoundTrip, L: RoundTrip, M: RoundTrip, N: RoundTrip, O: RoundTrip> RoundTrip for (A, B, C, D, E, F, G, H, I, J, K, L, M, N, O) {
    open spec fn same(&self, other: &Self) -> bool {
        &&& self.0.same(&other.0)
        &&& self.1.same(&other.1)
        &&& self.2.same(&other.2)
        &&& self.3.same(&other.3)
        &&& self.4.same(&other.4)
        &&& self.5.same(&other.5)
        &&& self.6.same(&other.6)
        &&& self.7.same(&other.7)
        &&& self.8.same(&other.8)
        &&& self.9.same(&other.9)
        &&& self.10.same(&other.10)
        &&& self.11.same(&other.11)
        &&& self.12.same(&other.12)
        &&& self.13.same(&other.13)
        &&& self.14.same(&other.14)
    }

    proof fn reads_back(&self, trail: Seq<(usize, Tree)>, t: Tree, value: Self) {
        if self.encoded() is Ok {
            tuple_reads_back(trail, (self.0, (self.1, (self.2, (self.3, (self.4, (self.5, (self.6, (self.7, (self.8, (self.9, (self.10, (self.11, (self.12, (self.13, (self.14, ()))))))))))))))), 15, (value.0, (value.1, (value.2, (value.3, (value.4, (value.5, (value.6, (value.7, (value.8, (value.9, (value.10, (value.11, (value.12, (value.13, (value.14, ()))))))))))))))));
        }
    }

    proof fn field_reads_back(
        &self,
        trail: Seq<(usize, Tree)>,
        t: Option<Tree>,
        name: Seq<char>,
        value: Self,
    ) {
        self.reads_back(trail, t->0, value);
    }
}

impl<A: RoundTrip, B: RoundTrip, C: RoundTrip, D: RoundTrip, E: RoundTrip, F: RoundTrip, G: RoundTrip, H: RoundTrip, I: RoundTrip, J: RoundTrip, K: RoundTrip, L: RoundTrip, M: RoundTrip, N: RoundTrip, O: RoundTrip, P: RoundTrip> RoundTrip for (A, B, C, D, E, F, G, H, I, J, K, L, M, N, O, P) {
    open spec fn same(&self, other: &Self) -> bool {
        &&& self.0.same(&other.0)
        &&& self.1.same(&other.1)
        &&& self.2.same(&other.2)
        &&& self.3.same(&other.3)
        &&& self.4.same(&other.4)
        &&& self.5.same(&other.5)
        &&& self.6.same(&other.6)
        &&& self.7.same(&other.7)
        &&& self.8.same(&other.8)
        &&& self.9.same(&other.9)
        &&& self.10.same(&other.10)
        &&& self.11.same(&other.11)
        &&& self.12.same(&other.12)
        &&& self.13.same(&other.13)
        &&& self.14.same(&other.14)
        &&& self.15.same(&other.15)
    }

    proof fn reads_back(&self, trail: Seq<(usize, Tree)>, t: Tree, value: Self) {
        if self.encoded() is Ok {
            tuple_reads_back(trail, (self.0, (self.1, (self.2, (self.3, (self.4, (self.5, (self.6, (self.7, (self.8, (self.9, (self.10, (self.11, (self.12, (self.13, (self.14, (self.15, ())))))))))))))))), 16, (value.0, (value.1, (value.2, (value.3, (value.4, (value.5, (value.6, (value.7, (value.8, (value.9, (value.10, (value.11, (value.12, (value.13, (value.14, (value.15, ())))))))))))))))));
        }
    }

    proof fn field_reads_back(
        &self,
        trail: Seq<(usize, Tree)>,
        t: Option<Tree>,
        name: Seq<char>,
        value: Self,
    ) {
        self.reads_back(trail, t->0, value);
    }
}

/// Tuples that are read back from the argument block that stands for them.
pub trait BlockRoundTrip: ToTerms + FromTerms {
    /// Whether the two are the same arguments.
    spec fn same_block(&self, other: &Self) -> bool;

    /// The block that stands for the arguments stands for them alone.
    proof fn block_reads_back(&self, trail: Seq<(usize, Tree)>, ts: Seq<Tree>, value: Self)
        requires
            self.encoded_terms() == Ok::<Seq<Tree>, CodecFault>(ts),
        ensures
            Self::terms_fault(trail, ts) is None,
            Self::reads_terms(trail, ts, value) ==> self.same_block(&value),
    ;
}

impl<A: RoundTrip> BlockRoundTrip for (A,) {
    open spec fn same_block(&self, other: &Self) -> bool {
        self.same(other)
    }

    proof fn block_reads_back(&self, trail: Seq<(usize, Tree)>, ts: Seq<Tree>, value: Self) {
        (self.0, ()).chain_reads_back(trail, ts, 1, (value.0, ()));
    }
}

impl<A: RoundTrip, B: RoundTrip> BlockRoundTrip for (A, B) {
    open spec fn same_block(&self, other: &Self) -> bool {
        self.same(other)
    }

    proof fn block_reads_back(&self, trail: Seq<(usize, Tree)>, ts: Seq<Tree>, value: Self) {
        (self.0, (self.1, ())).chain_reads_back(trail, ts, 2, (value.0, (value.1, ())));
    }
}

impl<A: RoundTrip, B: RoundTrip, C: RoundTrip> BlockRoundTrip for (A, B, C) {
    open spec fn same_block(&self, other: &Self) -> bool {
        self.same(other)
    }

    proof fn block_reads_back(&self, trail: Seq<(usize, Tree)>, ts: Seq<Tree>, value: Self) {
        (self.0, (self.1, (self.2, ()))).chain_reads_back(trail, ts, 3, (value.0, (value.1, (value.2, ()))));
    }
}

impl<A: RoundTrip, B: RoundTrip, C: RoundTrip, D: RoundTrip> BlockRoundTrip for (A, B, C, D) {
    open spec fn same_block(&self, other: &Self) -> bool {
        self.same(other)
    }

    proof fn block_reads_back(&self, trail: Seq<(usize, Tree)>, ts: Seq<Tree>, value: Self) {
        (self.0, (self.1, (self.2, (self.3, ())))).chain_reads_back(trail, ts, 4, (value.0, (value.1, (value.2, (value.3, ())))));
    }
}

impl<A: RoundTrip, B: RoundTrip, C: RoundTrip, D: RoundTrip, E: RoundTrip> BlockRoundTrip for (A, B, C, D, E) {
    open spec fn same_block(&self, other: &Self) -> bool {
        self.same(other)
    }

    proof fn block_reads_back(&self, trail: Seq<(usize, Tree)>, ts: Seq<Tree>, value: Self) {
        (self.0, (self.1, (self.2, (self.3, (self.4, ()))))).chain_reads_back(trail, ts, 5, (value.0, (value.1, (value.2, (value.3, (value.4, ()))))));
    }
}

impl<A: RoundTrip, B: RoundTrip, C: RoundTrip, D: RoundTrip, E: RoundTrip, F: RoundTrip> BlockRoundTrip for (A, B, C, D, E, F) {
    open spec fn same_block(&self, other: &Self) -> bool {
        self.same(other)
    }

    proof fn block_reads_back(&self, trail: Seq<(usize, Tree)>, ts: Seq<Tree>, value: Self) {
        (self.0, (self.1, (self.2, (self.3, (self.4, (self.5, ())))))).chain_reads_back(trail, ts, 6, (value.0, (value.1, (value.2, (value.3, (value.4, (value.5, ())))))));
    }
}

impl<A: RoundTrip, B: RoundTrip, C: RoundTrip, D: RoundTrip, E: RoundTrip, F: RoundTrip, G: RoundTrip> BlockRoundTrip for (A, B, C, D, E, F, G) {
    open spec fn same_block(&self, other: &Self) -> bool {
        self.same(other)
    }

    proof fn block_reads_back(&self, trail: Seq<(usize, Tree)>, ts: Seq<Tree>, value: Self) {
        (self.0, (self.1, (self.2, (self.3, (self.4, (self.5, (self.6, ()))))))).chain_reads_back(trail, ts, 7, (value.0, (value.1, (value.2, (value.3, (value.4, (value.5, (value.6, ()))))))));
    }
}

impl<A: RoundTrip, B: RoundTrip, C: RoundTrip, D: RoundTrip, E: RoundTrip, F: RoundTrip, G: RoundTrip, H: RoundTrip> BlockRoundTrip for (A, B, C, D, E, F, G, H) {
    open spec fn same_block(&self, other: &Self) -> bool {
        self.same(other)
    }

    proof fn block_reads_back(&self, trail: Seq<(usize, Tree)>, ts: Seq<Tree>, value: Self) {
        (self.0, (self.1, (self.2, (self.3, (self.4, (self.5, (self.6, (self.7, ())))))))).chain_reads_back(trail, ts, 8, (value.0, (value.1, (value.2, (value.3, (value.4, (value.5, (value.6, (value.7, ())))))))));
    }
}

impl<A: RoundTrip, B: RoundTrip, C: RoundTrip, D: RoundTrip, E: RoundTrip, F: RoundTrip, G: RoundTrip, H: RoundTrip, I: RoundTrip> BlockRoundTrip for (A, B, C, D, E, F, G, H, I) {
    open spec fn same_block(&self, other: &Self) -> bool {
        self.same(other)
    }

    proof fn block_reads_back(&self, trail: Seq<(usize, Tree)>, ts: Seq<Tree>, value: Self) {
        (self.0, (self.1, (self.2, (self.3, (self.4, (self.5, (self.6, (self.7, (self.8, ()))))))))).chain_reads_back(trail, ts, 9, (value.0, (value.1, (value.2, (value.3, (value.4, (value.5, (value.6, (value.7, (value.8, ()))))))))));
    }
}

impl<A: RoundTrip, B: RoundTrip, C: RoundTrip, D: RoundTrip, E: RoundTrip, F: RoundTrip, G: RoundTrip, H: RoundTrip, I: RoundTrip, J: RoundTrip> BlockRoundTrip for (A, B, C, D, E, F, G, H, I, J) {
    open spec fn same_block(&self, other: &Self) -> bool {
        self.same(other)
    }

    proof fn block_reads_back(&self, trail: Seq<(usize, Tree)>, ts: Seq<Tree>, value: Self) {
        (self.0, (self.1, (self.2, (self.3, (self.4, (self.5, (self.6, (self.7, (self.8, (self.9, ())))))))))).chain_reads_back(trail, ts, 10, (value.0, (value.1, (value.2, (value.3, (value.4, (value.5, (value.6, (value.7, (value.8, (value.9, ())))))))))));
    }
}

impl<A: RoundTrip, B: RoundTrip, C: RoundTrip, D: RoundTrip, E: RoundTrip, F: RoundTrip, G: RoundTrip, H: RoundTrip, I: RoundTrip, J: RoundTrip, K: RoundTrip> BlockRoundTrip for (A, B, C, D, E, F, G, H, I, J, K) {
    open spec fn same_block(&self, other: &Self) -> bool {
        self.same(other)
    }

    proof fn block_reads_back(&self, trail: Seq<(usize, Tree)>, ts: Seq<Tree>, value: Self) {
        (self.0, (self.1, (self.2, (self.3, (self.4, (self.5, (self.6, (self.7, (self.8, (self.9, (self.10, ()))))))))))).chain_reads_back(trail, ts, 11, (value.0, (value.1, (value.2, (value.3, (value.4, (value.5, (value.6, (value.7, (value.8, (value.9, (value.10, ()))))))))))));
    }
}

impl<A: RoundTrip, B: RoundTrip, C: RoundTrip, D: RoundTrip, E: RoundTrip, F: RoundTrip, G: RoundTrip, H: RoundTrip, I: RoundTrip, J: RoundTrip, K: RoundTrip, L: RoundTrip> BlockRoundTrip for (A, B, C, D, E, F, G, H, I, J, K, L) {
    open spec fn same_block(&self, other: &Self) -> bool {
        self.same(other)
    }

    proof fn block_reads_back(&self, trail: Seq<(usize, Tree)>, ts: Seq<Tree>, value: Self) {
        (self.0, (self.1, (self.2, (self.3, (self.4, (self.5, (self.6, (self.7, (self.8, (self.9, (self.10, (self.11, ())))))))))))).chain_reads_back(trail, ts, 12, (value.0, (value.1, (value.2, (value.3, (value.4, (value.5, (value.6, (value.7, (value.8, (value.9, (value.10, (value.11, ())))))))))))));
    }
}

impl<A: RoundTrip, B: RoundTrip, C: RoundTrip, D: RoundTrip, E: RoundTrip, F: RoundTrip, G: RoundTrip, H: RoundTrip, I: RoundTrip, J: RoundTrip, K: RoundTrip, L: RoundTrip, M: RoundTrip> BlockRoundTrip for (A, B, C, D, E, F, G, H, I, J, K, L, M) {
    open spec fn same_block(&self, other: &Self) -> bool {
        self.same(other)
    }

    proof fn block_reads_back(&self, trail: Seq<(usize, Tree)>, ts: Seq<Tree>, value: Self) {
        (self.0, (self.1, (self.2, (self.3, (self.4, (self.5, (self.6, (self.7, (self.8, (self.9, (self.10, (self.11, (self.12, ()))))))))))))).chain_reads_back(trail, ts, 13, (value.0, (value.1, (value.2, (value.3, (value.4, (value.5, (value.6, (value.7, (value.8, (value.9, (value.10, (value.11, (value.12, ()))))))))))))));
    }
}

impl<A: RoundTrip, B: RoundTrip, C: RoundTrip, D: RoundTrip, E: RoundTrip, F: RoundTrip, G: RoundTrip, H: RoundTrip, I: RoundTrip, J: RoundTrip, K: RoundTrip, L: RoundTrip, M: RoundTrip, N: RoundTrip> BlockRoundTrip for (A, B, C, D, E, F, G, H, I, J, K, L, M, N) {
    open spec fn same_block(&self, other: &Self) -> bool {
        self.same(other)
    }

    proof fn block_reads_back(&self, trail: Seq<(usize, Tree)>, ts: Seq<Tree>, value: Self) {
        (self.0, (self.1, (self.2, (self.3, (self.4, (self.5, (self.6, (self.7, (self.8, (self.9, (self.10, (self.11, (self.12, (self.13, ())))))))))))))).chain_reads_back(trail, ts, 14, (value.0, (value.1, (value.2, (value.3, (value.4, (value.5, (value.6, (value.7, (value.8, (value.9, (value.10, (value.11, (value.12, (value.13, ())))))))))))))));
    }
}

impl<A: RoundTrip, B: RoundTrip, C: RoundTrip, D: RoundTrip, E: RoundTrip, F: RoundTrip, G: RoundTrip, H: RoundTrip, I: RoundTrip, J: RoundTrip, K: RoundTrip, L: RoundTrip, M: RoundTrip, N: RoundTrip, O: RoundTrip> BlockRoundTrip for (A, B, C, D, E, F, G, H, I, J, K, L, M, N, O) {
    open spec fn same_block(&self, other: &Self) -> bool {
        self.same(other)
    }

    proof fn block_reads_back(&self, trail: Seq<(usize, Tree)>, ts: Seq<Tree>, value: Self) {
        (self.0, (self.1, (self.2, (self.3, (self.4, (self.5, (self.6, (self.7, (self.8, (self.9, (self.10, (self.11, (self.12, (self.13, (self.14, ()))))))))))))))).chain_reads_back(trail, ts, 15, (value.0, (value.1, (value.2, (value.3, (value.4, (value.5, (value.6, (value.7, (value.8, (value.9, (value.10, (value.11, (value.12, (value.13, (value.14, ()))))))))))))))));
    }
}

impl<A: RoundTrip, B: RoundTrip, C: RoundTrip, D: RoundTrip, E: RoundTrip, F: RoundTrip, G: RoundTrip, H: RoundTrip, I: RoundTrip, J: RoundTrip, K: RoundTrip, L: RoundTrip, M: RoundTrip, N: RoundTrip, O: RoundTrip, P: RoundTrip> BlockRoundTrip for (A, B, C, D, E, F, G, H, I, J, K, L, M, N, O, P) {
    open spec fn same_block(&self, other: &Self) -> bool {
        self.same(other)
    }

    proof fn block_reads_back(&self, trail: Seq<(usize, Tree)>, ts: Seq<Tree>, value: Self) {
        (self.0, (self.1, (self.2, (self.3, (self.4, (self.5, (self.6, (self.7, (self.8, (self.9, (self.10, (self.11, (self.12, (self.13, (self.14, (self.15, ())))))))))))))))).chain_reads_back(trail, ts, 16, (value.0, (value.1, (value.2, (value.3, (value.4, (value.5, (value.6, (value.7, (value.8, (value.9, (value.10, (value.11, (value.12, (value.13, (value.14, (value.15, ())))))))))))))))));
    }
}

/// The entries of a map that are written: those whose value is not left out as
/// a field.
pub open spec fn written_entries<K: TermMapKey, V: ToTerm>(entries: Seq<(K, V)>) -> Seq<(K, V)>
    decreases entries.len(),
{
    if entries.len() == 0 {
        Seq::empty()
    } else if entries.last().1.encoded_field() == Ok::<Option<Tree>, CodecFault>(None) {
        written_entries(entries.drop_last())
    } else {
        written_entries(entries.drop_last()).push(entries.last())
    }
}

/// Each field stands for the written entry at its place.
proof fn pairs_encoded<K: TermMapKey, V: ToTerm>(
    entries: Seq<(K, V)>,
    fields: Seq<(Seq<char>, Tree)>,
)
    requires
        encoded_pairs(entries) == Ok::<Seq<(Seq<char>, Tree)>, CodecFault>(fields),
    ensures
        fields.len() == written_entries(entries).len(),
        forall|i: int|
            0 <= i < fields.len() ==> entry_written(
                #[trigger] written_entries(entries)[i],
                #[trigger] fields[i],
            ),
    decreases entries.len(),
{
    if entries.len() > 0 {
        let before = encoded_pairs(entries.drop_last())->Ok_0;
        let kept = written_entries(entries.drop_last());
        pairs_encoded(entries.drop_last(), before);
        assert forall|i: int| 0 <= i < fields.len() implies entry_written(
            #[trigger] written_entries(entries)[i],
            #[trigger] fields[i],
        ) by {
            if i < before.len() {
                assert(entry_written(kept[i], before[i]));
            }
        }
    }
}

/// Entries under different atoms in order are fields just as they stand.
pub proof fn fields_of_atoms(entries: Seq<(Key, Tree)>)
    requires
        forall|i: int| 0 <= i < entries.len() ==> (#[trigger] entries[i]).0 is Atom,
        forall|i: int, j: int|
            0 <= i < j < entries.len() ==> (#[trigger] entries[i]).0 != (#[trigger] entries[j]).0,
        sorted_by_key(entries),
    ensures
        fields_of(entries) == Seq::new(
            entries.len(),
            |i: int| (key_text(entries[i].0), entries[i].1),
        ),
    decreases entries.len(),
{
    let all = Seq::new(entries.len(), |i: int| (key_text(entries[i].0), entries[i].1));
    if entries.len() > 0 {
        let front = entries.drop_last();
        assert forall|i: int| 0 <= i < front.len() implies (#[trigger] front[i]).0 is Atom by {
            assert(entries[i].0 is Atom);
        }
        assert forall|i: int, j: int| 0 <= i < j < front.len() implies (#[trigger] front[i]).0 != (
        #[trigger] front[j]).0 by {
            assert(entries[i].0 != entries[j].0);
        }
        assert(sorted_by_key(front)) by {
            assert forall|i: int, j: int| 0 <= i < j < front.len() implies !key_before(
                (#[trigger] front[j]).0,
                (#[trigger] front[i]).0,
            ) by {
                assert(!key_before(entries[j].0, entries[i].0));
            }
        }
        fields_of_atoms(front);
        let before = fields_of(front);
        let name = key_text(entries.last().0);
        field_position_holds(before, name);
        if let Some(i) = field_position(before, name) {
            assert(entries[i as int].0 is Atom);
            assert(entries[entries.len() - 1].0 is Atom);
            assert(entries[i as int].0 != entries[entries.len() - 1].0);
        }
        if front.len() > 0 {
            let last = entries[entries.len() - 1];
            let previous = entries[front.len() - 1];
            assert(!key_before(last.0, previous.0));
            assert(previous.0 != last.0 && previous.0 is Atom && last.0 is Atom);
            key_order(previous.0, last.0);
            assert(before.last().0 == key_text(previous.0));
            assert(text_before(before.last().0, name));
        }
        assert(all =~= before.push((name, entries.last().1)));
        assert(all =~= before.insert(before.len() as int, (name, entries.last().1)));
    } else {
        assert(all =~= fields_of(entries));
    }
}

/// Pairs with different keys are the entries of the map that collects them.
proof fn collected_pairs<K: TermMapKey, V>(pairs: Seq<(K, V)>)
    requires
        keys_differ(pairs),
    ensures
        collected(pairs) == pairs,
    decreases pairs.len(),
{
    if pairs.len() > 0 {
        let front = pairs.drop_last();
        assert forall|i: int, j: int| 0 <= i < j < front.len() implies (
        #[trigger] front[i]).0.text() != (#[trigger] front[j]).0.text() by {
            assert(pairs[i].0.text() != pairs[j].0.text());
        }
        collected_pairs(front);
        key_position_holds(front, pairs.last().0.text());
        if let Some(i) = key_position(front, pairs.last().0.text()) {
            assert(pairs[i as int].0.text() != pairs[pairs.len() - 1].0.text());
        }
        assert(front.push(pairs.last()) =~= pairs);
    }
}

/// Fields each of which stands for an entry can be read.
proof fn fields_have_no_fault<K: TermMapKey, V: RoundTrip>(
    trail: Seq<(usize, Tree)>,
    entries: Seq<(K, V)>,
    fields: Seq<(Seq<char>, Tree)>,
)
    requires
        forall|k: int|
            0 <= k < fields.len() ==> exists|i: int|
                0 <= i < entries.len() && entry_written(#[trigger] entries[i], #[trigger] fields[k]),
    ensures
        pairs_fault::<K, V>(trail, fields) is None,
    decreases fields.len(),
{
    if fields.len() > 0 {
        let front = fields.drop_last();
        assert forall|k: int| 0 <= k < front.len() implies exists|i: int|
            0 <= i < entries.len() && entry_written(#[trigger] entries[i], #[trigger] front[k]) by {
            assert(fields[k] == front[k]);
        }
        fields_have_no_fault(trail, entries, front);
        let last = fields[fields.len() - 1];
        let i = choose|i: int|
            0 <= i < entries.len() && entry_written(#[trigger] entries[i], last);
        entries[i].0.text_reads_back(entries[i].0);
        entries[i].1.field_reads_back(trail, Some(last.1), last.0, entries[i].1);
    }
}

/// Whether a field stands for an entry.
pub open spec fn entry_written<K: TermMapKey, V: ToTerm>(
    entry: (K, V),
    field: (Seq<char>, Tree),
) -> bool {
    field.0 == entry.0.text() && entry.1.encoded_field() == Ok::<Option<Tree>, CodecFault>(
        Some(field.1),
    )
}

/// Whether `b` holds the entry `e` of another map.
pub open spec fn has_entry<K: TermMapKey, V: RoundTrip>(b: Seq<(K, V)>, e: (K, V)) -> bool {
    exists|j: int|
        0 <= j < b.len() && (#[trigger] b[j]).0.text() == e.0.text() && e.1.same(&b[j].1)
}

/// A map is read back, but for the entries whose value is left out.
proof fn map_reads_back<K: TermMapKey, V: RoundTrip>(
    map: TermMap<K, V>,
    trail: Seq<(usize, Tree)>,
    t: Tree,
    value: TermMap<K, V>,
)
    requires
        map.encoded() == Ok::<Tree, CodecFault>(t),
    ensures
        TermMap::<K, V>::read_fault(trail, t) is None,
        TermMap::<K, V>::reads(trail, t, value) ==> same_entries(
            written_entries(map@),
            value@,
        ),
{
    let entries = written_entries(map@);
    let fields = encoded_pairs(map@)->Ok_0;
    pairs_encoded(map@, fields);
    no_repeated_key(names(fields));
    let plain = zipped(names(fields), values(fields));
    let sorted = in_order(plain);
    order_is_sorted(plain);
    order_is_stable(sorted);
    assert(t == dict_tree("#"@, names(fields), values(fields)));
    assert(sorted.to_multiset() == plain.to_multiset());
    assert forall|i: int, j: int| 0 <= i < j < plain.len() implies (#[trigger] plain[i]).0 != (
    #[trigger] plain[j]).0 by {
        assert(names(fields)[i] != names(fields)[j]);
    }
    distinct_rearranged(plain, sorted);
    assert forall|k: int| 0 <= k < sorted.len() implies (#[trigger] sorted[k]).0 is Atom by {
        let i = rearranged(sorted, plain, k);
    }
    fields_of_atoms(sorted);
    let read = fields_of(sorted);
    assert forall|k: int| 0 <= k < read.len() implies exists|i: int|
        0 <= i < entries.len() && entry_written(#[trigger] entries[i], #[trigger] read[k]) by {
        let i = rearranged(sorted, plain, k);
        assert(entry_written(entries[i], fields[i]));
        assert(entry_written(entries[i], read[k]));
    }
    fields_have_no_fault(trail, entries, read);
    if TermMap::<K, V>::reads(trail, t, value) {
        let pairs = choose|pairs: Seq<(K, V)>| #[trigger]
            pairs_read(trail, read, pairs) && value@ == collected(pairs);
        assert(pairs_read(trail, read, pairs) && value@ == collected(pairs));
        assert forall|k: int| 0 <= k < pairs.len() implies (#[trigger] pairs[k]).0.text()
            == read[k].0 by {
            let i = rearranged(sorted, plain, k);
            assert(entry_written(entries[i], fields[i]));
            entries[i].0.text_reads_back(pairs[k].0);
        }
        assert forall|i: int, j: int| 0 <= i < j < pairs.len() implies (
        #[trigger] pairs[i]).0.text() != (#[trigger] pairs[j]).0.text() by {
            assert(sorted[i].0 != sorted[j].0);
            assert(sorted[i].0 is Atom && sorted[j].0 is Atom);
        }
        collected_pairs(pairs);
        assert forall|i: int| 0 <= i < entries.len() implies has_entry(
            value@,
            #[trigger] entries[i],
        ) by {
            let k = rearranged(plain, sorted, i);
            assert(entry_written(entries[i], fields[i]));
            assert(pairs[k].0.text() == read[k].0);
            entries[i].1.field_reads_back(trail, Some(fields[i].1), read[k].0, pairs[k].1);
            assert(value@[k].0.text() == entries[i].0.text());
        }
    }
}

/// Whether two maps have the same entries.
pub open spec fn same_entries<K: TermMapKey, V: RoundTrip>(
    a: Seq<(K, V)>,
    b: Seq<(K, V)>,
) -> bool {
    a.len() == b.len() && forall|i: int| 0 <= i < a.len() ==> has_entry(b, #[trigger] a[i])
}

impl<K: TermMapKey, V: RoundTrip> RoundTrip for TermMap<K, V> {
    open spec fn same(&self, other: &Self) -> bool {
        same_entries(written_entries(self@), other@)
    }

    proof fn reads_back(&self, trail: Seq<(usize, Tree)>, t: Tree, value: Self) {
        if self.encoded() == Ok::<Tree, CodecFault>(t) {
            map_reads_back(*self, trail, t, value);
        }
    }

    proof fn field_reads_back(
        &self,
        trail: Seq<(usize, Tree)>,
        t: Option<Tree>,
        name: Seq<char>,
        value: Self,
    ) {
        self.reads_back(trail, t->0, value);
    }
}

} // verus!
