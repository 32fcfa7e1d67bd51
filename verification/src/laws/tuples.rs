//! Laws of tuples: a tuple is the list of its values in their order, and as
//! arguments the values themselves.

use vstd::prelude::*;

use crate::codec::tuples::{elements, DecodeChain, EncodeChain};
use crate::codec::{list_tree, CodecFault, FromTerm, FromTerms, ToTerm, ToTerms};
use crate::data::Tree;
use crate::list::shape_of;
use crate::term::{ListShape, TermError};

verus! {

/// Values are written one after another, and the first that has no term decides
/// which error comes.
pub proof fn values_are_written_in_turn<H: ToTerm, R: EncodeChain>(
    first: &H,
    rest: R,
    t: Tree,
    ts: Seq<Tree>,
)
    ensures
        ().chain() == Ok::<Seq<Tree>, CodecFault>(Seq::empty()),
        first.encoded() == Ok::<Tree, CodecFault>(t) && rest.chain() == Ok::<
            Seq<Tree>,
            CodecFault,
        >(ts) ==> (first, rest).chain() == Ok::<Seq<Tree>, CodecFault>(seq![t] + ts),
        first.encoded() matches Err(fault) ==> (first, rest).chain() == Err::<
            Seq<Tree>,
            CodecFault,
        >(fault),
        first.encoded() is Ok ==> (rest.chain() matches Err(fault) ==> (first, rest).chain()
            == Err::<Seq<Tree>, CodecFault>(fault)),
{
}

/// Values are read one after another, each from its own term; the first that is
/// not readable decides which error comes, and terms that are missing or left
/// over are told by the two numbers.
pub proof fn values_are_read_in_turn<H: FromTerm, R: DecodeChain>(
    trail: Seq<(usize, Tree)>,
    t: Tree,
    ts: Seq<Tree>,
    total: nat,
    found: nat,
    first: H,
    rest: R,
)
    ensures
        <() as DecodeChain>::chain_fault(trail, Seq::empty(), total, found) is None,
        ts.len() > 0 ==> <() as DecodeChain>::chain_fault(trail, ts, total, found) == Some(
            CodecFault::ArityMismatch(total, found),
        ),
        <(H, R) as DecodeChain>::chain_fault(trail, Seq::empty(), total, found) == Some(
            CodecFault::ArityMismatch(total, found),
        ),
        H::read_fault(trail, t) matches Some(fault) ==> <(H, R) as DecodeChain>::chain_fault(
            trail,
            seq![t] + ts,
            total,
            found,
        ) == Some(fault),
        H::read_fault(trail, t) is None ==> <(H, R) as DecodeChain>::chain_fault(
            trail,
            seq![t] + ts,
            total,
            found,
        ) == R::chain_fault(trail, ts, total, found),
        <(H, R) as DecodeChain>::chain_reads(trail, seq![t] + ts, (first, rest)) <==> H::reads(
            trail,
            t,
            first,
        ) && R::chain_reads(trail, ts, rest),
{
    assert((seq![t] + ts).drop_first() =~= ts);
    assert((seq![t] + ts)[0] == t);
}


/// A tuple of one value is the list of it: it is read from a
/// list of that length whose elements are read, and from no other term.
pub proof fn tuples_of_one<A: ToTerm + FromTerm>(
    trail: Seq<(usize, Tree)>,
    t: Tree,
    ts: Seq<Tree>,
    value: (A,),
)
    requires
        ts.len() == 1,
    ensures
        <(A,) as ToTerms>::count() == 1 && <(A,) as FromTerms>::count() == 1,
        value.0.encoded() == Ok::<Tree, CodecFault>(ts[0]) ==> value.encoded() == Ok::<Tree, CodecFault>(list_tree(ts)) && value.encoded_terms() == Ok::<Seq<Tree>, CodecFault>(ts),
        value.encoded() is Ok <==> value.0.encoded() is Ok,
        A::read_fault(trail, ts[0]) is None <==> <(A,) as FromTerms>::terms_fault(trail, ts) is None,
        <(A,) as FromTerms>::reads_terms(trail, ts, value) <==> A::reads(trail, ts[0], value.0),
        shape_of(trail, t) == (ListShape::Proper { len: 1 }) ==> <(A,) as FromTerm>::read_fault(trail, t) == <(A,) as FromTerms>::terms_fault(trail, elements(trail, t, 1)),
        shape_of(trail, t) == (ListShape::Proper { len: 0 }) ==> <(A,) as FromTerm>::read_fault(trail, t) == Some(CodecFault::ArityMismatch(1, 0)),
        <(A,) as FromTerm>::read_fault(trail, t) is None ==> shape_of(trail, t) == (ListShape::Proper { len: 1 }),
        !(shape_of(trail, t) is Proper) ==> <(A,) as FromTerm>::read_fault(trail, t) == Some(CodecFault::Term(TermError::NotAProperList(shape_of(trail, t)))),
{
    let d1 = ts.skip(1);
    assert(ts.drop_first() =~= d1 && ts[0] == ts[0]);
    assert((&value.0, ()).chain() is Ok <==> value.0.encoded() is Ok);
    assert(ts =~= seq![ts[0]]);
    if value.0.encoded() == Ok::<Tree, CodecFault>(ts[0]) {
        assert(seq![ts[0]] + d1 =~= ts);
        assert((&value.0, ()).chain() == Ok::<Seq<Tree>, CodecFault>(ts));
    }
}

/// A tuple of two values is the list of them in their order: it is read from a
/// list of that length whose elements are read, and from no other term.
pub proof fn tuples_of_two<A: ToTerm + FromTerm, B: ToTerm + FromTerm>(
    trail: Seq<(usize, Tree)>,
    t: Tree,
    ts: Seq<Tree>,
    value: (A, B),
)
    requires
        ts.len() == 2,
    ensures
        <(A, B) as ToTerms>::count() == 2 && <(A, B) as FromTerms>::count() == 2,
        value.0.encoded() == Ok::<Tree, CodecFault>(ts[0]) && value.1.encoded() == Ok::<Tree, CodecFault>(ts[1]) ==> value.encoded() == Ok::<Tree, CodecFault>(list_tree(ts)) && value.encoded_terms() == Ok::<Seq<Tree>, CodecFault>(ts),
        value.encoded() is Ok <==> value.0.encoded() is Ok && value.1.encoded() is Ok,
        A::read_fault(trail, ts[0]) is None && B::read_fault(trail, ts[1]) is None <==> <(A, B) as FromTerms>::terms_fault(trail, ts) is None,
        <(A, B) as FromTerms>::reads_terms(trail, ts, value) <==> A::reads(trail, ts[0], value.0) && B::reads(trail, ts[1], value.1),
        shape_of(trail, t) == (ListShape::Proper { len: 2 }) ==> <(A, B) as FromTerm>::read_fault(trail, t) == <(A, B) as FromTerms>::terms_fault(trail, elements(trail, t, 2)),
        shape_of(trail, t) == (ListShape::Proper { len: 0 }) ==> <(A, B) as FromTerm>::read_fault(trail, t) == Some(CodecFault::ArityMismatch(2, 0)),
        <(A, B) as FromTerm>::read_fault(trail, t) is None ==> shape_of(trail, t) == (ListShape::Proper { len: 2 }),
        !(shape_of(trail, t) is Proper) ==> <(A, B) as FromTerm>::read_fault(trail, t) == Some(CodecFault::Term(TermError::NotAProperList(shape_of(trail, t)))),
{
    let d1 = ts.skip(1);
    assert(ts.drop_first() =~= d1 && ts[0] == ts[0]);
    let d2 = ts.skip(2);
    assert(d1.drop_first() =~= d2 && d1[0] == ts[1]);
    assert((&value.1, ()).chain() is Ok <==> value.1.encoded() is Ok);
    assert((&value.0, (&value.1, ())).chain() is Ok <==> value.0.encoded() is Ok && value.1.encoded() is Ok);
    assert(ts =~= seq![ts[0], ts[1]]);
    if value.0.encoded() == Ok::<Tree, CodecFault>(ts[0]) && value.1.encoded() == Ok::<Tree, CodecFault>(ts[1]) {
        assert(seq![ts[1]] + d2 =~= d1);
        assert((&value.1, ()).chain() == Ok::<Seq<Tree>, CodecFault>(d1));
        assert(seq![ts[0]] + d1 =~= ts);
        assert((&value.0, (&value.1, ())).chain() == Ok::<Seq<Tree>, CodecFault>(ts));
    }
}

/// A tuple of three values is the list of them in their order: it is read from a
/// list of that length whose elements are read, and from no other term.
pub proof fn tuples_of_three<A: ToTerm + FromTerm, B: ToTerm + FromTerm, C: ToTerm + FromTerm>(
    trail: Seq<(usize, Tree)>,
    t: Tree,
    ts: Seq<Tree>,
    value: (A, B, C),
)
    requires
        ts.len() == 3,
    ensures
        <(A, B, C) as ToTerms>::count() == 3 && <(A, B, C) as FromTerms>::count() == 3,
        value.0.encoded() == Ok::<Tree, CodecFault>(ts[0]) && value.1.encoded() == Ok::<Tree, CodecFault>(ts[1]) && value.2.encoded() == Ok::<Tree, CodecFault>(ts[2]) ==> value.encoded() == Ok::<Tree, CodecFault>(list_tree(ts)) && value.encoded_terms() == Ok::<Seq<Tree>, CodecFault>(ts),
        value.encoded() is Ok <==> value.0.encoded() is Ok && value.1.encoded() is Ok && value.2.encoded() is Ok,
        A::read_fault(trail, ts[0]) is None && B::read_fault(trail, ts[1]) is None && C::read_fault(trail, ts[2]) is None <==> <(A, B, C) as FromTerms>::terms_fault(trail, ts) is None,
        <(A, B, C) as FromTerms>::reads_terms(trail, ts, value) <==> A::reads(trail, ts[0], value.0) && B::reads(trail, ts[1], value.1) && C::reads(trail, ts[2], value.2),
        shape_of(trail, t) == (ListShape::Proper { len: 3 }) ==> <(A, B, C) as FromTerm>::read_fault(trail, t) == <(A, B, C) as FromTerms>::terms_fault(trail, elements(trail, t, 3)),
        shape_of(trail, t) == (ListShape::Proper { len: 0 }) ==> <(A, B, C) as FromTerm>::read_fault(trail, t) == Some(CodecFault::ArityMismatch(3, 0)),
        <(A, B, C) as FromTerm>::read_fault(trail, t) is None ==> shape_of(trail, t) == (ListShape::Proper { len: 3 }),
        !(shape_of(trail, t) is Proper) ==> <(A, B, C) as FromTerm>::read_fault(trail, t) == Some(CodecFault::Term(TermError::NotAProperList(shape_of(trail, t)))),
{
    let d1 = ts.skip(1);
    assert(ts.drop_first() =~= d1 && ts[0] == ts[0]);
    let d2 = ts.skip(2);
    assert(d1.drop_first() =~= d2 && d1[0] == ts[1]);
    let d3 = ts.skip(3);
    assert(d2.drop_first() =~= d3 && d2[0] == ts[2]);
    assert((&value.2, ()).chain() is Ok <==> value.2.encoded() is Ok);
    assert((&value.1, (&value.2, ())).chain() is Ok <==> value.1.encoded() is Ok && value.2.encoded() is Ok);
    assert((&value.0, (&value.1, (&value.2, ()))).chain() is Ok <==> value.0.encoded() is Ok && value.1.encoded() is Ok && value.2.encoded() is Ok);
    assert(ts =~= seq![ts[0], ts[1], ts[2]]);
    if value.0.encoded() == Ok::<Tree, CodecFault>(ts[0]) && value.1.encoded() == Ok::<Tree, CodecFault>(ts[1]) && value.2.encoded() == Ok::<Tree, CodecFault>(ts[2]) {
        assert(seq![ts[2]] + d3 =~= d2);
        assert((&value.2, ()).chain() == Ok::<Seq<Tree>, CodecFault>(d2));
        assert(seq![ts[1]] + d2 =~= d1);
        assert((&value.1, (&value.2, ())).chain() == Ok::<Seq<Tree>, CodecFault>(d1));
        assert(seq![ts[0]] + d1 =~= ts);
        assert((&value.0, (&value.1, (&value.2, ()))).chain() == Ok::<Seq<Tree>, CodecFault>(ts));
    }
}

/// A tuple of four values is the list of them in their order: it is read from a
/// list of that length whose elements are read, and from no other term.
pub proof fn tuples_of_four<A: ToTerm + FromTerm, B: ToTerm + FromTerm, C: ToTerm + FromTerm, D: ToTerm + FromTerm>(
    trail: Seq<(usize, Tree)>,
    t: Tree,
    ts: Seq<Tree>,
    value: (A, B, C, D),
)
    requires
        ts.len() == 4,
    ensures
        <(A, B, C, D) as ToTerms>::count() == 4 && <(A, B, C, D) as FromTerms>::count() == 4,
        value.0.encoded() == Ok::<Tree, CodecFault>(ts[0]) && value.1.encoded() == Ok::<Tree, CodecFault>(ts[1]) && value.2.encoded() == Ok::<Tree, CodecFault>(ts[2]) && value.3.encoded() == Ok::<Tree, CodecFault>(ts[3]) ==> value.encoded() == Ok::<Tree, CodecFault>(list_tree(ts)) && value.encoded_terms() == Ok::<Seq<Tree>, CodecFault>(ts),
        value.encoded() is Ok <==> value.0.encoded() is Ok && value.1.encoded() is Ok && value.2.encoded() is Ok && value.3.encoded() is Ok,
        A::read_fault(trail, ts[0]) is None && B::read_fault(trail, ts[1]) is None && C::read_fault(trail, ts[2]) is None && D::read_fault(trail, ts[3]) is None <==> <(A, B, C, D) as FromTerms>::terms_fault(trail, ts) is None,
        <(A, B, C, D) as FromTerms>::reads_terms(trail, ts, value) <==> A::reads(trail, ts[0], value.0) && B::reads(trail, ts[1], value.1) && C::reads(trail, ts[2], value.2) && D::reads(trail, ts[3], value.3),
        shape_of(trail, t) == (ListShape::Proper { len: 4 }) ==> <(A, B, C, D) as FromTerm>::read_fault(trail, t) == <(A, B, C, D) as FromTerms>::terms_fault(trail, elements(trail, t, 4)),
        shape_of(trail, t) == (ListShape::Proper { len: 0 }) ==> <(A, B, C, D) as FromTerm>::read_fault(trail, t) == Some(CodecFault::ArityMismatch(4, 0)),
        <(A, B, C, D) as FromTerm>::read_fault(trail, t) is None ==> shape_of(trail, t) == (ListShape::Proper { len: 4 }),
        !(shape_of(trail, t) is Proper) ==> <(A, B, C, D) as FromTerm>::read_fault(trail, t) == Some(CodecFault::Term(TermError::NotAProperList(shape_of(trail, t)))),
{
    let d1 = ts.skip(1);
    assert(ts.drop_first() =~= d1 && ts[0] == ts[0]);
    let d2 = ts.skip(2);
    assert(d1.drop_first() =~= d2 && d1[0] == ts[1]);
    let d3 = ts.skip(3);
    assert(d2.drop_first() =~= d3 && d2[0] == ts[2]);
    let d4 = ts.skip(4);
    assert(d3.drop_first() =~= d4 && d3[0] == ts[3]);
    assert((&value.3, ()).chain() is Ok <==> value.3.encoded() is Ok);
    assert((&value.2, (&value.3, ())).chain() is Ok <==> value.2.encoded() is Ok && value.3.encoded() is Ok);
    assert((&value.1, (&value.2, (&value.3, ()))).chain() is Ok <==> value.1.encoded() is Ok && value.2.encoded() is Ok && value.3.encoded() is Ok);
    assert((&value.0, (&value.1, (&value.2, (&value.3, ())))).chain() is Ok <==> value.0.encoded() is Ok && value.1.encoded() is Ok && value.2.encoded() is Ok && value.3.encoded() is Ok);
    assert(ts =~= seq![ts[0], ts[1], ts[2], ts[3]]);
    if value.0.encoded() == Ok::<Tree, CodecFault>(ts[0]) && value.1.encoded() == Ok::<Tree, CodecFault>(ts[1]) && value.2.encoded() == Ok::<Tree, CodecFault>(ts[2]) && value.3.encoded() == Ok::<Tree, CodecFault>(ts[3]) {
        assert(seq![ts[3]] + d4 =~= d3);
        assert((&value.3, ()).chain() == Ok::<Seq<Tree>, CodecFault>(d3));
        assert(seq![ts[2]] + d3 =~= d2);
        assert((&value.2, (&value.3, ())).chain() == Ok::<Seq<Tree>, CodecFault>(d2));
        assert(seq![ts[1]] + d2 =~= d1);
        assert((&value.1, (&value.2, (&value.3, ()))).chain() == Ok::<Seq<Tree>, CodecFault>(d1));
        assert(seq![ts[0]] + d1 =~= ts);
        assert((&value.0, (&value.1, (&value.2, (&value.3, ())))).chain() == Ok::<Seq<Tree>, CodecFault>(ts));
    }
}

/// A tuple of five values is the list of them in their order: it is read from a
/// list of that length whose elements are read, and from no other term.
pub proof fn tuples_of_five<A: ToTerm + FromTerm, B: ToTerm + FromTerm, C: ToTerm + FromTerm, D: ToTerm + FromTerm, E: ToTerm + FromTerm>(
    trail: Seq<(usize, Tree)>,
    t: Tree,
    ts: Seq<Tree>,
    value: (A, B, C, D, E),
)
    requires
        ts.len() == 5,
    ensures
        <(A, B, C, D, E) as ToTerms>::count() == 5 && <(A, B, C, D, E) as FromTerms>::count() == 5,
        value.0.encoded() == Ok::<Tree, CodecFault>(ts[0]) && value.1.encoded() == Ok::<Tree, CodecFault>(ts[1]) && value.2.encoded() == Ok::<Tree, CodecFault>(ts[2]) && value.3.encoded() == Ok::<Tree, CodecFault>(ts[3]) && value.4.encoded() == Ok::<Tree, CodecFault>(ts[4]) ==> value.encoded() == Ok::<Tree, CodecFault>(list_tree(ts)) && value.encoded_terms() == Ok::<Seq<Tree>, CodecFault>(ts),
        value.encoded() is Ok <==> value.0.encoded() is Ok && value.1.encoded() is Ok && value.2.encoded() is Ok && value.3.encoded() is Ok && value.4.encoded() is Ok,
        A::read_fault(trail, ts[0]) is None && B::read_fault(trail, ts[1]) is None && C::read_fault(trail, ts[2]) is None && D::read_fault(trail, ts[3]) is None && E::read_fault(trail, ts[4]) is None <==> <(A, B, C, D, E) as FromTerms>::terms_fault(trail, ts) is None,
        <(A, B, C, D, E) as FromTerms>::reads_terms(trail, ts, value) <==> A::reads(trail, ts[0], value.0) && B::reads(trail, ts[1], value.1) && C::reads(trail, ts[2], value.2) && D::reads(trail, ts[3], value.3) && E::reads(trail, ts[4], value.4),
        shape_of(trail, t) == (ListShape::Proper { len: 5 }) ==> <(A, B, C, D, E) as FromTerm>::read_fault(trail, t) == <(A, B, C, D, E) as FromTerms>::terms_fault(trail, elements(trail, t, 5)),
        shape_of(trail, t) == (ListShape::Proper { len: 0 }) ==> <(A, B, C, D, E) as FromTerm>::read_fault(trail, t) == Some(CodecFault::ArityMismatch(5, 0)),
        <(A, B, C, D, E) as FromTerm>::read_fault(trail, t) is None ==> shape_of(trail, t) == (ListShape::Proper { len: 5 }),
        !(shape_of(trail, t) is Proper) ==> <(A, B, C, D, E) as FromTerm>::read_fault(trail, t) == Some(CodecFault::Term(TermError::NotAProperList(shape_of(trail, t)))),
{
    let d1 = ts.skip(1);
    assert(ts.drop_first() =~= d1 && ts[0] == ts[0]);
    let d2 = ts.skip(2);
    assert(d1.drop_first() =~= d2 && d1[0] == ts[1]);
    let d3 = ts.skip(3);
    assert(d2.drop_first() =~= d3 && d2[0] == ts[2]);
    let d4 = ts.skip(4);
    assert(d3.drop_first() =~= d4 && d3[0] == ts[3]);
    let d5 = ts.skip(5);
    assert(d4.drop_first() =~= d5 && d4[0] == ts[4]);
    assert((&value.4, ()).chain() is Ok <==> value.4.encoded() is Ok);
    assert((&value.3, (&value.4, ())).chain() is Ok <==> value.3.encoded() is Ok && value.4.encoded() is Ok);
    assert((&value.2, (&value.3, (&value.4, ()))).chain() is Ok <==> value.2.encoded() is Ok && value.3.encoded() is Ok && value.4.encoded() is Ok);
    assert((&value.1, (&value.2, (&value.3, (&value.4, ())))).chain() is Ok <==> value.1.encoded() is Ok && value.2.encoded() is Ok && value.3.encoded() is Ok && value.4.encoded() is Ok);
    assert((&value.0, (&value.1, (&value.2, (&value.3, (&value.4, ()))))).chain() is Ok <==> value.0.encoded() is Ok && value.1.encoded() is Ok && value.2.encoded() is Ok && value.3.encoded() is Ok && value.4.encoded() is Ok);
    assert(ts =~= seq![ts[0], ts[1], ts[2], ts[3], ts[4]]);
    if value.0.encoded() == Ok::<Tree, CodecFault>(ts[0]) && value.1.encoded() == Ok::<Tree, CodecFault>(ts[1]) && value.2.encoded() == Ok::<Tree, CodecFault>(ts[2]) && value.3.encoded() == Ok::<Tree, CodecFault>(ts[3]) && value.4.encoded() == Ok::<Tree, CodecFault>(ts[4]) {
        assert(seq![ts[4]] + d5 =~= d4);
        assert((&value.4, ()).chain() == Ok::<Seq<Tree>, CodecFault>(d4));
        assert(seq![ts[3]] + d4 =~= d3);
        assert((&value.3, (&value.4, ())).chain() == Ok::<Seq<Tree>, CodecFault>(d3));
        assert(seq![ts[2]] + d3 =~= d2);
        assert((&value.2, (&value.3, (&value.4, ()))).chain() == Ok::<Seq<Tree>, CodecFault>(d2));
        assert(seq![ts[1]] + d2 =~= d1);
        assert((&value.1, (&value.2, (&value.3, (&value.4, ())))).chain() == Ok::<Seq<Tree>, CodecFault>(d1));
        assert(seq![ts[0]] + d1 =~= ts);
        assert((&value.0, (&value.1, (&value.2, (&value.3, (&value.4, ()))))).chain() == Ok::<Seq<Tree>, CodecFault>(ts));
    }
}

/// A tuple of six values is the list of them in their order: it is read from a
/// list of that length whose elements are read, and from no other term.
pub proof fn tuples_of_six<A: ToTerm + FromTerm, B: ToTerm + FromTerm, C: ToTerm + FromTerm, D: ToTerm + FromTerm, E: ToTerm + FromTerm, F: ToTerm + FromTerm>(
    trail: Seq<(usize, Tree)>,
    t: Tree,
    ts: Seq<Tree>,
    value: (A, B, C, D, E, F),
)
    requires
        ts.len() == 6,
    ensures
        <(A, B, C, D, E, F) as ToTerms>::count() == 6 && <(A, B, C, D, E, F) as FromTerms>::count() == 6,
        value.0.encoded() == Ok::<Tree, CodecFault>(ts[0]) && value.1.encoded() == Ok::<Tree, CodecFault>(ts[1]) && value.2.encoded() == Ok::<Tree, CodecFault>(ts[2]) && value.3.encoded() == Ok::<Tree, CodecFault>(ts[3]) && value.4.encoded() == Ok::<Tree, CodecFault>(ts[4]) && value.5.encoded() == Ok::<Tree, CodecFault>(ts[5]) ==> value.encoded() == Ok::<Tree, CodecFault>(list_tree(ts)) && value.encoded_terms() == Ok::<Seq<Tree>, CodecFault>(ts),
        value.encoded() is Ok <==> value.0.encoded() is Ok && value.1.encoded() is Ok && value.2.encoded() is Ok && value.3.encoded() is Ok && value.4.encoded() is Ok && value.5.encoded() is Ok,
        A::read_fault(trail, ts[0]) is None && B::read_fault(trail, ts[1]) is None && C::read_fault(trail, ts[2]) is None && D::read_fault(trail, ts[3]) is None && E::read_fault(trail, ts[4]) is None && F::read_fault(trail, ts[5]) is None <==> <(A, B, C, D, E, F) as FromTerms>::terms_fault(trail, ts) is None,
        <(A, B, C, D, E, F) as FromTerms>::reads_terms(trail, ts, value) <==> A::reads(trail, ts[0], value.0) && B::reads(trail, ts[1], value.1) && C::reads(trail, ts[2], value.2) && D::reads(trail, ts[3], value.3) && E::reads(trail, ts[4], value.4) && F::reads(trail, ts[5], value.5),
        shape_of(trail, t) == (ListShape::Proper { len: 6 }) ==> <(A, B, C, D, E, F) as FromTerm>::read_fault(trail, t) == <(A, B, C, D, E, F) as FromTerms>::terms_fault(trail, elements(trail, t, 6)),
        shape_of(trail, t) == (ListShape::Proper { len: 0 }) ==> <(A, B, C, D, E, F) as FromTerm>::read_fault(trail, t) == Some(CodecFault::ArityMismatch(6, 0)),
        <(A, B, C, D, E, F) as FromTerm>::read_fault(trail, t) is None ==> shape_of(trail, t) == (ListShape::Proper { len: 6 }),
        !(shape_of(trail, t) is Proper) ==> <(A, B, C, D, E, F) as FromTerm>::read_fault(trail, t) == Some(CodecFault::Term(TermError::NotAProperList(shape_of(trail, t)))),
{
    let d1 = ts.skip(1);
    assert(ts.drop_first() =~= d1 && ts[0] == ts[0]);
    let d2 = ts.skip(2);
    assert(d1.drop_first() =~= d2 && d1[0] == ts[1]);
    let d3 = ts.skip(3);
    assert(d2.drop_first() =~= d3 && d2[0] == ts[2]);
    let d4 = ts.skip(4);
    assert(d3.drop_first() =~= d4 && d3[0] == ts[3]);
    let d5 = ts.skip(5);
    assert(d4.drop_first() =~= d5 && d4[0] == ts[4]);
    let d6 = ts.skip(6);
    assert(d5.drop_first() =~= d6 && d5[0] == ts[5]);
    assert((&value.5, ()).chain() is Ok <==> value.5.encoded() is Ok);
    assert((&value.4, (&value.5, ())).chain() is Ok <==> value.4.encoded() is Ok && value.5.encoded() is Ok);
    assert((&value.3, (&value.4, (&value.5, ()))).chain() is Ok <==> value.3.encoded() is Ok && value.4.encoded() is Ok && value.5.encoded() is Ok);
    assert((&value.2, (&value.3, (&value.4, (&value.5, ())))).chain() is Ok <==> value.2.encoded() is Ok && value.3.encoded() is Ok && value.4.encoded() is Ok && value.5.encoded() is Ok);
    assert((&value.1, (&value.2, (&value.3, (&value.4, (&value.5, ()))))).chain() is Ok <==> value.1.encoded() is Ok && value.2.encoded() is Ok && value.3.encoded() is Ok && value.4.encoded() is Ok && value.5.encoded() is Ok);
    assert((&value.0, (&value.1, (&value.2, (&value.3, (&value.4, (&value.5, ())))))).chain() is Ok <==> value.0.encoded() is Ok && value.1.encoded() is Ok && value.2.encoded() is Ok && value.3.encoded() is Ok && value.4.encoded() is Ok && value.5.encoded() is Ok);
    assert(ts =~= seq![ts[0], ts[1], ts[2], ts[3], ts[4], ts[5]]);
    if value.0.encoded() == Ok::<Tree, CodecFault>(ts[0]) && value.1.encoded() == Ok::<Tree, CodecFault>(ts[1]) && value.2.encoded() == Ok::<Tree, CodecFault>(ts[2]) && value.3.encoded() == Ok::<Tree, CodecFault>(ts[3]) && value.4.encoded() == Ok::<Tree, CodecFault>(ts[4]) && value.5.encoded() == Ok::<Tree, CodecFault>(ts[5]) {
        assert(seq![ts[5]] + d6 =~= d5);
        assert((&value.5, ()).chain() == Ok::<Seq<Tree>, CodecFault>(d5));
        assert(seq![ts[4]] + d5 =~= d4);
        assert((&value.4, (&value.5, ())).chain() == Ok::<Seq<Tree>, CodecFault>(d4));
        assert(seq![ts[3]] + d4 =~= d3);
        assert((&value.3, (&value.4, (&value.5, ()))).chain() == Ok::<Seq<Tree>, CodecFault>(d3));
        assert(seq![ts[2]] + d3 =~= d2);
        assert((&value.2, (&value.3, (&value.4, (&value.5, ())))).chain() == Ok::<Seq<Tree>, CodecFault>(d2));
        assert(seq![ts[1]] + d2 =~= d1);
        assert((&value.1, (&value.2, (&value.3, (&value.4, (&value.5, ()))))).chain() == Ok::<Seq<Tree>, CodecFault>(d1));
        assert(seq![ts[0]] + d1 =~= ts);
        assert((&value.0, (&value.1, (&value.2, (&value.3, (&value.4, (&value.5, ())))))).chain() == Ok::<Seq<Tree>, CodecFault>(ts));
    }
}

/// A tuple of seven values is the list of them in their order: it is read from a
/// list of that length whose elements are read, and from no other term.
pub proof fn tuples_of_seven<A: ToTerm + FromTerm, B: ToTerm + FromTerm, C: ToTerm + FromTerm, D: ToTerm + FromTerm, E: ToTerm + FromTerm, F: ToTerm + FromTerm, G: ToTerm + FromTerm>(
    trail: Seq<(usize, Tree)>,
    t: Tree,
    ts: Seq<Tree>,
    value: (A, B, C, D, E, F, G),
)
    requires
        ts.len() == 7,
    ensures
        <(A, B, C, D, E, F, G) as ToTerms>::count() == 7 && <(A, B, C, D, E, F, G) as FromTerms>::count() == 7,
        value.0.encoded() == Ok::<Tree, CodecFault>(ts[0]) && value.1.encoded() == Ok::<Tree, CodecFault>(ts[1]) && value.2.encoded() == Ok::<Tree, CodecFault>(ts[2]) && value.3.encoded() == Ok::<Tree, CodecFault>(ts[3]) && value.4.encoded() == Ok::<Tree, CodecFault>(ts[4]) && value.5.encoded() == Ok::<Tree, CodecFault>(ts[5]) && value.6.encoded() == Ok::<Tree, CodecFault>(ts[6]) ==> value.encoded() == Ok::<Tree, CodecFault>(list_tree(ts)) && value.encoded_terms() == Ok::<Seq<Tree>, CodecFault>(ts),
        value.encoded() is Ok <==> value.0.encoded() is Ok && value.1.encoded() is Ok && value.2.encoded() is Ok && value.3.encoded() is Ok && value.4.encoded() is Ok && value.5.encoded() is Ok && value.6.encoded() is Ok,
        A::read_fault(trail, ts[0]) is None && B::read_fault(trail, ts[1]) is None && C::read_fault(trail, ts[2]) is None && D::read_fault(trail, ts[3]) is None && E::read_fault(trail, ts[4]) is None && F::read_fault(trail, ts[5]) is None && G::read_fault(trail, ts[6]) is None <==> <(A, B, C, D, E, F, G) as FromTerms>::terms_fault(trail, ts) is None,
        <(A, B, C, D, E, F, G) as FromTerms>::reads_terms(trail, ts, value) <==> A::reads(trail, ts[0], value.0) && B::reads(trail, ts[1], value.1) && C::reads(trail, ts[2], value.2) && D::reads(trail, ts[3], value.3) && E::reads(trail, ts[4], value.4) && F::reads(trail, ts[5], value.5) && G::reads(trail, ts[6], value.6),
        shape_of(trail, t) == (ListShape::Proper { len: 7 }) ==> <(A, B, C, D, E, F, G) as FromTerm>::read_fault(trail, t) == <(A, B, C, D, E, F, G) as FromTerms>::terms_fault(trail, elements(trail, t, 7)),
        shape_of(trail, t) == (ListShape::Proper { len: 0 }) ==> <(A, B, C, D, E, F, G) as FromTerm>::read_fault(trail, t) == Some(CodecFault::ArityMismatch(7, 0)),
        <(A, B, C, D, E, F, G) as FromTerm>::read_fault(trail, t) is None ==> shape_of(trail, t) == (ListShape::Proper { len: 7 }),
        !(shape_of(trail, t) is Proper) ==> <(A, B, C, D, E, F, G) as FromTerm>::read_fault(trail, t) == Some(CodecFault::Term(TermError::NotAProperList(shape_of(trail, t)))),
{
    let d1 = ts.skip(1);
    assert(ts.drop_first() =~= d1 && ts[0] == ts[0]);
    let d2 = ts.skip(2);
    assert(d1.drop_first() =~= d2 && d1[0] == ts[1]);
    let d3 = ts.skip(3);
    assert(d2.drop_first() =~= d3 && d2[0] == ts[2]);
    let d4 = ts.skip(4);
    assert(d3.drop_first() =~= d4 && d3[0] == ts[3]);
    let d5 = ts.skip(5);
    assert(d4.drop_first() =~= d5 && d4[0] == ts[4]);
    let d6 = ts.skip(6);
    assert(d5.drop_first() =~= d6 && d5[0] == ts[5]);
    let d7 = ts.skip(7);
    assert(d6.drop_first() =~= d7 && d6[0] == ts[6]);
    assert((&value.6, ()).chain() is Ok <==> value.6.encoded() is Ok);
    assert((&value.5, (&value.6, ())).chain() is Ok <==> value.5.encoded() is Ok && value.6.encoded() is Ok);
    assert((&value.4, (&value.5, (&value.6, ()))).chain() is Ok <==> value.4.encoded() is Ok && value.5.encoded() is Ok && value.6.encoded() is Ok);
    assert((&value.3, (&value.4, (&value.5, (&value.6, ())))).chain() is Ok <==> value.3.encoded() is Ok && value.4.encoded() is Ok && value.5.encoded() is Ok && value.6.encoded() is Ok);
    assert((&value.2, (&value.3, (&value.4, (&value.5, (&value.6, ()))))).chain() is Ok <==> value.2.encoded() is Ok && value.3.encoded() is Ok && value.4.encoded() is Ok && value.5.encoded() is Ok && value.6.encoded() is Ok);
    assert((&value.1, (&value.2, (&value.3, (&value.4, (&value.5, (&value.6, ())))))).chain() is Ok <==> value.1.encoded() is Ok && value.2.encoded() is Ok && value.3.encoded() is Ok && value.4.encoded() is Ok && value.5.encoded() is Ok && value.6.encoded() is Ok);
    assert((&value.0, (&value.1, (&value.2, (&value.3, (&value.4, (&value.5, (&value.6, ()))))))).chain() is Ok <==> value.0.encoded() is Ok && value.1.encoded() is Ok && value.2.encoded() is Ok && value.3.encoded() is Ok && value.4.encoded() is Ok && value.5.encoded() is Ok && value.6.encoded() is Ok);
    assert(ts =~= seq![ts[0], ts[1], ts[2], ts[3], ts[4], ts[5], ts[6]]);
    if value.0.encoded() == Ok::<Tree, CodecFault>(ts[0]) && value.1.encoded() == Ok::<Tree, CodecFault>(ts[1]) && value.2.encoded() == Ok::<Tree, CodecFault>(ts[2]) && value.3.encoded() == Ok::<Tree, CodecFault>(ts[3]) && value.4.encoded() == Ok::<Tree, CodecFault>(ts[4]) && value.5.encoded() == Ok::<Tree, CodecFault>(ts[5]) && value.6.encoded() == Ok::<Tree, CodecFault>(ts[6]) {
        assert(seq![ts[6]] + d7 =~= d6);
        assert((&value.6, ()).chain() == Ok::<Seq<Tree>, CodecFault>(d6));
        assert(seq![ts[5]] + d6 =~= d5);
        assert((&value.5, (&value.6, ())).chain() == Ok::<Seq<Tree>, CodecFault>(d5));
        assert(seq![ts[4]] + d5 =~= d4);
        assert((&value.4, (&value.5, (&value.6, ()))).chain() == Ok::<Seq<Tree>, CodecFault>(d4));
        assert(seq![ts[3]] + d4 =~= d3);
        assert((&value.3, (&value.4, (&value.5, (&value.6, ())))).chain() == Ok::<Seq<Tree>, CodecFault>(d3));
        assert(seq![ts[2]] + d3 =~= d2);
        assert((&value.2, (&value.3, (&value.4, (&value.5, (&value.6, ()))))).chain() == Ok::<Seq<Tree>, CodecFault>(d2));
        assert(seq![ts[1]] + d2 =~= d1);
        assert((&value.1, (&value.2, (&value.3, (&value.4, (&value.5, (&value.6, ())))))).chain() == Ok::<Seq<Tree>, CodecFault>(d1));
        assert(seq![ts[0]] + d1 =~= ts);
        assert((&value.0, (&value.1, (&value.2, (&value.3, (&value.4, (&value.5, (&value.6, ()))))))).chain() == Ok::<Seq<Tree>, CodecFault>(ts));
    }
}

/// A tuple of eight values is the list of them in their order: it is read from a
/// list of that length whose elements are read, and from no other term.
pub proof fn tuples_of_eight<A: ToTerm + FromTerm, B: ToTerm + FromTerm, C: ToTerm + FromTerm, D: ToTerm + FromTerm, E: ToTerm + FromTerm, F: ToTerm + FromTerm, G: ToTerm + FromTerm, H: ToTerm + FromTerm>(
    trail: Seq<(usize, Tree)>,
    t: Tree,
    ts: Seq<Tree>,
    value: (A, B, C, D, E, F, G, H),
)
    requires
        ts.len() == 8,
    ensures
        <(A, B, C, D, E, F, G, H) as ToTerms>::count() == 8 && <(A, B, C, D, E, F, G, H) as FromTerms>::count() == 8,
        value.0.encoded() == Ok::<Tree, CodecFault>(ts[0]) && value.1.encoded() == Ok::<Tree, CodecFault>(ts[1]) && value.2.encoded() == Ok::<Tree, CodecFault>(ts[2]) && value.3.encoded() == Ok::<Tree, CodecFault>(ts[3]) && value.4.encoded() == Ok::<Tree, CodecFault>(ts[4]) && value.5.encoded() == Ok::<Tree, CodecFault>(ts[5]) && value.6.encoded() == Ok::<Tree, CodecFault>(ts[6]) && value.7.encoded() == Ok::<Tree, CodecFault>(ts[7]) ==> value.encoded() == Ok::<Tree, CodecFault>(list_tree(ts)) && value.encoded_terms() == Ok::<Seq<Tree>, CodecFault>(ts),
        value.encoded() is Ok <==> value.0.encoded() is Ok && value.1.encoded() is Ok && value.2.encoded() is Ok && value.3.encoded() is Ok && value.4.encoded() is Ok && value.5.encoded() is Ok && value.6.encoded() is Ok && value.7.encoded() is Ok,
        A::read_fault(trail, ts[0]) is None && B::read_fault(trail, ts[1]) is None && C::read_fault(trail, ts[2]) is None && D::read_fault(trail, ts[3]) is None && E::read_fault(trail, ts[4]) is None && F::read_fault(trail, ts[5]) is None && G::read_fault(trail, ts[6]) is None && H::read_fault(trail, ts[7]) is None <==> <(A, B, C, D, E, F, G, H) as FromTerms>::terms_fault(trail, ts) is None,
        <(A, B, C, D, E, F, G, H) as FromTerms>::reads_terms(trail, ts, value) <==> A::reads(trail, ts[0], value.0) && B::reads(trail, ts[1], value.1) && C::reads(trail, ts[2], value.2) && D::reads(trail, ts[3], value.3) && E::reads(trail, ts[4], value.4) && F::reads(trail, ts[5], value.5) && G::reads(trail, ts[6], value.6) && H::reads(trail, ts[7], value.7),
        shape_of(trail, t) == (ListShape::Proper { len: 8 }) ==> <(A, B, C, D, E, F, G, H) as FromTerm>::read_fault(trail, t) == <(A, B, C, D, E, F, G, H) as FromTerms>::terms_fault(trail, elements(trail, t, 8)),
        shape_of(trail, t) == (ListShape::Proper { len: 0 }) ==> <(A, B, C, D, E, F, G, H) as FromTerm>::read_fault(trail, t) == Some(CodecFault::ArityMismatch(8, 0)),
        <(A, B, C, D, E, F, G, H) as FromTerm>::read_fault(trail, t) is None ==> shape_of(trail, t) == (ListShape::Proper { len: 8 }),
        !(shape_of(trail, t) is Proper) ==> <(A, B, C, D, E, F, G, H) as FromTerm>::read_fault(trail, t) == Some(CodecFault::Term(TermError::NotAProperList(shape_of(trail, t)))),
{
    let d1 = ts.skip(1);
    assert(ts.drop_first() =~= d1 && ts[0] == ts[0]);
    let d2 = ts.skip(2);
    assert(d1.drop_first() =~= d2 && d1[0] == ts[1]);
    let d3 = ts.skip(3);
    assert(d2.drop_first() =~= d3 && d2[0] == ts[2]);
    let d4 = ts.skip(4);
    assert(d3.drop_first() =~= d4 && d3[0] == ts[3]);
    let d5 = ts.skip(5);
    assert(d4.drop_first() =~= d5 && d4[0] == ts[4]);
    let d6 = ts.skip(6);
    assert(d5.drop_first() =~= d6 && d5[0] == ts[5]);
    let d7 = ts.skip(7);
    assert(d6.drop_first() =~= d7 && d6[0] == ts[6]);
    let d8 = ts.skip(8);
    assert(d7.drop_first() =~= d8 && d7[0] == ts[7]);
    assert((&value.7, ()).chain() is Ok <==> value.7.encoded() is Ok);
    assert((&value.6, (&value.7, ())).chain() is Ok <==> value.6.encoded() is Ok && value.7.encoded() is Ok);
    assert((&value.5, (&value.6, (&value.7, ()))).chain() is Ok <==> value.5.encoded() is Ok && value.6.encoded() is Ok && value.7.encoded() is Ok);
    assert((&value.4, (&value.5, (&value.6, (&value.7, ())))).chain() is Ok <==> value.4.encoded() is Ok && value.5.encoded() is Ok && value.6.encoded() is Ok && value.7.encoded() is Ok);
    assert((&value.3, (&value.4, (&value.5, (&value.6, (&value.7, ()))))).chain() is Ok <==> value.3.encoded() is Ok && value.4.encoded() is Ok && value.5.encoded() is Ok && value.6.encoded() is Ok && value.7.encoded() is Ok);
    assert((&value.2, (&value.3, (&value.4, (&value.5, (&value.6, (&value.7, ())))))).chain() is Ok <==> value.2.encoded() is Ok && value.3.encoded() is Ok && value.4.encoded() is Ok && value.5.encoded() is Ok && value.6.encoded() is Ok && value.7.encoded() is Ok);
    assert((&value.1, (&value.2, (&value.3, (&value.4, (&value.5, (&value.6, (&value.7, ()))))))).chain() is Ok <==> value.1.encoded() is Ok && value.2.encoded() is Ok && value.3.encoded() is Ok && value.4.encoded() is Ok && value.5.encoded() is Ok && value.6.encoded() is Ok && value.7.encoded() is Ok);
    assert((&value.0, (&value.1, (&value.2, (&value.3, (&value.4, (&value.5, (&value.6, (&value.7, ())))))))).chain() is Ok <==> value.0.encoded() is Ok && value.1.encoded() is Ok && value.2.encoded() is Ok && value.3.encoded() is Ok && value.4.encoded() is Ok && value.5.encoded() is Ok && value.6.encoded() is Ok && value.7.encoded() is Ok);
    assert(ts =~= seq![ts[0], ts[1], ts[2], ts[3], ts[4], ts[5], ts[6], ts[7]]);
    if value.0.encoded() == Ok::<Tree, CodecFault>(ts[0]) && value.1.encoded() == Ok::<Tree, CodecFault>(ts[1]) && value.2.encoded() == Ok::<Tree, CodecFault>(ts[2]) && value.3.encoded() == Ok::<Tree, CodecFault>(ts[3]) && value.4.encoded() == Ok::<Tree, CodecFault>(ts[4]) && value.5.encoded() == Ok::<Tree, CodecFault>(ts[5]) && value.6.encoded() == Ok::<Tree, CodecFault>(ts[6]) && value.7.encoded() == Ok::<Tree, CodecFault>(ts[7]) {
        assert(seq![ts[7]] + d8 =~= d7);
        assert((&value.7, ()).chain() == Ok::<Seq<Tree>, CodecFault>(d7));
        assert(seq![ts[6]] + d7 =~= d6);
        assert((&value.6, (&value.7, ())).chain() == Ok::<Seq<Tree>, CodecFault>(d6));
        assert(seq![ts[5]] + d6 =~= d5);
        assert((&value.5, (&value.6, (&value.7, ()))).chain() == Ok::<Seq<Tree>, CodecFault>(d5));
        assert(seq![ts[4]] + d5 =~= d4);
        assert((&value.4, (&value.5, (&value.6, (&value.7, ())))).chain() == Ok::<Seq<Tree>, CodecFault>(d4));
        assert(seq![ts[3]] + d4 =~= d3);
        assert((&value.3, (&value.4, (&value.5, (&value.6, (&value.7, ()))))).chain() == Ok::<Seq<Tree>, CodecFault>(d3));
        assert(seq![ts[2]] + d3 =~= d2);
        assert((&value.2, (&value.3, (&value.4, (&value.5, (&value.6, (&value.7, ())))))).chain() == Ok::<Seq<Tree>, CodecFault>(d2));
        assert(seq![ts[1]] + d2 =~= d1);
        assert((&value.1, (&value.2, (&value.3, (&value.4, (&value.5, (&value.6, (&value.7, ()))))))).chain() == Ok::<Seq<Tree>, CodecFault>(d1));
        assert(seq![ts[0]] + d1 =~= ts);
        assert((&value.0, (&value.1, (&value.2, (&value.3, (&value.4, (&value.5, (&value.6, (&value.7, ())))))))).chain() == Ok::<Seq<Tree>, CodecFault>(ts));
    }
}

/// A tuple of nine values is the list of them in their order: it is read from a
/// list of that length whose elements are read, and from no other term.
pub proof fn tuples_of_nine<A: ToTerm + FromTerm, B: ToTerm + FromTerm, C: ToTerm + FromTerm, D: ToTerm + FromTerm, E: ToTerm + FromTerm, F: ToTerm + FromTerm, G: ToTerm + FromTerm, H: ToTerm + FromTerm, I: ToTerm + FromTerm>(
    trail: Seq<(usize, Tree)>,
    t: Tree,
    ts: Seq<Tree>,
    value: (A, B, C, D, E, F, G, H, I),
)
    requires
        ts.len() == 9,
    ensures
        <(A, B, C, D, E, F, G, H, I) as ToTerms>::count() == 9 && <(A, B, C, D, E, F, G, H, I) as FromTerms>::count() == 9,
        value.0.encoded() == Ok::<Tree, CodecFault>(ts[0]) && value.1.encoded() == Ok::<Tree, CodecFault>(ts[1]) && value.2.encoded() == Ok::<Tree, CodecFault>(ts[2]) && value.3.encoded() == Ok::<Tree, CodecFault>(ts[3]) && value.4.encoded() == Ok::<Tree, CodecFault>(ts[4]) && value.5.encoded() == Ok::<Tree, CodecFault>(ts[5]) && value.6.encoded() == Ok::<Tree, CodecFault>(ts[6]) && value.7.encoded() == Ok::<Tree, CodecFault>(ts[7]) && value.8.encoded() == Ok::<Tree, CodecFault>(ts[8]) ==> value.encoded() == Ok::<Tree, CodecFault>(list_tree(ts)) && value.encoded_terms() == Ok::<Seq<Tree>, CodecFault>(ts),
        value.encoded() is Ok <==> value.0.encoded() is Ok && value.1.encoded() is Ok && value.2.encoded() is Ok && value.3.encoded() is Ok && value.4.encoded() is Ok && value.5.encoded() is Ok && value.6.encoded() is Ok && value.7.encoded() is Ok && value.8.encoded() is Ok,
        A::read_fault(trail, ts[0]) is None && B::read_fault(trail, ts[1]) is None && C::read_fault(trail, ts[2]) is None && D::read_fault(trail, ts[3]) is None && E::read_fault(trail, ts[4]) is None && F::read_fault(trail, ts[5]) is None && G::read_fault(trail, ts[6]) is None && H::read_fault(trail, ts[7]) is None && I::read_fault(trail, ts[8]) is None <==> <(A, B, C, D, E, F, G, H, I) as FromTerms>::terms_fault(trail, ts) is None,
        <(A, B, C, D, E, F, G, H, I) as FromTerms>::reads_terms(trail, ts, value) <==> A::reads(trail, ts[0], value.0) && B::reads(trail, ts[1], value.1) && C::reads(trail, ts[2], value.2) && D::reads(trail, ts[3], value.3) && E::reads(trail, ts[4], value.4) && F::reads(trail, ts[5], value.5) && G::reads(trail, ts[6], value.6) && H::reads(trail, ts[7], value.7) && I::reads(trail, ts[8], value.8),
        shape_of(trail, t) == (ListShape::Proper { len: 9 }) ==> <(A, B, C, D, E, F, G, H, I) as FromTerm>::read_fault(trail, t) == <(A, B, C, D, E, F, G, H, I) as FromTerms>::terms_fault(trail, elements(trail, t, 9)),
        shape_of(trail, t) == (ListShape::Proper { len: 0 }) ==> <(A, B, C, D, E, F, G, H, I) as FromTerm>::read_fault(trail, t) == Some(CodecFault::ArityMismatch(9, 0)),
        <(A, B, C, D, E, F, G, H, I) as FromTerm>::read_fault(trail, t) is None ==> shape_of(trail, t) == (ListShape::Proper { len: 9 }),
        !(shape_of(trail, t) is Proper) ==> <(A, B, C, D, E, F, G, H, I) as FromTerm>::read_fault(trail, t) == Some(CodecFault::Term(TermError::NotAProperList(shape_of(trail, t)))),
{
    let d1 = ts.skip(1);
    assert(ts.drop_first() =~= d1 && ts[0] == ts[0]);
    let d2 = ts.skip(2);
    assert(d1.drop_first() =~= d2 && d1[0] == ts[1]);
    let d3 = ts.skip(3);
    assert(d2.drop_first() =~= d3 && d2[0] == ts[2]);
    let d4 = ts.skip(4);
    assert(d3.drop_first() =~= d4 && d3[0] == ts[3]);
    let d5 = ts.skip(5);
    assert(d4.drop_first() =~= d5 && d4[0] == ts[4]);
    let d6 = ts.skip(6);
    assert(d5.drop_first() =~= d6 && d5[0] == ts[5]);
    let d7 = ts.skip(7);
    assert(d6.drop_first() =~= d7 && d6[0] == ts[6]);
    let d8 = ts.skip(8);
    assert(d7.drop_first() =~= d8 && d7[0] == ts[7]);
    let d9 = ts.skip(9);
    assert(d8.drop_first() =~= d9 && d8[0] == ts[8]);
    assert((&value.8, ()).chain() is Ok <==> value.8.encoded() is Ok);
    assert((&value.7, (&value.8, ())).chain() is Ok <==> value.7.encoded() is Ok && value.8.encoded() is Ok);
    assert((&value.6, (&value.7, (&value.8, ()))).chain() is Ok <==> value.6.encoded() is Ok && value.7.encoded() is Ok && value.8.encoded() is Ok);
    assert((&value.5, (&value.6, (&value.7, (&value.8, ())))).chain() is Ok <==> value.5.encoded() is Ok && value.6.encoded() is Ok && value.7.encoded() is Ok && value.8.encoded() is Ok);
    assert((&value.4, (&value.5, (&value.6, (&value.7, (&value.8, ()))))).chain() is Ok <==> value.4.encoded() is Ok && value.5.encoded() is Ok && value.6.encoded() is Ok && value.7.encoded() is Ok && value.8.encoded() is Ok);
    assert((&value.3, (&value.4, (&value.5, (&value.6, (&value.7, (&value.8, ())))))).chain() is Ok <==> value.3.encoded() is Ok && value.4.encoded() is Ok && value.5.encoded() is Ok && value.6.encoded() is Ok && value.7.encoded() is Ok && value.8.encoded() is Ok);
    assert((&value.2, (&value.3, (&value.4, (&value.5, (&value.6, (&value.7, (&value.8, ()))))))).chain() is Ok <==> value.2.encoded() is Ok && value.3.encoded() is Ok && value.4.encoded() is Ok && value.5.encoded() is Ok && value.6.encoded() is Ok && value.7.encoded() is Ok && value.8.encoded() is Ok);
    assert((&value.1, (&value.2, (&value.3, (&value.4, (&value.5, (&value.6, (&value.7, (&value.8, ())))))))).chain() is Ok <==> value.1.encoded() is Ok && value.2.encoded() is Ok && value.3.encoded() is Ok && value.4.encoded() is Ok && value.5.encoded() is Ok && value.6.encoded() is Ok && value.7.encoded() is Ok && value.8.encoded() is Ok);
    assert((&value.0, (&value.1, (&value.2, (&value.3, (&value.4, (&value.5, (&value.6, (&value.7, (&value.8, ()))))))))).chain() is Ok <==> value.0.encoded() is Ok && value.1.encoded() is Ok && value.2.encoded() is Ok && value.3.encoded() is Ok && value.4.encoded() is Ok && value.5.encoded() is Ok && value.6.encoded() is Ok && value.7.encoded() is Ok && value.8.encoded() is Ok);
    assert(ts =~= seq![ts[0], ts[1], ts[2], ts[3], ts[4], ts[5], ts[6], ts[7], ts[8]]);
    if value.0.encoded() == Ok::<Tree, CodecFault>(ts[0]) && value.1.encoded() == Ok::<Tree, CodecFault>(ts[1]) && value.2.encoded() == Ok::<Tree, CodecFault>(ts[2]) && value.3.encoded() == Ok::<Tree, CodecFault>(ts[3]) && value.4.encoded() == Ok::<Tree, CodecFault>(ts[4]) && value.5.encoded() == Ok::<Tree, CodecFault>(ts[5]) && value.6.encoded() == Ok::<Tree, CodecFault>(ts[6]) && value.7.encoded() == Ok::<Tree, CodecFault>(ts[7]) && value.8.encoded() == Ok::<Tree, CodecFault>(ts[8]) {
        assert(seq![ts[8]] + d9 =~= d8);
        assert((&value.8, ()).chain() == Ok::<Seq<Tree>, CodecFault>(d8));
        assert(seq![ts[7]] + d8 =~= d7);
        assert((&value.7, (&value.8, ())).chain() == Ok::<Seq<Tree>, CodecFault>(d7));
        assert(seq![ts[6]] + d7 =~= d6);
        assert((&value.6, (&value.7, (&value.8, ()))).chain() == Ok::<Seq<Tree>, CodecFault>(d6));
        assert(seq![ts[5]] + d6 =~= d5);
        assert((&value.5, (&value.6, (&value.7, (&value.8, ())))).chain() == Ok::<Seq<Tree>, CodecFault>(d5));
        assert(seq![ts[4]] + d5 =~= d4);
        assert((&value.4, (&value.5, (&value.6, (&value.7, (&value.8, ()))))).chain() == Ok::<Seq<Tree>, CodecFault>(d4));
        assert(seq![ts[3]] + d4 =~= d3);
        assert((&value.3, (&value.4, (&value.5, (&value.6, (&value.7, (&value.8, ())))))).chain() == Ok::<Seq<Tree>, CodecFault>(d3));
        assert(seq![ts[2]] + d3 =~= d2);
        assert((&value.2, (&value.3, (&value.4, (&value.5, (&value.6, (&value.7, (&value.8, ()))))))).chain() == Ok::<Seq<Tree>, CodecFault>(d2));
        assert(seq![ts[1]] + d2 =~= d1);
        assert((&value.1, (&value.2, (&value.3, (&value.4, (&value.5, (&value.6, (&value.7, (&value.8, ())))))))).chain() == Ok::<Seq<Tree>, CodecFault>(d1));
        assert(seq![ts[0]] + d1 =~= ts);
        assert((&value.0, (&value.1, (&value.2, (&value.3, (&value.4, (&value.5, (&value.6, (&value.7, (&value.8, ()))))))))).chain() == Ok::<Seq<Tree>, CodecFault>(ts));
    }
}

/// A tuple of ten values is the list of them in their order: it is read from a
/// list of that length whose elements are read, and from no other term.
pub proof fn tuples_of_ten<A: ToTerm + FromTerm, B: ToTerm + FromTerm, C: ToTerm + FromTerm, D: ToTerm + FromTerm, E: ToTerm + FromTerm, F: ToTerm + FromTerm, G: ToTerm + FromTerm, H: ToTerm + FromTerm, I: ToTerm + FromTerm, J: ToTerm + FromTerm>(
    trail: Seq<(usize, Tree)>,
    t: Tree,
    ts: Seq<Tree>,
    value: (A, B, C, D, E, F, G, H, I, J),
)
    requires
        ts.len() == 10,
    ensures
        <(A, B, C, D, E, F, G, H, I, J) as ToTerms>::count() == 10 && <(A, B, C, D, E, F, G, H, I, J) as FromTerms>::count() == 10,
        value.0.encoded() == Ok::<Tree, CodecFault>(ts[0]) && value.1.encoded() == Ok::<Tree, CodecFault>(ts[1]) && value.2.encoded() == Ok::<Tree, CodecFault>(ts[2]) && value.3.encoded() == Ok::<Tree, CodecFault>(ts[3]) && value.4.encoded() == Ok::<Tree, CodecFault>(ts[4]) && value.5.encoded() == Ok::<Tree, CodecFault>(ts[5]) && value.6.encoded() == Ok::<Tree, CodecFault>(ts[6]) && value.7.encoded() == Ok::<Tree, CodecFault>(ts[7]) && value.8.encoded() == Ok::<Tree, CodecFault>(ts[8]) && value.9.encoded() == Ok::<Tree, CodecFault>(ts[9]) ==> value.encoded() == Ok::<Tree, CodecFault>(list_tree(ts)) && value.encoded_terms() == Ok::<Seq<Tree>, CodecFault>(ts),
        value.encoded() is Ok <==> value.0.encoded() is Ok && value.1.encoded() is Ok && value.2.encoded() is Ok && value.3.encoded() is Ok && value.4.encoded() is Ok && value.5.encoded() is Ok && value.6.encoded() is Ok && value.7.encoded() is Ok && value.8.encoded() is Ok && value.9.encoded() is Ok,
        A::read_fault(trail, ts[0]) is None && B::read_fault(trail, ts[1]) is None && C::read_fault(trail, ts[2]) is None && D::read_fault(trail, ts[3]) is None && E::read_fault(trail, ts[4]) is None && F::read_fault(trail, ts[5]) is None && G::read_fault(trail, ts[6]) is None && H::read_fault(trail, ts[7]) is None && I::read_fault(trail, ts[8]) is None && J::read_fault(trail, ts[9]) is None <==> <(A, B, C, D, E, F, G, H, I, J) as FromTerms>::terms_fault(trail, ts) is None,
        <(A, B, C, D, E, F, G, H, I, J) as FromTerms>::reads_terms(trail, ts, value) <==> A::reads(trail, ts[0], value.0) && B::reads(trail, ts[1], value.1) && C::reads(trail, ts[2], value.2) && D::reads(trail, ts[3], value.3) && E::reads(trail, ts[4], value.4) && F::reads(trail, ts[5], value.5) && G::reads(trail, ts[6], value.6) && H::reads(trail, ts[7], value.7) && I::reads(trail, ts[8], value.8) && J::reads(trail, ts[9], value.9),
        shape_of(trail, t) == (ListShape::Proper { len: 10 }) ==> <(A, B, C, D, E, F, G, H, I, J) as FromTerm>::read_fault(trail, t) == <(A, B, C, D, E, F, G, H, I, J) as FromTerms>::terms_fault(trail, elements(trail, t, 10)),
        shape_of(trail, t) == (ListShape::Proper { len: 0 }) ==> <(A, B, C, D, E, F, G, H, I, J) as FromTerm>::read_fault(trail, t) == Some(CodecFault::ArityMismatch(10, 0)),
        <(A, B, C, D, E, F, G, H, I, J) as FromTerm>::read_fault(trail, t) is None ==> shape_of(trail, t) == (ListShape::Proper { len: 10 }),
        !(shape_of(trail, t) is Proper) ==> <(A, B, C, D, E, F, G, H, I, J) as FromTerm>::read_fault(trail, t) == Some(CodecFault::Term(TermError::NotAProperList(shape_of(trail, t)))),
{
    let d1 = ts.skip(1);
    assert(ts.drop_first() =~= d1 && ts[0] == ts[0]);
    let d2 = ts.skip(2);
    assert(d1.drop_first() =~= d2 && d1[0] == ts[1]);
    let d3 = ts.skip(3);
    assert(d2.drop_first() =~= d3 && d2[0] == ts[2]);
    let d4 = ts.skip(4);
    assert(d3.drop_first() =~= d4 && d3[0] == ts[3]);
    let d5 = ts.skip(5);
    assert(d4.drop_first() =~= d5 && d4[0] == ts[4]);
    let d6 = ts.skip(6);
    assert(d5.drop_first() =~= d6 && d5[0] == ts[5]);
    let d7 = ts.skip(7);
    assert(d6.drop_first() =~= d7 && d6[0] == ts[6]);
    let d8 = ts.skip(8);
    assert(d7.drop_first() =~= d8 && d7[0] == ts[7]);
    let d9 = ts.skip(9);
    assert(d8.drop_first() =~= d9 && d8[0] == ts[8]);
    let d10 = ts.skip(10);
    assert(d9.drop_first() =~= d10 && d9[0] == ts[9]);
    assert((&value.9, ()).chain() is Ok <==> value.9.encoded() is Ok);
    assert((&value.8, (&value.9, ())).chain() is Ok <==> value.8.encoded() is Ok && value.9.encoded() is Ok);
    assert((&value.7, (&value.8, (&value.9, ()))).chain() is Ok <==> value.7.encoded() is Ok && value.8.encoded() is Ok && value.9.encoded() is Ok);
    assert((&value.6, (&value.7, (&value.8, (&value.9, ())))).chain() is Ok <==> value.6.encoded() is Ok && value.7.encoded() is Ok && value.8.encoded() is Ok && value.9.encoded() is Ok);
    assert((&value.5, (&value.6, (&value.7, (&value.8, (&value.9, ()))))).chain() is Ok <==> value.5.encoded() is Ok && value.6.encoded() is Ok && value.7.encoded() is Ok && value.8.encoded() is Ok && value.9.encoded() is Ok);
    assert((&value.4, (&value.5, (&value.6, (&value.7, (&value.8, (&value.9, ())))))).chain() is Ok <==> value.4.encoded() is Ok && value.5.encoded() is Ok && value.6.encoded() is Ok && value.7.encoded() is Ok && value.8.encoded() is Ok && value.9.encoded() is Ok);
    assert((&value.3, (&value.4, (&value.5, (&value.6, (&value.7, (&value.8, (&value.9, ()))))))).chain() is Ok <==> value.3.encoded() is Ok && value.4.encoded() is Ok && value.5.encoded() is Ok && value.6.encoded() is Ok && value.7.encoded() is Ok && value.8.encoded() is Ok && value.9.encoded() is Ok);
    assert((&value.2, (&value.3, (&value.4, (&value.5, (&value.6, (&value.7, (&value.8, (&value.9, ())))))))).chain() is Ok <==> value.2.encoded() is Ok && value.3.encoded() is Ok && value.4.encoded() is Ok && value.5.encoded() is Ok && value.6.encoded() is Ok && value.7.encoded() is Ok && value.8.encoded() is Ok && value.9.encoded() is Ok);
    assert((&value.1, (&value.2, (&value.3, (&value.4, (&value.5, (&value.6, (&value.7, (&value.8, (&value.9, ()))))))))).chain() is Ok <==> value.1.encoded() is Ok && value.2.encoded() is Ok && value.3.encoded() is Ok && value.4.encoded() is Ok && value.5.encoded() is Ok && value.6.encoded() is Ok && value.7.encoded() is Ok && value.8.encoded() is Ok && value.9.encoded() is Ok);
    assert((&value.0, (&value.1, (&value.2, (&value.3, (&value.4, (&value.5, (&value.6, (&value.7, (&value.8, (&value.9, ())))))))))).chain() is Ok <==> value.0.encoded() is Ok && value.1.encoded() is Ok && value.2.encoded() is Ok && value.3.encoded() is Ok && value.4.encoded() is Ok && value.5.encoded() is Ok && value.6.encoded() is Ok && value.7.encoded() is Ok && value.8.encoded() is Ok && value.9.encoded() is Ok);
    assert(ts =~= seq![ts[0], ts[1], ts[2], ts[3], ts[4], ts[5], ts[6], ts[7], ts[8], ts[9]]);
    if value.0.encoded() == Ok::<Tree, CodecFault>(ts[0]) && value.1.encoded() == Ok::<Tree, CodecFault>(ts[1]) && value.2.encoded() == Ok::<Tree, CodecFault>(ts[2]) && value.3.encoded() == Ok::<Tree, CodecFault>(ts[3]) && value.4.encoded() == Ok::<Tree, CodecFault>(ts[4]) && value.5.encoded() == Ok::<Tree, CodecFault>(ts[5]) && value.6.encoded() == Ok::<Tree, CodecFault>(ts[6]) && value.7.encoded() == Ok::<Tree, CodecFault>(ts[7]) && value.8.encoded() == Ok::<Tree, CodecFault>(ts[8]) && value.9.encoded() == Ok::<Tree, CodecFault>(ts[9]) {
        assert(seq![ts[9]] + d10 =~= d9);
        assert((&value.9, ()).chain() == Ok::<Seq<Tree>, CodecFault>(d9));
        assert(seq![ts[8]] + d9 =~= d8);
        assert((&value.8, (&value.9, ())).chain() == Ok::<Seq<Tree>, CodecFault>(d8));
        assert(seq![ts[7]] + d8 =~= d7);
        assert((&value.7, (&value.8, (&value.9, ()))).chain() == Ok::<Seq<Tree>, CodecFault>(d7));
        assert(seq![ts[6]] + d7 =~= d6);
        assert((&value.6, (&value.7, (&value.8, (&value.9, ())))).chain() == Ok::<Seq<Tree>, CodecFault>(d6));
        assert(seq![ts[5]] + d6 =~= d5);
        assert((&value.5, (&value.6, (&value.7, (&value.8, (&value.9, ()))))).chain() == Ok::<Seq<Tree>, CodecFault>(d5));
        assert(seq![ts[4]] + d5 =~= d4);
        assert((&value.4, (&value.5, (&value.6, (&value.7, (&value.8, (&value.9, ())))))).chain() == Ok::<Seq<Tree>, CodecFault>(d4));
        assert(seq![ts[3]] + d4 =~= d3);
        assert((&value.3, (&value.4, (&value.5, (&value.6, (&value.7, (&value.8, (&value.9, ()))))))).chain() == Ok::<Seq<Tree>, CodecFault>(d3));
        assert(seq![ts[2]] + d3 =~= d2);
        assert((&value.2, (&value.3, (&value.4, (&value.5, (&value.6, (&value.7, (&value.8, (&value.9, ())))))))).chain() == Ok::<Seq<Tree>, CodecFault>(d2));
        assert(seq![ts[1]] + d2 =~= d1);
        assert((&value.1, (&value.2, (&value.3, (&value.4, (&value.5, (&value.6, (&value.7, (&value.8, (&value.9, ()))))))))).chain() == Ok::<Seq<Tree>, CodecFault>(d1));
        assert(seq![ts[0]] + d1 =~= ts);
        assert((&value.0, (&value.1, (&value.2, (&value.3, (&value.4, (&value.5, (&value.6, (&value.7, (&value.8, (&value.9, ())))))))))).chain() == Ok::<Seq<Tree>, CodecFault>(ts));
    }
}

/// A tuple of eleven values is the list of them in their order: it is read from a
/// list of that length whose elements are read, and from no other term.
pub proof fn tuples_of_eleven<A: ToTerm + FromTerm, B: ToTerm + FromTerm, C: ToTerm + FromTerm, D: ToTerm + FromTerm, E: ToTerm + FromTerm, F: ToTerm + FromTerm, G: ToTerm + FromTerm, H: ToTerm + FromTerm, I: ToTerm + FromTerm, J: ToTerm + FromTerm, K: ToTerm + FromTerm>(
    trail: Seq<(usize, Tree)>,
    t: Tree,
    ts: Seq<Tree>,
    value: (A, B, C, D, E, F, G, H, I, J, K),
)
    requires
        ts.len() == 11,
    ensures
        <(A, B, C, D, E, F, G, H, I, J, K) as ToTerms>::count() == 11 && <(A, B, C, D, E, F, G, H, I, J, K) as FromTerms>::count() == 11,
        value.0.encoded() == Ok::<Tree, CodecFault>(ts[0]) && value.1.encoded() == Ok::<Tree, CodecFault>(ts[1]) && value.2.encoded() == Ok::<Tree, CodecFault>(ts[2]) && value.3.encoded() == Ok::<Tree, CodecFault>(ts[3]) && value.4.encoded() == Ok::<Tree, CodecFault>(ts[4]) && value.5.encoded() == Ok::<Tree, CodecFault>(ts[5]) && value.6.encoded() == Ok::<Tree, CodecFault>(ts[6]) && value.7.encoded() == Ok::<Tree, CodecFault>(ts[7]) && value.8.encoded() == Ok::<Tree, CodecFault>(ts[8]) && value.9.encoded() == Ok::<Tree, CodecFault>(ts[9]) && value.10.encoded() == Ok::<Tree, CodecFault>(ts[10]) ==> value.encoded() == Ok::<Tree, CodecFault>(list_tree(ts)) && value.encoded_terms() == Ok::<Seq<Tree>, CodecFault>(ts),
        value.encoded() is Ok <==> value.0.encoded() is Ok && value.1.encoded() is Ok && value.2.encoded() is Ok && value.3.encoded() is Ok && value.4.encoded() is Ok && value.5.encoded() is Ok && value.6.encoded() is Ok && value.7.encoded() is Ok && value.8.encoded() is Ok && value.9.encoded() is Ok && value.10.encoded() is Ok,
        A::read_fault(trail, ts[0]) is None && B::read_fault(trail, ts[1]) is None && C::read_fault(trail, ts[2]) is None && D::read_fault(trail, ts[3]) is None && E::read_fault(trail, ts[4]) is None && F::read_fault(trail, ts[5]) is None && G::read_fault(trail, ts[6]) is None && H::read_fault(trail, ts[7]) is None && I::read_fault(trail, ts[8]) is None && J::read_fault(trail, ts[9]) is None && K::read_fault(trail, ts[10]) is None <==> <(A, B, C, D, E, F, G, H, I, J, K) as FromTerms>::terms_fault(trail, ts) is None,
        <(A, B, C, D, E, F, G, H, I, J, K) as FromTerms>::reads_terms(trail, ts, value) <==> A::reads(trail, ts[0], value.0) && B::reads(trail, ts[1], value.1) && C::reads(trail, ts[2], value.2) && D::reads(trail, ts[3], value.3) && E::reads(trail, ts[4], value.4) && F::reads(trail, ts[5], value.5) && G::reads(trail, ts[6], value.6) && H::reads(trail, ts[7], value.7) && I::reads(trail, ts[8], value.8) && J::reads(trail, ts[9], value.9) && K::reads(trail, ts[10], value.10),
        shape_of(trail, t) == (ListShape::Proper { len: 11 }) ==> <(A, B, C, D, E, F, G, H, I, J, K) as FromTerm>::read_fault(trail, t) == <(A, B, C, D, E, F, G, H, I, J, K) as FromTerms>::terms_fault(trail, elements(trail, t, 11)),
        shape_of(trail, t) == (ListShape::Proper { len: 0 }) ==> <(A, B, C, D, E, F, G, H, I, J, K) as FromTerm>::read_fault(trail, t) == Some(CodecFault::ArityMismatch(11, 0)),
        <(A, B, C, D, E, F, G, H, I, J, K) as FromTerm>::read_fault(trail, t) is None ==> shape_of(trail, t) == (ListShape::Proper { len: 11 }),
        !(shape_of(trail, t) is Proper) ==> <(A, B, C, D, E, F, G, H, I, J, K) as FromTerm>::read_fault(trail, t) == Some(CodecFault::Term(TermError::NotAProperList(shape_of(trail, t)))),
{
    let d1 = ts.skip(1);
    assert(ts.drop_first() =~= d1 && ts[0] == ts[0]);
    let d2 = ts.skip(2);
    assert(d1.drop_first() =~= d2 && d1[0] == ts[1]);
    let d3 = ts.skip(3);
    assert(d2.drop_first() =~= d3 && d2[0] == ts[2]);
    let d4 = ts.skip(4);
    assert(d3.drop_first() =~= d4 && d3[0] == ts[3]);
    let d5 = ts.skip(5);
    assert(d4.drop_first() =~= d5 && d4[0] == ts[4]);
    let d6 = ts.skip(6);
    assert(d5.drop_first() =~= d6 && d5[0] == ts[5]);
    let d7 = ts.skip(7);
    assert(d6.drop_first() =~= d7 && d6[0] == ts[6]);
    let d8 = ts.skip(8);
    assert(d7.drop_first() =~= d8 && d7[0] == ts[7]);
    let d9 = ts.skip(9);
    assert(d8.drop_first() =~= d9 && d8[0] == ts[8]);
    let d10 = ts.skip(10);
    assert(d9.drop_first() =~= d10 && d9[0] == ts[9]);
    let d11 = ts.skip(11);
    assert(d10.drop_first() =~= d11 && d10[0] == ts[10]);
    assert((&value.10, ()).chain() is Ok <==> value.10.encoded() is Ok);
    assert((&value.9, (&value.10, ())).chain() is Ok <==> value.9.encoded() is Ok && value.10.encoded() is Ok);
    assert((&value.8, (&value.9, (&value.10, ()))).chain() is Ok <==> value.8.encoded() is Ok && value.9.encoded() is Ok && value.10.encoded() is Ok);
    assert((&value.7, (&value.8, (&value.9, (&value.10, ())))).chain() is Ok <==> value.7.encoded() is Ok && value.8.encoded() is Ok && value.9.encoded() is Ok && value.10.encoded() is Ok);
    assert((&value.6, (&value.7, (&value.8, (&value.9, (&value.10, ()))))).chain() is Ok <==> value.6.encoded() is Ok && value.7.encoded() is Ok && value.8.encoded() is Ok && value.9.encoded() is Ok && value.10.encoded() is Ok);
    assert((&value.5, (&value.6, (&value.7, (&value.8, (&value.9, (&value.10, ())))))).chain() is Ok <==> value.5.encoded() is Ok && value.6.encoded() is Ok && value.7.encoded() is Ok && value.8.encoded() is Ok && value.9.encoded() is Ok && value.10.encoded() is Ok);
    assert((&value.4, (&value.5, (&value.6, (&value.7, (&value.8, (&value.9, (&value.10, ()))))))).chain() is Ok <==> value.4.encoded() is Ok && value.5.encoded() is Ok && value.6.encoded() is Ok && value.7.encoded() is Ok && value.8.encoded() is Ok && value.9.encoded() is Ok && value.10.encoded() is Ok);
    assert((&value.3, (&value.4, (&value.5, (&value.6, (&value.7, (&value.8, (&value.9, (&value.10, ())))))))).chain() is Ok <==> value.3.encoded() is Ok && value.4.encoded() is Ok && value.5.encoded() is Ok && value.6.encoded() is Ok && value.7.encoded() is Ok && value.8.encoded() is Ok && value.9.encoded() is Ok && value.10.encoded() is Ok);
    assert((&value.2, (&value.3, (&value.4, (&value.5, (&value.6, (&value.7, (&value.8, (&value.9, (&value.10, ()))))))))).chain() is Ok <==> value.2.encoded() is Ok && value.3.encoded() is Ok && value.4.encoded() is Ok && value.5.encoded() is Ok && value.6.encoded() is Ok && value.7.encoded() is Ok && value.8.encoded() is Ok && value.9.encoded() is Ok && value.10.encoded() is Ok);
    assert((&value.1, (&value.2, (&value.3, (&value.4, (&value.5, (&value.6, (&value.7, (&value.8, (&value.9, (&value.10, ())))))))))).chain() is Ok <==> value.1.encoded() is Ok && value.2.encoded() is Ok && value.3.encoded() is Ok && value.4.encoded() is Ok && value.5.encoded() is Ok && value.6.encoded() is Ok && value.7.encoded() is Ok && value.8.encoded() is Ok && value.9.encoded() is Ok && value.10.encoded() is Ok);
    assert((&value.0, (&value.1, (&value.2, (&value.3, (&value.4, (&value.5, (&value.6, (&value.7, (&value.8, (&value.9, (&value.10, ()))))))))))).chain() is Ok <==> value.0.encoded() is Ok && value.1.encoded() is Ok && value.2.encoded() is Ok && value.3.encoded() is Ok && value.4.encoded() is Ok && value.5.encoded() is Ok && value.6.encoded() is Ok && value.7.encoded() is Ok && value.8.encoded() is Ok && value.9.encoded() is Ok && value.10.encoded() is Ok);
    assert(ts =~= seq![ts[0], ts[1], ts[2], ts[3], ts[4], ts[5], ts[6], ts[7], ts[8], ts[9], ts[10]]);
    if value.0.encoded() == Ok::<Tree, CodecFault>(ts[0]) && value.1.encoded() == Ok::<Tree, CodecFault>(ts[1]) && value.2.encoded() == Ok::<Tree, CodecFault>(ts[2]) && value.3.encoded() == Ok::<Tree, CodecFault>(ts[3]) && value.4.encoded() == Ok::<Tree, CodecFault>(ts[4]) && value.5.encoded() == Ok::<Tree, CodecFault>(ts[5]) && value.6.encoded() == Ok::<Tree, CodecFault>(ts[6]) && value.7.encoded() == Ok::<Tree, CodecFault>(ts[7]) && value.8.encoded() == Ok::<Tree, CodecFault>(ts[8]) && value.9.encoded() == Ok::<Tree, CodecFault>(ts[9]) && value.10.encoded() == Ok::<Tree, CodecFault>(ts[10]) {
        assert(seq![ts[10]] + d11 =~= d10);
        assert((&value.10, ()).chain() == Ok::<Seq<Tree>, CodecFault>(d10));
        assert(seq![ts[9]] + d10 =~= d9);
        assert((&value.9, (&value.10, ())).chain() == Ok::<Seq<Tree>, CodecFault>(d9));
        assert(seq![ts[8]] + d9 =~= d8);
        assert((&value.8, (&value.9, (&value.10, ()))).chain() == Ok::<Seq<Tree>, CodecFault>(d8));
        assert(seq![ts[7]] + d8 =~= d7);
        assert((&value.7, (&value.8, (&value.9, (&value.10, ())))).chain() == Ok::<Seq<Tree>, CodecFault>(d7));
        assert(seq![ts[6]] + d7 =~= d6);
        assert((&value.6, (&value.7, (&value.8, (&value.9, (&value.10, ()))))).chain() == Ok::<Seq<Tree>, CodecFault>(d6));
        assert(seq![ts[5]] + d6 =~= d5);
        assert((&value.5, (&value.6, (&value.7, (&value.8, (&value.9, (&value.10, ())))))).chain() == Ok::<Seq<Tree>, CodecFault>(d5));
        assert(seq![ts[4]] + d5 =~= d4);
        assert((&value.4, (&value.5, (&value.6, (&value.7, (&value.8, (&value.9, (&value.10, ()))))))).chain() == Ok::<Seq<Tree>, CodecFault>(d4));
        assert(seq![ts[3]] + d4 =~= d3);
        assert((&value.3, (&value.4, (&value.5, (&value.6, (&value.7, (&value.8, (&value.9, (&value.10, ())))))))).chain() == Ok::<Seq<Tree>, CodecFault>(d3));
        assert(seq![ts[2]] + d3 =~= d2);
        assert((&value.2, (&value.3, (&value.4, (&value.5, (&value.6, (&value.7, (&value.8, (&value.9, (&value.10, ()))))))))).chain() == Ok::<Seq<Tree>, CodecFault>(d2));
        assert(seq![ts[1]] + d2 =~= d1);
        assert((&value.1, (&value.2, (&value.3, (&value.4, (&value.5, (&value.6, (&value.7, (&value.8, (&value.9, (&value.10, ())))))))))).chain() == Ok::<Seq<Tree>, CodecFault>(d1));
        assert(seq![ts[0]] + d1 =~= ts);
        assert((&value.0, (&value.1, (&value.2, (&value.3, (&value.4, (&value.5, (&value.6, (&value.7, (&value.8, (&value.9, (&value.10, ()))))))))))).chain() == Ok::<Seq<Tree>, CodecFault>(ts));
    }
}

/// A tuple of twelve values is the list of them in their order: it is read from a
/// list of that length whose elements are read, and from no other term.
pub proof fn tuples_of_twelve<A: ToTerm + FromTerm, B: ToTerm + FromTerm, C: ToTerm + FromTerm, D: ToTerm + FromTerm, E: ToTerm + FromTerm, F: ToTerm + FromTerm, G: ToTerm + FromTerm, H: ToTerm + FromTerm, I: ToTerm + FromTerm, J: ToTerm + FromTerm, K: ToTerm + FromTerm, L: ToTerm + FromTerm>(
    trail: Seq<(usize, Tree)>,
    t: Tree,
    ts: Seq<Tree>,
    value: (A, B, C, D, E, F, G, H, I, J, K, L),
)
    requires
        ts.len() == 12,
    ensures
        <(A, B, C, D, E, F, G, H, I, J, K, L) as ToTerms>::count() == 12 && <(A, B, C, D, E, F, G, H, I, J, K, L) as FromTerms>::count() == 12,
        value.0.encoded() == Ok::<Tree, CodecFault>(ts[0]) && value.1.encoded() == Ok::<Tree, CodecFault>(ts[1]) && value.2.encoded() == Ok::<Tree, CodecFault>(ts[2]) && value.3.encoded() == Ok::<Tree, CodecFault>(ts[3]) && value.4.encoded() == Ok::<Tree, CodecFault>(ts[4]) && value.5.encoded() == Ok::<Tree, CodecFault>(ts[5]) && value.6.encoded() == Ok::<Tree, CodecFault>(ts[6]) && value.7.encoded() == Ok::<Tree, CodecFault>(ts[7]) && value.8.encoded() == Ok::<Tree, CodecFault>(ts[8]) && value.9.encoded() == Ok::<Tree, CodecFault>(ts[9]) && value.10.encoded() == Ok::<Tree, CodecFault>(ts[10]) && value.11.encoded() == Ok::<Tree, CodecFault>(ts[11]) ==> value.encoded() == Ok::<Tree, CodecFault>(list_tree(ts)) && value.encoded_terms() == Ok::<Seq<Tree>, CodecFault>(ts),
        value.encoded() is Ok <==> value.0.encoded() is Ok && value.1.encoded() is Ok && value.2.encoded() is Ok && value.3.encoded() is Ok && value.4.encoded() is Ok && value.5.encoded() is Ok && value.6.encoded() is Ok && value.7.encoded() is Ok && value.8.encoded() is Ok && value.9.encoded() is Ok && value.10.encoded() is Ok && value.11.encoded() is Ok,
        A::read_fault(trail, ts[0]) is None && B::read_fault(trail, ts[1]) is None && C::read_fault(trail, ts[2]) is None && D::read_fault(trail, ts[3]) is None && E::read_fault(trail, ts[4]) is None && F::read_fault(trail, ts[5]) is None && G::read_fault(trail, ts[6]) is None && H::read_fault(trail, ts[7]) is None && I::read_fault(trail, ts[8]) is None && J::read_fault(trail, ts[9]) is None && K::read_fault(trail, ts[10]) is None && L::read_fault(trail, ts[11]) is None <==> <(A, B, C, D, E, F, G, H, I, J, K, L) as FromTerms>::terms_fault(trail, ts) is None,
        <(A, B, C, D, E, F, G, H, I, J, K, L) as FromTerms>::reads_terms(trail, ts, value) <==> A::reads(trail, ts[0], value.0) && B::reads(trail, ts[1], value.1) && C::reads(trail, ts[2], value.2) && D::reads(trail, ts[3], value.3) && E::reads(trail, ts[4], value.4) && F::reads(trail, ts[5], value.5) && G::reads(trail, ts[6], value.6) && H::reads(trail, ts[7], value.7) && I::reads(trail, ts[8], value.8) && J::reads(trail, ts[9], value.9) && K::reads(trail, ts[10], value.10) && L::reads(trail, ts[11], value.11),
        shape_of(trail, t) == (ListShape::Proper { len: 12 }) ==> <(A, B, C, D, E, F, G, H, I, J, K, L) as FromTerm>::read_fault(trail, t) == <(A, B, C, D, E, F, G, H, I, J, K, L) as FromTerms>::terms_fault(trail, elements(trail, t, 12)),
        shape_of(trail, t) == (ListShape::Proper { len: 0 }) ==> <(A, B, C, D, E, F, G, H, I, J, K, L) as FromTerm>::read_fault(trail, t) == Some(CodecFault::ArityMismatch(12, 0)),
        <(A, B, C, D, E, F, G, H, I, J, K, L) as FromTerm>::read_fault(trail, t) is None ==> shape_of(trail, t) == (ListShape::Proper { len: 12 }),
        !(shape_of(trail, t) is Proper) ==> <(A, B, C, D, E, F, G, H, I, J, K, L) as FromTerm>::read_fault(trail, t) == Some(CodecFault::Term(TermError::NotAProperList(shape_of(trail, t)))),
{
    let d1 = ts.skip(1);
    assert(ts.drop_first() =~= d1 && ts[0] == ts[0]);
    let d2 = ts.skip(2);
    assert(d1.drop_first() =~= d2 && d1[0] == ts[1]);
    let d3 = ts.skip(3);
    assert(d2.drop_first() =~= d3 && d2[0] == ts[2]);
    let d4 = ts.skip(4);
    assert(d3.drop_first() =~= d4 && d3[0] == ts[3]);
    let d5 = ts.skip(5);
    assert(d4.drop_first() =~= d5 && d4[0] == ts[4]);
    let d6 = ts.skip(6);
    assert(d5.drop_first() =~= d6 && d5[0] == ts[5]);
    let d7 = ts.skip(7);
    assert(d6.drop_first() =~= d7 && d6[0] == ts[6]);
    let d8 = ts.skip(8);
    assert(d7.drop_first() =~= d8 && d7[0] == ts[7]);
    let d9 = ts.skip(9);
    assert(d8.drop_first() =~= d9 && d8[0] == ts[8]);
    let d10 = ts.skip(10);
    assert(d9.drop_first() =~= d10 && d9[0] == ts[9]);
    let d11 = ts.skip(11);
    assert(d10.drop_first() =~= d11 && d10[0] == ts[10]);
    let d12 = ts.skip(12);
    assert(d11.drop_first() =~= d12 && d11[0] == ts[11]);
    assert((&value.11, ()).chain() is Ok <==> value.11.encoded() is Ok);
    assert((&value.10, (&value.11, ())).chain() is Ok <==> value.10.encoded() is Ok && value.11.encoded() is Ok);
    assert((&value.9, (&value.10, (&value.11, ()))).chain() is Ok <==> value.9.encoded() is Ok && value.10.encoded() is Ok && value.11.encoded() is Ok);
    assert((&value.8, (&value.9, (&value.10, (&value.11, ())))).chain() is Ok <==> value.8.encoded() is Ok && value.9.encoded() is Ok && value.10.encoded() is Ok && value.11.encoded() is Ok);
    assert((&value.7, (&value.8, (&value.9, (&value.10, (&value.11, ()))))).chain() is Ok <==> value.7.encoded() is Ok && value.8.encoded() is Ok && value.9.encoded() is Ok && value.10.encoded() is Ok && value.11.encoded() is Ok);
    assert((&value.6, (&value.7, (&value.8, (&value.9, (&value.10, (&value.11, ())))))).chain() is Ok <==> value.6.encoded() is Ok && value.7.encoded() is Ok && value.8.encoded() is Ok && value.9.encoded() is Ok && value.10.encoded() is Ok && value.11.encoded() is Ok);
    assert((&value.5, (&value.6, (&value.7, (&value.8, (&value.9, (&value.10, (&value.11, ()))))))).chain() is Ok <==> value.5.encoded() is Ok && value.6.encoded() is Ok && value.7.encoded() is Ok && value.8.encoded() is Ok && value.9.encoded() is Ok && value.10.encoded() is Ok && value.11.encoded() is Ok);
    assert((&value.4, (&value.5, (&value.6, (&value.7, (&value.8, (&value.9, (&value.10, (&value.11, ())))))))).chain() is Ok <==> value.4.encoded() is Ok && value.5.encoded() is Ok && value.6.encoded() is Ok && value.7.encoded() is Ok && value.8.encoded() is Ok && value.9.encoded() is Ok && value.10.encoded() is Ok && value.11.encoded() is Ok);
    assert((&value.3, (&value.4, (&value.5, (&value.6, (&value.7, (&value.8, (&value.9, (&value.10, (&value.11, ()))))))))).chain() is Ok <==> value.3.encoded() is Ok && value.4.encoded() is Ok && value.5.encoded() is Ok && value.6.encoded() is Ok && value.7.encoded() is Ok && value.8.encoded() is Ok && value.9.encoded() is Ok && value.10.encoded() is Ok && value.11.encoded() is Ok);
    assert((&value.2, (&value.3, (&value.4, (&value.5, (&value.6, (&value.7, (&value.8, (&value.9, (&value.10, (&value.11, ())))))))))).chain() is Ok <==> value.2.encoded() is Ok && value.3.encoded() is Ok && value.4.encoded() is Ok && value.5.encoded() is Ok && value.6.encoded() is Ok && value.7.encoded() is Ok && value.8.encoded() is Ok && value.9.encoded() is Ok && value.10.encoded() is Ok && value.11.encoded() is Ok);
    assert((&value.1, (&value.2, (&value.3, (&value.4, (&value.5, (&value.6, (&value.7, (&value.8, (&value.9, (&value.10, (&value.11, ()))))))))))).chain() is Ok <==> value.1.encoded() is Ok && value.2.encoded() is Ok && value.3.encoded() is Ok && value.4.encoded() is Ok && value.5.encoded() is Ok && value.6.encoded() is Ok && value.7.encoded() is Ok && value.8.encoded() is Ok && value.9.encoded() is Ok && value.10.encoded() is Ok && value.11.encoded() is Ok);
    assert((&value.0, (&value.1, (&value.2, (&value.3, (&value.4, (&value.5, (&value.6, (&value.7, (&value.8, (&value.9, (&value.10, (&value.11, ())))))))))))).chain() is Ok <==> value.0.encoded() is Ok && value.1.encoded() is Ok && value.2.encoded() is Ok && value.3.encoded() is Ok && value.4.encoded() is Ok && value.5.encoded() is Ok && value.6.encoded() is Ok && value.7.encoded() is Ok && value.8.encoded() is Ok && value.9.encoded() is Ok && value.10.encoded() is Ok && value.11.encoded() is Ok);
    assert(ts =~= seq![ts[0], ts[1], ts[2], ts[3], ts[4], ts[5], ts[6], ts[7], ts[8], ts[9], ts[10], ts[11]]);
    if value.0.encoded() == Ok::<Tree, CodecFault>(ts[0]) && value.1.encoded() == Ok::<Tree, CodecFault>(ts[1]) && value.2.encoded() == Ok::<Tree, CodecFault>(ts[2]) && value.3.encoded() == Ok::<Tree, CodecFault>(ts[3]) && value.4.encoded() == Ok::<Tree, CodecFault>(ts[4]) && value.5.encoded() == Ok::<Tree, CodecFault>(ts[5]) && value.6.encoded() == Ok::<Tree, CodecFault>(ts[6]) && value.7.encoded() == Ok::<Tree, CodecFault>(ts[7]) && value.8.encoded() == Ok::<Tree, CodecFault>(ts[8]) && value.9.encoded() == Ok::<Tree, CodecFault>(ts[9]) && value.10.encoded() == Ok::<Tree, CodecFault>(ts[10]) && value.11.encoded() == Ok::<Tree, CodecFault>(ts[11]) {
        assert(seq![ts[11]] + d12 =~= d11);
        assert((&value.11, ()).chain() == Ok::<Seq<Tree>, CodecFault>(d11));
        assert(seq![ts[10]] + d11 =~= d10);
        assert((&value.10, (&value.11, ())).chain() == Ok::<Seq<Tree>, CodecFault>(d10));
        assert(seq![ts[9]] + d10 =~= d9);
        assert((&value.9, (&value.10, (&value.11, ()))).chain() == Ok::<Seq<Tree>, CodecFault>(d9));
        assert(seq![ts[8]] + d9 =~= d8);
        assert((&value.8, (&value.9, (&value.10, (&value.11, ())))).chain() == Ok::<Seq<Tree>, CodecFault>(d8));
        assert(seq![ts[7]] + d8 =~= d7);
        assert((&value.7, (&value.8, (&value.9, (&value.10, (&value.11, ()))))).chain() == Ok::<Seq<Tree>, CodecFault>(d7));
        assert(seq![ts[6]] + d7 =~= d6);
        assert((&value.6, (&value.7, (&value.8, (&value.9, (&value.10, (&value.11, ())))))).chain() == Ok::<Seq<Tree>, CodecFault>(d6));
        assert(seq![ts[5]] + d6 =~= d5);
        assert((&value.5, (&value.6, (&value.7, (&value.8, (&value.9, (&value.10, (&value.11, ()))))))).chain() == Ok::<Seq<Tree>, CodecFault>(d5));
        assert(seq![ts[4]] + d5 =~= d4);
        assert((&value.4, (&value.5, (&value.6, (&value.7, (&value.8, (&value.9, (&value.10, (&value.11, ())))))))).chain() == Ok::<Seq<Tree>, CodecFault>(d4));
        assert(seq![ts[3]] + d4 =~= d3);
        assert((&value.3, (&value.4, (&value.5, (&value.6, (&value.7, (&value.8, (&value.9, (&value.10, (&value.11, ()))))))))).chain() == Ok::<Seq<Tree>, CodecFault>(d3));
        assert(seq![ts[2]] + d3 =~= d2);
        assert((&value.2, (&value.3, (&value.4, (&value.5, (&value.6, (&value.7, (&value.8, (&value.9, (&value.10, (&value.11, ())))))))))).chain() == Ok::<Seq<Tree>, CodecFault>(d2));
        assert(seq![ts[1]] + d2 =~= d1);
        assert((&value.1, (&value.2, (&value.3, (&value.4, (&value.5, (&value.6, (&value.7, (&value.8, (&value.9, (&value.10, (&value.11, ()))))))))))).chain() == Ok::<Seq<Tree>, CodecFault>(d1));
        assert(seq![ts[0]] + d1 =~= ts);
        assert((&value.0, (&value.1, (&value.2, (&value.3, (&value.4, (&value.5, (&value.6, (&value.7, (&value.8, (&value.9, (&value.10, (&value.11, ())))))))))))).chain() == Ok::<Seq<Tree>, CodecFault>(ts));
    }
}

/// A tuple of thirteen values is the list of them in their order: it is read from a
/// list of that length whose elements are read, and from no other term.
pub proof fn tuples_of_thirteen<A: ToTerm + FromTerm, B: ToTerm + FromTerm, C: ToTerm + FromTerm, D: ToTerm + FromTerm, E: ToTerm + FromTerm, F: ToTerm + FromTerm, G: ToTerm + FromTerm, H: ToTerm + FromTerm, I: ToTerm + FromTerm, J: ToTerm + FromTerm, K: ToTerm + FromTerm, L: ToTerm + FromTerm, M: ToTerm + FromTerm>(
    trail: Seq<(usize, Tree)>,
    t: Tree,
    ts: Seq<Tree>,
    value: (A, B, C, D, E, F, G, H, I, J, K, L, M),
)
    requires
        ts.len() == 13,
    ensures
        <(A, B, C, D, E, F, G, H, I, J, K, L, M) as ToTerms>::count() == 13 && <(A, B, C, D, E, F, G, H, I, J, K, L, M) as FromTerms>::count() == 13,
        value.0.encoded() == Ok::<Tree, CodecFault>(ts[0]) && value.1.encoded() == Ok::<Tree, CodecFault>(ts[1]) && value.2.encoded() == Ok::<Tree, CodecFault>(ts[2]) && value.3.encoded() == Ok::<Tree, CodecFault>(ts[3]) && value.4.encoded() == Ok::<Tree, CodecFault>(ts[4]) && value.5.encoded() == Ok::<Tree, CodecFault>(ts[5]) && value.6.encoded() == Ok::<Tree, CodecFault>(ts[6]) && value.7.encoded() == Ok::<Tree, CodecFault>(ts[7]) && value.8.encoded() == Ok::<Tree, CodecFault>(ts[8]) && value.9.encoded() == Ok::<Tree, CodecFault>(ts[9]) && value.10.encoded() == Ok::<Tree, CodecFault>(ts[10]) && value.11.encoded() == Ok::<Tree, CodecFault>(ts[11]) && value.12.encoded() == Ok::<Tree, CodecFault>(ts[12]) ==> value.encoded() == Ok::<Tree, CodecFault>(list_tree(ts)) && value.encoded_terms() == Ok::<Seq<Tree>, CodecFault>(ts),
        value.encoded() is Ok <==> value.0.encoded() is Ok && value.1.encoded() is Ok && value.2.encoded() is Ok && value.3.encoded() is Ok && value.4.encoded() is Ok && value.5.encoded() is Ok && value.6.encoded() is Ok && value.7.encoded() is Ok && value.8.encoded() is Ok && value.9.encoded() is Ok && value.10.encoded() is Ok && value.11.encoded() is Ok && value.12.encoded() is Ok,
        A::read_fault(trail, ts[0]) is None && B::read_fault(trail, ts[1]) is None && C::read_fault(trail, ts[2]) is None && D::read_fault(trail, ts[3]) is None && E::read_fault(trail, ts[4]) is None && F::read_fault(trail, ts[5]) is None && G::read_fault(trail, ts[6]) is None && H::read_fault(trail, ts[7]) is None && I::read_fault(trail, ts[8]) is None && J::read_fault(trail, ts[9]) is None && K::read_fault(trail, ts[10]) is None && L::read_fault(trail, ts[11]) is None && M::read_fault(trail, ts[12]) is None <==> <(A, B, C, D, E, F, G, H, I, J, K, L, M) as FromTerms>::terms_fault(trail, ts) is None,
        <(A, B, C, D, E, F, G, H, I, J, K, L, M) as FromTerms>::reads_terms(trail, ts, value) <==> A::reads(trail, ts[0], value.0) && B::reads(trail, ts[1], value.1) && C::reads(trail, ts[2], value.2) && D::reads(trail, ts[3], value.3) && E::reads(trail, ts[4], value.4) && F::reads(trail, ts[5], value.5) && G::reads(trail, ts[6], value.6) && H::reads(trail, ts[7], value.7) && I::reads(trail, ts[8], value.8) && J::reads(trail, ts[9], value.9) && K::reads(trail, ts[10], value.10) && L::reads(trail, ts[11], value.11) && M::reads(trail, ts[12], value.12),
        shape_of(trail, t) == (ListShape::Proper { len: 13 }) ==> <(A, B, C, D, E, F, G, H, I, J, K, L, M) as FromTerm>::read_fault(trail, t) == <(A, B, C, D, E, F, G, H, I, J, K, L, M) as FromTerms>::terms_fault(trail, elements(trail, t, 13)),
        shape_of(trail, t) == (ListShape::Proper { len: 0 }) ==> <(A, B, C, D, E, F, G, H, I, J, K, L, M) as FromTerm>::read_fault(trail, t) == Some(CodecFault::ArityMismatch(13, 0)),
        <(A, B, C, D, E, F, G, H, I, J, K, L, M) as FromTerm>::read_fault(trail, t) is None ==> shape_of(trail, t) == (ListShape::Proper { len: 13 }),
        !(shape_of(trail, t) is Proper) ==> <(A, B, C, D, E, F, G, H, I, J, K, L, M) as FromTerm>::read_fault(trail, t) == Some(CodecFault::Term(TermError::NotAProperList(shape_of(trail, t)))),
{
    let d1 = ts.skip(1);
    assert(ts.drop_first() =~= d1 && ts[0] == ts[0]);
    let d2 = ts.skip(2);
    assert(d1.drop_first() =~= d2 && d1[0] == ts[1]);
    let d3 = ts.skip(3);
    assert(d2.drop_first() =~= d3 && d2[0] == ts[2]);
    let d4 = ts.skip(4);
    assert(d3.drop_first() =~= d4 && d3[0] == ts[3]);
    let d5 = ts.skip(5);
    assert(d4.drop_first() =~= d5 && d4[0] == ts[4]);
    let d6 = ts.skip(6);
    assert(d5.drop_first() =~= d6 && d5[0] == ts[5]);
    let d7 = ts.skip(7);
    assert(d6.drop_first() =~= d7 && d6[0] == ts[6]);
    let d8 = ts.skip(8);
    assert(d7.drop_first() =~= d8 && d7[0] == ts[7]);
    let d9 = ts.skip(9);
    assert(d8.drop_first() =~= d9 && d8[0] == ts[8]);
    let d10 = ts.skip(10);
    assert(d9.drop_first() =~= d10 && d9[0] == ts[9]);
    let d11 = ts.skip(11);
    assert(d10.drop_first() =~= d11 && d10[0] == ts[10]);
    let d12 = ts.skip(12);
    assert(d11.drop_first() =~= d12 && d11[0] == ts[11]);
    let d13 = ts.skip(13);
    assert(d12.drop_first() =~= d13 && d12[0] == ts[12]);
    assert((&value.12, ()).chain() is Ok <==> value.12.encoded() is Ok);
    assert((&value.11, (&value.12, ())).chain() is Ok <==> value.11.encoded() is Ok && value.12.encoded() is Ok);
    assert((&value.10, (&value.11, (&value.12, ()))).chain() is Ok <==> value.10.encoded() is Ok && value.11.encoded() is Ok && value.12.encoded() is Ok);
    assert((&value.9, (&value.10, (&value.11, (&value.12, ())))).chain() is Ok <==> value.9.encoded() is Ok && value.10.encoded() is Ok && value.11.encoded() is Ok && value.12.encoded() is Ok);
    assert((&value.8, (&value.9, (&value.10, (&value.11, (&value.12, ()))))).chain() is Ok <==> value.8.encoded() is Ok && value.9.encoded() is Ok && value.10.encoded() is Ok && value.11.encoded() is Ok && value.12.encoded() is Ok);
    assert((&value.7, (&value.8, (&value.9, (&value.10, (&value.11, (&value.12, ())))))).chain() is Ok <==> value.7.encoded() is Ok && value.8.encoded() is Ok && value.9.encoded() is Ok && value.10.encoded() is Ok && value.11.encoded() is Ok && value.12.encoded() is Ok);
    assert((&value.6, (&value.7, (&value.8, (&value.9, (&value.10, (&value.11, (&value.12, ()))))))).chain() is Ok <==> value.6.encoded() is Ok && value.7.encoded() is Ok && value.8.encoded() is Ok && value.9.encoded() is Ok && value.10.encoded() is Ok && value.11.encoded() is Ok && value.12.encoded() is Ok);
    assert((&value.5, (&value.6, (&value.7, (&value.8, (&value.9, (&value.10, (&value.11, (&value.12, ())))))))).chain() is Ok <==> value.5.encoded() is Ok && value.6.encoded() is Ok && value.7.encoded() is Ok && value.8.encoded() is Ok && value.9.encoded() is Ok && value.10.encoded() is Ok && value.11.encoded() is Ok && value.12.encoded() is Ok);
    assert((&value.4, (&value.5, (&value.6, (&value.7, (&value.8, (&value.9, (&value.10, (&value.11, (&value.12, ()))))))))).chain() is Ok <==> value.4.encoded() is Ok && value.5.encoded() is Ok && value.6.encoded() is Ok && value.7.encoded() is Ok && value.8.encoded() is Ok && value.9.encoded() is Ok && value.10.encoded() is Ok && value.11.encoded() is Ok && value.12.encoded() is Ok);
    assert((&value.3, (&value.4, (&value.5, (&value.6, (&value.7, (&value.8, (&value.9, (&value.10, (&value.11, (&value.12, ())))))))))).chain() is Ok <==> value.3.encoded() is Ok && value.4.encoded() is Ok && value.5.encoded() is Ok && value.6.encoded() is Ok && value.7.encoded() is Ok && value.8.encoded() is Ok && value.9.encoded() is Ok && value.10.encoded() is Ok && value.11.encoded() is Ok && value.12.encoded() is Ok);
    assert((&value.2, (&value.3, (&value.4, (&value.5, (&value.6, (&value.7, (&value.8, (&value.9, (&value.10, (&value.11, (&value.12, ()))))))))))).chain() is Ok <==> value.2.encoded() is Ok && value.3.encoded() is Ok && value.4.encoded() is Ok && value.5.encoded() is Ok && value.6.encoded() is Ok && value.7.encoded() is Ok && value.8.encoded() is Ok && value.9.encoded() is Ok && value.10.encoded() is Ok && value.11.encoded() is Ok && value.12.encoded() is Ok);
    assert((&value.1, (&value.2, (&value.3, (&value.4, (&value.5, (&value.6, (&value.7, (&value.8, (&value.9, (&value.10, (&value.11, (&value.12, ())))))))))))).chain() is Ok <==> value.1.encoded() is Ok && value.2.encoded() is Ok && value.3.encoded() is Ok && value.4.encoded() is Ok && value.5.encoded() is Ok && value.6.encoded() is Ok && value.7.encoded() is Ok && value.8.encoded() is Ok && value.9.encoded() is Ok && value.10.encoded() is Ok && value.11.encoded() is Ok && value.12.encoded() is Ok);
    assert((&value.0, (&value.1, (&value.2, (&value.3, (&value.4, (&value.5, (&value.6, (&value.7, (&value.8, (&value.9, (&value.10, (&value.11, (&value.12, ()))))))))))))).chain() is Ok <==> value.0.encoded() is Ok && value.1.encoded() is Ok && value.2.encoded() is Ok && value.3.encoded() is Ok && value.4.encoded() is Ok && value.5.encoded() is Ok && value.6.encoded() is Ok && value.7.encoded() is Ok && value.8.encoded() is Ok && value.9.encoded() is Ok && value.10.encoded() is Ok && value.11.encoded() is Ok && value.12.encoded() is Ok);
    assert(ts =~= seq![ts[0], ts[1], ts[2], ts[3], ts[4], ts[5], ts[6], ts[7], ts[8], ts[9], ts[10], ts[11], ts[12]]);
    if value.0.encoded() == Ok::<Tree, CodecFault>(ts[0]) && value.1.encoded() == Ok::<Tree, CodecFault>(ts[1]) && value.2.encoded() == Ok::<Tree, CodecFault>(ts[2]) && value.3.encoded() == Ok::<Tree, CodecFault>(ts[3]) && value.4.encoded() == Ok::<Tree, CodecFault>(ts[4]) && value.5.encoded() == Ok::<Tree, CodecFault>(ts[5]) && value.6.encoded() == Ok::<Tree, CodecFault>(ts[6]) && value.7.encoded() == Ok::<Tree, CodecFault>(ts[7]) && value.8.encoded() == Ok::<Tree, CodecFault>(ts[8]) && value.9.encoded() == Ok::<Tree, CodecFault>(ts[9]) && value.10.encoded() == Ok::<Tree, CodecFault>(ts[10]) && value.11.encoded() == Ok::<Tree, CodecFault>(ts[11]) && value.12.encoded() == Ok::<Tree, CodecFault>(ts[12]) {
        assert(seq![ts[12]] + d13 =~= d12);
        assert((&value.12, ()).chain() == Ok::<Seq<Tree>, CodecFault>(d12));
        assert(seq![ts[11]] + d12 =~= d11);
        assert((&value.11, (&value.12, ())).chain() == Ok::<Seq<Tree>, CodecFault>(d11));
        assert(seq![ts[10]] + d11 =~= d10);
        assert((&value.10, (&value.11, (&value.12, ()))).chain() == Ok::<Seq<Tree>, CodecFault>(d10));
        assert(seq![ts[9]] + d10 =~= d9);
        assert((&value.9, (&value.10, (&value.11, (&value.12, ())))).chain() == Ok::<Seq<Tree>, CodecFault>(d9));
        assert(seq![ts[8]] + d9 =~= d8);
        assert((&value.8, (&value.9, (&value.10, (&value.11, (&value.12, ()))))).chain() == Ok::<Seq<Tree>, CodecFault>(d8));
        assert(seq![ts[7]] + d8 =~= d7);
        assert((&value.7, (&value.8, (&value.9, (&value.10, (&value.11, (&value.12, ())))))).chain() == Ok::<Seq<Tree>, CodecFault>(d7));
        assert(seq![ts[6]] + d7 =~= d6);
        assert((&value.6, (&value.7, (&value.8, (&value.9, (&value.10, (&value.11, (&value.12, ()))))))).chain() == Ok::<Seq<Tree>, CodecFault>(d6));
        assert(seq![ts[5]] + d6 =~= d5);
        assert((&value.5, (&value.6, (&value.7, (&value.8, (&value.9, (&value.10, (&value.11, (&value.12, ())))))))).chain() == Ok::<Seq<Tree>, CodecFault>(d5));
        assert(seq![ts[4]] + d5 =~= d4);
        assert((&value.4, (&value.5, (&value.6, (&value.7, (&value.8, (&value.9, (&value.10, (&value.11, (&value.12, ()))))))))).chain() == Ok::<Seq<Tree>, CodecFault>(d4));
        assert(seq![ts[3]] + d4 =~= d3);
        assert((&value.3, (&value.4, (&value.5, (&value.6, (&value.7, (&value.8, (&value.9, (&value.10, (&value.11, (&value.12, ())))))))))).chain() == Ok::<Seq<Tree>, CodecFault>(d3));
        assert(seq![ts[2]] + d3 =~= d2);
        assert((&value.2, (&value.3, (&value.4, (&value.5, (&value.6, (&value.7, (&value.8, (&value.9, (&value.10, (&value.11, (&value.12, ()))))))))))).chain() == Ok::<Seq<Tree>, CodecFault>(d2));
        assert(seq![ts[1]] + d2 =~= d1);
        assert((&value.1, (&value.2, (&value.3, (&value.4, (&value.5, (&value.6, (&value.7, (&value.8, (&value.9, (&value.10, (&value.11, (&value.12, ())))))))))))).chain() == Ok::<Seq<Tree>, CodecFault>(d1));
        assert(seq![ts[0]] + d1 =~= ts);
        assert((&value.0, (&value.1, (&value.2, (&value.3, (&value.4, (&value.5, (&value.6, (&value.7, (&value.8, (&value.9, (&value.10, (&value.11, (&value.12, ()))))))))))))).chain() == Ok::<Seq<Tree>, CodecFault>(ts));
    }
}

/// A tuple of fourteen values is the list of them in their order: it is read from a
/// list of that length whose elements are read, and from no other term.
pub proof fn tuples_of_fourteen<A: ToTerm + FromTerm, B: ToTerm + FromTerm, C: ToTerm + FromTerm, D: ToTerm + FromTerm, E: ToTerm + FromTerm, F: ToTerm + FromTerm, G: ToTerm + FromTerm, H: ToTerm + FromTerm, I: ToTerm + FromTerm, J: ToTerm + FromTerm, K: ToTerm + FromTerm, L: ToTerm + FromTerm, M: ToTerm + FromTerm, N: ToTerm + FromTerm>(
    trail: Seq<(usize, Tree)>,
    t: Tree,
    ts: Seq<Tree>,
    value: (A, B, C, D, E, F, G, H, I, J, K, L, M, N),
)
    requires
        ts.len() == 14,
    ensures
        <(A, B, C, D, E, F, G, H, I, J, K, L, M, N) as ToTerms>::count() == 14 && <(A, B, C, D, E, F, G, H, I, J, K, L, M, N) as FromTerms>::count() == 14,
        value.0.encoded() == Ok::<Tree, CodecFault>(ts[0]) && value.1.encoded() == Ok::<Tree, CodecFault>(ts[1]) && value.2.encoded() == Ok::<Tree, CodecFault>(ts[2]) && value.3.encoded() == Ok::<Tree, CodecFault>(ts[3]) && value.4.encoded() == Ok::<Tree, CodecFault>(ts[4]) && value.5.encoded() == Ok::<Tree, CodecFault>(ts[5]) && value.6.encoded() == Ok::<Tree, CodecFault>(ts[6]) && value.7.encoded() == Ok::<Tree, CodecFault>(ts[7]) && value.8.encoded() == Ok::<Tree, CodecFault>(ts[8]) && value.9.encoded() == Ok::<Tree, CodecFault>(ts[9]) && value.10.encoded() == Ok::<Tree, CodecFault>(ts[10]) && value.11.encoded() == Ok::<Tree, CodecFault>(ts[11]) && value.12.encoded() == Ok::<Tree, CodecFault>(ts[12]) && value.13.encoded() == Ok::<Tree, CodecFault>(ts[13]) ==> value.encoded() == Ok::<Tree, CodecFault>(list_tree(ts)) && value.encoded_terms() == Ok::<Seq<Tree>, CodecFault>(ts),
        value.encoded() is Ok <==> value.0.encoded() is Ok && value.1.encoded() is Ok && value.2.encoded() is Ok && value.3.encoded() is Ok && value.4.encoded() is Ok && value.5.encoded() is Ok && value.6.encoded() is Ok && value.7.encoded() is Ok && value.8.encoded() is Ok && value.9.encoded() is Ok && value.10.encoded() is Ok && value.11.encoded() is Ok && value.12.encoded() is Ok && value.13.encoded() is Ok,
        A::read_fault(trail, ts[0]) is None && B::read_fault(trail, ts[1]) is None && C::read_fault(trail, ts[2]) is None && D::read_fault(trail, ts[3]) is None && E::read_fault(trail, ts[4]) is None && F::read_fault(trail, ts[5]) is None && G::read_fault(trail, ts[6]) is None && H::read_fault(trail, ts[7]) is None && I::read_fault(trail, ts[8]) is None && J::read_fault(trail, ts[9]) is None && K::read_fault(trail, ts[10]) is None && L::read_fault(trail, ts[11]) is None && M::read_fault(trail, ts[12]) is None && N::read_fault(trail, ts[13]) is None <==> <(A, B, C, D, E, F, G, H, I, J, K, L, M, N) as FromTerms>::terms_fault(trail, ts) is None,
        <(A, B, C, D, E, F, G, H, I, J, K, L, M, N) as FromTerms>::reads_terms(trail, ts, value) <==> A::reads(trail, ts[0], value.0) && B::reads(trail, ts[1], value.1) && C::reads(trail, ts[2], value.2) && D::reads(trail, ts[3], value.3) && E::reads(trail, ts[4], value.4) && F::reads(trail, ts[5], value.5) && G::reads(trail, ts[6], value.6) && H::reads(trail, ts[7], value.7) && I::reads(trail, ts[8], value.8) && J::reads(trail, ts[9], value.9) && K::reads(trail, ts[10], value.10) && L::reads(trail, ts[11], value.11) && M::reads(trail, ts[12], value.12) && N::reads(trail, ts[13], value.13),
        shape_of(trail, t) == (ListShape::Proper { len: 14 }) ==> <(A, B, C, D, E, F, G, H, I, J, K, L, M, N) as FromTerm>::read_fault(trail, t) == <(A, B, C, D, E, F, G, H, I, J, K, L, M, N) as FromTerms>::terms_fault(trail, elements(trail, t, 14)),
        shape_of(trail, t) == (ListShape::Proper { len: 0 }) ==> <(A, B, C, D, E, F, G, H, I, J, K, L, M, N) as FromTerm>::read_fault(trail, t) == Some(CodecFault::ArityMismatch(14, 0)),
        <(A, B, C, D, E, F, G, H, I, J, K, L, M, N) as FromTerm>::read_fault(trail, t) is None ==> shape_of(trail, t) == (ListShape::Proper { len: 14 }),
        !(shape_of(trail, t) is Proper) ==> <(A, B, C, D, E, F, G, H, I, J, K, L, M, N) as FromTerm>::read_fault(trail, t) == Some(CodecFault::Term(TermError::NotAProperList(shape_of(trail, t)))),
{
    let d1 = ts.skip(1);
    assert(ts.drop_first() =~= d1 && ts[0] == ts[0]);
    let d2 = ts.skip(2);
    assert(d1.drop_first() =~= d2 && d1[0] == ts[1]);
    let d3 = ts.skip(3);
    assert(d2.drop_first() =~= d3 && d2[0] == ts[2]);
    let d4 = ts.skip(4);
    assert(d3.drop_first() =~= d4 && d3[0] == ts[3]);
    let d5 = ts.skip(5);
    assert(d4.drop_first() =~= d5 && d4[0] == ts[4]);
    let d6 = ts.skip(6);
    assert(d5.drop_first() =~= d6 && d5[0] == ts[5]);
    let d7 = ts.skip(7);
    assert(d6.drop_first() =~= d7 && d6[0] == ts[6]);
    let d8 = ts.skip(8);
    assert(d7.drop_first() =~= d8 && d7[0] == ts[7]);
    let d9 = ts.skip(9);
    assert(d8.drop_first() =~= d9 && d8[0] == ts[8]);
    let d10 = ts.skip(10);
    assert(d9.drop_first() =~= d10 && d9[0] == ts[9]);
    let d11 = ts.skip(11);
    assert(d10.drop_first() =~= d11 && d10[0] == ts[10]);
    let d12 = ts.skip(12);
    assert(d11.drop_first() =~= d12 && d11[0] == ts[11]);
    let d13 = ts.skip(13);
    assert(d12.drop_first() =~= d13 && d12[0] == ts[12]);
    let d14 = ts.skip(14);
    assert(d13.drop_first() =~= d14 && d13[0] == ts[13]);
    assert((&value.13, ()).chain() is Ok <==> value.13.encoded() is Ok);
    assert((&value.12, (&value.13, ())).chain() is Ok <==> value.12.encoded() is Ok && value.13.encoded() is Ok);
    assert((&value.11, (&value.12, (&value.13, ()))).chain() is Ok <==> value.11.encoded() is Ok && value.12.encoded() is Ok && value.13.encoded() is Ok);
    assert((&value.10, (&value.11, (&value.12, (&value.13, ())))).chain() is Ok <==> value.10.encoded() is Ok && value.11.encoded() is Ok && value.12.encoded() is Ok && value.13.encoded() is Ok);
    assert((&value.9, (&value.10, (&value.11, (&value.12, (&value.13, ()))))).chain() is Ok <==> value.9.encoded() is Ok && value.10.encoded() is Ok && value.11.encoded() is Ok && value.12.encoded() is Ok && value.13.encoded() is Ok);
    assert((&value.8, (&value.9, (&value.10, (&value.11, (&value.12, (&value.13, ())))))).chain() is Ok <==> value.8.encoded() is Ok && value.9.encoded() is Ok && value.10.encoded() is Ok && value.11.encoded() is Ok && value.12.encoded() is Ok && value.13.encoded() is Ok);
    assert((&value.7, (&value.8, (&value.9, (&value.10, (&value.11, (&value.12, (&value.13, ()))))))).chain() is Ok <==> value.7.encoded() is Ok && value.8.encoded() is Ok && value.9.encoded() is Ok && value.10.encoded() is Ok && value.11.encoded() is Ok && value.12.encoded() is Ok && value.13.encoded() is Ok);
    assert((&value.6, (&value.7, (&value.8, (&value.9, (&value.10, (&value.11, (&value.12, (&value.13, ())))))))).chain() is Ok <==> value.6.encoded() is Ok && value.7.encoded() is Ok && value.8.encoded() is Ok && value.9.encoded() is Ok && value.10.encoded() is Ok && value.11.encoded() is Ok && value.12.encoded() is Ok && value.13.encoded() is Ok);
    assert((&value.5, (&value.6, (&value.7, (&value.8, (&value.9, (&value.10, (&value.11, (&value.12, (&value.13, ()))))))))).chain() is Ok <==> value.5.encoded() is Ok && value.6.encoded() is Ok && value.7.encoded() is Ok && value.8.encoded() is Ok && value.9.encoded() is Ok && value.10.encoded() is Ok && value.11.encoded() is Ok && value.12.encoded() is Ok && value.13.encoded() is Ok);
    assert((&value.4, (&value.5, (&value.6, (&value.7, (&value.8, (&value.9, (&value.10, (&value.11, (&value.12, (&value.13, ())))))))))).chain() is Ok <==> value.4.encoded() is Ok && value.5.encoded() is Ok && value.6.encoded() is Ok && value.7.encoded() is Ok && value.8.encoded() is Ok && value.9.encoded() is Ok && value.10.encoded() is Ok && value.11.encoded() is Ok && value.12.encoded() is Ok && value.13.encoded() is Ok);
    assert((&value.3, (&value.4, (&value.5, (&value.6, (&value.7, (&value.8, (&value.9, (&value.10, (&value.11, (&value.12, (&value.13, ()))))))))))).chain() is Ok <==> value.3.encoded() is Ok && value.4.encoded() is Ok && value.5.encoded() is Ok && value.6.encoded() is Ok && value.7.encoded() is Ok && value.8.encoded() is Ok && value.9.encoded() is Ok && value.10.encoded() is Ok && value.11.encoded() is Ok && value.12.encoded() is Ok && value.13.encoded() is Ok);
    assert((&value.2, (&value.3, (&value.4, (&value.5, (&value.6, (&value.7, (&value.8, (&value.9, (&value.10, (&value.11, (&value.12, (&value.13, ())))))))))))).chain() is Ok <==> value.2.encoded() is Ok && value.3.encoded() is Ok && value.4.encoded() is Ok && value.5.encoded() is Ok && value.6.encoded() is Ok && value.7.encoded() is Ok && value.8.encoded() is Ok && value.9.encoded() is Ok && value.10.encoded() is Ok && value.11.encoded() is Ok && value.12.encoded() is Ok && value.13.encoded() is Ok);
    assert((&value.1, (&value.2, (&value.3, (&value.4, (&value.5, (&value.6, (&value.7, (&value.8, (&value.9, (&value.10, (&value.11, (&value.12, (&value.13, ()))))))))))))).chain() is Ok <==> value.1.encoded() is Ok && value.2.encoded() is Ok && value.3.encoded() is Ok && value.4.encoded() is Ok && value.5.encoded() is Ok && value.6.encoded() is Ok && value.7.encoded() is Ok && value.8.encoded() is Ok && value.9.encoded() is Ok && value.10.encoded() is Ok && value.11.encoded() is Ok && value.12.encoded() is Ok && value.13.encoded() is Ok);
    assert((&value.0, (&value.1, (&value.2, (&value.3, (&value.4, (&value.5, (&value.6, (&value.7, (&value.8, (&value.9, (&value.10, (&value.11, (&value.12, (&value.13, ())))))))))))))).chain() is Ok <==> value.0.encoded() is Ok && value.1.encoded() is Ok && value.2.encoded() is Ok && value.3.encoded() is Ok && value.4.encoded() is Ok && value.5.encoded() is Ok && value.6.encoded() is Ok && value.7.encoded() is Ok && value.8.encoded() is Ok && value.9.encoded() is Ok && value.10.encoded() is Ok && value.11.encoded() is Ok && value.12.encoded() is Ok && value.13.encoded() is Ok);
    assert(ts =~= seq![ts[0], ts[1], ts[2], ts[3], ts[4], ts[5], ts[6], ts[7], ts[8], ts[9], ts[10], ts[11], ts[12], ts[13]]);
    if value.0.encoded() == Ok::<Tree, CodecFault>(ts[0]) && value.1.encoded() == Ok::<Tree, CodecFault>(ts[1]) && value.2.encoded() == Ok::<Tree, CodecFault>(ts[2]) && value.3.encoded() == Ok::<Tree, CodecFault>(ts[3]) && value.4.encoded() == Ok::<Tree, CodecFault>(ts[4]) && value.5.encoded() == Ok::<Tree, CodecFault>(ts[5]) && value.6.encoded() == Ok::<Tree, CodecFault>(ts[6]) && value.7.encoded() == Ok::<Tree, CodecFault>(ts[7]) && value.8.encoded() == Ok::<Tree, CodecFault>(ts[8]) && value.9.encoded() == Ok::<Tree, CodecFault>(ts[9]) && value.10.encoded() == Ok::<Tree, CodecFault>(ts[10]) && value.11.encoded() == Ok::<Tree, CodecFault>(ts[11]) && value.12.encoded() == Ok::<Tree, CodecFault>(ts[12]) && value.13.encoded() == Ok::<Tree, CodecFault>(ts[13]) {
        assert(seq![ts[13]] + d14 =~= d13);
        assert((&value.13, ()).chain() == Ok::<Seq<Tree>, CodecFault>(d13));
        assert(seq![ts[12]] + d13 =~= d12);
        assert((&value.12, (&value.13, ())).chain() == Ok::<Seq<Tree>, CodecFault>(d12));
        assert(seq![ts[11]] + d12 =~= d11);
        assert((&value.11, (&value.12, (&value.13, ()))).chain() == Ok::<Seq<Tree>, CodecFault>(d11));
        assert(seq![ts[10]] + d11 =~= d10);
        assert((&value.10, (&value.11, (&value.12, (&value.13, ())))).chain() == Ok::<Seq<Tree>, CodecFault>(d10));
        assert(seq![ts[9]] + d10 =~= d9);
        assert((&value.9, (&value.10, (&value.11, (&value.12, (&value.13, ()))))).chain() == Ok::<Seq<Tree>, CodecFault>(d9));
        assert(seq![ts[8]] + d9 =~= d8);
        assert((&value.8, (&value.9, (&value.10, (&value.11, (&value.12, (&value.13, ())))))).chain() == Ok::<Seq<Tree>, CodecFault>(d8));
        assert(seq![ts[7]] + d8 =~= d7);
        assert((&value.7, (&value.8, (&value.9, (&value.10, (&value.11, (&value.12, (&value.13, ()))))))).chain() == Ok::<Seq<Tree>, CodecFault>(d7));
        assert(seq![ts[6]] + d7 =~= d6);
        assert((&value.6, (&value.7, (&value.8, (&value.9, (&value.10, (&value.11, (&value.12, (&value.13, ())))))))).chain() == Ok::<Seq<Tree>, CodecFault>(d6));
        assert(seq![ts[5]] + d6 =~= d5);
        assert((&value.5, (&value.6, (&value.7, (&value.8, (&value.9, (&value.10, (&value.11, (&value.12, (&value.13, ()))))))))).chain() == Ok::<Seq<Tree>, CodecFault>(d5));
        assert(seq![ts[4]] + d5 =~= d4);
        assert((&value.4, (&value.5, (&value.6, (&value.7, (&value.8, (&value.9, (&value.10, (&value.11, (&value.12, (&value.13, ())))))))))).chain() == Ok::<Seq<Tree>, CodecFault>(d4));
        assert(seq![ts[3]] + d4 =~= d3);
        assert((&value.3, (&value.4, (&value.5, (&value.6, (&value.7, (&value.8, (&value.9, (&value.10, (&value.11, (&value.12, (&value.13, ()))))))))))).chain() == Ok::<Seq<Tree>, CodecFault>(d3));
        assert(seq![ts[2]] + d3 =~= d2);
        assert((&value.2, (&value.3, (&value.4, (&value.5, (&value.6, (&value.7, (&value.8, (&value.9, (&value.10, (&value.11, (&value.12, (&value.13, ())))))))))))).chain() == Ok::<Seq<Tree>, CodecFault>(d2));
        assert(seq![ts[1]] + d2 =~= d1);
        assert((&value.1, (&value.2, (&value.3, (&value.4, (&value.5, (&value.6, (&value.7, (&value.8, (&value.9, (&value.10, (&value.11, (&value.12, (&value.13, ()))))))))))))).chain() == Ok::<Seq<Tree>, CodecFault>(d1));
        assert(seq![ts[0]] + d1 =~= ts);
        assert((&value.0, (&value.1, (&value.2, (&value.3, (&value.4, (&value.5, (&value.6, (&value.7, (&value.8, (&value.9, (&value.10, (&value.11, (&value.12, (&value.13, ())))))))))))))).chain() == Ok::<Seq<Tree>, CodecFault>(ts));
    }
}

/// A tuple of fifteen values is the list of them in their order: it is read from a
/// list of that length whose elements are read, and from no other term.
pub proof fn tuples_of_fifteen<A: ToTerm + FromTerm, B: ToTerm + FromTerm, C: ToTerm + FromTerm, D: ToTerm + FromTerm, E: ToTerm + FromTerm, F: ToTerm + FromTerm, G: ToTerm + FromTerm, H: ToTerm + FromTerm, I: ToTerm + FromTerm, J: ToTerm + FromTerm, K: ToTerm + FromTerm, L: ToTerm + FromTerm, M: ToTerm + FromTerm, N: ToTerm + FromTerm, O: ToTerm + FromTerm>(
    trail: Seq<(usize, Tree)>,
    t: Tree,
    ts: Seq<Tree>,
    value: (A, B, C, D, E, F, G, H, I, J, K, L, M, N, O),
)
    requires
        ts.len() == 15,
    ensures
        <(A, B, C, D, E, F, G, H, I, J, K, L, M, N, O) as ToTerms>::count() == 15 && <(A, B, C, D, E, F, G, H, I, J, K, L, M, N, O) as FromTerms>::count() == 15,
        value.0.encoded() == Ok::<Tree, CodecFault>(ts[0]) && value.1.encoded() == Ok::<Tree, CodecFault>(ts[1]) && value.2.encoded() == Ok::<Tree, CodecFault>(ts[2]) && value.3.encoded() == Ok::<Tree, CodecFault>(ts[3]) && value.4.encoded() == Ok::<Tree, CodecFault>(ts[4]) && value.5.encoded() == Ok::<Tree, CodecFault>(ts[5]) && value.6.encoded() == Ok::<Tree, CodecFault>(ts[6]) && value.7.encoded() == Ok::<Tree, CodecFault>(ts[7]) && value.8.encoded() == Ok::<Tree, CodecFault>(ts[8]) && value.9.encoded() == Ok::<Tree, CodecFault>(ts[9]) && value.10.encoded() == Ok::<Tree, CodecFault>(ts[10]) && value.11.encoded() == Ok::<Tree, CodecFault>(ts[11]) && value.12.encoded() == Ok::<Tree, CodecFault>(ts[12]) && value.13.encoded() == Ok::<Tree, CodecFault>(ts[13]) && value.14.encoded() == Ok::<Tree, CodecFault>(ts[14]) ==> value.encoded() == Ok::<Tree, CodecFault>(list_tree(ts)) && value.encoded_terms() == Ok::<Seq<Tree>, CodecFault>(ts),
        value.encoded() is Ok <==> value.0.encoded() is Ok && value.1.encoded() is Ok && value.2.encoded() is Ok && value.3.encoded() is Ok && value.4.encoded() is Ok && value.5.encoded() is Ok && value.6.encoded() is Ok && value.7.encoded() is Ok && value.8.encoded() is Ok && value.9.encoded() is Ok && value.10.encoded() is Ok && value.11.encoded() is Ok && value.12.encoded() is Ok && value.13.encoded() is Ok && value.14.encoded() is Ok,
        A::read_fault(trail, ts[0]) is None && B::read_fault(trail, ts[1]) is None && C::read_fault(trail, ts[2]) is None && D::read_fault(trail, ts[3]) is None && E::read_fault(trail, ts[4]) is None && F::read_fault(trail, ts[5]) is None && G::read_fault(trail, ts[6]) is None && H::read_fault(trail, ts[7]) is None && I::read_fault(trail, ts[8]) is None && J::read_fault(trail, ts[9]) is None && K::read_fault(trail, ts[10]) is None && L::read_fault(trail, ts[11]) is None && M::read_fault(trail, ts[12]) is None && N::read_fault(trail, ts[13]) is None && O::read_fault(trail, ts[14]) is None <==> <(A, B, C, D, E, F, G, H, I, J, K, L, M, N, O) as FromTerms>::terms_fault(trail, ts) is None,
        <(A, B, C, D, E, F, G, H, I, J, K, L, M, N, O) as FromTerms>::reads_terms(trail, ts, value) <==> A::reads(trail, ts[0], value.0) && B::reads(trail, ts[1], value.1) && C::reads(trail, ts[2], value.2) && D::reads(trail, ts[3], value.3) && E::reads(trail, ts[4], value.4) && F::reads(trail, ts[5], value.5) && G::reads(trail, ts[6], value.6) && H::reads(trail, ts[7], value.7) && I::reads(trail, ts[8], value.8) && J::reads(trail, ts[9], value.9) && K::reads(trail, ts[10], value.10) && L::reads(trail, ts[11], value.11) && M::reads(trail, ts[12], value.12) && N::reads(trail, ts[13], value.13) && O::reads(trail, ts[14], value.14),
        shape_of(trail, t) == (ListShape::Proper { len: 15 }) ==> <(A, B, C, D, E, F, G, H, I, J, K, L, M, N, O) as FromTerm>::read_fault(trail, t) == <(A, B, C, D, E, F, G, H, I, J, K, L, M, N, O) as FromTerms>::terms_fault(trail, elements(trail, t, 15)),
        shape_of(trail, t) == (ListShape::Proper { len: 0 }) ==> <(A, B, C, D, E, F, G, H, I, J, K, L, M, N, O) as FromTerm>::read_fault(trail, t) == Some(CodecFault::ArityMismatch(15, 0)),
        <(A, B, C, D, E, F, G, H, I, J, K, L, M, N, O) as FromTerm>::read_fault(trail, t) is None ==> shape_of(trail, t) == (ListShape::Proper { len: 15 }),
        !(shape_of(trail, t) is Proper) ==> <(A, B, C, D, E, F, G, H, I, J, K, L, M, N, O) as FromTerm>::read_fault(trail, t) == Some(CodecFault::Term(TermError::NotAProperList(shape_of(trail, t)))),
{
    let d1 = ts.skip(1);
    assert(ts.drop_first() =~= d1 && ts[0] == ts[0]);
    let d2 = ts.skip(2);
    assert(d1.drop_first() =~= d2 && d1[0] == ts[1]);
    let d3 = ts.skip(3);
    assert(d2.drop_first() =~= d3 && d2[0] == ts[2]);
    let d4 = ts.skip(4);
    assert(d3.drop_first() =~= d4 && d3[0] == ts[3]);
    let d5 = ts.skip(5);
    assert(d4.drop_first() =~= d5 && d4[0] == ts[4]);
    let d6 = ts.skip(6);
    assert(d5.drop_first() =~= d6 && d5[0] == ts[5]);
    let d7 = ts.skip(7);
    assert(d6.drop_first() =~= d7 && d6[0] == ts[6]);
    let d8 = ts.skip(8);
    assert(d7.drop_first() =~= d8 && d7[0] == ts[7]);
    let d9 = ts.skip(9);
    assert(d8.drop_first() =~= d9 && d8[0] == ts[8]);
    let d10 = ts.skip(10);
    assert(d9.drop_first() =~= d10 && d9[0] == ts[9]);
    let d11 = ts.skip(11);
    assert(d10.drop_first() =~= d11 && d10[0] == ts[10]);
    let d12 = ts.skip(12);
    assert(d11.drop_first() =~= d12 && d11[0] == ts[11]);
    let d13 = ts.skip(13);
    assert(d12.drop_first() =~= d13 && d12[0] == ts[12]);
    let d14 = ts.skip(14);
    assert(d13.drop_first() =~= d14 && d13[0] == ts[13]);
    let d15 = ts.skip(15);
    assert(d14.drop_first() =~= d15 && d14[0] == ts[14]);
    assert((&value.14, ()).chain() is Ok <==> value.14.encoded() is Ok);
    assert((&value.13, (&value.14, ())).chain() is Ok <==> value.13.encoded() is Ok && value.14.encoded() is Ok);
    assert((&value.12, (&value.13, (&value.14, ()))).chain() is Ok <==> value.12.encoded() is Ok && value.13.encoded() is Ok && value.14.encoded() is Ok);
    assert((&value.11, (&value.12, (&value.13, (&value.14, ())))).chain() is Ok <==> value.11.encoded() is Ok && value.12.encoded() is Ok && value.13.encoded() is Ok && value.14.encoded() is Ok);
    assert((&value.10, (&value.11, (&value.12, (&value.13, (&value.14, ()))))).chain() is Ok <==> value.10.encoded() is Ok && value.11.encoded() is Ok && value.12.encoded() is Ok && value.13.encoded() is Ok && value.14.encoded() is Ok);
    assert((&value.9, (&value.10, (&value.11, (&value.12, (&value.13, (&value.14, ())))))).chain() is Ok <==> value.9.encoded() is Ok && value.10.encoded() is Ok && value.11.encoded() is Ok && value.12.encoded() is Ok && value.13.encoded() is Ok && value.14.encoded() is Ok);
    assert((&value.8, (&value.9, (&value.10, (&value.11, (&value.12, (&value.13, (&value.14, ()))))))).chain() is Ok <==> value.8.encoded() is Ok && value.9.encoded() is Ok && value.10.encoded() is Ok && value.11.encoded() is Ok && value.12.encoded() is Ok && value.13.encoded() is Ok && value.14.encoded() is Ok);
    assert((&value.7, (&value.8, (&value.9, (&value.10, (&value.11, (&value.12, (&value.13, (&value.14, ())))))))).chain() is Ok <==> value.7.encoded() is Ok && value.8.encoded() is Ok && value.9.encoded() is Ok && value.10.encoded() is Ok && value.11.encoded() is Ok && value.12.encoded() is Ok && value.13.encoded() is Ok && value.14.encoded() is Ok);
    assert((&value.6, (&value.7, (&value.8, (&value.9, (&value.10, (&value.11, (&value.12, (&value.13, (&value.14, ()))))))))).chain() is Ok <==> value.6.encoded() is Ok && value.7.encoded() is Ok && value.8.encoded() is Ok && value.9.encoded() is Ok && value.10.encoded() is Ok && value.11.encoded() is Ok && value.12.encoded() is Ok && value.13.encoded() is Ok && value.14.encoded() is Ok);
    assert((&value.5, (&value.6, (&value.7, (&value.8, (&value.9, (&value.10, (&value.11, (&value.12, (&value.13, (&value.14, ())))))))))).chain() is Ok <==> value.5.encoded() is Ok && value.6.encoded() is Ok && value.7.encoded() is Ok && value.8.encoded() is Ok && value.9.encoded() is Ok && value.10.encoded() is Ok && value.11.encoded() is Ok && value.12.encoded() is Ok && value.13.encoded() is Ok && value.14.encoded() is Ok);
    assert((&value.4, (&value.5, (&value.6, (&value.7, (&value.8, (&value.9, (&value.10, (&value.11, (&value.12, (&value.13, (&value.14, ()))))))))))).chain() is Ok <==> value.4.encoded() is Ok && value.5.encoded() is Ok && value.6.encoded() is Ok && value.7.encoded() is Ok && value.8.encoded() is Ok && value.9.encoded() is Ok && value.10.encoded() is Ok && value.11.encoded() is Ok && value.12.encoded() is Ok && value.13.encoded() is Ok && value.14.encoded() is Ok);
    assert((&value.3, (&value.4, (&value.5, (&value.6, (&value.7, (&value.8, (&value.9, (&value.10, (&value.11, (&value.12, (&value.13, (&value.14, ())))))))))))).chain() is Ok <==> value.3.encoded() is Ok && value.4.encoded() is Ok && value.5.encoded() is Ok && value.6.encoded() is Ok && value.7.encoded() is Ok && value.8.encoded() is Ok && value.9.encoded() is Ok && value.10.encoded() is Ok && value.11.encoded() is Ok && value.12.encoded() is Ok && value.13.encoded() is Ok && value.14.encoded() is Ok);
    assert((&value.2, (&value.3, (&value.4, (&value.5, (&value.6, (&value.7, (&value.8, (&value.9, (&value.10, (&value.11, (&value.12, (&value.13, (&value.14, ()))))))))))))).chain() is Ok <==> value.2.encoded() is Ok && value.3.encoded() is Ok && value.4.encoded() is Ok && value.5.encoded() is Ok && value.6.encoded() is Ok && value.7.encoded() is Ok && value.8.encoded() is Ok && value.9.encoded() is Ok && value.10.encoded() is Ok && value.11.encoded() is Ok && value.12.encoded() is Ok && value.13.encoded() is Ok && value.14.encoded() is Ok);
    assert((&value.1, (&value.2, (&value.3, (&value.4, (&value.5, (&value.6, (&value.7, (&value.8, (&value.9, (&value.10, (&value.11, (&value.12, (&value.13, (&value.14, ())))))))))))))).chain() is Ok <==> value.1.encoded() is Ok && value.2.encoded() is Ok && value.3.encoded() is Ok && value.4.encoded() is Ok && value.5.encoded() is Ok && value.6.encoded() is Ok && value.7.encoded() is Ok && value.8.encoded() is Ok && value.9.encoded() is Ok && value.10.encoded() is Ok && value.11.encoded() is Ok && value.12.encoded() is Ok && value.13.encoded() is Ok && value.14.encoded() is Ok);
    assert((&value.0, (&value.1, (&value.2, (&value.3, (&value.4, (&value.5, (&value.6, (&value.7, (&value.8, (&value.9, (&value.10, (&value.11, (&value.12, (&value.13, (&value.14, ()))))))))))))))).chain() is Ok <==> value.0.encoded() is Ok && value.1.encoded() is Ok && value.2.encoded() is Ok && value.3.encoded() is Ok && value.4.encoded() is Ok && value.5.encoded() is Ok && value.6.encoded() is Ok && value.7.encoded() is Ok && value.8.encoded() is Ok && value.9.encoded() is Ok && value.10.encoded() is Ok && value.11.encoded() is Ok && value.12.encoded() is Ok && value.13.encoded() is Ok && value.14.encoded() is Ok);
    assert(ts =~= seq![ts[0], ts[1], ts[2], ts[3], ts[4], ts[5], ts[6], ts[7], ts[8], ts[9], ts[10], ts[11], ts[12], ts[13], ts[14]]);
    if value.0.encoded() == Ok::<Tree, CodecFault>(ts[0]) && value.1.encoded() == Ok::<Tree, CodecFault>(ts[1]) && value.2.encoded() == Ok::<Tree, CodecFault>(ts[2]) && value.3.encoded() == Ok::<Tree, CodecFault>(ts[3]) && value.4.encoded() == Ok::<Tree, CodecFault>(ts[4]) && value.5.encoded() == Ok::<Tree, CodecFault>(ts[5]) && value.6.encoded() == Ok::<Tree, CodecFault>(ts[6]) && value.7.encoded() == Ok::<Tree, CodecFault>(ts[7]) && value.8.encoded() == Ok::<Tree, CodecFault>(ts[8]) && value.9.encoded() == Ok::<Tree, CodecFault>(ts[9]) && value.10.encoded() == Ok::<Tree, CodecFault>(ts[10]) && value.11.encoded() == Ok::<Tree, CodecFault>(ts[11]) && value.12.encoded() == Ok::<Tree, CodecFault>(ts[12]) && value.13.encoded() == Ok::<Tree, CodecFault>(ts[13]) && value.14.encoded() == Ok::<Tree, CodecFault>(ts[14]) {
        assert(seq![ts[14]] + d15 =~= d14);
        assert((&value.14, ()).chain() == Ok::<Seq<Tree>, CodecFault>(d14));
        assert(seq![ts[13]] + d14 =~= d13);
        assert((&value.13, (&value.14, ())).chain() == Ok::<Seq<Tree>, CodecFault>(d13));
        assert(seq![ts[12]] + d13 =~= d12);
        assert((&value.12, (&value.13, (&value.14, ()))).chain() == Ok::<Seq<Tree>, CodecFault>(d12));
        assert(seq![ts[11]] + d12 =~= d11);
        assert((&value.11, (&value.12, (&value.13, (&value.14, ())))).chain() == Ok::<Seq<Tree>, CodecFault>(d11));
        assert(seq![ts[10]] + d11 =~= d10);
        assert((&value.10, (&value.11, (&value.12, (&value.13, (&value.14, ()))))).chain() == Ok::<Seq<Tree>, CodecFault>(d10));
        assert(seq![ts[9]] + d10 =~= d9);
        assert((&value.9, (&value.10, (&value.11, (&value.12, (&value.13, (&value.14, ())))))).chain() == Ok::<Seq<Tree>, CodecFault>(d9));
        assert(seq![ts[8]] + d9 =~= d8);
        assert((&value.8, (&value.9, (&value.10, (&value.11, (&value.12, (&value.13, (&value.14, ()))))))).chain() == Ok::<Seq<Tree>, CodecFault>(d8));
        assert(seq![ts[7]] + d8 =~= d7);
        assert((&value.7, (&value.8, (&value.9, (&value.10, (&value.11, (&value.12, (&value.13, (&value.14, ())))))))).chain() == Ok::<Seq<Tree>, CodecFault>(d7));
        assert(seq![ts[6]] + d7 =~= d6);
        assert((&value.6, (&value.7, (&value.8, (&value.9, (&value.10, (&value.11, (&value.12, (&value.13, (&value.14, ()))))))))).chain() == Ok::<Seq<Tree>, CodecFault>(d6));
        assert(seq![ts[5]] + d6 =~= d5);
        assert((&value.5, (&value.6, (&value.7, (&value.8, (&value.9, (&value.10, (&value.11, (&value.12, (&value.13, (&value.14, ())))))))))).chain() == Ok::<Seq<Tree>, CodecFault>(d5));
        assert(seq![ts[4]] + d5 =~= d4);
        assert((&value.4, (&value.5, (&value.6, (&value.7, (&value.8, (&value.9, (&value.10, (&value.11, (&value.12, (&value.13, (&value.14, ()))))))))))).chain() == Ok::<Seq<Tree>, CodecFault>(d4));
        assert(seq![ts[3]] + d4 =~= d3);
        assert((&value.3, (&value.4, (&value.5, (&value.6, (&value.7, (&value.8, (&value.9, (&value.10, (&value.11, (&value.12, (&value.13, (&value.14, ())))))))))))).chain() == Ok::<Seq<Tree>, CodecFault>(d3));
        assert(seq![ts[2]] + d3 =~= d2);
        assert((&value.2, (&value.3, (&value.4, (&value.5, (&value.6, (&value.7, (&value.8, (&value.9, (&value.10, (&value.11, (&value.12, (&value.13, (&value.14, ()))))))))))))).chain() == Ok::<Seq<Tree>, CodecFault>(d2));
        assert(seq![ts[1]] + d2 =~= d1);
        assert((&value.1, (&value.2, (&value.3, (&value.4, (&value.5, (&value.6, (&value.7, (&value.8, (&value.9, (&value.10, (&value.11, (&value.12, (&value.13, (&value.14, ())))))))))))))).chain() == Ok::<Seq<Tree>, CodecFault>(d1));
        assert(seq![ts[0]] + d1 =~= ts);
        assert((&value.0, (&value.1, (&value.2, (&value.3, (&value.4, (&value.5, (&value.6, (&value.7, (&value.8, (&value.9, (&value.10, (&value.11, (&value.12, (&value.13, (&value.14, ()))))))))))))))).chain() == Ok::<Seq<Tree>, CodecFault>(ts));
    }
}

/// A tuple of sixteen values is the list of them in their order: it is read from a
/// list of that length whose elements are read, and from no other term.
pub proof fn tuples_of_sixteen<A: ToTerm + FromTerm, B: ToTerm + FromTerm, C: ToTerm + FromTerm, D: ToTerm + FromTerm, E: ToTerm + FromTerm, F: ToTerm + FromTerm, G: ToTerm + FromTerm, H: ToTerm + FromTerm, I: ToTerm + FromTerm, J: ToTerm + FromTerm, K: ToTerm + FromTerm, L: ToTerm + FromTerm, M: ToTerm + FromTerm, N: ToTerm + FromTerm, O: ToTerm + FromTerm, P: ToTerm + FromTerm>(
    trail: Seq<(usize, Tree)>,
    t: Tree,
    ts: Seq<Tree>,
    value: (A, B, C, D, E, F, G, H, I, J, K, L, M, N, O, P),
)
    requires
        ts.len() == 16,
    ensures
        <(A, B, C, D, E, F, G, H, I, J, K, L, M, N, O, P) as ToTerms>::count() == 16 && <(A, B, C, D, E, F, G, H, I, J, K, L, M, N, O, P) as FromTerms>::count() == 16,
        value.0.encoded() == Ok::<Tree, CodecFault>(ts[0]) && value.1.encoded() == Ok::<Tree, CodecFault>(ts[1]) && value.2.encoded() == Ok::<Tree, CodecFault>(ts[2]) && value.3.encoded() == Ok::<Tree, CodecFault>(ts[3]) && value.4.encoded() == Ok::<Tree, CodecFault>(ts[4]) && value.5.encoded() == Ok::<Tree, CodecFault>(ts[5]) && value.6.encoded() == Ok::<Tree, CodecFault>(ts[6]) && value.7.encoded() == Ok::<Tree, CodecFault>(ts[7]) && value.8.encoded() == Ok::<Tree, CodecFault>(ts[8]) && value.9.encoded() == Ok::<Tree, CodecFault>(ts[9]) && value.10.encoded() == Ok::<Tree, CodecFault>(ts[10]) && value.11.encoded() == Ok::<Tree, CodecFault>(ts[11]) && value.12.encoded() == Ok::<Tree, CodecFault>(ts[12]) && value.13.encoded() == Ok::<Tree, CodecFault>(ts[13]) && value.14.encoded() == Ok::<Tree, CodecFault>(ts[14]) && value.15.encoded() == Ok::<Tree, CodecFault>(ts[15]) ==> value.encoded() == Ok::<Tree, CodecFault>(list_tree(ts)) && value.encoded_terms() == Ok::<Seq<Tree>, CodecFault>(ts),
        value.encoded() is Ok <==> value.0.encoded() is Ok && value.1.encoded() is Ok && value.2.encoded() is Ok && value.3.encoded() is Ok && value.4.encoded() is Ok && value.5.encoded() is Ok && value.6.encoded() is Ok && value.7.encoded() is Ok && value.8.encoded() is Ok && value.9.encoded() is Ok && value.10.encoded() is Ok && value.11.encoded() is Ok && value.12.encoded() is Ok && value.13.encoded() is Ok && value.14.encoded() is Ok && value.15.encoded() is Ok,
        A::read_fault(trail, ts[0]) is None && B::read_fault(trail, ts[1]) is None && C::read_fault(trail, ts[2]) is None && D::read_fault(trail, ts[3]) is None && E::read_fault(trail, ts[4]) is None && F::read_fault(trail, ts[5]) is None && G::read_fault(trail, ts[6]) is None && H::read_fault(trail, ts[7]) is None && I::read_fault(trail, ts[8]) is None && J::read_fault(trail, ts[9]) is None && K::read_fault(trail, ts[10]) is None && L::read_fault(trail, ts[11]) is None && M::read_fault(trail, ts[12]) is None && N::read_fault(trail, ts[13]) is None && O::read_fault(trail, ts[14]) is None && P::read_fault(trail, ts[15]) is None <==> <(A, B, C, D, E, F, G, H, I, J, K, L, M, N, O, P) as FromTerms>::terms_fault(trail, ts) is None,
        <(A, B, C, D, E, F, G, H, I, J, K, L, M, N, O, P) as FromTerms>::reads_terms(trail, ts, value) <==> A::reads(trail, ts[0], value.0) && B::reads(trail, ts[1], value.1) && C::reads(trail, ts[2], value.2) && D::reads(trail, ts[3], value.3) && E::reads(trail, ts[4], value.4) && F::reads(trail, ts[5], value.5) && G::reads(trail, ts[6], value.6) && H::reads(trail, ts[7], value.7) && I::reads(trail, ts[8], value.8) && J::reads(trail, ts[9], value.9) && K::reads(trail, ts[10], value.10) && L::reads(trail, ts[11], value.11) && M::reads(trail, ts[12], value.12) && N::reads(trail, ts[13], value.13) && O::reads(trail, ts[14], value.14) && P::reads(trail, ts[15], value.15),
        shape_of(trail, t) == (ListShape::Proper { len: 16 }) ==> <(A, B, C, D, E, F, G, H, I, J, K, L, M, N, O, P) as FromTerm>::read_fault(trail, t) == <(A, B, C, D, E, F, G, H, I, J, K, L, M, N, O, P) as FromTerms>::terms_fault(trail, elements(trail, t, 16)),
        shape_of(trail, t) == (ListShape::Proper { len: 0 }) ==> <(A, B, C, D, E, F, G, H, I, J, K, L, M, N, O, P) as FromTerm>::read_fault(trail, t) == Some(CodecFault::ArityMismatch(16, 0)),
        <(A, B, C, D, E, F, G, H, I, J, K, L, M, N, O, P) as FromTerm>::read_fault(trail, t) is None ==> shape_of(trail, t) == (ListShape::Proper { len: 16 }),
        !(shape_of(trail, t) is Proper) ==> <(A, B, C, D, E, F, G, H, I, J, K, L, M, N, O, P) as FromTerm>::read_fault(trail, t) == Some(CodecFault::Term(TermError::NotAProperList(shape_of(trail, t)))),
{
    let d1 = ts.skip(1);
    assert(ts.drop_first() =~= d1 && ts[0] == ts[0]);
    let d2 = ts.skip(2);
    assert(d1.drop_first() =~= d2 && d1[0] == ts[1]);
    let d3 = ts.skip(3);
    assert(d2.drop_first() =~= d3 && d2[0] == ts[2]);
    let d4 = ts.skip(4);
    assert(d3.drop_first() =~= d4 && d3[0] == ts[3]);
    let d5 = ts.skip(5);
    assert(d4.drop_first() =~= d5 && d4[0] == ts[4]);
    let d6 = ts.skip(6);
    assert(d5.drop_first() =~= d6 && d5[0] == ts[5]);
    let d7 = ts.skip(7);
    assert(d6.drop_first() =~= d7 && d6[0] == ts[6]);
    let d8 = ts.skip(8);
    assert(d7.drop_first() =~= d8 && d7[0] == ts[7]);
    let d9 = ts.skip(9);
    assert(d8.drop_first() =~= d9 && d8[0] == ts[8]);
    let d10 = ts.skip(10);
    assert(d9.drop_first() =~= d10 && d9[0] == ts[9]);
    let d11 = ts.skip(11);
    assert(d10.drop_first() =~= d11 && d10[0] == ts[10]);
    let d12 = ts.skip(12);
    assert(d11.drop_first() =~= d12 && d11[0] == ts[11]);
    let d13 = ts.skip(13);
    assert(d12.drop_first() =~= d13 && d12[0] == ts[12]);
    let d14 = ts.skip(14);
    assert(d13.drop_first() =~= d14 && d13[0] == ts[13]);
    let d15 = ts.skip(15);
    assert(d14.drop_first() =~= d15 && d14[0] == ts[14]);
    let d16 = ts.skip(16);
    assert(d15.drop_first() =~= d16 && d15[0] == ts[15]);
    assert((&value.15, ()).chain() is Ok <==> value.15.encoded() is Ok);
    assert((&value.14, (&value.15, ())).chain() is Ok <==> value.14.encoded() is Ok && value.15.encoded() is Ok);
    assert((&value.13, (&value.14, (&value.15, ()))).chain() is Ok <==> value.13.encoded() is Ok && value.14.encoded() is Ok && value.15.encoded() is Ok);
    assert((&value.12, (&value.13, (&value.14, (&value.15, ())))).chain() is Ok <==> value.12.encoded() is Ok && value.13.encoded() is Ok && value.14.encoded() is Ok && value.15.encoded() is Ok);
    assert((&value.11, (&value.12, (&value.13, (&value.14, (&value.15, ()))))).chain() is Ok <==> value.11.encoded() is Ok && value.12.encoded() is Ok && value.13.encoded() is Ok && value.14.encoded() is Ok && value.15.encoded() is Ok);
    assert((&value.10, (&value.11, (&value.12, (&value.13, (&value.14, (&value.15, ())))))).chain() is Ok <==> value.10.encoded() is Ok && value.11.encoded() is Ok && value.12.encoded() is Ok && value.13.encoded() is Ok && value.14.encoded() is Ok && value.15.encoded() is Ok);
    assert((&value.9, (&value.10, (&value.11, (&value.12, (&value.13, (&value.14, (&value.15, ()))))))).chain() is Ok <==> value.9.encoded() is Ok && value.10.encoded() is Ok && value.11.encoded() is Ok && value.12.encoded() is Ok && value.13.encoded() is Ok && value.14.encoded() is Ok && value.15.encoded() is Ok);
    assert((&value.8, (&value.9, (&value.10, (&value.11, (&value.12, (&value.13, (&value.14, (&value.15, ())))))))).chain() is Ok <==> value.8.encoded() is Ok && value.9.encoded() is Ok && value.10.encoded() is Ok && value.11.encoded() is Ok && value.12.encoded() is Ok && value.13.encoded() is Ok && value.14.encoded() is Ok && value.15.encoded() is Ok);
    assert((&value.7, (&value.8, (&value.9, (&value.10, (&value.11, (&value.12, (&value.13, (&value.14, (&value.15, ()))))))))).chain() is Ok <==> value.7.encoded() is Ok && value.8.encoded() is Ok && value.9.encoded() is Ok && value.10.encoded() is Ok && value.11.encoded() is Ok && value.12.encoded() is Ok && value.13.encoded() is Ok && value.14.encoded() is Ok && value.15.encoded() is Ok);
    assert((&value.6, (&value.7, (&value.8, (&value.9, (&value.10, (&value.11, (&value.12, (&value.13, (&value.14, (&value.15, ())))))))))).chain() is Ok <==> value.6.encoded() is Ok && value.7.encoded() is Ok && value.8.encoded() is Ok && value.9.encoded() is Ok && value.10.encoded() is Ok && value.11.encoded() is Ok && value.12.encoded() is Ok && value.13.encoded() is Ok && value.14.encoded() is Ok && value.15.encoded() is Ok);
    assert((&value.5, (&value.6, (&value.7, (&value.8, (&value.9, (&value.10, (&value.11, (&value.12, (&value.13, (&value.14, (&value.15, ()))))))))))).chain() is Ok <==> value.5.encoded() is Ok && value.6.encoded() is Ok && value.7.encoded() is Ok && value.8.encoded() is Ok && value.9.encoded() is Ok && value.10.encoded() is Ok && value.11.encoded() is Ok && value.12.encoded() is Ok && value.13.encoded() is Ok && value.14.encoded() is Ok && value.15.encoded() is Ok);
    assert((&value.4, (&value.5, (&value.6, (&value.7, (&value.8, (&value.9, (&value.10, (&value.11, (&value.12, (&value.13, (&value.14, (&value.15, ())))))))))))).chain() is Ok <==> value.4.encoded() is Ok && value.5.encoded() is Ok && value.6.encoded() is Ok && value.7.encoded() is Ok && value.8.encoded() is Ok && value.9.encoded() is Ok && value.10.encoded() is Ok && value.11.encoded() is Ok && value.12.encoded() is Ok && value.13.encoded() is Ok && value.14.encoded() is Ok && value.15.encoded() is Ok);
    assert((&value.3, (&value.4, (&value.5, (&value.6, (&value.7, (&value.8, (&value.9, (&value.10, (&value.11, (&value.12, (&value.13, (&value.14, (&value.15, ()))))))))))))).chain() is Ok <==> value.3.encoded() is Ok && value.4.encoded() is Ok && value.5.encoded() is Ok && value.6.encoded() is Ok && value.7.encoded() is Ok && value.8.encoded() is Ok && value.9.encoded() is Ok && value.10.encoded() is Ok && value.11.encoded() is Ok && value.12.encoded() is Ok && value.13.encoded() is Ok && value.14.encoded() is Ok && value.15.encoded() is Ok);
    assert((&value.2, (&value.3, (&value.4, (&value.5, (&value.6, (&value.7, (&value.8, (&value.9, (&value.10, (&value.11, (&value.12, (&value.13, (&value.14, (&value.15, ())))))))))))))).chain() is Ok <==> value.2.encoded() is Ok && value.3.encoded() is Ok && value.4.encoded() is Ok && value.5.encoded() is Ok && value.6.encoded() is Ok && value.7.encoded() is Ok && value.8.encoded() is Ok && value.9.encoded() is Ok && value.10.encoded() is Ok && value.11.encoded() is Ok && value.12.encoded() is Ok && value.13.encoded() is Ok && value.14.encoded() is Ok && value.15.encoded() is Ok);
    assert((&value.1, (&value.2, (&value.3, (&value.4, (&value.5, (&value.6, (&value.7, (&value.8, (&value.9, (&value.10, (&value.11, (&value.12, (&value.13, (&value.14, (&value.15, ()))))))))))))))).chain() is Ok <==> value.1.encoded() is Ok && value.2.encoded() is Ok && value.3.encoded() is Ok && value.4.encoded() is Ok && value.5.encoded() is Ok && value.6.encoded() is Ok && value.7.encoded() is Ok && value.8.encoded() is Ok && value.9.encoded() is Ok && value.10.encoded() is Ok && value.11.encoded() is Ok && value.12.encoded() is Ok && value.13.encoded() is Ok && value.14.encoded() is Ok && value.15.encoded() is Ok);
    assert((&value.0, (&value.1, (&value.2, (&value.3, (&value.4, (&value.5, (&value.6, (&value.7, (&value.8, (&value.9, (&value.10, (&value.11, (&value.12, (&value.13, (&value.14, (&value.15, ())))))))))))))))).chain() is Ok <==> value.0.encoded() is Ok && value.1.encoded() is Ok && value.2.encoded() is Ok && value.3.encoded() is Ok && value.4.encoded() is Ok && value.5.encoded() is Ok && value.6.encoded() is Ok && value.7.encoded() is Ok && value.8.encoded() is Ok && value.9.encoded() is Ok && value.10.encoded() is Ok && value.11.encoded() is Ok && value.12.encoded() is Ok && value.13.encoded() is Ok && value.14.encoded() is Ok && value.15.encoded() is Ok);
    assert(ts =~= seq![ts[0], ts[1], ts[2], ts[3], ts[4], ts[5], ts[6], ts[7], ts[8], ts[9], ts[10], ts[11], ts[12], ts[13], ts[14], ts[15]]);
    if value.0.encoded() == Ok::<Tree, CodecFault>(ts[0]) && value.1.encoded() == Ok::<Tree, CodecFault>(ts[1]) && value.2.encoded() == Ok::<Tree, CodecFault>(ts[2]) && value.3.encoded() == Ok::<Tree, CodecFault>(ts[3]) && value.4.encoded() == Ok::<Tree, CodecFault>(ts[4]) && value.5.encoded() == Ok::<Tree, CodecFault>(ts[5]) && value.6.encoded() == Ok::<Tree, CodecFault>(ts[6]) && value.7.encoded() == Ok::<Tree, CodecFault>(ts[7]) && value.8.encoded() == Ok::<Tree, CodecFault>(ts[8]) && value.9.encoded() == Ok::<Tree, CodecFault>(ts[9]) && value.10.encoded() == Ok::<Tree, CodecFault>(ts[10]) && value.11.encoded() == Ok::<Tree, CodecFault>(ts[11]) && value.12.encoded() == Ok::<Tree, CodecFault>(ts[12]) && value.13.encoded() == Ok::<Tree, CodecFault>(ts[13]) && value.14.encoded() == Ok::<Tree, CodecFault>(ts[14]) && value.15.encoded() == Ok::<Tree, CodecFault>(ts[15]) {
        assert(seq![ts[15]] + d16 =~= d15);
        assert((&value.15, ()).chain() == Ok::<Seq<Tree>, CodecFault>(d15));
        assert(seq![ts[14]] + d15 =~= d14);
        assert((&value.14, (&value.15, ())).chain() == Ok::<Seq<Tree>, CodecFault>(d14));
        assert(seq![ts[13]] + d14 =~= d13);
        assert((&value.13, (&value.14, (&value.15, ()))).chain() == Ok::<Seq<Tree>, CodecFault>(d13));
        assert(seq![ts[12]] + d13 =~= d12);
        assert((&value.12, (&value.13, (&value.14, (&value.15, ())))).chain() == Ok::<Seq<Tree>, CodecFault>(d12));
        assert(seq![ts[11]] + d12 =~= d11);
        assert((&value.11, (&value.12, (&value.13, (&value.14, (&value.15, ()))))).chain() == Ok::<Seq<Tree>, CodecFault>(d11));
        assert(seq![ts[10]] + d11 =~= d10);
        assert((&value.10, (&value.11, (&value.12, (&value.13, (&value.14, (&value.15, ())))))).chain() == Ok::<Seq<Tree>, CodecFault>(d10));
        assert(seq![ts[9]] + d10 =~= d9);
        assert((&value.9, (&value.10, (&value.11, (&value.12, (&value.13, (&value.14, (&value.15, ()))))))).chain() == Ok::<Seq<Tree>, CodecFault>(d9));
        assert(seq![ts[8]] + d9 =~= d8);
        assert((&value.8, (&value.9, (&value.10, (&value.11, (&value.12, (&value.13, (&value.14, (&value.15, ())))))))).chain() == Ok::<Seq<Tree>, CodecFault>(d8));
        assert(seq![ts[7]] + d8 =~= d7);
        assert((&value.7, (&value.8, (&value.9, (&value.10, (&value.11, (&value.12, (&value.13, (&value.14, (&value.15, ()))))))))).chain() == Ok::<Seq<Tree>, CodecFault>(d7));
        assert(seq![ts[6]] + d7 =~= d6);
        assert((&value.6, (&value.7, (&value.8, (&value.9, (&value.10, (&value.11, (&value.12, (&value.13, (&value.14, (&value.15, ())))))))))).chain() == Ok::<Seq<Tree>, CodecFault>(d6));
        assert(seq![ts[5]] + d6 =~= d5);
        assert((&value.5, (&value.6, (&value.7, (&value.8, (&value.9, (&value.10, (&value.11, (&value.12, (&value.13, (&value.14, (&value.15, ()))))))))))).chain() == Ok::<Seq<Tree>, CodecFault>(d5));
        assert(seq![ts[4]] + d5 =~= d4);
        assert((&value.4, (&value.5, (&value.6, (&value.7, (&value.8, (&value.9, (&value.10, (&value.11, (&value.12, (&value.13, (&value.14, (&value.15, ())))))))))))).chain() == Ok::<Seq<Tree>, CodecFault>(d4));
        assert(seq![ts[3]] + d4 =~= d3);
        assert((&value.3, (&value.4, (&value.5, (&value.6, (&value.7, (&value.8, (&value.9, (&value.10, (&value.11, (&value.12, (&value.13, (&value.14, (&value.15, ()))))))))))))).chain() == Ok::<Seq<Tree>, CodecFault>(d3));
        assert(seq![ts[2]] + d3 =~= d2);
        assert((&value.2, (&value.3, (&value.4, (&value.5, (&value.6, (&value.7, (&value.8, (&value.9, (&value.10, (&value.11, (&value.12, (&value.13, (&value.14, (&value.15, ())))))))))))))).chain() == Ok::<Seq<Tree>, CodecFault>(d2));
        assert(seq![ts[1]] + d2 =~= d1);
        assert((&value.1, (&value.2, (&value.3, (&value.4, (&value.5, (&value.6, (&value.7, (&value.8, (&value.9, (&value.10, (&value.11, (&value.12, (&value.13, (&value.14, (&value.15, ()))))))))))))))).chain() == Ok::<Seq<Tree>, CodecFault>(d1));
        assert(seq![ts[0]] + d1 =~= ts);
        assert((&value.0, (&value.1, (&value.2, (&value.3, (&value.4, (&value.5, (&value.6, (&value.7, (&value.8, (&value.9, (&value.10, (&value.11, (&value.12, (&value.13, (&value.14, (&value.15, ())))))))))))))))).chain() == Ok::<Seq<Tree>, CodecFault>(ts));
    }
}

} // verus!
