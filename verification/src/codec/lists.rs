//! Conversion of sequences to and from proper lists.

use vstd::prelude::*;

use crate::codec::{
    all_live, always_field, held_by, list_tree, overwrites, put_list_terms, required_field_fault,
    stopped, CodecFault, FromTerm, TermCodecError, ToTerm,
};
use crate::data::Tree;
use crate::fli::Fli;
use crate::list::{element_at, has_shape, shape_is, shape_of};
use crate::term::{grows, FliContext, ListShape, Term, TermError};

verus! {

/// The terms that stand for values, or why the first one that has none has
/// none.
pub open spec fn encoded_items<T: ToTerm>(values: Seq<T>) -> Result<Seq<Tree>, CodecFault>
    decreases values.len(),
{
    if values.len() == 0 {
        Ok(Seq::empty())
    } else {
        match encoded_items(values.drop_last()) {
            Ok(before) => match values.last().encoded() {
                Ok(t) => Ok(before.push(t)),
                Err(fault) => Err(fault),
            },
            Err(fault) => Err(fault),
        }
    }
}

/// The list that stands for values.
pub open spec fn encoded_list<T: ToTerm>(values: Seq<T>) -> Result<Tree, CodecFault> {
    match encoded_items(values) {
        Ok(items) => Ok(list_tree(items)),
        Err(fault) => Err(fault),
    }
}

/// A value without a term leaves the whole without one.
proof fn item_fault_stays<T: ToTerm>(values: Seq<T>, n: int)
    requires
        0 <= n <= values.len(),
        encoded_items(values.take(n)) is Err,
    ensures
        encoded_items(values) == encoded_items(values.take(n)),
    decreases values.len(),
{
    if n == values.len() {
        assert(values.take(n) =~= values);
    } else {
        assert(values.drop_last().take(n) =~= values.take(n));
        item_fault_stays(values.drop_last(), n);
    }
}

/// Writes one more value into a fresh reference.
pub fn write_item<'a, Ctx: FliContext, T: ToTerm + ?Sized>(
    ctx: &'a Ctx,
    fli: &mut Fli,
    items: &mut Vec<Term<'a>>,
    value: &T,
) -> (r: Result<(), TermCodecError>)
    requires
        old(fli)@.at(ctx.place()),
        all_live(old(items)@, old(fli)@),
        !(old(fli)@.verdict is Refuse),
    ensures
        grows(old(fli)@, final(fli)@),
        !(final(fli)@.verdict is Refuse),
        old(fli)@.verdict is Raise ==> stopped(old(fli)@, r, None),
        old(fli)@.verdict is Grant ==> final(fli)@.verdict is Grant && match value.encoded() {
            Ok(t) => {
                &&& r is Ok
                &&& all_live(final(items)@, final(fli)@)
                &&& held_by(final(items)@, final(fli)@) == held_by(old(items)@, old(fli)@).push(t)
            },
            Err(fault) => r matches Err(e) && e@ == fault,
        },
{
    let term: Term<'a> = match ctx.term(fli) {
        Ok(term) => term,
        Err(error) => {
            return Err(TermCodecError::Term(error));
        },
    };
    match value.to_term(ctx, fli, term) {
        Ok(()) => {},
        Err(error) => {
            return Err(error);
        },
    }
    items.push(term);
    proof {
        if old(fli)@.verdict is Grant {
            let t = value.encoded()->Ok_0;
            assert forall|i: int| 0 <= i < items@.len() implies (#[trigger] items@[i]).live(
                fli@,
            ) by {
                if i < old(items)@.len() {
                    assert(old(items)@[i].live(old(fli)@));
                }
            }
            assert(held_by(items@, fli@) =~= held_by(old(items)@, old(fli)@).push(t)) by {
                assert forall|i: int| 0 <= i < old(items)@.len() implies held_by(items@, fli@)[i]
                    == held_by(old(items)@, old(fli)@)[i] by {
                    assert(old(items)@[i].live(old(fli)@));
                }
            }
        }
    }
    Ok(())
}

/// Makes `dest` the list that stands for values.
pub fn write_list<Ctx: FliContext, T: ToTerm>(
    ctx: &Ctx,
    fli: &mut Fli,
    dest: Term<'_>,
    values: &[T],
) -> (r: Result<(), TermCodecError>)
    requires
        old(fli)@.at(ctx.place()),
        dest.live(old(fli)@),
        !(old(fli)@.verdict is Refuse),
    ensures
        overwrites(old(fli)@, final(fli)@, dest.raw()),
        !(final(fli)@.verdict is Refuse),
        old(fli)@.verdict is Raise ==> stopped(old(fli)@, r, None),
        old(fli)@.verdict is Grant ==> final(fli)@.verdict is Grant,
        old(fli)@.verdict is Grant ==> match encoded_list(values@) {
            Ok(t) => r is Ok && final(fli)@.refs[dest.raw() as int] == t,
            Err(fault) => r matches Err(e) && e@ == fault,
        },
{
    let mut items: Vec<Term<'_>> = Vec::new();
    let mut i: usize = 0;
    let n: usize = values.len();
    proof {
        assert(values@.take(0) =~= Seq::empty());
        assert(held_by(items@, fli@) =~= Seq::empty());
    }
    while i < n
        invariant
            i <= n,
            n == values@.len(),
            old(fli)@.at(ctx.place()),
            !(old(fli)@.verdict is Refuse),
            grows(old(fli)@, fli@),
            !(fli@.verdict is Refuse),
            old(fli)@.verdict is Grant ==> fli@.verdict is Grant,
            old(fli)@.verdict is Raise ==> i == 0 && fli@ == old(fli)@,
            all_live(items@, fli@),
            old(fli)@.verdict is Grant ==> encoded_items(values@.take(i as int)) == Ok::<
                Seq<Tree>,
                CodecFault,
            >(held_by(items@, fli@)),
        decreases n - i,
    {
        proof {
            assert(values@.take(i + 1).drop_last() =~= values@.take(i as int));
            assert(values@.take(i + 1).last() == values@[i as int]);
        }
        match write_item(ctx, fli, &mut items, &values[i]) {
            Ok(()) => {},
            Err(error) => {
                proof {
                    if old(fli)@.verdict is Grant {
                        item_fault_stays(values@, i + 1);
                    }
                }
                return Err(error);
            },
        }
        i = i + 1;
    }
    assert(values@.take(i as int) =~= values@);
    put_list_terms(ctx, fli, dest, &items)
}

/// Why the first elements of a list stand for no values, if they do for none.
pub open spec fn items_fault<T: FromTerm>(
    trail: Seq<(usize, Tree)>,
    t: Tree,
    n: nat,
) -> Option<CodecFault>
    decreases n,
{
    if n == 0 {
        None
    } else {
        match items_fault::<T>(trail, t, (n - 1) as nat) {
            Some(fault) => Some(fault),
            None => T::read_fault(trail, element_at(trail, t, (n - 1) as nat)->0),
        }
    }
}

/// Why a term is not a list of values, if it is none.
pub open spec fn list_fault<T: FromTerm>(trail: Seq<(usize, Tree)>, t: Tree) -> Option<
    CodecFault,
> {
    match shape_of(trail, t) {
        ListShape::Proper { len } => items_fault::<T>(trail, t, len as nat),
        other => Some(CodecFault::Term(TermError::NotAProperList(other))),
    }
}

/// Whether a term is the list of values.
pub open spec fn reads_list<T: FromTerm>(
    trail: Seq<(usize, Tree)>,
    t: Tree,
    values: Seq<T>,
) -> bool {
    &&& values.len() <= usize::MAX
    &&& has_shape(trail, t, ListShape::Proper { len: values.len() as usize })
    &&& forall|i: int|
        0 <= i < values.len() ==> T::reads(
            trail,
            element_at(trail, t, i as nat)->0,
            #[trigger] values[i],
        )
}

/// An element that stands for no value leaves the whole without one.
proof fn element_fault_stays<T: FromTerm>(trail: Seq<(usize, Tree)>, t: Tree, m: nat, n: nat)
    requires
        m <= n,
        items_fault::<T>(trail, t, m) is Some,
    ensures
        items_fault::<T>(trail, t, n) == items_fault::<T>(trail, t, m),
    decreases n,
{
    if m < n {
        element_fault_stays::<T>(trail, t, m, (n - 1) as nat);
    }
}

/// Reads a list of values.
pub fn read_list<Ctx: FliContext, T: FromTerm>(ctx: &Ctx, fli: &mut Fli, term: Term<'_>) -> (r: Result<
    Vec<T>,
    TermCodecError,
>)
    requires
        old(fli)@.at(ctx.place()),
        term.live(old(fli)@),
        !(old(fli)@.verdict is Refuse),
    ensures
        grows(old(fli)@, final(fli)@),
        !(final(fli)@.verdict is Refuse),
        old(fli)@.verdict is Grant ==> final(fli)@.verdict is Grant,
        old(fli)@.verdict is Raise ==> stopped(
            old(fli)@,
            r,
            list_fault::<T>(old(fli)@.trail, old(fli)@.refs[term.raw() as int]),
        ),
        old(fli)@.verdict is Grant ==> match list_fault::<T>(
            old(fli)@.trail,
            old(fli)@.refs[term.raw() as int],
        ) {
            None => r matches Ok(v) && reads_list(
                old(fli)@.trail,
                old(fli)@.refs[term.raw() as int],
                v@,
            ),
            Some(fault) => r matches Err(e) && e@ == fault,
        },
{
    let ghost trail = fli@.trail;
    let ghost t = fli@.refs[term.raw() as int];
    let shape: ListShape = term.list_shape(fli);
    proof {
        shape_is(trail, t, shape);
    }
    let items: Vec<Term<'_>> = match term.collect_list(ctx, fli) {
        Ok(items) => items,
        Err(error) => {
            return Err(TermCodecError::Term(error));
        },
    };
    let mut values: Vec<T> = Vec::new();
    let mut i: usize = 0;
    let ghost count = items@.len();
    proof {
        assert(shape is Proper);
        assert(has_shape(trail, t, ListShape::Proper { len: shape->len }));
    }
    while i < items.len()
        invariant
            i <= items@.len(),
            old(fli)@.at(ctx.place()),
            old(fli)@.verdict is Grant,
            trail == old(fli)@.trail,
            t == old(fli)@.refs[term.raw() as int],
            shape_of(trail, t) == shape,
            shape == (ListShape::Proper { len: items@.len() as usize }),
            grows(old(fli)@, fli@),
            fli@.verdict is Grant,
            values@.len() == i,
            items_fault::<T>(trail, t, i as nat) is None,
            forall|k: int|
                0 <= k < items@.len() ==> (#[trigger] items@[k]).live(fli@) && Some(
                    fli@.refs[items@[k].raw() as int],
                ) == element_at(trail, t, k as nat),
            forall|k: int|
                0 <= k < i ==> T::reads(
                    trail,
                    element_at(trail, t, k as nat)->0,
                    #[trigger] values@[k],
                ),
        decreases items@.len() - i,
    {
        match T::from_term(ctx, fli, items[i]) {
            Ok(value) => {
                values.push(value);
            },
            Err(error) => {
                proof {
                    element_fault_stays::<T>(trail, t, (i + 1) as nat, items@.len());
                }
                return Err(error);
            },
        }
        i = i + 1;
    }
    Ok(values)
}

impl<T: ToTerm> ToTerm for Vec<T> {
    open spec fn encoded(&self) -> Result<Tree, CodecFault> {
        encoded_list(self@)
    }

    open spec fn encoded_field(&self) -> Result<Option<Tree>, CodecFault> {
        always_field(self.encoded())
    }

    fn to_term<Ctx: FliContext>(&self, ctx: &Ctx, fli: &mut Fli, term: Term<'_>) -> (r: Result<
        (),
        TermCodecError,
    >) {
        write_list(ctx, fli, term, self.as_slice())
    }

    fn __to_field<Ctx: FliContext>(&self, ctx: &Ctx, fli: &mut Fli, term: Term<'_>) -> (r: Result<
        bool,
        TermCodecError,
    >) {
        match self.to_term(ctx, fli, term) {
            Ok(()) => Ok(true),
            Err(error) => Err(error),
        }
    }
}

impl<T: FromTerm> FromTerm for Vec<T> {
    open spec fn reads(trail: Seq<(usize, Tree)>, t: Tree, value: Self) -> bool {
        reads_list(trail, t, value@)
    }

    open spec fn read_fault(trail: Seq<(usize, Tree)>, t: Tree) -> Option<CodecFault> {
        list_fault::<T>(trail, t)
    }

    open spec fn reads_field(trail: Seq<(usize, Tree)>, t: Option<Tree>, value: Self) -> bool {
        t matches Some(present) && Self::reads(trail, present, value)
    }

    open spec fn read_field_fault(
        trail: Seq<(usize, Tree)>,
        t: Option<Tree>,
        name: Seq<char>,
    ) -> Option<CodecFault> {
        required_field_fault(
            match t {
                Some(present) => Self::read_fault(trail, present),
                None => None,
            },
            t,
            name,
        )
    }

    fn from_term<Ctx: FliContext>(ctx: &Ctx, fli: &mut Fli, term: Term<'_>) -> (r: Result<
        Self,
        TermCodecError,
    >) {
        read_list(ctx, fli, term)
    }

    fn __from_field<Ctx: FliContext>(
        ctx: &Ctx,
        fli: &mut Fli,
        term: Option<Term<'_>>,
        name: &str,
    ) -> (r: Result<Self, TermCodecError>) {
        match term {
            Some(present) => Self::from_term(ctx, fli, present),
            None => Err(TermCodecError::MissingField { field: name.to_owned() }),
        }
    }
}

impl<T: ToTerm> ToTerm for [T] {
    open spec fn encoded(&self) -> Result<Tree, CodecFault> {
        encoded_list(self@)
    }

    open spec fn encoded_field(&self) -> Result<Option<Tree>, CodecFault> {
        always_field(self.encoded())
    }

    fn to_term<Ctx: FliContext>(&self, ctx: &Ctx, fli: &mut Fli, term: Term<'_>) -> (r: Result<
        (),
        TermCodecError,
    >) {
        write_list(ctx, fli, term, self)
    }

    fn __to_field<Ctx: FliContext>(&self, ctx: &Ctx, fli: &mut Fli, term: Term<'_>) -> (r: Result<
        bool,
        TermCodecError,
    >) {
        match self.to_term(ctx, fli, term) {
            Ok(()) => Ok(true),
            Err(error) => Err(error),
        }
    }
}

impl<T: ToTerm, const N: usize> ToTerm for [T; N] {
    open spec fn encoded(&self) -> Result<Tree, CodecFault> {
        encoded_list(self@)
    }

    open spec fn encoded_field(&self) -> Result<Option<Tree>, CodecFault> {
        always_field(self.encoded())
    }

    fn to_term<Ctx: FliContext>(&self, ctx: &Ctx, fli: &mut Fli, term: Term<'_>) -> (r: Result<
        (),
        TermCodecError,
    >) {
        write_list(ctx, fli, term, self.as_slice())
    }

    fn __to_field<Ctx: FliContext>(&self, ctx: &Ctx, fli: &mut Fli, term: Term<'_>) -> (r: Result<
        bool,
        TermCodecError,
    >) {
        match self.to_term(ctx, fli, term) {
            Ok(()) => Ok(true),
            Err(error) => Err(error),
        }
    }
}

/// `<[T; N] as TryFrom<Vec<T>>>::try_from`: the elements as an array where there
/// are exactly that many; otherwise they come back.
#[verifier::external_body]
fn into_array<T, const N: usize>(values: Vec<T>) -> (r: Result<[T; N], Vec<T>>)
    ensures
        match r {
            Ok(array) => values@.len() == N && array@ == values@,
            Err(back) => values@.len() != N && back@ == values@,
        },
{
    values.try_into()
}

impl<T: FromTerm, const N: usize> FromTerm for [T; N] {
    open spec fn reads(trail: Seq<(usize, Tree)>, t: Tree, value: Self) -> bool {
        reads_list(trail, t, value@)
    }

    open spec fn read_fault(trail: Seq<(usize, Tree)>, t: Tree) -> Option<CodecFault> {
        match list_fault::<T>(trail, t) {
            Some(fault) => Some(fault),
            None => if shape_of(trail, t)->len == N {
                None
            } else {
                Some(CodecFault::ArityMismatch(N as nat, shape_of(trail, t)->len as nat))
            },
        }
    }

    open spec fn reads_field(trail: Seq<(usize, Tree)>, t: Option<Tree>, value: Self) -> bool {
        t matches Some(present) && Self::reads(trail, present, value)
    }

    open spec fn read_field_fault(
        trail: Seq<(usize, Tree)>,
        t: Option<Tree>,
        name: Seq<char>,
    ) -> Option<CodecFault> {
        required_field_fault(
            match t {
                Some(present) => Self::read_fault(trail, present),
                None => None,
            },
            t,
            name,
        )
    }

    fn from_term<Ctx: FliContext>(ctx: &Ctx, fli: &mut Fli, term: Term<'_>) -> (r: Result<
        Self,
        TermCodecError,
    >) {
        let values: Vec<T> = match read_list(ctx, fli, term) {
            Ok(values) => values,
            Err(error) => {
                return Err(error);
            },
        };
        proof {
            if old(fli)@.verdict is Grant {
                shape_is(
                    old(fli)@.trail,
                    old(fli)@.refs[term.raw() as int],
                    ListShape::Proper { len: values@.len() as usize },
                );
            }
        }
        match into_array(values) {
            Ok(array) => Ok(array),
            Err(back) => Err(TermCodecError::ArityMismatch { expected: N, actual: back.len() }),
        }
    }

    fn __from_field<Ctx: FliContext>(
        ctx: &Ctx,
        fli: &mut Fli,
        term: Option<Term<'_>>,
        name: &str,
    ) -> (r: Result<Self, TermCodecError>) {
        match term {
            Some(present) => Self::from_term(ctx, fli, present),
            None => Err(TermCodecError::MissingField { field: name.to_owned() }),
        }
    }
}

} // verus!
