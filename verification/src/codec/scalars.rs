//! Conversion of scalars, texts, options and pointers.

use std::sync::Arc;

use vstd::prelude::*;
use vstd::string::*;

use crate::codec::{
    always_field, required_field_fault, stopped, CodecFault, FromTerm, TermCodecError, ToTerm,
};
use crate::data::Tree;
use crate::fli::{resolve, Fli};
use crate::term::{atomic_text, bool_value, int_value, FliContext, Term, TermError};
use crate::text::push_char;

verus! {

/// Turns the outcome of a write into that of a conversion.
fn written(r: Result<(), TermError>) -> (w: Result<(), TermCodecError>)
    ensures
        r is Ok == w is Ok,
        r matches Err(e) ==> w matches Err(f) && f@ == CodecFault::Term(e),
{
    match r {
        Ok(()) => Ok(()),
        Err(error) => Err(TermCodecError::Term(error)),
    }
}

/// Why a term is not an integer of the given range that fits `i64`, if it is
/// none.
pub open spec fn signed_fault(t: Tree, low: int, high: int, expected: Seq<char>) -> Option<
    CodecFault,
> {
    match int_value(t, i64::MIN as int, i64::MAX as int) {
        None => Some(
            CodecFault::Term(TermError::TypeMismatch { expected: "an integer fitting i64" }),
        ),
        Some(n) => if low <= n <= high {
            None
        } else {
            Some(CodecFault::Type(expected))
        },
    }
}

/// Why a term is not an integer of the given range that fits `u64`, if it is
/// none.
pub open spec fn unsigned_fault(t: Tree, high: int, expected: Seq<char>) -> Option<CodecFault> {
    match int_value(t, 0, u64::MAX as int) {
        None => Some(
            CodecFault::Term(TermError::TypeMismatch { expected: "an integer fitting u64" }),
        ),
        Some(n) => if n <= high {
            None
        } else {
            Some(CodecFault::Type(expected))
        },
    }
}

fn read_signed(fli: &mut Fli, term: Term<'_>, low: i64, high: i64, expected: &'static str) -> (r:
    Result<i64, TermCodecError>)
    requires
        term.live(old(fli)@),
        !(old(fli)@.verdict is Refuse),
    ensures
        final(fli)@ == old(fli)@.answered(),
        old(fli)@.verdict is Raise ==> stopped(old(fli)@, r, None),
        old(fli)@.verdict is Grant ==> match signed_fault(
            old(fli)@.value(term.raw()),
            low as int,
            high as int,
            expected@,
        ) {
            None => r matches Ok(n) && old(fli)@.value(term.raw()) == Tree::Integer(n as int) && low
                <= n <= high,
            Some(fault) => r matches Err(e) && e@ == fault,
        },
{
    match term.get_i64(fli) {
        Ok(n) => {
            if low <= n && n <= high {
                Ok(n)
            } else {
                Err(TermCodecError::Type { expected })
            }
        },
        Err(error) => Err(TermCodecError::Term(error)),
    }
}

fn read_unsigned(fli: &mut Fli, term: Term<'_>, high: u64, expected: &'static str) -> (r: Result<
    u64,
    TermCodecError,
>)
    requires
        term.live(old(fli)@),
        !(old(fli)@.verdict is Refuse),
    ensures
        final(fli)@ == old(fli)@.answered(),
        old(fli)@.verdict is Raise ==> stopped(old(fli)@, r, None),
        old(fli)@.verdict is Grant ==> match unsigned_fault(
            old(fli)@.value(term.raw()),
            high as int,
            expected@,
        ) {
            None => r matches Ok(n) && old(fli)@.value(term.raw()) == Tree::Integer(n as int) && n
                <= high,
            Some(fault) => r matches Err(e) && e@ == fault,
        },
{
    match term.get_u64(fli) {
        Ok(n) => {
            if n <= high {
                Ok(n)
            } else {
                Err(TermCodecError::Type { expected })
            }
        },
        Err(error) => Err(TermCodecError::Term(error)),
    }
}

impl ToTerm for bool {
    open spec fn encoded(&self) -> Result<Tree, CodecFault> {
        Ok(
            Tree::Atom(
                if *self {
                    "true"@
                } else {
                    "false"@
                },
            ),
        )
    }

    open spec fn encoded_field(&self) -> Result<Option<Tree>, CodecFault> {
        always_field(self.encoded())
    }

    fn to_term<Ctx: FliContext>(&self, ctx: &Ctx, fli: &mut Fli, term: Term<'_>) -> (r: Result<
        (),
        TermCodecError,
    >) {
        written(term.put_bool(fli, *self))
    }

    fn __to_field<Ctx: FliContext>(&self, ctx: &Ctx, fli: &mut Fli, term: Term<'_>) -> (r: Result<
        bool,
        TermCodecError,
    >) {
        match self.to_term(ctx, fli, term) {
            Ok(()) => Ok(true),
            Err(error) => Err(error),
        }
    }
}

impl FromTerm for bool {
    open spec fn reads(trail: Seq<(usize, Tree)>, t: Tree, value: Self) -> bool {
        bool_value(resolve(trail, t)) == Some(value)
    }

    open spec fn read_fault(trail: Seq<(usize, Tree)>, t: Tree) -> Option<CodecFault> {
        match bool_value(resolve(trail, t)) {
            Some(_) => None,
            None => Some(CodecFault::Term(TermError::TypeMismatch { expected: "a boolean" })),
        }
    }

    open spec fn reads_field(trail: Seq<(usize, Tree)>, t: Option<Tree>, value: Self) -> bool {
        t matches Some(present) && Self::reads(trail, present, value)
    }

    open spec fn read_field_fault(
        trail: Seq<(usize, Tree)>,
        t: Option<Tree>,
        name: Seq<char>,
    ) -> Option<CodecFault> {
        required_field_fault(
            match t {
                Some(present) => Self::read_fault(trail, present),
                None => None,
            },
            t,
            name,
        )
    }

    fn from_term<Ctx: FliContext>(ctx: &Ctx, fli: &mut Fli, term: Term<'_>) -> (r: Result<
        Self,
        TermCodecError,
    >) {
        match term.get_bool(fli) {
            Ok(value) => Ok(value),
            Err(error) => Err(TermCodecError::Term(error)),
        }
    }

    fn __from_field<Ctx: FliContext>(
        ctx: &Ctx,
        fli: &mut Fli,
        term: Option<Term<'_>>,
        name: &str,
    ) -> (r: Result<Self, TermCodecError>) {
        match term {
            Some(present) => Self::from_term(ctx, fli, present),
            None => Err(TermCodecError::MissingField { field: name.to_owned() }),
        }
    }
}

impl ToTerm for i8 {
    open spec fn encoded(&self) -> Result<Tree, CodecFault> {
        Ok(Tree::Integer(*self as int))
    }

    open spec fn encoded_field(&self) -> Result<Option<Tree>, CodecFault> {
        always_field(self.encoded())
    }

    fn to_term<Ctx: FliContext>(&self, ctx: &Ctx, fli: &mut Fli, term: Term<'_>) -> (r: Result<
        (),
        TermCodecError,
    >) {
        written(term.put_i64(fli, *self as i64))
    }

    fn __to_field<Ctx: FliContext>(&self, ctx: &Ctx, fli: &mut Fli, term: Term<'_>) -> (r: Result<
        bool,
        TermCodecError,
    >) {
        match self.to_term(ctx, fli, term) {
            Ok(()) => Ok(true),
            Err(error) => Err(error),
        }
    }
}

impl FromTerm for i8 {
    open spec fn reads(trail: Seq<(usize, Tree)>, t: Tree, value: Self) -> bool {
        resolve(trail, t) == Tree::Integer(value as int)
    }

    open spec fn read_fault(trail: Seq<(usize, Tree)>, t: Tree) -> Option<CodecFault> {
        signed_fault(
            resolve(trail, t),
            i8::MIN as int,
            i8::MAX as int,
            "i8"@,
        )
    }

    open spec fn reads_field(trail: Seq<(usize, Tree)>, t: Option<Tree>, value: Self) -> bool {
        t matches Some(present) && Self::reads(trail, present, value)
    }

    open spec fn read_field_fault(
        trail: Seq<(usize, Tree)>,
        t: Option<Tree>,
        name: Seq<char>,
    ) -> Option<CodecFault> {
        required_field_fault(
            match t {
                Some(present) => Self::read_fault(trail, present),
                None => None,
            },
            t,
            name,
        )
    }

    fn from_term<Ctx: FliContext>(ctx: &Ctx, fli: &mut Fli, term: Term<'_>) -> (r: Result<
        Self,
        TermCodecError,
    >) {
        match read_signed(fli, term, i8::MIN as i64, i8::MAX as i64, "i8") {
            Ok(n) => Ok(n as i8),
            Err(error) => Err(error),
        }
    }

    fn __from_field<Ctx: FliContext>(
        ctx: &Ctx,
        fli: &mut Fli,
        term: Option<Term<'_>>,
        name: &str,
    ) -> (r: Result<Self, TermCodecError>) {
        match term {
            Some(present) => Self::from_term(ctx, fli, present),
            None => Err(TermCodecError::MissingField { field: name.to_owned() }),
        }
    }
}

impl ToTerm for i16 {
    open spec fn encoded(&self) -> Result<Tree, CodecFault> {
        Ok(Tree::Integer(*self as int))
    }

    open spec fn encoded_field(&self) -> Result<Option<Tree>, CodecFault> {
        always_field(self.encoded())
    }

    fn to_term<Ctx: FliContext>(&self, ctx: &Ctx, fli: &mut Fli, term: Term<'_>) -> (r: Result<
        (),
        TermCodecError,
    >) {
        written(term.put_i64(fli, *self as i64))
    }

    fn __to_field<Ctx: FliContext>(&self, ctx: &Ctx, fli: &mut Fli, term: Term<'_>) -> (r: Result<
        bool,
        TermCodecError,
    >) {
        match self.to_term(ctx, fli, term) {
            Ok(()) => Ok(true),
            Err(error) => Err(error),
        }
    }
}

impl FromTerm for i16 {
    open spec fn reads(trail: Seq<(usize, Tree)>, t: Tree, value: Self) -> bool {
        resolve(trail, t) == Tree::Integer(value as int)
    }

    open spec fn read_fault(trail: Seq<(usize, Tree)>, t: Tree) -> Option<CodecFault> {
        signed_fault(
            resolve(trail, t),
            i16::MIN as int,
            i16::MAX as int,
            "i16"@,
        )
    }

    open spec fn reads_field(trail: Seq<(usize, Tree)>, t: Option<Tree>, value: Self) -> bool {
        t matches Some(present) && Self::reads(trail, present, value)
    }

    open spec fn read_field_fault(
        trail: Seq<(usize, Tree)>,
        t: Option<Tree>,
        name: Seq<char>,
    ) -> Option<CodecFault> {
        required_field_fault(
            match t {
                Some(present) => Self::read_fault(trail, present),
                None => None,
            },
            t,
            name,
        )
    }

    fn from_term<Ctx: FliContext>(ctx: &Ctx, fli: &mut Fli, term: Term<'_>) -> (r: Result<
        Self,
        TermCodecError,
    >) {
        match read_signed(fli, term, i16::MIN as i64, i16::MAX as i64, "i16") {
            Ok(n) => Ok(n as i16),
            Err(error) => Err(error),
        }
    }

    fn __from_field<Ctx: FliContext>(
        ctx: &Ctx,
        fli: &mut Fli,
        term: Option<Term<'_>>,
        name: &str,
    ) -> (r: Result<Self, TermCodecError>) {
        match term {
            Some(present) => Self::from_term(ctx, fli, present),
            None => Err(TermCodecError::MissingField { field: name.to_owned() }),
        }
    }
}

impl ToTerm for i32 {
    open spec fn encoded(&self) -> Result<Tree, CodecFault> {
        Ok(Tree::Integer(*self as int))
    }

    open spec fn encoded_field(&self) -> Result<Option<Tree>, CodecFault> {
        always_field(self.encoded())
    }

    fn to_term<Ctx: FliContext>(&self, ctx: &Ctx, fli: &mut Fli, term: Term<'_>) -> (r: Result<
        (),
        TermCodecError,
    >) {
        written(term.put_i64(fli, *self as i64))
    }

    fn __to_field<Ctx: FliContext>(&self, ctx: &Ctx, fli: &mut Fli, term: Term<'_>) -> (r: Result<
        bool,
        TermCodecError,
    >) {
        match self.to_term(ctx, fli, term) {
            Ok(()) => Ok(true),
            Err(error) => Err(error),
        }
    }
}

impl FromTerm for i32 {
    open spec fn reads(trail: Seq<(usize, Tree)>, t: Tree, value: Self) -> bool {
        resolve(trail, t) == Tree::Integer(value as int)
    }

    open spec fn read_fault(trail: Seq<(usize, Tree)>, t: Tree) -> Option<CodecFault> {
        signed_fault(
            resolve(trail, t),
            i32::MIN as int,
            i32::MAX as int,
            "i32"@,
        )
    }

    open spec fn reads_field(trail: Seq<(usize, Tree)>, t: Option<Tree>, value: Self) -> bool {
        t matches Some(present) && Self::reads(trail, present, value)
    }

    open spec fn read_field_fault(
        trail: Seq<(usize, Tree)>,
        t: Option<Tree>,
        name: Seq<char>,
    ) -> Option<CodecFault> {
        required_field_fault(
            match t {
                Some(present) => Self::read_fault(trail, present),
                None => None,
            },
            t,
            name,
        )
    }

    fn from_term<Ctx: FliContext>(ctx: &Ctx, fli: &mut Fli, term: Term<'_>) -> (r: Result<
        Self,
        TermCodecError,
    >) {
        match read_signed(fli, term, i32::MIN as i64, i32::MAX as i64, "i32") {
            Ok(n) => Ok(n as i32),
            Err(error) => Err(error),
        }
    }

    fn __from_field<Ctx: FliContext>(
        ctx: &Ctx,
        fli: &mut Fli,
        term: Option<Term<'_>>,
        name: &str,
    ) -> (r: Result<Self, TermCodecError>) {
        match term {
            Some(present) => Self::from_term(ctx, fli, present),
            None => Err(TermCodecError::MissingField { field: name.to_owned() }),
        }
    }
}

impl ToTerm for i64 {
    open spec fn encoded(&self) -> Result<Tree, CodecFault> {
        Ok(Tree::Integer(*self as int))
    }

    open spec fn encoded_field(&self) -> Result<Option<Tree>, CodecFault> {
        always_field(self.encoded())
    }

    fn to_term<Ctx: FliContext>(&self, ctx: &Ctx, fli: &mut Fli, term: Term<'_>) -> (r: Result<
        (),
        TermCodecError,
    >) {
        written(term.put_i64(fli, *self as i64))
    }

    fn __to_field<Ctx: FliContext>(&self, ctx: &Ctx, fli: &mut Fli, term: Term<'_>) -> (r: Result<
        bool,
        TermCodecError,
    >) {
        match self.to_term(ctx, fli, term) {
            Ok(()) => Ok(true),
            Err(error) => Err(error),
        }
    }
}

impl FromTerm for i64 {
    open spec fn reads(trail: Seq<(usize, Tree)>, t: Tree, value: Self) -> bool {
        resolve(trail, t) == Tree::Integer(value as int)
    }

    open spec fn read_fault(trail: Seq<(usize, Tree)>, t: Tree) -> Option<CodecFault> {
        signed_fault(
            resolve(trail, t),
            i64::MIN as int,
            i64::MAX as int,
            "i64"@,
        )
    }

    open spec fn reads_field(trail: Seq<(usize, Tree)>, t: Option<Tree>, value: Self) -> bool {
        t matches Some(present) && Self::reads(trail, present, value)
    }

    open spec fn read_field_fault(
        trail: Seq<(usize, Tree)>,
        t: Option<Tree>,
        name: Seq<char>,
    ) -> Option<CodecFault> {
        required_field_fault(
            match t {
                Some(present) => Self::read_fault(trail, present),
                None => None,
            },
            t,
            name,
        )
    }

    fn from_term<Ctx: FliContext>(ctx: &Ctx, fli: &mut Fli, term: Term<'_>) -> (r: Result<
        Self,
        TermCodecError,
    >) {
        match read_signed(fli, term, i64::MIN as i64, i64::MAX as i64, "i64") {
            Ok(n) => Ok(n as i64),
            Err(error) => Err(error),
        }
    }

    fn __from_field<Ctx: FliContext>(
        ctx: &Ctx,
        fli: &mut Fli,
        term: Option<Term<'_>>,
        name: &str,
    ) -> (r: Result<Self, TermCodecError>) {
        match term {
            Some(present) => Self::from_term(ctx, fli, present),
            None => Err(TermCodecError::MissingField { field: name.to_owned() }),
        }
    }
}

impl ToTerm for isize {
    open spec fn encoded(&self) -> Result<Tree, CodecFault> {
        Ok(Tree::Integer(*self as int))
    }

    open spec fn encoded_field(&self) -> Result<Option<Tree>, CodecFault> {
        always_field(self.encoded())
    }

    fn to_term<Ctx: FliContext>(&self, ctx: &Ctx, fli: &mut Fli, term: Term<'_>) -> (r: Result<
        (),
        TermCodecError,
    >) {
        written(term.put_i64(fli, *self as i64))
    }

    fn __to_field<Ctx: FliContext>(&self, ctx: &Ctx, fli: &mut Fli, term: Term<'_>) -> (r: Result<
        bool,
        TermCodecError,
    >) {
        match self.to_term(ctx, fli, term) {
            Ok(()) => Ok(true),
            Err(error) => Err(error),
        }
    }
}

impl FromTerm for isize {
    open spec fn reads(trail: Seq<(usize, Tree)>, t: Tree, value: Self) -> bool {
        resolve(trail, t) == Tree::Integer(value as int)
    }

    open spec fn read_fault(trail: Seq<(usize, Tree)>, t: Tree) -> Option<CodecFault> {
        signed_fault(
            resolve(trail, t),
            isize::MIN as int,
            isize::MAX as int,
            "isize"@,
        )
    }

    open spec fn reads_field(trail: Seq<(usize, Tree)>, t: Option<Tree>, value: Self) -> bool {
        t matches Some(present) && Self::reads(trail, present, value)
    }

    open spec fn read_field_fault(
        trail: Seq<(usize, Tree)>,
        t: Option<Tree>,
        name: Seq<char>,
    ) -> Option<CodecFault> {
        required_field_fault(
            match t {
                Some(present) => Self::read_fault(trail, present),
                None => None,
            },
            t,
            name,
        )
    }

    fn from_term<Ctx: FliContext>(ctx: &Ctx, fli: &mut Fli, term: Term<'_>) -> (r: Result<
        Self,
        TermCodecError,
    >) {
        match read_signed(fli, term, isize::MIN as i64, isize::MAX as i64, "isize") {
            Ok(n) => Ok(n as isize),
            Err(error) => Err(error),
        }
    }

    fn __from_field<Ctx: FliContext>(
        ctx: &Ctx,
        fli: &mut Fli,
        term: Option<Term<'_>>,
        name: &str,
    ) -> (r: Result<Self, TermCodecError>) {
        match term {
            Some(present) => Self::from_term(ctx, fli, present),
            None => Err(TermCodecError::MissingField { field: name.to_owned() }),
        }
    }
}

impl ToTerm for u8 {
    open spec fn encoded(&self) -> Result<Tree, CodecFault> {
        Ok(Tree::Integer(*self as int))
    }

    open spec fn encoded_field(&self) -> Result<Option<Tree>, CodecFault> {
        always_field(self.encoded())
    }

    fn to_term<Ctx: FliContext>(&self, ctx: &Ctx, fli: &mut Fli, term: Term<'_>) -> (r: Result<
        (),
        TermCodecError,
    >) {
        written(term.put_u64(fli, *self as u64))
    }

    fn __to_field<Ctx: FliContext>(&self, ctx: &Ctx, fli: &mut Fli, term: Term<'_>) -> (r: Result<
        bool,
        TermCodecError,
    >) {
        match self.to_term(ctx, fli, term) {
            Ok(()) => Ok(true),
            Err(error) => Err(error),
        }
    }
}

impl FromTerm for u8 {
    open spec fn reads(trail: Seq<(usize, Tree)>, t: Tree, value: Self) -> bool {
        resolve(trail, t) == Tree::Integer(value as int)
    }

    open spec fn read_fault(trail: Seq<(usize, Tree)>, t: Tree) -> Option<CodecFault> {
        unsigned_fault(resolve(trail, t), u8::MAX as int, "u8"@)
    }

    open spec fn reads_field(trail: Seq<(usize, Tree)>, t: Option<Tree>, value: Self) -> bool {
        t matches Some(present) && Self::reads(trail, present, value)
    }

    open spec fn read_field_fault(
        trail: Seq<(usize, Tree)>,
        t: Option<Tree>,
        name: Seq<char>,
    ) -> Option<CodecFault> {
        required_field_fault(
            match t {
                Some(present) => Self::read_fault(trail, present),
                None => None,
            },
            t,
            name,
        )
    }

    fn from_term<Ctx: FliContext>(ctx: &Ctx, fli: &mut Fli, term: Term<'_>) -> (r: Result<
        Self,
        TermCodecError,
    >) {
        match read_unsigned(fli, term, u8::MAX as u64, "u8") {
            Ok(n) => Ok(n as u8),
            Err(error) => Err(error),
        }
    }

    fn __from_field<Ctx: FliContext>(
        ctx: &Ctx,
        fli: &mut Fli,
        term: Option<Term<'_>>,
        name: &str,
    ) -> (r: Result<Self, TermCodecError>) {
        match term {
            Some(present) => Self::from_term(ctx, fli, present),
            None => Err(TermCodecError::MissingField { field: name.to_owned() }),
        }
    }
}

impl ToTerm for u16 {
    open spec fn encoded(&self) -> Result<Tree, CodecFault> {
        Ok(Tree::Integer(*self as int))
    }

    open spec fn encoded_field(&self) -> Result<Option<Tree>, CodecFault> {
        always_field(self.encoded())
    }

    fn to_term<Ctx: FliContext>(&self, ctx: &Ctx, fli: &mut Fli, term: Term<'_>) -> (r: Result<
        (),
        TermCodecError,
    >) {
        written(term.put_u64(fli, *self as u64))
    }

    fn __to_field<Ctx: FliContext>(&self, ctx: &Ctx, fli: &mut Fli, term: Term<'_>) -> (r: Result<
        bool,
        TermCodecError,
    >) {
        match self.to_term(ctx, fli, term) {
            Ok(()) => Ok(true),
            Err(error) => Err(error),
        }
    }
}

impl FromTerm for u16 {
    open spec fn reads(trail: Seq<(usize, Tree)>, t: Tree, value: Self) -> bool {
        resolve(trail, t) == Tree::Integer(value as int)
    }

    open spec fn read_fault(trail: Seq<(usize, Tree)>, t: Tree) -> Option<CodecFault> {
        unsigned_fault(resolve(trail, t), u16::MAX as int, "u16"@)
    }

    open spec fn reads_field(trail: Seq<(usize, Tree)>, t: Option<Tree>, value: Self) -> bool {
        t matches Some(present) && Self::reads(trail, present, value)
    }

    open spec fn read_field_fault(
        trail: Seq<(usize, Tree)>,
        t: Option<Tree>,
        name: Seq<char>,
    ) -> Option<CodecFault> {
        required_field_fault(
            match t {
                Some(present) => Self::read_fault(trail, present),
                None => None,
            },
            t,
            name,
        )
    }

    fn from_term<Ctx: FliContext>(ctx: &Ctx, fli: &mut Fli, term: Term<'_>) -> (r: Result<
        Self,
        TermCodecError,
    >) {
        match read_unsigned(fli, term, u16::MAX as u64, "u16") {
            Ok(n) => Ok(n as u16),
            Err(error) => Err(error),
        }
    }

    fn __from_field<Ctx: FliContext>(
        ctx: &Ctx,
        fli: &mut Fli,
        term: Option<Term<'_>>,
        name: &str,
    ) -> (r: Result<Self, TermCodecError>) {
        match term {
            Some(present) => Self::from_term(ctx, fli, present),
            None => Err(TermCodecError::MissingField { field: name.to_owned() }),
        }
    }
}

impl ToTerm for u32 {
    open spec fn encoded(&self) -> Result<Tree, CodecFault> {
        Ok(Tree::Integer(*self as int))
    }

    open spec fn encoded_field(&self) -> Result<Option<Tree>, CodecFault> {
        always_field(self.encoded())
    }

    fn to_term<Ctx: FliContext>(&self, ctx: &Ctx, fli: &mut Fli, term: Term<'_>) -> (r: Result<
        (),
        TermCodecError,
    >) {
        written(term.put_u64(fli, *self as u64))
    }

    fn __to_field<Ctx: FliContext>(&self, ctx: &Ctx, fli: &mut Fli, term: Term<'_>) -> (r: Result<
        bool,
        TermCodecError,
    >) {
        match self.to_term(ctx, fli, term) {
            Ok(()) => Ok(true),
            Err(error) => Err(error),
        }
    }
}

impl FromTerm for u32 {
    open spec fn reads(trail: Seq<(usize, Tree)>, t: Tree, value: Self) -> bool {
        resolve(trail, t) == Tree::Integer(value as int)
    }

    open spec fn read_fault(trail: Seq<(usize, Tree)>, t: Tree) -> Option<CodecFault> {
        unsigned_fault(resolve(trail, t), u32::MAX as int, "u32"@)
    }

    open spec fn reads_field(trail: Seq<(usize, Tree)>, t: Option<Tree>, value: Self) -> bool {
        t matches Some(present) && Self::reads(trail, present, value)
    }

    open spec fn read_field_fault(
        trail: Seq<(usize, Tree)>,
        t: Option<Tree>,
        name: Seq<char>,
    ) -> Option<CodecFault> {
        required_field_fault(
            match t {
                Some(present) => Self::read_fault(trail, present),
                None => None,
            },
            t,
            name,
        )
    }

    fn from_term<Ctx: FliContext>(ctx: &Ctx, fli: &mut Fli, term: Term<'_>) -> (r: Result<
        Self,
        TermCodecError,
    >) {
        match read_unsigned(fli, term, u32::MAX as u64, "u32") {
            Ok(n) => Ok(n as u32),
            Err(error) => Err(error),
        }
    }

    fn __from_field<Ctx: FliContext>(
        ctx: &Ctx,
        fli: &mut Fli,
        term: Option<Term<'_>>,
        name: &str,
    ) -> (r: Result<Self, TermCodecError>) {
        match term {
            Some(present) => Self::from_term(ctx, fli, present),
            None => Err(TermCodecError::MissingField { field: name.to_owned() }),
        }
    }
}

impl ToTerm for u64 {
    open spec fn encoded(&self) -> Result<Tree, CodecFault> {
        Ok(Tree::Integer(*self as int))
    }

    open spec fn encoded_field(&self) -> Result<Option<Tree>, CodecFault> {
        always_field(self.encoded())
    }

    fn to_term<Ctx: FliContext>(&self, ctx: &Ctx, fli: &mut Fli, term: Term<'_>) -> (r: Result<
        (),
        TermCodecError,
    >) {
        written(term.put_u64(fli, *self as u64))
    }

    fn __to_field<Ctx: FliContext>(&self, ctx: &Ctx, fli: &mut Fli, term: Term<'_>) -> (r: Result<
        bool,
        TermCodecError,
    >) {
        match self.to_term(ctx, fli, term) {
            Ok(()) => Ok(true),
            Err(error) => Err(error),
        }
    }
}

impl FromTerm for u64 {
    open spec fn reads(trail: Seq<(usize, Tree)>, t: Tree, value: Self) -> bool {
        resolve(trail, t) == Tree::Integer(value as int)
    }

    open spec fn read_fault(trail: Seq<(usize, Tree)>, t: Tree) -> Option<CodecFault> {
        unsigned_fault(resolve(trail, t), u64::MAX as int, "u64"@)
    }

    open spec fn reads_field(trail: Seq<(usize, Tree)>, t: Option<Tree>, value: Self) -> bool {
        t matches Some(present) && Self::reads(trail, present, value)
    }

    open spec fn read_field_fault(
        trail: Seq<(usize, Tree)>,
        t: Option<Tree>,
        name: Seq<char>,
    ) -> Option<CodecFault> {
        required_field_fault(
            match t {
                Some(present) => Self::read_fault(trail, present),
                None => None,
            },
            t,
            name,
        )
    }

    fn from_term<Ctx: FliContext>(ctx: &Ctx, fli: &mut Fli, term: Term<'_>) -> (r: Result<
        Self,
        TermCodecError,
    >) {
        match read_unsigned(fli, term, u64::MAX as u64, "u64") {
            Ok(n) => Ok(n as u64),
            Err(error) => Err(error),
        }
    }

    fn __from_field<Ctx: FliContext>(
        ctx: &Ctx,
        fli: &mut Fli,
        term: Option<Term<'_>>,
        name: &str,
    ) -> (r: Result<Self, TermCodecError>) {
        match term {
            Some(present) => Self::from_term(ctx, fli, present),
            None => Err(TermCodecError::MissingField { field: name.to_owned() }),
        }
    }
}

impl ToTerm for usize {
    open spec fn encoded(&self) -> Result<Tree, CodecFault> {
        Ok(Tree::Integer(*self as int))
    }

    open spec fn encoded_field(&self) -> Result<Option<Tree>, CodecFault> {
        always_field(self.encoded())
    }

    fn to_term<Ctx: FliContext>(&self, ctx: &Ctx, fli: &mut Fli, term: Term<'_>) -> (r: Result<
        (),
        TermCodecError,
    >) {
        written(term.put_u64(fli, *self as u64))
    }

    fn __to_field<Ctx: FliContext>(&self, ctx: &Ctx, fli: &mut Fli, term: Term<'_>) -> (r: Result<
        bool,
        TermCodecError,
    >) {
        match self.to_term(ctx, fli, term) {
            Ok(()) => Ok(true),
            Err(error) => Err(error),
        }
    }
}

impl FromTerm for usize {
    open spec fn reads(trail: Seq<(usize, Tree)>, t: Tree, value: Self) -> bool {
        resolve(trail, t) == Tree::Integer(value as int)
    }

    open spec fn read_fault(trail: Seq<(usize, Tree)>, t: Tree) -> Option<CodecFault> {
        unsigned_fault(resolve(trail, t), usize::MAX as int, "usize"@)
    }

    open spec fn reads_field(trail: Seq<(usize, Tree)>, t: Option<Tree>, value: Self) -> bool {
        t matches Some(present) && Self::reads(trail, present, value)
    }

    open spec fn read_field_fault(
        trail: Seq<(usize, Tree)>,
        t: Option<Tree>,
        name: Seq<char>,
    ) -> Option<CodecFault> {
        required_field_fault(
            match t {
                Some(present) => Self::read_fault(trail, present),
                None => None,
            },
            t,
            name,
        )
    }

    fn from_term<Ctx: FliContext>(ctx: &Ctx, fli: &mut Fli, term: Term<'_>) -> (r: Result<
        Self,
        TermCodecError,
    >) {
        match read_unsigned(fli, term, usize::MAX as u64, "usize") {
            Ok(n) => Ok(n as usize),
            Err(error) => Err(error),
        }
    }

    fn __from_field<Ctx: FliContext>(
        ctx: &Ctx,
        fli: &mut Fli,
        term: Option<Term<'_>>,
        name: &str,
    ) -> (r: Result<Self, TermCodecError>) {
        match term {
            Some(present) => Self::from_term(ctx, fli, present),
            None => Err(TermCodecError::MissingField { field: name.to_owned() }),
        }
    }
}

impl ToTerm for str {
    open spec fn encoded(&self) -> Result<Tree, CodecFault> {
        Ok(Tree::String(self@))
    }

    open spec fn encoded_field(&self) -> Result<Option<Tree>, CodecFault> {
        always_field(self.encoded())
    }

    fn to_term<Ctx: FliContext>(&self, ctx: &Ctx, fli: &mut Fli, term: Term<'_>) -> (r: Result<
        (),
        TermCodecError,
    >) {
        written(term.put_string(fli, self))
    }

    fn __to_field<Ctx: FliContext>(&self, ctx: &Ctx, fli: &mut Fli, term: Term<'_>) -> (r: Result<
        bool,
        TermCodecError,
    >) {
        match self.to_term(ctx, fli, term) {
            Ok(()) => Ok(true),
            Err(error) => Err(error),
        }
    }
}

impl ToTerm for String {
    open spec fn encoded(&self) -> Result<Tree, CodecFault> {
        Ok(Tree::String(self@))
    }

    open spec fn encoded_field(&self) -> Result<Option<Tree>, CodecFault> {
        always_field(self.encoded())
    }

    fn to_term<Ctx: FliContext>(&self, ctx: &Ctx, fli: &mut Fli, term: Term<'_>) -> (r: Result<
        (),
        TermCodecError,
    >) {
        written(term.put_string(fli, self.as_str()))
    }

    fn __to_field<Ctx: FliContext>(&self, ctx: &Ctx, fli: &mut Fli, term: Term<'_>) -> (r: Result<
        bool,
        TermCodecError,
    >) {
        match self.to_term(ctx, fli, term) {
            Ok(()) => Ok(true),
            Err(error) => Err(error),
        }
    }
}

impl FromTerm for String {
    open spec fn reads(trail: Seq<(usize, Tree)>, t: Tree, value: Self) -> bool {
        atomic_text(resolve(trail, t)) == Some(value@)
    }

    open spec fn read_fault(trail: Seq<(usize, Tree)>, t: Tree) -> Option<CodecFault> {
        match atomic_text(resolve(trail, t)) {
            Some(_) => None,
            None => Some(
                CodecFault::Term(
                    TermError::TypeMismatch {
                        expected: "an atomic term with a text representation",
                    },
                ),
            ),
        }
    }

    open spec fn reads_field(trail: Seq<(usize, Tree)>, t: Option<Tree>, value: Self) -> bool {
        t matches Some(present) && Self::reads(trail, present, value)
    }

    open spec fn read_field_fault(
        trail: Seq<(usize, Tree)>,
        t: Option<Tree>,
        name: Seq<char>,
    ) -> Option<CodecFault> {
        required_field_fault(
            match t {
                Some(present) => Self::read_fault(trail, present),
                None => None,
            },
            t,
            name,
        )
    }

    fn from_term<Ctx: FliContext>(ctx: &Ctx, fli: &mut Fli, term: Term<'_>) -> (r: Result<
        Self,
        TermCodecError,
    >) {
        match term.get_text(fli) {
            Ok(text) => Ok(text),
            Err(error) => Err(TermCodecError::Term(error)),
        }
    }

    fn __from_field<Ctx: FliContext>(
        ctx: &Ctx,
        fli: &mut Fli,
        term: Option<Term<'_>>,
        name: &str,
    ) -> (r: Result<Self, TermCodecError>) {
        match term {
            Some(present) => Self::from_term(ctx, fli, present),
            None => Err(TermCodecError::MissingField { field: name.to_owned() }),
        }
    }
}

impl ToTerm for char {
    open spec fn encoded(&self) -> Result<Tree, CodecFault> {
        Ok(Tree::String(seq![*self]))
    }

    open spec fn encoded_field(&self) -> Result<Option<Tree>, CodecFault> {
        always_field(self.encoded())
    }

    fn to_term<Ctx: FliContext>(&self, ctx: &Ctx, fli: &mut Fli, term: Term<'_>) -> (r: Result<
        (),
        TermCodecError,
    >) {
        let mut text: String = String::new();
        push_char(&mut text, *self);
        assert(text@ =~= seq![*self]);
        written(term.put_string(fli, text.as_str()))
    }

    fn __to_field<Ctx: FliContext>(&self, ctx: &Ctx, fli: &mut Fli, term: Term<'_>) -> (r: Result<
        bool,
        TermCodecError,
    >) {
        match self.to_term(ctx, fli, term) {
            Ok(()) => Ok(true),
            Err(error) => Err(error),
        }
    }
}

impl FromTerm for char {
    open spec fn reads(trail: Seq<(usize, Tree)>, t: Tree, value: Self) -> bool {
        atomic_text(resolve(trail, t)) == Some(seq![value])
    }

    open spec fn read_fault(trail: Seq<(usize, Tree)>, t: Tree) -> Option<CodecFault> {
        match atomic_text(resolve(trail, t)) {
            Some(text) => if text.len() == 1 {
                None
            } else {
                Some(CodecFault::Type("a character"@))
            },
            None => Some(
                CodecFault::Term(
                    TermError::TypeMismatch {
                        expected: "an atomic term with a text representation",
                    },
                ),
            ),
        }
    }

    open spec fn reads_field(trail: Seq<(usize, Tree)>, t: Option<Tree>, value: Self) -> bool {
        t matches Some(present) && Self::reads(trail, present, value)
    }

    open spec fn read_field_fault(
        trail: Seq<(usize, Tree)>,
        t: Option<Tree>,
        name: Seq<char>,
    ) -> Option<CodecFault> {
        required_field_fault(
            match t {
                Some(present) => Self::read_fault(trail, present),
                None => None,
            },
            t,
            name,
        )
    }

    fn from_term<Ctx: FliContext>(ctx: &Ctx, fli: &mut Fli, term: Term<'_>) -> (r: Result<
        Self,
        TermCodecError,
    >) {
        match term.get_text(fli) {
            Ok(text) => {
                if text.as_str().unicode_len() == 1 {
                    let c: char = text.as_str().get_char(0);
                    assert(text@ =~= seq![c]);
                    Ok(c)
                } else {
                    Err(TermCodecError::Type { expected: "a character" })
                }
            },
            Err(error) => Err(TermCodecError::Term(error)),
        }
    }

    fn __from_field<Ctx: FliContext>(
        ctx: &Ctx,
        fli: &mut Fli,
        term: Option<Term<'_>>,
        name: &str,
    ) -> (r: Result<Self, TermCodecError>) {
        match term {
            Some(present) => Self::from_term(ctx, fli, present),
            None => Err(TermCodecError::MissingField { field: name.to_owned() }),
        }
    }
}

impl ToTerm for () {
    open spec fn encoded(&self) -> Result<Tree, CodecFault> {
        Err(CodecFault::OptionOutsideField)
    }

    open spec fn encoded_field(&self) -> Result<Option<Tree>, CodecFault> {
        Ok(None)
    }

    fn to_term<Ctx: FliContext>(&self, ctx: &Ctx, fli: &mut Fli, term: Term<'_>) -> (r: Result<
        (),
        TermCodecError,
    >) {
        Err(TermCodecError::OptionOutsideField)
    }

    fn __to_field<Ctx: FliContext>(&self, ctx: &Ctx, fli: &mut Fli, term: Term<'_>) -> (r: Result<
        bool,
        TermCodecError,
    >) {
        Ok(false)
    }
}

impl FromTerm for () {
    open spec fn reads(trail: Seq<(usize, Tree)>, t: Tree, value: Self) -> bool {
        true
    }

    open spec fn read_fault(trail: Seq<(usize, Tree)>, t: Tree) -> Option<CodecFault> {
        Some(CodecFault::OptionOutsideField)
    }

    open spec fn reads_field(trail: Seq<(usize, Tree)>, t: Option<Tree>, value: Self) -> bool {
        true
    }

    open spec fn read_field_fault(
        trail: Seq<(usize, Tree)>,
        t: Option<Tree>,
        name: Seq<char>,
    ) -> Option<CodecFault> {
        None
    }

    fn from_term<Ctx: FliContext>(ctx: &Ctx, fli: &mut Fli, term: Term<'_>) -> (r: Result<
        Self,
        TermCodecError,
    >) {
        Err(TermCodecError::OptionOutsideField)
    }

    fn __from_field<Ctx: FliContext>(
        ctx: &Ctx,
        fli: &mut Fli,
        term: Option<Term<'_>>,
        name: &str,
    ) -> (r: Result<Self, TermCodecError>) {
        Ok(())
    }
}

impl<T: ToTerm> ToTerm for Option<T> {
    open spec fn encoded(&self) -> Result<Tree, CodecFault> {
        Err(CodecFault::OptionOutsideField)
    }

    open spec fn encoded_field(&self) -> Result<Option<Tree>, CodecFault> {
        match self {
            Some(value) => always_field(value.encoded()),
            None => Ok(None),
        }
    }

    fn to_term<Ctx: FliContext>(&self, ctx: &Ctx, fli: &mut Fli, term: Term<'_>) -> (r: Result<
        (),
        TermCodecError,
    >) {
        Err(TermCodecError::OptionOutsideField)
    }

    fn __to_field<Ctx: FliContext>(&self, ctx: &Ctx, fli: &mut Fli, term: Term<'_>) -> (r: Result<
        bool,
        TermCodecError,
    >) {
        match self {
            Some(value) => {
                match value.to_term(ctx, fli, term) {
                    Ok(()) => Ok(true),
                    Err(error) => Err(error),
                }
            },
            None => Ok(false),
        }
    }
}

impl<T: FromTerm> FromTerm for Option<T> {
    open spec fn reads(trail: Seq<(usize, Tree)>, t: Tree, value: Self) -> bool {
        false
    }

    open spec fn read_fault(trail: Seq<(usize, Tree)>, t: Tree) -> Option<CodecFault> {
        Some(CodecFault::OptionOutsideField)
    }

    open spec fn reads_field(trail: Seq<(usize, Tree)>, t: Option<Tree>, value: Self) -> bool {
        match t {
            Some(present) => value matches Some(v) && T::reads(trail, present, v),
            None => value is None,
        }
    }

    open spec fn read_field_fault(
        trail: Seq<(usize, Tree)>,
        t: Option<Tree>,
        name: Seq<char>,
    ) -> Option<CodecFault> {
        match t {
            Some(present) => T::read_fault(trail, present),
            None => None,
        }
    }

    fn from_term<Ctx: FliContext>(ctx: &Ctx, fli: &mut Fli, term: Term<'_>) -> (r: Result<
        Self,
        TermCodecError,
    >) {
        Err(TermCodecError::OptionOutsideField)
    }

    fn __from_field<Ctx: FliContext>(
        ctx: &Ctx,
        fli: &mut Fli,
        term: Option<Term<'_>>,
        name: &str,
    ) -> (r: Result<Self, TermCodecError>) {
        match term {
            Some(present) => {
                match T::from_term(ctx, fli, present) {
                    Ok(value) => Ok(Some(value)),
                    Err(error) => Err(error),
                }
            },
            None => Ok(None),
        }
    }
}

impl<T: ToTerm + ?Sized> ToTerm for &T {
    open spec fn encoded(&self) -> Result<Tree, CodecFault> {
        (*self).encoded()
    }

    open spec fn encoded_field(&self) -> Result<Option<Tree>, CodecFault> {
        (*self).encoded_field()
    }

    fn to_term<Ctx: FliContext>(&self, ctx: &Ctx, fli: &mut Fli, term: Term<'_>) -> (r: Result<
        (),
        TermCodecError,
    >) {
        (*self).to_term(ctx, fli, term)
    }

    fn __to_field<Ctx: FliContext>(&self, ctx: &Ctx, fli: &mut Fli, term: Term<'_>) -> (r: Result<
        bool,
        TermCodecError,
    >) {
        (*self).__to_field(ctx, fli, term)
    }
}

impl<T: ToTerm + ?Sized> ToTerm for Box<T> {
    open spec fn encoded(&self) -> Result<Tree, CodecFault> {
        (**self).encoded()
    }

    open spec fn encoded_field(&self) -> Result<Option<Tree>, CodecFault> {
        always_field(self.encoded())
    }

    fn to_term<Ctx: FliContext>(&self, ctx: &Ctx, fli: &mut Fli, term: Term<'_>) -> (r: Result<
        (),
        TermCodecError,
    >) {
        (**self).to_term(ctx, fli, term)
    }

    fn __to_field<Ctx: FliContext>(&self, ctx: &Ctx, fli: &mut Fli, term: Term<'_>) -> (r: Result<
        bool,
        TermCodecError,
    >) {
        match self.to_term(ctx, fli, term) {
            Ok(()) => Ok(true),
            Err(error) => Err(error),
        }
    }
}

impl<T: FromTerm> FromTerm for Box<T> {
    open spec fn reads(trail: Seq<(usize, Tree)>, t: Tree, value: Self) -> bool {
        T::reads(trail, t, *value)
    }

    open spec fn read_fault(trail: Seq<(usize, Tree)>, t: Tree) -> Option<CodecFault> {
        T::read_fault(trail, t)
    }

    open spec fn reads_field(trail: Seq<(usize, Tree)>, t: Option<Tree>, value: Self) -> bool {
        t matches Some(present) && Self::reads(trail, present, value)
    }

    open spec fn read_field_fault(
        trail: Seq<(usize, Tree)>,
        t: Option<Tree>,
        name: Seq<char>,
    ) -> Option<CodecFault> {
        required_field_fault(
            match t {
                Some(present) => Self::read_fault(trail, present),
                None => None,
            },
            t,
            name,
        )
    }

    fn from_term<Ctx: FliContext>(ctx: &Ctx, fli: &mut Fli, term: Term<'_>) -> (r: Result<
        Self,
        TermCodecError,
    >) {
        match T::from_term(ctx, fli, term) {
            Ok(value) => Ok(Box::new(value)),
            Err(error) => Err(error),
        }
    }

    fn __from_field<Ctx: FliContext>(
        ctx: &Ctx,
        fli: &mut Fli,
        term: Option<Term<'_>>,
        name: &str,
    ) -> (r: Result<Self, TermCodecError>) {
        match term {
            Some(present) => Self::from_term(ctx, fli, present),
            None => Err(TermCodecError::MissingField { field: name.to_owned() }),
        }
    }
}

impl<T: ToTerm + ?Sized> ToTerm for Arc<T> {
    open spec fn encoded(&self) -> Result<Tree, CodecFault> {
        (**self).encoded()
    }

    open spec fn encoded_field(&self) -> Result<Option<Tree>, CodecFault> {
        always_field(self.encoded())
    }

    fn to_term<Ctx: FliContext>(&self, ctx: &Ctx, fli: &mut Fli, term: Term<'_>) -> (r: Result<
        (),
        TermCodecError,
    >) {
        (**self).to_term(ctx, fli, term)
    }

    fn __to_field<Ctx: FliContext>(&self, ctx: &Ctx, fli: &mut Fli, term: Term<'_>) -> (r: Result<
        bool,
        TermCodecError,
    >) {
        match self.to_term(ctx, fli, term) {
            Ok(()) => Ok(true),
            Err(error) => Err(error),
        }
    }
}

impl<T: FromTerm> FromTerm for Arc<T> {
    open spec fn reads(trail: Seq<(usize, Tree)>, t: Tree, value: Self) -> bool {
        T::reads(trail, t, *value)
    }

    open spec fn read_fault(trail: Seq<(usize, Tree)>, t: Tree) -> Option<CodecFault> {
        T::read_fault(trail, t)
    }

    open spec fn reads_field(trail: Seq<(usize, Tree)>, t: Option<Tree>, value: Self) -> bool {
        t matches Some(present) && Self::reads(trail, present, value)
    }

    open spec fn read_field_fault(
        trail: Seq<(usize, Tree)>,
        t: Option<Tree>,
        name: Seq<char>,
    ) -> Option<CodecFault> {
        required_field_fault(
            match t {
                Some(present) => Self::read_fault(trail, present),
                None => None,
            },
            t,
            name,
        )
    }

    fn from_term<Ctx: FliContext>(ctx: &Ctx, fli: &mut Fli, term: Term<'_>) -> (r: Result<
        Self,
        TermCodecError,
    >) {
        match T::from_term(ctx, fli, term) {
            Ok(value) => Ok(Arc::new(value)),
            Err(error) => Err(error),
        }
    }

    fn __from_field<Ctx: FliContext>(
        ctx: &Ctx,
        fli: &mut Fli,
        term: Option<Term<'_>>,
        name: &str,
    ) -> (r: Result<Self, TermCodecError>) {
        match term {
            Some(present) => Self::from_term(ctx, fli, present),
            None => Err(TermCodecError::MissingField { field: name.to_owned() }),
        }
    }
}

} // verus!
