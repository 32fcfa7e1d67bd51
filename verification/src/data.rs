//! Prolog terms as plain values.

use vstd::prelude::*;

verus! {

/// A dict key: an atom or a small integer.
#[derive(Debug)]
pub enum KeyData {
    Atom(String),
    Int(i64),
}

/// What a dict key denotes.
pub enum Key {
    Atom(Seq<char>),
    Int(int),
}

impl View for KeyData {
    type V = Key;

    open spec fn view(&self) -> Key {
        match self {
            KeyData::Atom(name) => Key::Atom(name@),
            KeyData::Int(value) => Key::Int(*value as int),
        }
    }
}

/// A Prolog term.
///
/// A variable is named by a number; what it is bound to is kept apart, in the
/// engine's bindings, so that a binding can be undone and a term can be
/// cyclic.
#[derive(Debug)]
pub enum TermData {
    /// An unbound variable, unless the engine's bindings say otherwise.
    Var(usize),
    Atom(String),
    Integer(i128),
    /// An integer beyond the 128-bit range, by its decimal digits.
    BigInteger(String),
    /// A rational number, by the text the engine renders for it.
    Rational(String),
    /// A floating-point number, by its bit pattern and the text the engine
    /// renders for it.
    Float(u64, String),
    String(String),
    Nil,
    /// An opaque blob, by the text the engine renders for it.
    Blob(String),
    /// A list cell `[head | tail]`.
    Pair(Box<TermData>, Box<TermData>),
    /// A compound term that is not a list cell.
    Compound(String, Vec<TermData>),
    /// A dict: its tag and its key/value pairs.
    Dict(Box<TermData>, Vec<(KeyData, TermData)>),
}

/// What a [`TermData`] denotes.
#[verifier::ext_equal]
pub enum Tree {
    Var(usize),
    Atom(Seq<char>),
    Integer(int),
    BigInteger(Seq<char>),
    Rational(Seq<char>),
    Float(u64, Seq<char>),
    String(Seq<char>),
    Nil,
    Blob(Seq<char>),
    Pair(Box<Tree>, Box<Tree>),
    Compound(Seq<char>, Seq<Tree>),
    Dict(Box<Tree>, Seq<(Key, Tree)>),
}

/// The tree that a term denotes.
pub open spec fn tree(data: TermData) -> Tree
    decreases data,
{
    match data {
        TermData::Var(id) => Tree::Var(id),
        TermData::Atom(name) => Tree::Atom(name@),
        TermData::Integer(value) => Tree::Integer(value as int),
        TermData::BigInteger(digits) => Tree::BigInteger(digits@),
        TermData::Rational(text) => Tree::Rational(text@),
        TermData::Float(bits, text) => Tree::Float(bits, text@),
        TermData::String(text) => Tree::String(text@),
        TermData::Nil => Tree::Nil,
        TermData::Blob(text) => Tree::Blob(text@),
        TermData::Pair(head, tail) => Tree::Pair(Box::new(tree(*head)), Box::new(tree(*tail))),
        TermData::Compound(name, args) => Tree::Compound(
            name@,
            Seq::new(
                args@.len(),
                |i: int|
                    if 0 <= i < args@.len() {
                        tree(args@[i])
                    } else {
                        Tree::Nil
                    },
            ),
        ),
        TermData::Dict(tag, entries) => Tree::Dict(
            Box::new(tree(*tag)),
            Seq::new(
                entries@.len(),
                |i: int|
                    if 0 <= i < entries@.len() {
                        (entries@[i].0@, tree(entries@[i].1))
                    } else {
                        (Key::Int(0), Tree::Nil)
                    },
            ),
        ),
    }
}

impl View for TermData {
    type V = Tree;

    open spec fn view(&self) -> Tree {
        tree(*self)
    }
}

impl KeyData {
    /// A copy of the key.
    pub fn copy(&self) -> (r: KeyData)
        ensures
            r@ == self@,
    {
        match self {
            KeyData::Atom(name) => KeyData::Atom(name.clone()),
            KeyData::Int(value) => KeyData::Int(*value),
        }
    }
}

impl TermData {
    /// A copy of the term.
    pub fn copy(&self) -> (r: TermData)
        ensures
            r@ == self@,
        decreases self,
    {
        match self {
            TermData::Var(id) => TermData::Var(*id),
            TermData::Atom(name) => TermData::Atom(name.clone()),
            TermData::Integer(value) => TermData::Integer(*value),
            TermData::BigInteger(digits) => TermData::BigInteger(digits.clone()),
            TermData::Rational(text) => TermData::Rational(text.clone()),
            TermData::Float(bits, text) => TermData::Float(*bits, text.clone()),
            TermData::String(text) => TermData::String(text.clone()),
            TermData::Nil => TermData::Nil,
            TermData::Blob(text) => TermData::Blob(text.clone()),
            TermData::Pair(head, tail) => TermData::Pair(
                Box::new(head.copy()),
                Box::new(tail.copy()),
            ),
            TermData::Compound(name, args) => {
                let mut out: Vec<TermData> = Vec::new();
                let mut i: usize = 0;
                while i < args.len()
                    invariant
                        i <= args.len(),
                        out.len() == i,
                        *self == TermData::Compound(*name, *args),
                        forall|k: int| 0 <= k < i ==> (#[trigger] out@[k])@ == args@[k]@,
                    decreases args.len() - i,
                {
                    assert(decreases_to!(*self => self->Compound_1));
                    assert(decreases_to!(args => args@));
                    assert(decreases_to!(args@ => args@[i as int]));
                    out.push(args[i].copy());
                    i = i + 1;
                }
                let r = TermData::Compound(name.clone(), out);
                assert(r@->Compound_1 =~= self@->Compound_1);
                r
            },
            TermData::Dict(tag, entries) => {
                let mut out: Vec<(KeyData, TermData)> = Vec::new();
                let mut i: usize = 0;
                while i < entries.len()
                    invariant
                        i <= entries.len(),
                        out.len() == i,
                        *self == TermData::Dict(*tag, *entries),
                        forall|k: int|
                            0 <= k < i ==> (#[trigger] out@[k]).0@ == entries@[k].0@ && out@[k].1@
                                == entries@[k].1@,
                    decreases entries.len() - i,
                {
                    assert(decreases_to!(*self => self->Dict_1));
                    assert(decreases_to!(entries => entries@));
                    assert(decreases_to!(entries@ => entries@[i as int]));
                    assert(decreases_to!(entries@[i as int] => entries@[i as int].1));
                    out.push((entries[i].0.copy(), entries[i].1.copy()));
                    i = i + 1;
                }
                let r = TermData::Dict(Box::new(tag.copy()), out);
                assert(r@->Dict_1 =~= self@->Dict_1);
                r
            },
        }
    }
}

} // verus!
