//! Engine-independent handles: atoms, functors, modules and predicates.

use vstd::prelude::*;
use vstd::string::*;

use crate::exception::{PrologException, Verdict};
use crate::fli::{Fli, State};
use crate::term::FliContext;

verus! {

/// An error from constructing a handle.
#[derive(Debug, Clone, PartialEq, Eq)]
pub enum HandleError {
    /// The engine did not make the functor and left no exception.
    FunctorConstruction,
    /// The engine did not make the predicate and left no exception.
    PredicateConstruction,
    /// A predicate arity exceeds the engine interface's integer range.
    PredicateArityOutOfRange { arity: usize },
    /// A name contains a NUL byte, at this byte position.
    InteriorNul { position: usize },
    /// Constructing the handle raised a Prolog exception; it has been cleared
    /// from the engine.
    Exception(PrologException),
}

/// A Prolog atom. Atoms are engine-independent global values: two atoms are
/// equal exactly if they have the same text.
#[derive(Debug, Hash)]
pub struct Atom(String);

impl View for Atom {
    type V = Seq<char>;

    closed spec fn view(&self) -> Seq<char> {
        self.0@
    }
}

impl Clone for Atom {
    fn clone(&self) -> (r: Self)
        ensures
            r@ == self@,
    {
        Atom(self.0.clone())
    }
}

impl PartialEq for Atom {
    fn eq(&self, other: &Self) -> (r: bool) {
        self.0 == other.0
    }
}

impl vstd::std_specs::cmp::PartialEqSpecImpl for Atom {
    open spec fn obeys_eq_spec() -> bool {
        true
    }

    open spec fn eq_spec(&self, other: &Self) -> bool {
        self@ == other@
    }
}

impl Eq for Atom {

}

impl Atom {
    /// The atom with the given text.
    pub fn new<C: FliContext>(_ctx: &C, text: &str) -> (r: Atom)
        ensures
            r@ == text@,
    {
        Atom(text.to_owned())
    }

    /// The atom with the given text, taken out of a term.
    pub fn from_text(text: String) -> (r: Atom)
        ensures
            r@ == text@,
    {
        Atom(text)
    }

    /// The atom's text.
    pub fn text(&self) -> (r: String)
        ensures
            r@ == self@,
    {
        self.0.clone()
    }

    /// The atom's text, borrowed.
    pub fn as_str(&self) -> (r: &str)
        ensures
            r@ == self@,
    {
        self.0.as_str()
    }
}

/// A name/arity pair.
#[derive(Debug, PartialEq, Eq, Hash)]
pub struct Functor {
    name: Atom,
    arity: usize,
}

/// How the engine's answer turns the making of `made` into a result.
pub open spec fn constructed<T>(
    before: State,
    after: State,
    made: spec_fn(T) -> bool,
    refusal: HandleError,
    r: Result<T, HandleError>,
) -> bool {
    &&& after == before.answered()
    &&& match before.verdict {
        Verdict::Grant => r matches Ok(handle) && made(handle),
        Verdict::Refuse => r == Err::<T, HandleError>(refusal),
        Verdict::Raise(e) => r == Err::<T, HandleError>(HandleError::Exception(e)),
    }
}

impl Clone for Functor {
    fn clone(&self) -> (r: Self)
        ensures
            r.spec_name() == self.spec_name(),
            r.spec_arity() == self.spec_arity(),
    {
        Functor { name: self.name.clone(), arity: self.arity }
    }
}

impl Functor {
    pub closed spec fn spec_name(&self) -> Seq<char> {
        self.name@
    }

    pub closed spec fn spec_arity(&self) -> usize {
        self.arity
    }

    /// The functor `name/arity`.
    pub fn new<C: FliContext>(_ctx: &C, fli: &mut Fli, name: &Atom, arity: usize) -> (r: Result<
        Functor,
        HandleError,
    >)
        ensures
            constructed(
                old(fli)@,
                final(fli)@,
                |f: Functor| f.spec_name() == name@ && f.spec_arity() == arity,
                HandleError::FunctorConstruction,
                r,
            ),
    {
        match fli.take_verdict() {
            Verdict::Grant => Ok(Functor { name: name.clone(), arity }),
            Verdict::Refuse => Err(HandleError::FunctorConstruction),
            Verdict::Raise(exception) => Err(HandleError::Exception(exception)),
        }
    }

    /// The functor `name/arity`, from text.
    pub fn from_name<C: FliContext>(ctx: &C, fli: &mut Fli, name: &str, arity: usize) -> (r: Result<
        Functor,
        HandleError,
    >)
        ensures
            constructed(
                old(fli)@,
                final(fli)@,
                |f: Functor| f.spec_name() == name@ && f.spec_arity() == arity,
                HandleError::FunctorConstruction,
                r,
            ),
    {
        Functor::new(ctx, fli, &Atom::new(ctx, name), arity)
    }

    /// The functor of a term with this name and arity.
    pub fn of_term(name: Atom, arity: usize) -> (r: Functor)
        ensures
            r.spec_name() == name@,
            r.spec_arity() == arity,
    {
        Functor { name, arity }
    }

    pub fn arity(&self) -> (r: usize)
        ensures
            r == self.spec_arity(),
    {
        self.arity
    }

    /// The functor's name.
    pub fn name(&self) -> (r: Atom)
        ensures
            r@ == self.spec_name(),
    {
        self.name.clone()
    }
}

/// A Prolog module.
#[derive(Debug, PartialEq, Eq, Hash)]
pub struct Module(Atom);

impl View for Module {
    type V = Seq<char>;

    closed spec fn view(&self) -> Seq<char> {
        self.0@
    }
}

impl Clone for Module {
    fn clone(&self) -> (r: Self)
        ensures
            r@ == self@,
    {
        Module(self.0.clone())
    }
}

impl Module {
    /// The module with the given name.
    pub fn new<C: FliContext>(_ctx: &C, name: &Atom) -> (r: Module)
        ensures
            r@ == name@,
    {
        Module(name.clone())
    }

    /// The module with the given name, from text.
    pub fn from_name<C: FliContext>(ctx: &C, name: &str) -> (r: Module)
        ensures
            r@ == name@,
    {
        Module::new(ctx, &Atom::new(ctx, name))
    }

    /// The module's name.
    pub fn name(&self) -> (r: Atom)
        ensures
            r@ == self@,
    {
        self.0.clone()
    }
}

/// A predicate, the callable unit that a query executes.
#[derive(Debug, PartialEq, Eq, Hash)]
pub struct Predicate {
    lookup: Option<Module>,
    name: Atom,
    arity: usize,
}

/// The position of the first NUL byte of a text's UTF-8 form, if it has one.
pub open spec fn nul_position(text: Seq<char>) -> Option<int> {
    let bytes = vstd::utf8::encode_utf8(text);
    if exists|i: int| first_nul(bytes, i) {
        Some(choose|i: int| first_nul(bytes, i))
    } else {
        None
    }
}

/// Whether position `i` holds the first NUL byte.
pub open spec fn first_nul(bytes: Seq<u8>, i: int) -> bool {
    &&& 0 <= i < bytes.len()
    &&& bytes[i] == 0
    &&& forall|j: int| 0 <= j < i ==> bytes[j] != 0
}

/// Finds the first NUL byte.
pub fn find_nul(text: &str) -> (r: Option<usize>)
    ensures
        match nul_position(text@) {
            Some(i) => r matches Some(p) && p == i && first_nul(
                vstd::utf8::encode_utf8(text@),
                p as int,
            ),
            None => r is None,
        },
{
    let bytes: &[u8] = text.as_bytes();
    let ghost model = vstd::utf8::encode_utf8(text@);
    let mut i: usize = 0;
    while i < bytes.len()
        invariant
            bytes@ == model,
            model == vstd::utf8::encode_utf8(text@),
            i <= bytes@.len(),
            forall|j: int| 0 <= j < i ==> model[j] != 0,
        decreases bytes@.len() - i,
    {
        if bytes[i] == 0 {
            proof {
                assert(first_nul(model, i as int));
                let first = choose|k: int| first_nul(model, k);
                assert(first == i as int) by {
                    if first < i {
                    } else if first > i {
                        assert(model[i as int] != 0);
                    }
                }
            }
            return Some(i);
        }
        i = i + 1;
    }
    None
}

/// The largest arity that the engine interface takes.
pub const MAX_PREDICATE_ARITY: usize = 0x7fff_ffff;

impl Clone for Predicate {
    fn clone(&self) -> (r: Self)
        ensures
            r.spec_name() == self.spec_name(),
            r.spec_lookup() == self.spec_lookup(),
            r.spec_arity() == self.spec_arity(),
    {
        Predicate { lookup: self.lookup_module(), name: self.name.clone(), arity: self.arity }
    }
}

impl Predicate {
    pub closed spec fn spec_name(&self) -> Seq<char> {
        self.name@
    }

    pub closed spec fn spec_arity(&self) -> usize {
        self.arity
    }

    /// The module that the predicate is looked up through; `None` stands for
    /// the current one.
    pub closed spec fn spec_lookup(&self) -> Option<Seq<char>> {
        match self.lookup {
            Some(module) => Some(module@),
            None => None,
        }
    }

    /// The predicate for `functor` in `module`.
    pub fn new<C: FliContext>(
        _ctx: &C,
        fli: &mut Fli,
        functor: &Functor,
        module: &Module,
    ) -> (r: Result<Predicate, HandleError>)
        ensures
            constructed(
                old(fli)@,
                final(fli)@,
                |p: Predicate|
                    p.spec_name() == functor.spec_name() && p.spec_arity() == functor.spec_arity()
                        && p.spec_lookup() == Some(module@),
                HandleError::PredicateConstruction,
                r,
            ),
    {
        match fli.take_verdict() {
            Verdict::Grant => Ok(
                Predicate {
                    lookup: Some(module.clone()),
                    name: functor.name.clone(),
                    arity: functor.arity,
                },
            ),
            Verdict::Refuse => Err(HandleError::PredicateConstruction),
            Verdict::Raise(exception) => Err(HandleError::Exception(exception)),
        }
    }

    /// What is wrong with the arguments of [`Predicate::from_name`], if
    /// anything is.
    pub open spec fn name_fault(name: Seq<char>, arity: usize, module: Option<&str>) -> Option<
        HandleError,
    > {
        if let Some(position) = nul_position(name) {
            Some(HandleError::InteriorNul { position: position as usize })
        } else if module matches Some(m) && nul_position(m@) is Some {
            Some(HandleError::InteriorNul { position: nul_position(module->0@)->0 as usize })
        } else if arity > MAX_PREDICATE_ARITY {
            Some(HandleError::PredicateArityOutOfRange { arity })
        } else {
            None
        }
    }

    /// The predicate `module:name/arity`, from text; without a module it is
    /// looked up through the current one, typically `user`.
    pub fn from_name<C: FliContext>(
        _ctx: &C,
        fli: &mut Fli,
        name: &str,
        arity: usize,
        module: Option<&str>,
    ) -> (r: Result<Predicate, HandleError>)
        ensures
            match Predicate::name_fault(name@, arity, module) {
                Some(fault) => r == Err::<Predicate, HandleError>(fault) && final(fli)@ == old(fli)@,
                None => constructed(
                    old(fli)@,
                    final(fli)@,
                    |p: Predicate|
                        p.spec_name() == name@ && p.spec_arity() == arity && p.spec_lookup() == (
                        match module {
                            Some(m) => Some(m@),
                            None => None,
                        }),
                    HandleError::PredicateConstruction,
                    r,
                ),
            },
    {
        if let Some(position) = find_nul(name) {
            return Err(HandleError::InteriorNul { position });
        }
        if let Some(m) = module {
            if let Some(position) = find_nul(m) {
                return Err(HandleError::InteriorNul { position });
            }
        }
        if arity > MAX_PREDICATE_ARITY {
            return Err(HandleError::PredicateArityOutOfRange { arity });
        }
        let lookup: Option<Module> = match module {
            Some(m) => Some(Module(Atom(m.to_owned()))),
            None => None,
        };
        match fli.take_verdict() {
            Verdict::Grant => Ok(
                Predicate { lookup, name: Atom(name.to_owned()), arity },
            ),
            Verdict::Refuse => Err(HandleError::PredicateConstruction),
            Verdict::Raise(exception) => Err(HandleError::Exception(exception)),
        }
    }

    pub fn arity(&self) -> (r: usize)
        ensures
            r == self.spec_arity(),
    {
        self.arity
    }

    /// The predicate's name.
    pub fn name(&self) -> (r: Atom)
        ensures
            r@ == self.spec_name(),
    {
        self.name.clone()
    }

    /// The predicate's defining module, which is what the engine reports for
    /// it: it may be another one than the predicate is looked up through.
    pub fn module(&self, reported: &Module) -> (r: Module)
        ensures
            r@ == reported@,
    {
        reported.clone()
    }

    /// The module that the predicate is looked up through; `None` stands for
    /// the current one.
    pub fn lookup_module(&self) -> (r: Option<Module>)
        ensures
            match r {
                Some(module) => self.spec_lookup() == Some(module@),
                None => self.spec_lookup() is None,
            },
    {
        match &self.lookup {
            Some(module) => Some(module.clone()),
            None => None,
        }
    }
}

} // verus!
