//! Prolog terms, frames and queries behind typed handles.

pub mod args;
pub mod call;
pub mod codec;
pub mod codec_args;
pub mod data;
pub mod derive;
pub mod dict;
pub mod engine;
pub mod exception;
pub mod exchange;
pub mod external_record;
pub mod fli;
pub mod format;
pub mod handles;
pub mod laws;
pub mod list;
pub mod query;
pub mod record;
pub mod rollback;
pub mod runtime;
pub mod scope;
mod sealed;
pub mod term;
pub mod text;
pub mod typed;

pub use args::{Args, ArgsSpec, ArgumentError, CallError, ContextArgs};
pub use call::ScopedCallError;
pub use codec::{
    from_term, from_terms, to_term, to_terms, FromTerm, FromTerms, TermCodecError, ToTerm, ToTerms,
};
pub use codec_args::{input, input_as, output, Input, InputAs, Output, TermArg};
pub use dict::DictKey;
pub use engine::{
    AttachError, AttachedEngine, CurrentEngine, Engine, EngineAttributes, EngineCreateError,
};
pub use exception::PrologException;
pub use external_record::ExternalRecord;
pub use fli::Fli;
pub use handles::{Atom, Functor, HandleError, Module, Predicate};
pub use query::{Query, QueryError, QueryOptions, Solutions, TrySolutions};
pub use record::{Record, RecordError};
pub use runtime::{InitError, Runtime};
pub use term::{
    FliContext, Frame, FrameError, ListShape, Term, TermError, TermKind, TermList,
};
pub use typed::CallSolutions;
