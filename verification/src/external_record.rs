//! Terms recorded as portable bytes.

use vstd::prelude::*;

use crate::data::TermData;
use crate::exception::Verdict;
use crate::fli::{Fli, State};
use crate::record::{record_error, Record, RecordError, RecordView};
use crate::term::{grows, FliContext, Term, TermError};

verus! {

/// A term in the engine's portable byte format.
///
/// Unlike [`Record`], an `ExternalRecord` is a self-contained, ordinary byte
/// buffer, comparable by value. The engine turns a term into bytes and bytes
/// into a term; what it made is handed to the methods below.
#[derive(Debug, PartialEq, Eq, Hash)]
pub struct ExternalRecord {
    bytes: Vec<u8>,
}

impl View for ExternalRecord {
    type V = Seq<u8>;

    closed spec fn view(&self) -> Seq<u8> {
        self.bytes@
    }
}

impl Clone for ExternalRecord {
    fn clone(&self) -> (r: Self)
        ensures
            r@ == self@,
    {
        let bytes: Vec<u8> = self.bytes.clone();
        assert(bytes@ =~= self.bytes@);
        ExternalRecord { bytes }
    }
}

impl ExternalRecord {
    /// Records `term` as the portable bytes that the engine made of it.
    pub fn from_term(fli: &mut Fli, term: Term<'_>, encoded: Vec<u8>) -> (r: Result<
        Self,
        RecordError,
    >)
        requires
            term.live(old(fli)@),
        ensures
            final(fli)@ == old(fli)@.answered(),
            if old(fli)@.verdict is Grant {
                r matches Ok(record) && record@ == encoded@
            } else {
                r == Err::<ExternalRecord, RecordError>(record_error(old(fli)@.verdict))
            },
    {
        match fli.take_verdict() {
            Verdict::Grant => Ok(ExternalRecord { bytes: encoded }),
            Verdict::Refuse => Err(RecordError::Failed),
            Verdict::Raise(exception) => Err(RecordError::Exception(exception)),
        }
    }

    /// Recalls what the engine made of the bytes into a fresh reference
    /// allocated from `ctx`.
    pub fn recall<'a, C: FliContext>(&self, ctx: &'a C, fli: &mut Fli, decoded: TermData) -> (r:
        Result<Term<'a>, RecordError>)
        requires
            old(fli)@.at(ctx.place()),
            !(old(fli)@.verdict is Refuse),
        ensures
            if old(fli)@.verdict is Grant {
                r matches Ok(t) && t.raw() == old(fli)@.refs.len() && t.gen() == old(fli)@.gen
                    && final(fli)@ == (State {
                    fresh: old(fli)@.fresh + 1,
                    ..old(fli)@.with_new_ref(decoded@)
                })
            } else {
                r == Err::<Term<'a>, RecordError>(record_error(old(fli)@.verdict)) && grows(
                    old(fli)@,
                    final(fli)@,
                ) && final(fli)@.verdict is Grant
            },
    {
        match ctx.term(fli) {
            Err(TermError::Exception(exception)) => Err(RecordError::Exception(exception)),
            Err(_) => Err(RecordError::Failed),
            Ok(dest) => {
                match self.recall_into(fli, dest, decoded) {
                    Ok(()) => {
                        assert(fli@.refs =~= old(fli)@.refs.push(decoded@));
                        Ok(dest)
                    },
                    Err(error) => Err(error),
                }
            },
        }
    }

    /// Recalls what the engine made of the bytes into the existing reference
    /// `term`, overwriting whatever it held. Bytes that the engine does not
    /// accept are refused.
    pub fn recall_into(&self, fli: &mut Fli, term: Term<'_>, decoded: TermData) -> (r: Result<
        (),
        RecordError,
    >)
        requires
            term.live(old(fli)@),
        ensures
            if old(fli)@.verdict is Grant {
                r is Ok && final(fli)@ == old(fli)@.with_ref(term.raw(), decoded@)
            } else {
                r == Err::<(), RecordError>(record_error(old(fli)@.verdict)) && final(fli)@
                    == old(fli)@.answered()
            },
    {
        match fli.take_verdict() {
            Verdict::Grant => {
                fli.set_ref(term.as_raw(), decoded);
                Ok(())
            },
            Verdict::Refuse => Err(RecordError::Failed),
            Verdict::Raise(exception) => Err(RecordError::Exception(exception)),
        }
    }

    /// The raw portable bytes, e.g. to persist to disk or send elsewhere.
    pub fn as_bytes(&self) -> (r: &[u8])
        ensures
            r@ == self@,
    {
        self.bytes.as_slice()
    }

    /// Wraps raw bytes obtained elsewhere (e.g. read back from disk).
    ///
    /// This does not validate the bytes: only the engine can, and it does not
    /// catch every malformation. Only pass bytes that were themselves produced
    /// by [`ExternalRecord::as_bytes`], directly or through trusted storage.
    pub fn from_bytes(bytes: Vec<u8>) -> (r: Self)
        ensures
            r@ == bytes@,
    {
        ExternalRecord { bytes }
    }

    /// Recalls the bytes into a scratch term and records that.
    pub fn to_record<C: FliContext>(
        &self,
        ctx: &C,
        fli: &mut Fli,
        decoded: TermData,
        handle: u64,
    ) -> (r: Result<Record, RecordError>)
        requires
            old(fli)@.at(ctx.place()),
            !(old(fli)@.verdict is Refuse),
        ensures
            if old(fli)@.verdict is Grant {
                &&& final(fli)@ == (State {
                    fresh: old(fli)@.fresh + 1,
                    ..old(fli)@.with_new_ref(decoded@)
                })
                &&& r matches Ok(record) && record@ == (RecordView {
                    identity: handle,
                    tree: decoded@,
                    trail: old(fli)@.trail,
                    vars: old(fli)@.fresh + 1,
                })
            } else {
                r == Err::<Record, RecordError>(record_error(old(fli)@.verdict)) && grows(
                    old(fli)@,
                    final(fli)@,
                ) && final(fli)@.verdict is Grant
            },
    {
        match self.recall(ctx, fli, decoded) {
            Err(error) => Err(error),
            Ok(term) => term.record(fli, handle),
        }
    }
}

impl<'f> Term<'f> {
    /// Records this term as the portable bytes that the engine made of it.
    pub fn record_external(&self, fli: &mut Fli, encoded: Vec<u8>) -> (r: Result<
        ExternalRecord,
        RecordError,
    >)
        requires
            self.live(old(fli)@),
        ensures
            final(fli)@ == old(fli)@.answered(),
            if old(fli)@.verdict is Grant {
                r matches Ok(record) && record@ == encoded@
            } else {
                r == Err::<ExternalRecord, RecordError>(record_error(old(fli)@.verdict))
            },
    {
        ExternalRecord::from_term(fli, *self, encoded)
    }
}

} // verus!
