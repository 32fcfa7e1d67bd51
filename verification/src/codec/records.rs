//! Recorded terms as values: a record stands for the very term it was made of.
//!
//! What only the engine can give (the identity of a new record, the bytes of a
//! term and the term of some bytes) is handed to these functions.

use vstd::prelude::*;

use crate::codec::{CodecFault, TermCodecError};
use crate::data::TermData;

use crate::external_record::ExternalRecord;
use crate::fli::Fli;
use crate::record::{record_error, Record, RecordView};
use crate::term::Term;

verus! {

/// Writes the recorded term into `term`.
pub fn record_to_term(record: &Record, fli: &mut Fli, term: Term<'_>) -> (r: Result<
    (),
    TermCodecError,
>)
    requires
        term.live(old(fli)@),
    ensures
        match r {
            Ok(_) => old(fli)@.verdict is Grant && record@.fits(old(fli)@) && final(fli)@
                == record@.recalled(old(fli)@, term.raw()),
            Err(e) => e@ == CodecFault::Record(record_error(old(fli)@.verdict)) && final(fli)@
                == old(fli)@.answered() && !(old(fli)@.verdict is Grant && record@.fits(
                old(fli)@,
            )),
        },
{
    match record.recall_into(fli, term) {
        Ok(()) => Ok(()),
        Err(error) => Err(TermCodecError::Record(error)),
    }
}

/// Reads the term as a record with the identity `handle`.
pub fn record_from_term(fli: &mut Fli, term: Term<'_>, handle: u64) -> (r: Result<
    Record,
    TermCodecError,
>)
    requires
        term.live(old(fli)@),
    ensures
        final(fli)@ == old(fli)@.answered(),
        if old(fli)@.verdict is Grant {
            r matches Ok(record) && record@ == (RecordView {
                identity: handle,
                tree: old(fli)@.refs[term.raw() as int],
                trail: old(fli)@.trail,
                vars: old(fli)@.fresh,
            })
        } else {
            r matches Err(e) && e@ == CodecFault::Record(record_error(old(fli)@.verdict))
        },
{
    match term.record(fli, handle) {
        Ok(record) => Ok(record),
        Err(error) => Err(TermCodecError::Record(error)),
    }
}

/// Writes what the engine made of the recorded bytes into `term`.
pub fn external_to_term(
    record: &ExternalRecord,
    fli: &mut Fli,
    term: Term<'_>,
    decoded: TermData,
) -> (r: Result<(), TermCodecError>)
    requires
        term.live(old(fli)@),
    ensures
        if old(fli)@.verdict is Grant {
            r is Ok && final(fli)@ == old(fli)@.with_ref(term.raw(), decoded@)
        } else {
            &&& r matches Err(e) && e@ == CodecFault::Record(record_error(old(fli)@.verdict))
            &&& final(fli)@ == old(fli)@.answered()
        },
{
    match record.recall_into(fli, term, decoded) {
        Ok(()) => Ok(()),
        Err(error) => Err(TermCodecError::Record(error)),
    }
}

/// Reads the term as the bytes that the engine made of it.
pub fn external_from_term(fli: &mut Fli, term: Term<'_>, encoded: Vec<u8>) -> (r: Result<
    ExternalRecord,
    TermCodecError,
>)
    requires
        term.live(old(fli)@),
    ensures
        final(fli)@ == old(fli)@.answered(),
        if old(fli)@.verdict is Grant {
            r matches Ok(record) && record@ == encoded@
        } else {
            r matches Err(e) && e@ == CodecFault::Record(record_error(old(fli)@.verdict))
        },
{
    match ExternalRecord::from_term(fli, term, encoded) {
        Ok(record) => Ok(record),
        Err(error) => Err(TermCodecError::Record(error)),
    }
}

} // verus!
