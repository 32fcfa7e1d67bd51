//! Conversion of maps to and from dicts.

use vstd::prelude::*;
use vstd::string::*;

use crate::codec::{
    all_live, always_field, dict_fields, field_keys, field_terms, fields_of, fields_view, held_by,
    overwrites, put_dict, repeated_key, required_field_fault, stopped, CodecFault, FromTerm, TermCodecError,
    ToTerm,
};
use crate::data::Tree;
use crate::dict::{dict_tree, in_order};
use crate::fli::{resolve, Fli};
use crate::term::{grows, FliContext, Term, TermError};
use crate::text::{
    decimal, decimal_reads_back, decimal_text, integer_value, parse_signed, parse_unsigned,
    same_text,
};

verus! {

/// A key of a map, which stands in a dict as a text.
pub trait TermMapKey: Sized {
    /// The text that stands for the key.
    spec fn text(&self) -> Seq<char>;

    /// Whether a text stands for the key.
    spec fn text_reads(text: Seq<char>, key: Self) -> bool;

    /// Why a text stands for no key, if it does for none.
    spec fn text_fault(text: Seq<char>) -> Option<CodecFault>;

    /// The text that stands for a key stands for no other one.
    proof fn text_reads_back(&self, other: Self)
        ensures
            Self::text_fault(self.text()) is None,
            Self::text_reads(self.text(), other) ==> other.text() == self.text(),
    ;

    /// The text that stands for the key.
    fn encode_key(&self) -> (r: Result<String, TermCodecError>)
        ensures
            r matches Ok(text) && text@ == self.text(),
    ;

    /// The key that a text stands for.
    fn decode_key(value: &str) -> (r: Result<Self, TermCodecError>)
        ensures
            match Self::text_fault(value@) {
                None => r matches Ok(key) && Self::text_reads(value@, key),
                Some(fault) => r matches Err(e) && e@ == fault,
            },
    ;

    /// Whether the two keys are the same.
    fn same_key(&self, other: &Self) -> (r: bool)
        ensures
            r == (self.text() == other.text()),
    ;
}

impl TermMapKey for String {
    open spec fn text(&self) -> Seq<char> {
        self@
    }

    open spec fn text_reads(text: Seq<char>, key: Self) -> bool {
        key@ == text
    }

    open spec fn text_fault(text: Seq<char>) -> Option<CodecFault> {
        None
    }

    proof fn text_reads_back(&self, other: Self) {
    }

    fn encode_key(&self) -> (r: Result<String, TermCodecError>) {
        Ok(self.clone())
    }

    fn decode_key(value: &str) -> (r: Result<Self, TermCodecError>) {
        Ok(value.to_owned())
    }

    fn same_key(&self, other: &Self) -> (r: bool) {
        same_text(self.as_str(), other.as_str())
    }
}

impl TermMapKey for bool {
    open spec fn text(&self) -> Seq<char> {
        if *self {
            "true"@
        } else {
            "false"@
        }
    }

    open spec fn text_reads(text: Seq<char>, key: Self) -> bool {
        text == key.text()
    }

    open spec fn text_fault(text: Seq<char>) -> Option<CodecFault> {
        if text == "true"@ || text == "false"@ {
            None
        } else {
            Some(CodecFault::Type("a boolean dict key"@))
        }
    }

    proof fn text_reads_back(&self, other: Self) {
    }

    fn encode_key(&self) -> (r: Result<String, TermCodecError>) {
        if *self {
            Ok("true".to_owned())
        } else {
            Ok("false".to_owned())
        }
    }

    fn decode_key(value: &str) -> (r: Result<Self, TermCodecError>) {
        if same_text(value, "true") {
            Ok(true)
        } else if same_text(value, "false") {
            Ok(false)
        } else {
            Err(TermCodecError::Type { expected: "a boolean dict key" })
        }
    }

    fn same_key(&self, other: &Self) -> (r: bool) {
        proof {
            reveal_strlit("true");
            reveal_strlit("false");
            assert("true"@.len() != "false"@.len());
        }
        *self == *other
    }
}

impl TermMapKey for i8 {
    open spec fn text(&self) -> Seq<char> {
        decimal(*self as int)
    }

    open spec fn text_reads(text: Seq<char>, key: Self) -> bool {
        integer_value(text, true) == Some(key as int)
    }

    open spec fn text_fault(text: Seq<char>) -> Option<CodecFault> {
        match integer_value(text, true) {
            Some(n) => if i8::MIN <= n <= i8::MAX {
                None
            } else {
                Some(CodecFault::Type("a numeric dict key"@))
            },
            None => Some(CodecFault::Type("a numeric dict key"@)),
        }
    }

    proof fn text_reads_back(&self, other: Self) {
        decimal_reads_back(*self as int, true);
    }

    fn encode_key(&self) -> (r: Result<String, TermCodecError>) {
        Ok(decimal_text(*self as i128))
    }

    fn decode_key(value: &str) -> (r: Result<Self, TermCodecError>) {
        match parse_signed(value, i8::MIN as i64, i8::MAX as i64) {
            Some(n) => Ok(n as i8),
            None => Err(TermCodecError::Type { expected: "a numeric dict key" }),
        }
    }

    fn same_key(&self, other: &Self) -> (r: bool) {
        proof {
            decimal_reads_back(*self as int, true);
            decimal_reads_back(*other as int, true);
        }
        *self == *other
    }
}

impl TermMapKey for i16 {
    open spec fn text(&self) -> Seq<char> {
        decimal(*self as int)
    }

    open spec fn text_reads(text: Seq<char>, key: Self) -> bool {
        integer_value(text, true) == Some(key as int)
    }

    open spec fn text_fault(text: Seq<char>) -> Option<CodecFault> {
        match integer_value(text, true) {
            Some(n) => if i16::MIN <= n <= i16::MAX {
                None
            } else {
                Some(CodecFault::Type("a numeric dict key"@))
            },
            None => Some(CodecFault::Type("a numeric dict key"@)),
        }
    }

    proof fn text_reads_back(&self, other: Self) {
        decimal_reads_back(*self as int, true);
    }

    fn encode_key(&self) -> (r: Result<String, TermCodecError>) {
        Ok(decimal_text(*self as i128))
    }

    fn decode_key(value: &str) -> (r: Result<Self, TermCodecError>) {
        match parse_signed(value, i16::MIN as i64, i16::MAX as i64) {
            Some(n) => Ok(n as i16),
            None => Err(TermCodecError::Type { expected: "a numeric dict key" }),
        }
    }

    fn same_key(&self, other: &Self) -> (r: bool) {
        proof {
            decimal_reads_back(*self as int, true);
            decimal_reads_back(*other as int, true);
        }
        *self == *other
    }
}

impl TermMapKey for i32 {
    open spec fn text(&self) -> Seq<char> {
        decimal(*self as int)
    }

    open spec fn text_reads(text: Seq<char>, key: Self) -> bool {
        integer_value(text, true) == Some(key as int)
    }

    open spec fn text_fault(text: Seq<char>) -> Option<CodecFault> {
        match integer_value(text, true) {
            Some(n) => if i32::MIN <= n <= i32::MAX {
                None
            } else {
                Some(CodecFault::Type("a numeric dict key"@))
            },
            None => Some(CodecFault::Type("a numeric dict key"@)),
        }
    }

    proof fn text_reads_back(&self, other: Self) {
        decimal_reads_back(*self as int, true);
    }

    fn encode_key(&self) -> (r: Result<String, TermCodecError>) {
        Ok(decimal_text(*self as i128))
    }

    fn decode_key(value: &str) -> (r: Result<Self, TermCodecError>) {
        match parse_signed(value, i32::MIN as i64, i32::MAX as i64) {
            Some(n) => Ok(n as i32),
            None => Err(TermCodecError::Type { expected: "a numeric dict key" }),
        }
    }

    fn same_key(&self, other: &Self) -> (r: bool) {
        proof {
            decimal_reads_back(*self as int, true);
            decimal_reads_back(*other as int, true);
        }
        *self == *other
    }
}

impl TermMapKey for i64 {
    open spec fn text(&self) -> Seq<char> {
        decimal(*self as int)
    }

    open spec fn text_reads(text: Seq<char>, key: Self) -> bool {
        integer_value(text, true) == Some(key as int)
    }

    open spec fn text_fault(text: Seq<char>) -> Option<CodecFault> {
        match integer_value(text, true) {
            Some(n) => if i64::MIN <= n <= i64::MAX {
                None
            } else {
                Some(CodecFault::Type("a numeric dict key"@))
            },
            None => Some(CodecFault::Type("a numeric dict key"@)),
        }
    }

    proof fn text_reads_back(&self, other: Self) {
        decimal_reads_back(*self as int, true);
    }

    fn encode_key(&self) -> (r: Result<String, TermCodecError>) {
        Ok(decimal_text(*self as i128))
    }

    fn decode_key(value: &str) -> (r: Result<Self, TermCodecError>) {
        match parse_signed(value, i64::MIN as i64, i64::MAX as i64) {
            Some(n) => Ok(n as i64),
            None => Err(TermCodecError::Type { expected: "a numeric dict key" }),
        }
    }

    fn same_key(&self, other: &Self) -> (r: bool) {
        proof {
            decimal_reads_back(*self as int, true);
            decimal_reads_back(*other as int, true);
        }
        *self == *other
    }
}

impl TermMapKey for isize {
    open spec fn text(&self) -> Seq<char> {
        decimal(*self as int)
    }

    open spec fn text_reads(text: Seq<char>, key: Self) -> bool {
        integer_value(text, true) == Some(key as int)
    }

    open spec fn text_fault(text: Seq<char>) -> Option<CodecFault> {
        match integer_value(text, true) {
            Some(n) => if isize::MIN <= n <= isize::MAX {
                None
            } else {
                Some(CodecFault::Type("a numeric dict key"@))
            },
            None => Some(CodecFault::Type("a numeric dict key"@)),
        }
    }

    proof fn text_reads_back(&self, other: Self) {
        decimal_reads_back(*self as int, true);
    }

    fn encode_key(&self) -> (r: Result<String, TermCodecError>) {
        Ok(decimal_text(*self as i128))
    }

    fn decode_key(value: &str) -> (r: Result<Self, TermCodecError>) {
        match parse_signed(value, isize::MIN as i64, isize::MAX as i64) {
            Some(n) => Ok(n as isize),
            None => Err(TermCodecError::Type { expected: "a numeric dict key" }),
        }
    }

    fn same_key(&self, other: &Self) -> (r: bool) {
        proof {
            decimal_reads_back(*self as int, true);
            decimal_reads_back(*other as int, true);
        }
        *self == *other
    }
}

impl TermMapKey for u8 {
    open spec fn text(&self) -> Seq<char> {
        decimal(*self as int)
    }

    open spec fn text_reads(text: Seq<char>, key: Self) -> bool {
        integer_value(text, false) == Some(key as int)
    }

    open spec fn text_fault(text: Seq<char>) -> Option<CodecFault> {
        match integer_value(text, false) {
            Some(n) => if n <= u8::MAX {
                None
            } else {
                Some(CodecFault::Type("a numeric dict key"@))
            },
            None => Some(CodecFault::Type("a numeric dict key"@)),
        }
    }

    proof fn text_reads_back(&self, other: Self) {
        decimal_reads_back(*self as int, false);
    }

    fn encode_key(&self) -> (r: Result<String, TermCodecError>) {
        Ok(decimal_text(*self as i128))
    }

    fn decode_key(value: &str) -> (r: Result<Self, TermCodecError>) {
        match parse_unsigned(value, u8::MAX as u64) {
            Some(n) => Ok(n as u8),
            None => Err(TermCodecError::Type { expected: "a numeric dict key" }),
        }
    }

    fn same_key(&self, other: &Self) -> (r: bool) {
        proof {
            decimal_reads_back(*self as int, false);
            decimal_reads_back(*other as int, false);
        }
        *self == *other
    }
}

impl TermMapKey for u16 {
    open spec fn text(&self) -> Seq<char> {
        decimal(*self as int)
    }

    open spec fn text_reads(text: Seq<char>, key: Self) -> bool {
        integer_value(text, false) == Some(key as int)
    }

    open spec fn text_fault(text: Seq<char>) -> Option<CodecFault> {
        match integer_value(text, false) {
            Some(n) => if n <= u16::MAX {
                None
            } else {
                Some(CodecFault::Type("a numeric dict key"@))
            },
            None => Some(CodecFault::Type("a numeric dict key"@)),
        }
    }

    proof fn text_reads_back(&self, other: Self) {
        decimal_reads_back(*self as int, false);
    }

    fn encode_key(&self) -> (r: Result<String, TermCodecError>) {
        Ok(decimal_text(*self as i128))
    }

    fn decode_key(value: &str) -> (r: Result<Self, TermCodecError>) {
        match parse_unsigned(value, u16::MAX as u64) {
            Some(n) => Ok(n as u16),
            None => Err(TermCodecError::Type { expected: "a numeric dict key" }),
        }
    }

    fn same_key(&self, other: &Self) -> (r: bool) {
        proof {
            decimal_reads_back(*self as int, false);
            decimal_reads_back(*other as int, false);
        }
        *self == *other
    }
}

impl TermMapKey for u32 {
    open spec fn text(&self) -> Seq<char> {
        decimal(*self as int)
    }

    open spec fn text_reads(text: Seq<char>, key: Self) -> bool {
        integer_value(text, false) == Some(key as int)
    }

    open spec fn text_fault(text: Seq<char>) -> Option<CodecFault> {
        match integer_value(text, false) {
            Some(n) => if n <= u32::MAX {
                None
            } else {
                Some(CodecFault::Type("a numeric dict key"@))
            },
            None => Some(CodecFault::Type("a numeric dict key"@)),
        }
    }

    proof fn text_reads_back(&self, other: Self) {
        decimal_reads_back(*self as int, false);
    }

    fn encode_key(&self) -> (r: Result<String, TermCodecError>) {
        Ok(decimal_text(*self as i128))
    }

    fn decode_key(value: &str) -> (r: Result<Self, TermCodecError>) {
        match parse_unsigned(value, u32::MAX as u64) {
            Some(n) => Ok(n as u32),
            None => Err(TermCodecError::Type { expected: "a numeric dict key" }),
        }
    }

    fn same_key(&self, other: &Self) -> (r: bool) {
        proof {
            decimal_reads_back(*self as int, false);
            decimal_reads_back(*other as int, false);
        }
        *self == *other
    }
}

impl TermMapKey for u64 {
    open spec fn text(&self) -> Seq<char> {
        decimal(*self as int)
    }

    open spec fn text_reads(text: Seq<char>, key: Self) -> bool {
        integer_value(text, false) == Some(key as int)
    }

    open spec fn text_fault(text: Seq<char>) -> Option<CodecFault> {
        match integer_value(text, false) {
            Some(n) => if n <= u64::MAX {
                None
            } else {
                Some(CodecFault::Type("a numeric dict key"@))
            },
            None => Some(CodecFault::Type("a numeric dict key"@)),
        }
    }

    proof fn text_reads_back(&self, other: Self) {
        decimal_reads_back(*self as int, false);
    }

    fn encode_key(&self) -> (r: Result<String, TermCodecError>) {
        Ok(decimal_text(*self as i128))
    }

    fn decode_key(value: &str) -> (r: Result<Self, TermCodecError>) {
        match parse_unsigned(value, u64::MAX as u64) {
            Some(n) => Ok(n as u64),
            None => Err(TermCodecError::Type { expected: "a numeric dict key" }),
        }
    }

    fn same_key(&self, other: &Self) -> (r: bool) {
        proof {
            decimal_reads_back(*self as int, false);
            decimal_reads_back(*other as int, false);
        }
        *self == *other
    }
}

impl TermMapKey for usize {
    open spec fn text(&self) -> Seq<char> {
        decimal(*self as int)
    }

    open spec fn text_reads(text: Seq<char>, key: Self) -> bool {
        integer_value(text, false) == Some(key as int)
    }

    open spec fn text_fault(text: Seq<char>) -> Option<CodecFault> {
        match integer_value(text, false) {
            Some(n) => if n <= usize::MAX {
                None
            } else {
                Some(CodecFault::Type("a numeric dict key"@))
            },
            None => Some(CodecFault::Type("a numeric dict key"@)),
        }
    }

    proof fn text_reads_back(&self, other: Self) {
        decimal_reads_back(*self as int, false);
    }

    fn encode_key(&self) -> (r: Result<String, TermCodecError>) {
        Ok(decimal_text(*self as i128))
    }

    fn decode_key(value: &str) -> (r: Result<Self, TermCodecError>) {
        match parse_unsigned(value, usize::MAX as u64) {
            Some(n) => Ok(n as usize),
            None => Err(TermCodecError::Type { expected: "a numeric dict key" }),
        }
    }

    fn same_key(&self, other: &Self) -> (r: bool) {
        proof {
            decimal_reads_back(*self as int, false);
            decimal_reads_back(*other as int, false);
        }
        *self == *other
    }
}

/// A value that is written as fields.
///
/// A type says which fields stand for its values. One that is not verified may
/// leave that open by keeping the body here, with which no method can be shown
/// to meet its contract.
pub trait ToTermFields {
    /// The fields that stand for the value, or why none do.
    open spec fn encoded_fields(&self) -> Result<Seq<(Seq<char>, Tree)>, CodecFault> {
        arbitrary()
    }

    /// Writes the fields into fresh references.
    fn __to_fields<'a, Ctx: FliContext>(&self, ctx: &'a Ctx, fli: &mut Fli) -> (r: Result<
        Vec<(String, Term<'a>)>,
        TermCodecError,
    >)
        requires
            old(fli)@.at(ctx.place()),
            !(old(fli)@.verdict is Refuse),
        ensures
            grows(old(fli)@, final(fli)@),
            !(final(fli)@.verdict is Refuse),
            r matches Ok(fields) ==> all_live(field_terms(fields@), final(fli)@) && (
            final(fli)@.verdict == old(fli)@.verdict),
            old(fli)@.verdict is Raise ==> match r {
                Ok(fields) => fields@.len() == 0,
                Err(_) => stopped(
                    old(fli)@,
                    r,
                    match self.encoded_fields() {
                        Ok(_) => None,
                        Err(fault) => Some(fault),
                    },
                ),
            },
            old(fli)@.verdict is Grant ==> final(fli)@.verdict is Grant && match self.encoded_fields() {
                Ok(fs) => r matches Ok(fields) && fields_view(fields@, final(fli)@) == fs,
                Err(fault) => r matches Err(e) && e@ == fault,
            },
    ;
}

/// A value that is read from fields.
///
/// A type says which fields stand for its values. One that is not verified may
/// leave that open by keeping the bodies here, with which no method can be
/// shown to meet its contract.
pub trait FromTermFields: Sized {
    /// Whether the fields stand for the value.
    open spec fn fields_read(
        trail: Seq<(usize, Tree)>,
        fields: Seq<(Seq<char>, Tree)>,
        value: Self,
    ) -> bool {
        arbitrary()
    }

    /// Why the fields stand for no value, if they do for none.
    open spec fn fields_fault(
        trail: Seq<(usize, Tree)>,
        fields: Seq<(Seq<char>, Tree)>,
    ) -> Option<CodecFault> {
        arbitrary()
    }

    /// The fields that are left once the value was read.
    open spec fn fields_left(fields: Seq<(Seq<char>, Tree)>) -> Seq<(Seq<char>, Tree)> {
        arbitrary()
    }

    /// Reads the value, and takes out the fields that it used.
    fn __from_fields<'a, Ctx: FliContext>(
        ctx: &'a Ctx,
        fli: &mut Fli,
        fields: &mut Vec<(String, Term<'a>)>,
    ) -> (r: Result<Self, TermCodecError>)
        requires
            old(fli)@.at(ctx.place()),
            all_live(field_terms(old(fields)@), old(fli)@),
            !(old(fli)@.verdict is Refuse),
        ensures
            grows(old(fli)@, final(fli)@),
            !(final(fli)@.verdict is Refuse),
            all_live(field_terms(final(fields)@), final(fli)@),
            r is Ok ==> fields_view(final(fields)@, final(fli)@) == Self::fields_left(
                fields_view(old(fields)@, old(fli)@),
            ),
            old(fli)@.verdict is Raise ==> match r {
                Ok(v) => final(fli)@.verdict == old(fli)@.verdict && Self::fields_read(
                    old(fli)@.trail,
                    fields_view(old(fields)@, old(fli)@),
                    v,
                ) && Self::fields_fault(
                    old(fli)@.trail,
                    fields_view(old(fields)@, old(fli)@),
                ) is None,
                Err(_) => stopped(
                    old(fli)@,
                    r,
                    Self::fields_fault(
                        old(fli)@.trail,
                        fields_view(old(fields)@, old(fli)@),
                    ),
                ),
            },
            old(fli)@.verdict is Grant ==> final(fli)@.verdict is Grant && match Self::fields_fault(
                old(fli)@.trail,
                fields_view(old(fields)@, old(fli)@),
            ) {
                None => r matches Ok(v) && Self::fields_read(
                    old(fli)@.trail,
                    fields_view(old(fields)@, old(fli)@),
                    v,
                ),
                Some(fault) => r matches Err(e) && e@ == fault,
            },
    ;
}

/// A map, as entries of which no two have the same key.
pub struct TermMap<K, V> {
    entries: Vec<(K, V)>,
}

impl<K, V> View for TermMap<K, V> {
    type V = Seq<(K, V)>;

    closed spec fn view(&self) -> Seq<(K, V)> {
        self.entries@
    }
}

/// Where a key stands, if it is there.
pub open spec fn key_position<K: TermMapKey, V>(entries: Seq<(K, V)>, text: Seq<char>) -> Option<
    nat,
>
    decreases entries.len(),
{
    if entries.len() == 0 {
        None
    } else {
        match key_position(entries.drop_last(), text) {
            Some(i) => Some(i),
            None => if entries.last().0.text() == text {
                Some((entries.len() - 1) as nat)
            } else {
                None
            },
        }
    }
}

/// The entries once one more was set: one with the same key is replaced.
pub open spec fn with_pair<K: TermMapKey, V>(entries: Seq<(K, V)>, pair: (K, V)) -> Seq<(K, V)> {
    match key_position(entries, pair.0.text()) {
        Some(i) => entries.update(i as int, pair),
        None => entries.push(pair),
    }
}

/// The entries of the map that collects pairs: of pairs with the same key the
/// last one counts.
pub open spec fn collected<K: TermMapKey, V>(pairs: Seq<(K, V)>) -> Seq<(K, V)>
    decreases pairs.len(),
{
    if pairs.len() == 0 {
        Seq::empty()
    } else {
        with_pair(collected(pairs.drop_last()), pairs.last())
    }
}

/// Whether no two entries have the same key.
pub open spec fn keys_differ<K: TermMapKey, V>(entries: Seq<(K, V)>) -> bool {
    forall|i: int, j: int|
        0 <= i < j < entries.len() ==> (#[trigger] entries[i]).0.text() != (
        #[trigger] entries[j]).0.text()
}

/// A key stands at its position, and at no earlier one.
pub proof fn key_position_holds<K: TermMapKey, V>(entries: Seq<(K, V)>, text: Seq<char>)
    ensures
        key_position(entries, text) matches Some(i) ==> i < entries.len()
            && entries[i as int].0.text() == text,
        key_position(entries, text) is None ==> forall|i: int|
            0 <= i < entries.len() ==> (#[trigger] entries[i]).0.text() != text,
    decreases entries.len(),
{
    if entries.len() > 0 {
        key_position_holds(entries.drop_last(), text);
        assert forall|i: int|
            key_position(entries, text) is None && 0 <= i < entries.len() implies (
        #[trigger] entries[i]).0.text() != text by {
            if i < entries.len() - 1 {
                assert(entries.drop_last()[i] == entries[i]);
            }
        }
    }
}

/// Setting an entry keeps the keys apart.
pub proof fn with_pair_differs<K: TermMapKey, V>(entries: Seq<(K, V)>, pair: (K, V))
    requires
        keys_differ(entries),
    ensures
        keys_differ(with_pair(entries, pair)),
{
    key_position_holds(entries, pair.0.text());
    let after = with_pair(entries, pair);
    assert forall|i: int, j: int| 0 <= i < j < after.len() implies (
    #[trigger] after[i]).0.text() != (#[trigger] after[j]).0.text() by {
        if let Some(p) = key_position(entries, pair.0.text()) {
            assert(entries[i].0.text() != entries[j].0.text());
        } else if j < entries.len() {
            assert(entries[i].0.text() != entries[j].0.text());
        } else {
            assert(entries[i].0.text() != pair.0.text());
        }
    }
}

/// The entries of a map that was collected have different keys.
pub proof fn collected_differs<K: TermMapKey, V>(pairs: Seq<(K, V)>)
    ensures
        keys_differ(collected(pairs)),
    decreases pairs.len(),
{
    if pairs.len() > 0 {
        collected_differs(pairs.drop_last());
        with_pair_differs(collected(pairs.drop_last()), pairs.last());
    }
}

/// An entry among the first ones stands where it does among all.
proof fn key_position_stays<K: TermMapKey, V>(entries: Seq<(K, V)>, text: Seq<char>, n: int)
    requires
        0 <= n <= entries.len(),
        key_position(entries.take(n), text) is Some,
    ensures
        key_position(entries, text) == key_position(entries.take(n), text),
    decreases entries.len(),
{
    if n == entries.len() {
        assert(entries.take(n) =~= entries);
    } else {
        assert(entries.drop_last().take(n) =~= entries.take(n));
        key_position_stays(entries.drop_last(), text, n);
    }
}

impl<K: TermMapKey, V> TermMap<K, V> {
    /// A map without entries.
    pub fn new() -> (r: TermMap<K, V>)
        ensures
            r@ == Seq::<(K, V)>::empty(),
    {
        TermMap { entries: Vec::new() }
    }

    /// How many entries there are.
    pub fn len(&self) -> (r: usize)
        ensures
            r == self@.len(),
    {
        self.entries.len()
    }

    /// The entries, in the order in which their keys first came.
    pub fn entries(&self) -> (r: &Vec<(K, V)>)
        ensures
            r@ == self@,
    {
        &self.entries
    }

    /// Where a key stands, or the number of entries if it is not there.
    fn position(&self, key: &K) -> (r: usize)
        ensures
            r <= self@.len(),
            key_position(self@, key.text()) == if r < self@.len() {
                Some(r as nat)
            } else {
                None
            },
    {
        let mut i: usize = 0;
        assert(self.entries@.take(0) =~= Seq::empty());
        while i < self.entries.len()
            invariant
                i <= self.entries@.len(),
                key_position(self.entries@.take(i as int), key.text()) is None,
            decreases self.entries@.len() - i,
        {
            proof {
                assert(self.entries@.take(i + 1).drop_last() =~= self.entries@.take(i as int));
            }
            if self.entries[i].0.same_key(key) {
                proof {
                    key_position_stays(self.entries@, key.text(), i + 1);
                }
                return i;
            }
            i = i + 1;
        }
        assert(self.entries@.take(i as int) =~= self.entries@);
        i
    }

    /// The value of a key, if it is there.
    pub fn get(&self, key: &K) -> (r: Option<&V>)
        ensures
            match key_position(self@, key.text()) {
                Some(i) => r matches Some(v) && *v == self@[i as int].1,
                None => r is None,
            },
    {
        let at: usize = self.position(key);
        if at < self.entries.len() {
            Some(&self.entries[at].1)
        } else {
            None
        }
    }

    /// Sets the value of a key.
    pub fn insert(&mut self, key: K, value: V)
        ensures
            final(self)@ == with_pair(old(self)@, (key, value)),
    {
        let at: usize = self.position(&key);
        if at < self.entries.len() {
            self.entries.set(at, (key, value));
        } else {
            self.entries.push((key, value));
        }
    }
}

/// The fields that stand for a map's entries, or why the first one that has
/// none has none. An entry whose value is left out as a field is left out.
pub open spec fn encoded_pairs<K: TermMapKey, V: ToTerm>(entries: Seq<(K, V)>) -> Result<
    Seq<(Seq<char>, Tree)>,
    CodecFault,
>
    decreases entries.len(),
{
    if entries.len() == 0 {
        Ok(Seq::empty())
    } else {
        match encoded_pairs(entries.drop_last()) {
            Err(fault) => Err(fault),
            Ok(before) => match entries.last().1.encoded_field() {
                Err(fault) => Err(fault),
                Ok(Some(t)) => Ok(before.push((entries.last().0.text(), t))),
                Ok(None) => Ok(before),
            },
        }
    }
}

/// An entry without a field leaves the whole without fields.
proof fn pair_fault_stays<K: TermMapKey, V: ToTerm>(entries: Seq<(K, V)>, n: int)
    requires
        0 <= n <= entries.len(),
        encoded_pairs(entries.take(n)) is Err,
    ensures
        encoded_pairs(entries) == encoded_pairs(entries.take(n)),
    decreases entries.len(),
{
    if n == entries.len() {
        assert(entries.take(n) =~= entries);
    } else {
        assert(entries.drop_last().take(n) =~= entries.take(n));
        pair_fault_stays(entries.drop_last(), n);
    }
}

impl<K: TermMapKey, V: ToTerm> ToTermFields for TermMap<K, V> {
    open spec fn encoded_fields(&self) -> Result<Seq<(Seq<char>, Tree)>, CodecFault> {
        encoded_pairs(self@)
    }

    fn __to_fields<'a, Ctx: FliContext>(&self, ctx: &'a Ctx, fli: &mut Fli) -> (r: Result<
        Vec<(String, Term<'a>)>,
        TermCodecError,
    >) {
        let ghost all = self.entries@;
        let mut out: Vec<(String, Term<'a>)> = Vec::new();
        let mut i: usize = 0;
        proof {
            assert(all.take(0) =~= Seq::empty());
            assert(fields_view(out@, fli@) =~= Seq::empty());
        }
        while i < self.entries.len()
            invariant
                i <= self.entries@.len(),
                all == self.entries@,
                old(fli)@.at(ctx.place()),
                !(old(fli)@.verdict is Refuse),
                grows(old(fli)@, fli@),
                fli@.verdict == old(fli)@.verdict,
                old(fli)@.verdict is Raise ==> i == 0,
                all_live(field_terms(out@), fli@),
                encoded_pairs(all.take(i as int)) == Ok::<Seq<(Seq<char>, Tree)>, CodecFault>(
                    fields_view(out@, fli@),
                ),
            decreases self.entries@.len() - i,
        {
            let ghost before = fli@;
            let ghost done = out@;
            proof {
                assert(all.take(i + 1).drop_last() =~= all.take(i as int));
                assert(all.take(i + 1).last() == all[i as int]);
            }
            let term: Term<'a> = match ctx.term(fli) {
                Ok(term) => term,
                Err(error) => {
                    return Err(TermCodecError::Term(error));
                },
            };
            let written: bool = match self.entries[i].1.__to_field(ctx, fli, term) {
                Ok(written) => written,
                Err(error) => {
                    proof {
                        pair_fault_stays(all, i + 1);
                    }
                    return Err(error);
                },
            };
            if written {
                match self.entries[i].0.encode_key() {
                    Ok(key) => {
                        out.push((key, term));
                    },
                    Err(error) => {
                        return Err(error);
                    },
                }
            }
            proof {
                assert forall|k: int| 0 <= k < field_terms(out@).len() implies (
                #[trigger] field_terms(out@)[k]).live(fli@) by {
                    if k < done.len() {
                        assert(field_terms(done)[k].live(before));
                    }
                }
                let field = (all[i as int].0.text(), fli@.refs[term.raw() as int]);
                assert(fields_view(out@, fli@) =~= if written {
                    fields_view(done, before).push(field)
                } else {
                    fields_view(done, before)
                }) by {
                    assert forall|k: int| 0 <= k < done.len() implies fields_view(
                        out@,
                        fli@,
                    )[k] == fields_view(done, before)[k] by {
                        assert(field_terms(done)[k].live(before));
                    }
                }
            }
            i = i + 1;
        }
        assert(all.take(i as int) =~= all);
        Ok(out)
    }
}

/// The names of fields.
pub open spec fn names(fields: Seq<(Seq<char>, Tree)>) -> Seq<Seq<char>> {
    Seq::new(fields.len(), |i: int| fields[i].0)
}

/// The values of fields.
pub open spec fn values(fields: Seq<(Seq<char>, Tree)>) -> Seq<Tree> {
    Seq::new(fields.len(), |i: int| fields[i].1)
}

/// The dict of fields, no two of which may have the same name.
pub open spec fn fields_tree(tag: Seq<char>, fields: Seq<(Seq<char>, Tree)>) -> Result<
    Tree,
    CodecFault,
> {
    match repeated_key(names(fields)) {
        Some(key) => Err(CodecFault::DuplicateField(key)),
        None => Ok(dict_tree(tag, names(fields), values(fields))),
    }
}

/// Makes `dest` the dict of a value's fields.
pub fn put_fields<Ctx: FliContext, T: ToTermFields>(
    ctx: &Ctx,
    fli: &mut Fli,
    dest: Term<'_>,
    tag: &str,
    value: &T,
) -> (r: Result<(), TermCodecError>)
    requires
        old(fli)@.at(ctx.place()),
        dest.live(old(fli)@),
        !(old(fli)@.verdict is Refuse),
    ensures
        overwrites(old(fli)@, final(fli)@, dest.raw()),
        !(final(fli)@.verdict is Refuse),
        old(fli)@.verdict is Raise ==> stopped(old(fli)@, r, match value.encoded_fields() {
            Ok(_) => None,
            Err(fault) => Some(fault),
        }),
        old(fli)@.verdict is Grant ==> final(fli)@.verdict is Grant && match (
        match value.encoded_fields() {
            Ok(fields) => fields_tree(tag@, fields),
            Err(fault) => Err(fault),
        }) {
            Ok(t) => r is Ok && final(fli)@.refs[dest.raw() as int] == t,
            Err(fault) => r matches Err(e) && e@ == fault,
        },
{
    let fields: Vec<(String, Term<'_>)> = match value.__to_fields(ctx, fli) {
        Ok(fields) => fields,
        Err(error) => {
            return Err(error);
        },
    };
    proof {
        let fs = fields_view(fields@, fli@);
        assert(names(fs) =~= field_keys(fields@));
        assert(values(fs) =~= held_by(field_terms(fields@), fli@));
    }
    put_dict(ctx, fli, dest, tag, fields)
}

impl<K: TermMapKey, V: ToTerm> ToTerm for TermMap<K, V> {
    open spec fn encoded(&self) -> Result<Tree, CodecFault> {
        match self.encoded_fields() {
            Ok(fields) => fields_tree("#"@, fields),
            Err(fault) => Err(fault),
        }
    }

    open spec fn encoded_field(&self) -> Result<Option<Tree>, CodecFault> {
        always_field(self.encoded())
    }

    fn to_term<Ctx: FliContext>(&self, ctx: &Ctx, fli: &mut Fli, term: Term<'_>) -> (r: Result<
        (),
        TermCodecError,
    >) {
        put_fields(ctx, fli, term, "#", self)
    }

    fn __to_field<Ctx: FliContext>(&self, ctx: &Ctx, fli: &mut Fli, term: Term<'_>) -> (r: Result<
        bool,
        TermCodecError,
    >) {
        match self.to_term(ctx, fli, term) {
            Ok(()) => Ok(true),
            Err(error) => Err(error),
        }
    }
}

/// Why fields stand for no entries, if they do for none: the first key or value
/// that does for none.
pub open spec fn pairs_fault<K: TermMapKey, V: FromTerm>(
    trail: Seq<(usize, Tree)>,
    fields: Seq<(Seq<char>, Tree)>,
) -> Option<CodecFault>
    decreases fields.len(),
{
    if fields.len() == 0 {
        None
    } else {
        match pairs_fault::<K, V>(trail, fields.drop_last()) {
            Some(fault) => Some(fault),
            None => match K::text_fault(fields.last().0) {
                Some(fault) => Some(fault),
                None => V::read_field_fault(trail, Some(fields.last().1), fields.last().0),
            },
        }
    }
}

/// A field that stands for no entry leaves the whole without entries.
proof fn read_pair_fault_stays<K: TermMapKey, V: FromTerm>(
    trail: Seq<(usize, Tree)>,
    fields: Seq<(Seq<char>, Tree)>,
    n: int,
)
    requires
        0 <= n <= fields.len(),
        pairs_fault::<K, V>(trail, fields.take(n)) is Some,
    ensures
        pairs_fault::<K, V>(trail, fields) == pairs_fault::<K, V>(trail, fields.take(n)),
    decreases fields.len(),
{
    if n == fields.len() {
        assert(fields.take(n) =~= fields);
    } else {
        assert(fields.drop_last().take(n) =~= fields.take(n));
        read_pair_fault_stays::<K, V>(trail, fields.drop_last(), n);
    }
}

/// Whether each pair is what the field at its place stands for.
pub open spec fn pairs_read<K: TermMapKey, V: FromTerm>(
    trail: Seq<(usize, Tree)>,
    fields: Seq<(Seq<char>, Tree)>,
    pairs: Seq<(K, V)>,
) -> bool {
    pairs.len() == fields.len() && forall|i: int|
        0 <= i < pairs.len() ==> K::text_reads(fields[i].0, (#[trigger] pairs[i]).0)
            && V::reads_field(trail, Some(fields[i].1), pairs[i].1)
}

impl<K: TermMapKey, V: FromTerm> FromTermFields for TermMap<K, V> {
    open spec fn fields_read(
        trail: Seq<(usize, Tree)>,
        fields: Seq<(Seq<char>, Tree)>,
        value: Self,
    ) -> bool {
        exists|pairs: Seq<(K, V)>| #[trigger]
            pairs_read(trail, fields, pairs) && value@ == collected(pairs)
    }

    open spec fn fields_fault(
        trail: Seq<(usize, Tree)>,
        fields: Seq<(Seq<char>, Tree)>,
    ) -> Option<CodecFault> {
        pairs_fault::<K, V>(trail, fields)
    }

    open spec fn fields_left(fields: Seq<(Seq<char>, Tree)>) -> Seq<(Seq<char>, Tree)> {
        Seq::empty()
    }

    fn __from_fields<'a, Ctx: FliContext>(
        ctx: &'a Ctx,
        fli: &mut Fli,
        fields: &mut Vec<(String, Term<'a>)>,
    ) -> (r: Result<Self, TermCodecError>)
        ensures
            final(fields)@.len() == 0,
    {
        let ghost trail = fli@.trail;
        let ghost view = fields_view(fields@, fli@);
        let mut taken: Vec<(String, Term<'a>)> = Vec::new();
        std::mem::swap(&mut taken, fields);
        let mut out: TermMap<K, V> = TermMap::new();
        let ghost mut pairs: Seq<(K, V)> = Seq::empty();
        let mut i: usize = 0;
        assert(view.take(0) =~= Seq::empty());
        while i < taken.len()
            invariant
                i <= taken@.len(),
                fields@.len() == 0,
                trail == old(fli)@.trail,
                view == fields_view(taken@, old(fli)@),
                view == fields_view(old(fields)@, old(fli)@),
                all_live(field_terms(taken@), old(fli)@),
                old(fli)@.at(ctx.place()),
                !(old(fli)@.verdict is Refuse),
                grows(old(fli)@, fli@),
                fli@.verdict == old(fli)@.verdict,
                pairs_fault::<K, V>(trail, view.take(i as int)) is None,
                pairs_read(trail, view.take(i as int), pairs),
                out@ == collected(pairs),
            decreases taken@.len() - i,
        {
            let ghost before = pairs;
            proof {
                assert(view.take(i + 1).drop_last() =~= view.take(i as int));
                assert(view.take(i + 1).last() == view[i as int]);
                assert(field_terms(taken@)[i as int].live(old(fli)@));
            }
            let key: K = match K::decode_key(taken[i].0.as_str()) {
                Ok(key) => key,
                Err(error) => {
                    proof {
                        if pairs_fault::<K, V>(trail, view.take(i + 1)) is Some {
                            read_pair_fault_stays::<K, V>(trail, view, i + 1);
                        }
                    }
                    return Err(error);
                },
            };
            let value: V = match V::__from_field(
                ctx,
                fli,
                Some(taken[i].1),
                taken[i].0.as_str(),
            ) {
                Ok(value) => value,
                Err(error) => {
                    proof {
                        if pairs_fault::<K, V>(trail, view.take(i + 1)) is Some {
                            read_pair_fault_stays::<K, V>(trail, view, i + 1);
                        }
                    }
                    return Err(error);
                },
            };
            proof {
                pairs = before.push((key, value));
                assert(pairs.drop_last() =~= before);
                assert forall|k: int| 0 <= k < pairs.len() implies K::text_reads(
                    view.take(i + 1)[k].0,
                    (#[trigger] pairs[k]).0,
                ) && V::reads_field(trail, Some(view.take(i + 1)[k].1), pairs[k].1) by {
                    if k < before.len() {
                        assert(pairs[k] == before[k]);
                        assert(view.take(i as int)[k] == view.take(i + 1)[k]);
                    }
                }
            }
            out.insert(key, value);
            i = i + 1;
        }
        assert(view.take(i as int) =~= view);
        assert(fields_view(fields@, fli@) =~= Seq::empty());
        Ok(out)
    }
}

/// Why a term is not a dict of fields, if it is none.
pub open spec fn map_fault<T: FromTermFields>(trail: Seq<(usize, Tree)>, t: Tree) -> Option<
    CodecFault,
> {
    match resolve(trail, t) {
        Tree::Dict(tag, entries) => T::fields_fault(trail, fields_of(in_order(entries))),
        _ => Some(CodecFault::Term(TermError::TypeMismatch { expected: "a dict" })),
    }
}

impl<K: TermMapKey, V: FromTerm> FromTerm for TermMap<K, V> {
    open spec fn reads(trail: Seq<(usize, Tree)>, t: Tree, value: Self) -> bool {
        resolve(trail, t) matches Tree::Dict(tag, entries) && Self::fields_read(
            trail,
            fields_of(in_order(entries)),
            value,
        )
    }

    open spec fn read_fault(trail: Seq<(usize, Tree)>, t: Tree) -> Option<CodecFault> {
        map_fault::<TermMap<K, V>>(trail, t)
    }

    open spec fn reads_field(trail: Seq<(usize, Tree)>, t: Option<Tree>, value: Self) -> bool {
        t matches Some(present) && Self::reads(trail, present, value)
    }

    open spec fn read_field_fault(
        trail: Seq<(usize, Tree)>,
        t: Option<Tree>,
        name: Seq<char>,
    ) -> Option<CodecFault> {
        required_field_fault(
            match t {
                Some(present) => Self::read_fault(trail, present),
                None => None,
            },
            t,
            name,
        )
    }

    fn from_term<Ctx: FliContext>(ctx: &Ctx, fli: &mut Fli, term: Term<'_>) -> (r: Result<
        Self,
        TermCodecError,
    >) {
        let mut fields: Vec<(String, Term<'_>)> = match dict_fields(ctx, fli, term) {
            Ok(fields) => fields,
            Err(error) => {
                return Err(error);
            },
        };
        TermMap::__from_fields(ctx, fli, &mut fields)
    }

    fn __from_field<Ctx: FliContext>(
        ctx: &Ctx,
        fli: &mut Fli,
        term: Option<Term<'_>>,
        name: &str,
    ) -> (r: Result<Self, TermCodecError>) {
        match term {
            Some(present) => Self::from_term(ctx, fli, present),
            None => Err(TermCodecError::MissingField { field: name.to_owned() }),
        }
    }
}

} // verus!
