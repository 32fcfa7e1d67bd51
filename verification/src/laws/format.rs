//! Laws of the data format: which terms are shown as what, and which are
//! refused.

use vstd::prelude::*;

use crate::codec::key_text;
use crate::data::{Key, Tree};
use crate::dict::{dict_tree, in_order};
use crate::exception::{PrologException, Verdict};
use crate::fli::{resolve, State};
use crate::format::de::{
    any_shown, bool_shown, byte_of, bytes_of, bytes_shown, dict_tag, enum_shown, float_shown,
    i64_shown, key_fault, key_shown, list_items, map_shown, pending, quoted, read_done, seq_shown,
    struct_shown, text_entries, text_shown, tuple_struct_shown, u64_shown, KeyVisit, Shape, Shown,
    Visit,
};
use crate::format::ser::{
    args_mismatch, built, byte_trees, end_fault, hands_out, key_taken, wrote, SerializeCompound,
    SerializeDict, TermSerializer,
};
use crate::format::{failed, failed_within, failed_writing, Error, Fault};
use crate::list::{element_at, shape_of};
use crate::term::{
    compound_reads_back, compound_tree, kind_of, FliContext, ListShape, Term, TermError,
    TermKind,
};
use crate::text::integer_value;

verus! {

/// A float is shown by its bits, whatever its text is, both where a float is
/// asked for and where nothing is known of the target.
pub proof fn floats_are_shown_by_their_bits(
    s: State,
    bits: u64,
    text: Seq<char>,
    converted: Option<u64>,
)
    requires
        s.verdict is Grant,
    ensures
        any_shown(s, Tree::Float(bits, text)) == Ok::<Shown, Fault>(Shown::Float(bits)),
        float_shown(s, Tree::Float(bits, text), converted) == Ok::<Shown, Fault>(
            Shown::Float(bits),
        ),
{
}

/// A number that is no float is shown as what the engine converts it to, where
/// a float is asked for; where the engine converts it to none, and for terms
/// that are no numbers, there is no float.
pub proof fn other_numbers_are_converted(
    s: State,
    value: int,
    bits: u64,
    text: Seq<char>,
    t: Tree,
    converted: Option<u64>,
)
    requires
        s.verdict is Grant,
    ensures
        float_shown(s, Tree::Integer(value), Some(bits)) == Ok::<Shown, Fault>(Shown::Float(bits)),
        float_shown(s, Tree::Rational(text), Some(bits)) == Ok::<Shown, Fault>(Shown::Float(bits)),
        float_shown(s, Tree::BigInteger(text), Some(bits)) == Ok::<Shown, Fault>(
            Shown::Float(bits),
        ),
        float_shown(s, Tree::Integer(value), None) == Err::<Shown, Fault>(
            Fault::Term(TermError::TypeMismatch { expected: "a float" }),
        ),
        kind_of(t) != TermKind::Float && kind_of(t) != TermKind::Integer && kind_of(t)
            != TermKind::Rational ==> float_shown(s, t, converted) == Err::<Shown, Fault>(
            Fault::Term(TermError::TypeMismatch { expected: "a float" }),
        ),
{
}

/// Where nothing is known of the target, the kind of a term decides what it is
/// shown as: a variable as nothing, `true` and `false` as booleans, other atoms
/// and strings as texts, compounds as their names and arguments. Rationals and
/// blobs are not supported.
pub proof fn kinds_decide_what_is_shown(
    s: State,
    id: usize,
    name: Seq<char>,
    text: Seq<char>,
    args: Seq<Tree>,
)
    requires
        s.verdict is Grant,
    ensures
        kind_of(resolve(s.trail, Tree::Var(id))) == TermKind::Variable ==> any_shown(
            s,
            Tree::Var(id),
        ) == Ok::<Shown, Fault>(Shown::Unit),
        any_shown(s, Tree::Atom("true"@)) == Ok::<Shown, Fault>(Shown::Bool(true)),
        any_shown(s, Tree::Atom("false"@)) == Ok::<Shown, Fault>(Shown::Bool(false)),
        name != "true"@ && name != "false"@ ==> any_shown(s, Tree::Atom(name)) == Ok::<
            Shown,
            Fault,
        >(Shown::Text(name)),
        any_shown(s, Tree::String(text)) == Ok::<Shown, Fault>(Shown::Text(text)),
        args.len() > 0 && !(args.len() == 2 && name == "[|]"@) ==> any_shown(
            s,
            compound_tree(name, args),
        ) == Ok::<Shown, Fault>(Shown::Compound(name, args)),
        any_shown(s, Tree::Nil) == Ok::<Shown, Fault>(Shown::Sequence(Seq::empty())),
        any_shown(s, Tree::Rational(text)) == Err::<Shown, Fault>(
            Fault::UnsupportedTerm(TermKind::Rational),
        ),
        any_shown(s, Tree::Blob(text)) == Err::<Shown, Fault>(
            Fault::UnsupportedTerm(TermKind::Blob),
        ),
        any_shown(s, Tree::BigInteger(text)) == Err::<Shown, Fault>(
            Fault::Term(TermError::TypeMismatch { expected: "an integer fitting u64" }),
        ),
{
    reveal_strlit("true");
    reveal_strlit("false");
    assert("true"@.len() == 4 && "false"@.len() == 5);
    crate::laws::terms::lists_end_where_they_end(s.trail, Tree::Nil);
    assert(list_items(s, Tree::Nil)->Ok_0 =~= Seq::empty());
}

/// A bound variable is shown as what it stands for.
pub proof fn variables_are_shown_as_their_values(s: State, id: usize, t: Tree)
    requires
        resolve(s.trail, Tree::Var(id)) == t,
        kind_of(t) != TermKind::Variable && kind_of(t) != TermKind::Nil && kind_of(t)
            != TermKind::ListPair,
    ensures
        any_shown(s, Tree::Var(id)) == any_shown(s, t),
{
}

/// An integer is shown as one only within the type; where nothing is known of
/// the target it is signed if it can be, else unsigned if it can be, and else
/// not shown.
pub proof fn integers_are_shown_within_their_type(s: State, value: int)
    requires
        s.verdict is Grant,
    ensures
        i64_shown(s, Tree::Integer(value)) is Ok <==> i64::MIN <= value <= i64::MAX,
        u64_shown(s, Tree::Integer(value)) is Ok <==> 0 <= value <= u64::MAX,
        i64_shown(s, Tree::Integer(value)) matches Ok(shown) ==> shown == Shown::I64(value),
        u64_shown(s, Tree::Integer(value)) matches Ok(shown) ==> shown == Shown::U64(value),
        i64_shown(s, Tree::Integer(value)) matches Err(fault) ==> fault == Fault::Term(
            TermError::TypeMismatch { expected: "an integer fitting i64" },
        ),
        u64_shown(s, Tree::Integer(value)) matches Err(fault) ==> fault == Fault::Term(
            TermError::TypeMismatch { expected: "an integer fitting u64" },
        ),
        i64::MIN <= value <= i64::MAX ==> any_shown(s, Tree::Integer(value)) == Ok::<Shown, Fault>(
            Shown::I64(value),
        ),
        i64::MAX < value <= u64::MAX ==> any_shown(s, Tree::Integer(value)) == Ok::<Shown, Fault>(
            Shown::U64(value),
        ),
        !(i64::MIN <= value <= u64::MAX) ==> any_shown(s, Tree::Integer(value)) == Err::<
            Shown,
            Fault,
        >(Fault::Term(TermError::TypeMismatch { expected: "an integer fitting u64" })),
{
}

/// Nothing but a boolean atom is shown as a boolean, nothing but an integer as
/// an integer, and nothing but an atomic term as a text.
pub proof fn other_kinds_are_refused(s: State, t: Tree, name: Seq<char>, text: Seq<char>)
    requires
        s.verdict is Grant,
    ensures
        kind_of(t) != TermKind::Atom ==> bool_shown(s, t) == Err::<Shown, Fault>(
            Fault::Term(TermError::TypeMismatch { expected: "a boolean" }),
        ),
        bool_shown(s, Tree::Atom(name)) is Ok <==> name == "true"@ || name == "on"@ || name
            == "false"@ || name == "off"@,
        bool_shown(s, Tree::Atom("on"@)) == Ok::<Shown, Fault>(Shown::Bool(true)),
        bool_shown(s, Tree::Atom("off"@)) == Ok::<Shown, Fault>(Shown::Bool(false)),
        kind_of(t) != TermKind::Integer ==> i64_shown(s, t) == Err::<Shown, Fault>(
            Fault::Term(TermError::TypeMismatch { expected: "an integer fitting i64" }),
        ),
        kind_of(t) != TermKind::Integer ==> u64_shown(s, t) == Err::<Shown, Fault>(
            Fault::Term(TermError::TypeMismatch { expected: "an integer fitting u64" }),
        ),
        text_shown(s, Tree::Atom(text)) == Ok::<Shown, Fault>(Shown::Text(text)),
        text_shown(s, Tree::String(text)) == Ok::<Shown, Fault>(Shown::Text(text)),
        kind_of(t) == TermKind::Variable || kind_of(t) == TermKind::Compound || kind_of(t)
            == TermKind::ListPair || kind_of(t) == TermKind::Dict ==> text_shown(s, t) == Err::<
            Shown,
            Fault,
        >(
            Fault::Term(
                TermError::TypeMismatch { expected: "an atomic term with a text representation" },
            ),
        ),
{
    crate::laws::terms::four_atoms_are_booleans(name, t);
}

/// A pending exception is what comes of every term that the engine must be
/// asked about, and nothing is shown of it.
pub proof fn pending_exceptions_come_first(
    s: State,
    e: PrologException,
    t: Tree,
    converted: Option<u64>,
    name: Seq<char>,
    len: nat,
    text: Seq<char>,
    bits: u64,
    keys: Seq<Seq<char>>,
    values: Seq<Tree>,
)
    requires
        s.verdict == Verdict::Raise(e),
    ensures
        bool_shown(s, t) == Err::<Shown, Fault>(Fault::Term(TermError::Exception(e))),
        i64_shown(s, t) == Err::<Shown, Fault>(Fault::Term(TermError::Exception(e))),
        u64_shown(s, t) == Err::<Shown, Fault>(Fault::Term(TermError::Exception(e))),
        float_shown(s, t, converted) == Err::<Shown, Fault>(Fault::Term(TermError::Exception(e))),
        text_shown(s, t) == Err::<Shown, Fault>(Fault::Term(TermError::Exception(e))),
        tuple_struct_shown(s, t, name, len) == Err::<Shown, Fault>(
            Fault::Term(TermError::Exception(e)),
        ),
        any_shown(s, Tree::Atom(text)) == Err::<Shown, Fault>(Fault::Term(TermError::Exception(e))),
        any_shown(s, Tree::String(text)) == Err::<Shown, Fault>(
            Fault::Term(TermError::Exception(e)),
        ),
        any_shown(s, Tree::Float(bits, text)) == Err::<Shown, Fault>(
            Fault::Term(TermError::Exception(e)),
        ),
        shape_of(s.trail, t) is Proper ==> seq_shown(s, t) == Err::<Shown, Fault>(
            Fault::Term(TermError::Exception(e)),
        ) && bytes_shown(s, t) == Err::<Shown, Fault>(Fault::Term(TermError::Exception(e))),
        struct_shown(s, dict_tree(name, keys, values), name) == Err::<Shown, Fault>(
            Fault::Term(TermError::Exception(e)),
        ),
        enum_shown(s, Tree::Atom(name)) == Err::<Shown, Fault>(
            Fault::Term(TermError::Exception(e)),
        ),
        pending(s) == Some(Fault::Term(TermError::Exception(e))),
{
}

/// Without an exception nothing is pending.
pub proof fn nothing_pends_without_an_exception(s: State)
    requires
        !(s.verdict is Raise),
    ensures
        pending(s) is None,
{
}

/// A proper list is shown as its elements in their order; any other term is
/// told by the kind of list that it is.
pub proof fn lists_are_shown_as_sequences(s: State, t: Tree, len: usize, i: int)
    requires
        s.verdict is Grant,
    ensures
        shape_of(s.trail, t) == (ListShape::Proper { len }) ==> {
            &&& seq_shown(s, t) matches Ok(Shown::Sequence(items))
            &&& items.len() == len
            &&& 0 <= i < len ==> items[i] == element_at(s.trail, t, i as nat)->0
        },
        !(shape_of(s.trail, t) is Proper) ==> seq_shown(s, t) == Err::<Shown, Fault>(
            Fault::Term(TermError::NotAProperList(shape_of(s.trail, t))),
        ) && bytes_shown(s, t) == Err::<Shown, Fault>(
            Fault::Term(TermError::NotAProperList(shape_of(s.trail, t))),
        ),
{
}

/// A list element is a byte exactly if it is an integer from 0 to 255; a larger
/// one is told by its value.
pub proof fn bytes_are_small_integers(value: int, t: Tree)
    ensures
        0 <= value <= 255 ==> byte_of(Tree::Integer(value)) == Ok::<u8, Fault>(value as u8),
        255 < value <= u64::MAX ==> byte_of(Tree::Integer(value)) == Err::<u8, Fault>(
            Fault::ByteRange(value as u64),
        ),
        !(0 <= value <= u64::MAX) ==> byte_of(Tree::Integer(value)) == Err::<u8, Fault>(
            Fault::Term(TermError::TypeMismatch { expected: "an integer fitting u64" }),
        ),
        kind_of(t) != TermKind::Integer ==> byte_of(t) == Err::<u8, Fault>(
            Fault::Term(TermError::TypeMismatch { expected: "an integer fitting u64" }),
        ),
{
}

/// Bytes are read element by element, and the first element that is none is the
/// fault.
pub proof fn bytes_are_read_in_turn(
    trail: Seq<(usize, Tree)>,
    items: Seq<Tree>,
    value: int,
    t: Tree,
    bytes: Seq<u8>,
)
    ensures
        bytes_of(trail, Seq::empty()) == Ok::<Seq<u8>, Fault>(Seq::empty()),
        bytes_of(trail, items) == Ok::<Seq<u8>, Fault>(bytes) && 0 <= value <= 255 ==> bytes_of(
            trail,
            items.push(Tree::Integer(value)),
        ) == Ok::<Seq<u8>, Fault>(bytes.push(value as u8)),
        bytes_of(trail, items) == Ok::<Seq<u8>, Fault>(bytes) && kind_of(resolve(trail, t))
            != TermKind::Integer ==> bytes_of(trail, items.push(t)) is Err,
        bytes_of(trail, items) matches Err(fault) ==> bytes_of(trail, items.push(t)) == Err::<
            Seq<u8>,
            Fault,
        >(fault),
{
    assert(items.push(t).drop_last() =~= items);
    assert(items.push(Tree::Integer(value)).drop_last() =~= items);
}

/// Bytes are written as integers one for one.
pub proof fn bytes_are_written_as_integers(bytes: Seq<u8>, i: int)
    ensures
        byte_trees(bytes).len() == bytes.len(),
        0 <= i < bytes.len() ==> byte_trees(bytes)[i] == Tree::Integer(bytes[i] as int),
{
}

/// The compound `other(args..)` is shown as the tuple struct `name` of some
/// length exactly if that is its name and its number of arguments, and then as
/// the arguments; otherwise the fault tells both.
pub proof fn tuple_structs_are_shown_under_their_name(
    s: State,
    name: Seq<char>,
    other: Seq<char>,
    args: Seq<Tree>,
    len: nat,
    t: Tree,
)
    requires
        s.verdict is Grant,
    ensures
        tuple_struct_shown(s, compound_tree(other, args), name, len) is Ok <==> other == name
            && args.len() == len,
        tuple_struct_shown(s, compound_tree(other, args), name, len) matches Ok(shown) ==> shown
            == Shown::Sequence(args),
        tuple_struct_shown(s, compound_tree(other, args), name, len) matches Err(fault) ==> fault
            == Fault::Functor(name, len, other, args.len()),
        kind_of(t) != TermKind::Atom && kind_of(t) != TermKind::Compound && kind_of(t)
            != TermKind::ListPair && kind_of(t) != TermKind::Dict ==> tuple_struct_shown(
            s,
            t,
            name,
            len,
        ) == Err::<Shown, Fault>(
            Fault::Term(TermError::TypeMismatch { expected: "a compound term" }),
        ),
{
    if args.len() > 0 {
        compound_reads_back(other, args);
    } else {
        assert(args =~= Seq::empty());
    }
}

/// A dict is shown as the struct `name` exactly if its tag is `name`: the fault
/// tells the other tag, or that there is none. Anything but a dict is refused.
pub proof fn structs_are_shown_under_their_tag(
    s: State,
    name: Seq<char>,
    tag: Seq<char>,
    keys: Seq<Seq<char>>,
    values: Seq<Tree>,
    id: usize,
    entries: Seq<(Key, Tree)>,
    t: Tree,
)
    requires
        s.verdict is Grant,
    ensures
        struct_shown(s, dict_tree(tag, keys, values), name) is Ok <==> tag == name,
        tag == name ==> struct_shown(s, dict_tree(tag, keys, values), name) == map_shown(
            s,
            dict_tree(tag, keys, values),
        ),
        tag != name ==> struct_shown(s, dict_tree(tag, keys, values), name) == Err::<Shown, Fault>(
            Fault::DictTag(name, Some(tag)),
        ),
        kind_of(resolve(s.trail, Tree::Var(id))) == TermKind::Variable ==> struct_shown(
            s,
            Tree::Dict(Box::new(Tree::Var(id)), entries),
            name,
        ) == Err::<Shown, Fault>(Fault::DictTag(name, None)),
        kind_of(t) != TermKind::Variable && kind_of(t) != TermKind::Atom ==> struct_shown(
            s,
            Tree::Dict(Box::new(t), entries),
            name,
        ) == Err::<Shown, Fault>(Fault::Term(TermError::TypeMismatch { expected: "an atom" })),
        kind_of(t) != TermKind::Dict ==> struct_shown(s, t, name) == Err::<Shown, Fault>(
            Fault::Term(TermError::TypeMismatch { expected: "a dict" }),
        ) && map_shown(s, t) == Err::<Shown, Fault>(
            Fault::Term(TermError::TypeMismatch { expected: "a dict" }),
        ),
        dict_tag(s, dict_tree(tag, keys, values)) == Ok::<Option<Seq<char>>, Fault>(Some(tag)),
{
}

/// A map is shown as its entries in the order of the keys, each under the text
/// of its key, whatever the tag is.
pub proof fn maps_are_shown_in_key_order(s: State, tag: Tree, entries: Seq<(Key, Tree)>, i: int)
    requires
        s.verdict is Grant,
    ensures
        map_shown(s, Tree::Dict(Box::new(tag), entries)) == Ok::<Shown, Fault>(
            Shown::Entries(text_entries(entries)),
        ),
        any_shown(s, Tree::Dict(Box::new(tag), entries)) == map_shown(
            s,
            Tree::Dict(Box::new(tag), entries),
        ),
        text_entries(entries).len() == in_order(entries).len(),
        0 <= i < in_order(entries).len() ==> text_entries(entries)[i].0 == key_text(
            in_order(entries)[i].0,
        ) && text_entries(entries)[i].1 == in_order(entries)[i].1,
{
}

/// An empty dict is shown even while an exception is pending.
pub proof fn empty_maps_ask_nothing(s: State, tag: Tree)
    ensures
        map_shown(s, Tree::Dict(Box::new(tag), Seq::empty())) == Ok::<Shown, Fault>(
            Shown::Entries(Seq::empty()),
        ),
{
    assert(text_entries(Seq::empty()) =~= Seq::empty());
}

/// A term is shown as the variant that it names: an atom without fields, a
/// compound with as many as it has arguments, a dict by its tag. A dict without
/// a tag, and every other term, is no variant.
pub proof fn variants_are_shown_by_name(
    s: State,
    name: Seq<char>,
    args: Seq<Tree>,
    keys: Seq<Seq<char>>,
    values: Seq<Tree>,
    id: usize,
    entries: Seq<(Key, Tree)>,
    t: Tree,
)
    requires
        s.verdict is Grant,
    ensures
        enum_shown(s, Tree::Atom(name)) == Ok::<Shown, Fault>(
            Shown::Variant(Shape::Unit(name), Tree::Atom(name)),
        ),
        args.len() > 0 && !(args.len() == 2 && name == "[|]"@) ==> enum_shown(
            s,
            compound_tree(name, args),
        ) == Ok::<Shown, Fault>(
            Shown::Variant(Shape::Compound(name, args.len()), compound_tree(name, args)),
        ),
        enum_shown(s, dict_tree(name, keys, values)) == Ok::<Shown, Fault>(
            Shown::Variant(Shape::Dict(name), dict_tree(name, keys, values)),
        ),
        kind_of(resolve(s.trail, Tree::Var(id))) == TermKind::Variable ==> enum_shown(
            s,
            Tree::Dict(Box::new(Tree::Var(id)), entries),
        ) == Err::<Shown, Fault>(Fault::DictTag("an enum variant"@, None)),
        kind_of(resolve(s.trail, t)) != TermKind::Atom && kind_of(resolve(s.trail, t))
            != TermKind::Compound && kind_of(resolve(s.trail, t)) != TermKind::Dict
            ==> enum_shown(s, t) == Err::<Shown, Fault>(Fault::Type("enum"@)),
        enum_shown(s, t) matches Ok(Shown::Variant(shape, held)) ==> held == t,
        Shape::Unit(name).variant() == name,
        Shape::Compound(name, args.len()).variant() == name,
        Shape::Dict(name).variant() == name,
{
}

/// A key is shown as a boolean or as an integer where it is the text of one, and
/// else as itself.
pub proof fn keys_are_shown_as_what_they_denote(key: Seq<char>, value: int)
    ensures
        key_shown("true"@) == Shown::Bool(true),
        key_shown("false"@) == Shown::Bool(false),
        key != "true"@ && key != "false"@ && integer_value(key, true) == Some(value) && i64::MIN
            <= value <= i64::MAX ==> key_shown(key) == Shown::I64(value),
        key != "true"@ && key != "false"@ && integer_value(key, true) is None && integer_value(
            key,
            false,
        ) is None ==> key_shown(key) == Shown::Text(key),
        key_shown(key) matches Shown::Bool(flag) ==> key == if flag { "true"@ } else { "false"@ },
        key_shown(key) matches Shown::I64(n) ==> integer_value(key, true) == Some(n) && i64::MIN
            <= n <= i64::MAX,
        key_shown(key) matches Shown::U64(n) ==> integer_value(key, false) == Some(n) && n
            <= u64::MAX,
        key_shown(key) matches Shown::Text(text) ==> text == key,
{
    reveal_strlit("true");
    reveal_strlit("false");
    assert("true"@.len() == 4 && "false"@.len() == 5);
}

/// The fault of a key names the key, in quotes, and what it is not.
pub proof fn key_faults_name_the_key(key: Seq<char>, expected: Seq<char>)
    ensures
        key_fault(key, expected) == Fault::Message(
            "dict key "@ + quoted(key) + " is not a "@ + expected,
        ),
{
}

/// What was written is what the reference holds afterwards, and no other
/// reference has changed; the step says that something was written.
pub proof fn what_was_written_is_there(
    before: State,
    after: State,
    raw: usize,
    other: usize,
    t: Tree,
    r: Result<bool, Error>,
)
    requires
        before.verdict is Grant,
        raw < before.refs.len(),
        other < before.refs.len(),
        other != raw,
        wrote(before, after, raw, t, r) || built(before, after, raw, t, r),
    ensures
        r == Ok::<bool, Error>(true),
        after.value(raw) == resolve(before.trail, t),
        after.value(other) == before.value(other),
        after.trail == before.trail,
        after.verdict is Grant,
{
}

/// A step that fails with a pending exception hands that exception on and takes
/// it from the engine.
pub proof fn failing_steps_hand_the_exception_on(
    before: State,
    after: State,
    raw: usize,
    t: Tree,
    e: PrologException,
    r: Result<bool, Error>,
)
    requires
        before.verdict == Verdict::Raise(e),
        wrote(before, after, raw, t, r) || built(before, after, raw, t, r) || failed(
            before,
            after,
            r,
        ) || failed_within(before, after, r) || failed_writing(before, after, raw, r),
    ensures
        r matches Err(error) && error@ == Fault::Term(TermError::Exception(e)),
        after.verdict is Grant,
        after.trail == before.trail,
        after.marks == before.marks,
        forall|i: int|
            0 <= i < before.refs.len() && i != raw ==> #[trigger] after.refs[i] == before.refs[i],
{
}

/// Keys and values alternate: a second key is refused and changes nothing, and a
/// map may not end behind a key.
pub proof fn keys_and_values_alternate(
    first: String,
    second: String,
    after: Option<String>,
    r: Result<(), Error>,
)
    ensures
        key_taken(None, after, first, r) <==> r is Ok && after == Some(first),
        key_taken(Some(first), after, second, r) ==> r == Err::<(), Error>(
            Error::MapKeyOrder("serialized"),
        ) && after == Some(first),
        end_fault(None) is None,
        end_fault(Some(first)) == Some(Error::MapKeyWithoutValue),
{
}

/// Arguments that are too few or too many are told by both numbers.
pub proof fn argument_counts_are_told(expected: nat, actual: nat)
    ensures
        args_mismatch(expected, actual) == Fault::ArityMismatch(
            "the argument list"@,
            expected,
            actual,
        ),
{
}

/// A step that reads yields exactly what is to be shown, or exactly its fault,
/// and leaves every earlier reference as it was.
pub proof fn steps_yield_what_is_shown<'x, 'f, Ctx: FliContext>(
    before: State,
    after: State,
    ctx: &'x Ctx,
    shown: Result<Shown, Fault>,
    r: Result<Visit<'x, 'f, Ctx>, Error>,
    raw: usize,
)
    requires
        read_done(before, after, ctx, shown, r),
        raw < before.refs.len(),
    ensures
        shown matches Ok(value) ==> (r matches Ok(visit) && visit.shown(after) == value),
        shown matches Err(fault) ==> (r matches Err(error) && error@ == fault),
        after.value(raw) == before.value(raw),
        before.verdict is Grant ==> after.verdict is Grant,
{
}

/// What a step shows is the value that it carries.
pub proof fn visits_show_what_they_carry<'x, 'f, Ctx: FliContext>(
    s: State,
    flag: bool,
    signed: i64,
    unsigned: u64,
    bits: u64,
    text: String,
    bytes: Vec<u8>,
)
    ensures
        Visit::<'x, 'f, Ctx>::Unit.shown(s) == Shown::Unit,
        Visit::<'x, 'f, Ctx>::Bool(flag).shown(s) == Shown::Bool(flag),
        Visit::<'x, 'f, Ctx>::I64(signed).shown(s) == Shown::I64(signed as int),
        Visit::<'x, 'f, Ctx>::U64(unsigned).shown(s) == Shown::U64(unsigned as int),
        Visit::<'x, 'f, Ctx>::Float(bits).shown(s) == Shown::Float(bits),
        Visit::<'x, 'f, Ctx>::Text(text).shown(s) == Shown::Text(text@),
        Visit::<'x, 'f, Ctx>::Bytes(bytes).shown(s) == Shown::Bytes(bytes@),
        KeyVisit::Bool(flag).shown() == Shown::Bool(flag),
        KeyVisit::I64(signed).shown() == Shown::I64(signed as int),
        KeyVisit::U64(unsigned).shown() == Shown::U64(unsigned as int),
        KeyVisit::Text(text).shown() == Shown::Text(text@),
{
}

/// A nested value is written into a new reference, which holds a new variable;
/// it may be absent only where the step says so.
pub proof fn nested_values_have_their_own_reference<'x, Ctx: FliContext>(
    before: State,
    after: State,
    ctx: &'x Ctx,
    option_allowed: bool,
    r: Result<TermSerializer<'x, 'x, Ctx>, Error>,
)
    requires
        hands_out(before, after, ctx, option_allowed, r),
        before.verdict is Grant,
        before.refs.len() < usize::MAX,
    ensures
        r matches Ok(child) && child.term.live(after) && !child.term.live(before)
            && child.option_allowed == option_allowed,
        after.refs.len() == before.refs.len() + 1,
        after.refs.last() is Var,
        after.fresh == before.fresh + 1,
{
}

/// A compound is begun with as many new references as it has fields, none of
/// them written yet; a dict is begun empty, under its tag.
pub proof fn nested_terms_begin_empty<'x, 'f, Ctx: FliContext>(
    before: State,
    after: State,
    ctx: &'x Ctx,
    term: Term<'f>,
    name: Seq<char>,
    len: nat,
    r: Result<SerializeCompound<'x, 'f, Ctx>, Error>,
    dict: SerializeDict<'x, 'f, Ctx>,
)
    ensures
        before.verdict is Grant && SerializeCompound::opens(before, after, ctx, term, name, len, r)
            ==> (r matches Ok(c) && c.name@ == name && c.term == term && c.index == 0
            && c.args.count() == len && c.args.live(after) && after.refs.len() == before.refs.len()
            + len),
        dict.starts(ctx, term, name) ==> dict.tag@ == name && dict.term == term
            && dict.entries@.len() == 0 && dict.pending_key is None,
{
}

} // verus!
