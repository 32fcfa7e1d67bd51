//! Laws of lists, arrays and maps: what they are written as, and which terms are
//! read as them.

use vstd::prelude::*;

use crate::codec::lists::{encoded_items, encoded_list, items_fault};
use crate::codec::maps::{
    collected, encoded_pairs, fields_tree, key_position, key_position_holds, names, pairs_fault,
    pairs_read, values, with_pair, FromTermFields, TermMap, TermMapKey,
};
use crate::codec::{fields_of, list_tree, no_repeated_key, repeated_key, CodecFault, FromTerm, ToTerm};
use crate::data::{Key, Tree};
use crate::dict::{dict_tree, in_order};
use crate::fli::resolve;
use crate::list::{element_at, shape_is, shape_of};
use crate::term::{kind_of, ListShape, TermError, TermKind};
use crate::text::{decimal_reads_back, integer_value};

verus! {

/// A list is written element by element: it is written exactly if each element
/// is, and then it is the list of what they are written as.
pub proof fn lists_are_written_element_by_element<T: ToTerm>(items: Seq<T>, ts: Seq<Tree>)
    ensures
        encoded_items(items) == Ok::<Seq<Tree>, CodecFault>(ts) <==> ts.len() == items.len()
            && forall|i: int|
            0 <= i < items.len() ==> (#[trigger] items[i]).encoded() == Ok::<Tree, CodecFault>(
                ts[i],
            ),
        encoded_items(items) == Ok::<Seq<Tree>, CodecFault>(ts) ==> encoded_list(items) == Ok::<
            Tree,
            CodecFault,
        >(list_tree(ts)),
        encoded_items(items) matches Err(fault) ==> encoded_list(items) == Err::<Tree, CodecFault>(
            fault,
        ),
    decreases items.len(),
{
    if items.len() > 0 {
        let front = items.drop_last();
        if encoded_items(items) == Ok::<Seq<Tree>, CodecFault>(ts) {
            let before = encoded_items(front)->Ok_0;
            lists_are_written_element_by_element(front, before);
            assert forall|i: int| 0 <= i < items.len() implies (#[trigger] items[i]).encoded()
                == Ok::<Tree, CodecFault>(ts[i]) by {
                if i < front.len() {
                    assert(front[i].encoded() == Ok::<Tree, CodecFault>(before[i]));
                }
            }
        }
        if ts.len() == items.len() && (forall|i: int|
            0 <= i < items.len() ==> (#[trigger] items[i]).encoded() == Ok::<Tree, CodecFault>(
                ts[i],
            )) {
            let before = ts.drop_last();
            assert forall|i: int| 0 <= i < front.len() implies (#[trigger] front[i]).encoded()
                == Ok::<Tree, CodecFault>(before[i]) by {
                assert(items[i].encoded() == Ok::<Tree, CodecFault>(ts[i]));
            }
            lists_are_written_element_by_element(front, before);
            assert(items[items.len() - 1].encoded() == Ok::<Tree, CodecFault>(ts.last()));
            assert(before.push(ts.last()) =~= ts);
        }
    } else {
        if ts.len() == 0 {
            assert(ts =~= Seq::empty());
        }
    }
}

/// A list that cannot be written fails as its first element that cannot be.
pub proof fn lists_fail_as_their_first_faulty_element<T: ToTerm>(items: Seq<T>)
    ensures
        encoded_items(items) matches Err(fault) ==> exists|i: int|
            0 <= i < items.len() && (#[trigger] items[i]).encoded() == Err::<Tree, CodecFault>(
                fault,
            ) && forall|k: int| 0 <= k < i ==> (#[trigger] items[k]).encoded() is Ok,
    decreases items.len(),
{
    if let Err(fault) = encoded_items(items) {
        let front = items.drop_last();
        if encoded_items(front) is Err {
            lists_fail_as_their_first_faulty_element(front);
            let i = choose|i: int|
                0 <= i < front.len() && (#[trigger] front[i]).encoded() == Err::<Tree, CodecFault>(
                    fault,
                ) && forall|k: int| 0 <= k < i ==> (#[trigger] front[k]).encoded() is Ok;
            assert(items[i] == front[i]);
            assert forall|k: int| 0 <= k < i implies (#[trigger] items[k]).encoded() is Ok by {
                assert(front[k].encoded() is Ok);
            }
        } else {
            let before = encoded_items(front)->Ok_0;
            lists_are_written_element_by_element(front, before);
            assert forall|k: int| 0 <= k < items.len() - 1 implies (
            #[trigger] items[k]).encoded() is Ok by {
                assert(front[k].encoded() is Ok);
            }
            assert(items[items.len() - 1].encoded() == Err::<Tree, CodecFault>(fault));
        }
    }
}

/// The elements of a term that are read as `T` from the first to the n-th.
proof fn items_are_read<T: FromTerm>(trail: Seq<(usize, Tree)>, t: Tree, n: nat)
    ensures
        items_fault::<T>(trail, t, n) is None <==> forall|i: nat|
            i < n ==> T::read_fault(trail, (#[trigger] element_at(trail, t, i))->0) is None,
        items_fault::<T>(trail, t, n) matches Some(fault) ==> exists|i: nat|
            i < n && T::read_fault(trail, (#[trigger] element_at(trail, t, i))->0) == Some(fault)
                && forall|k: nat|
                k < i ==> T::read_fault(trail, (#[trigger] element_at(trail, t, k))->0) is None,
    decreases n,
{
    if n > 0 {
        let m = (n - 1) as nat;
        items_are_read::<T>(trail, t, m);
        let last = element_at(trail, t, m)->0;
        if items_fault::<T>(trail, t, m) is Some {
            let fault = items_fault::<T>(trail, t, m)->0;
            let i = choose|i: nat|
                i < m && T::read_fault(trail, (#[trigger] element_at(trail, t, i))->0) == Some(
                    fault,
                ) && forall|k: nat|
                    k < i ==> T::read_fault(trail, (#[trigger] element_at(trail, t, k))->0) is None;
            assert(T::read_fault(trail, element_at(trail, t, i)->0) is Some);
        } else if T::read_fault(trail, last) is Some {
            assert(T::read_fault(trail, element_at(trail, t, m)->0) is Some);
        }
    }
}

/// A proper list is read exactly if each of its elements is; it fails as the
/// first that is not. Any other term is told by the kind of list that it is.
pub proof fn lists_are_read_element_by_element<T: FromTerm>(
    trail: Seq<(usize, Tree)>,
    t: Tree,
    len: usize,
)
    ensures
        shape_of(trail, t) == (ListShape::Proper { len }) ==> (<Vec<T> as FromTerm>::read_fault(
            trail,
            t,
        ) is None <==> forall|i: nat|
            i < len ==> T::read_fault(trail, (#[trigger] element_at(trail, t, i))->0) is None),
        shape_of(trail, t) == (ListShape::Proper { len }) ==> (<Vec<T> as FromTerm>::read_fault(
            trail,
            t,
        ) matches Some(fault) ==> exists|i: nat|
            i < len && T::read_fault(trail, (#[trigger] element_at(trail, t, i))->0) == Some(fault)
                && forall|k: nat|
                k < i ==> T::read_fault(trail, (#[trigger] element_at(trail, t, k))->0) is None),
        !(shape_of(trail, t) is Proper) ==> <Vec<T> as FromTerm>::read_fault(trail, t) == Some(
            CodecFault::Term(TermError::NotAProperList(shape_of(trail, t))),
        ),
{
    items_are_read::<T>(trail, t, len as nat);
}

/// An array is written as the list of its elements, and read from a list that
/// can be read and has exactly its length; another length is told beside its
/// own.
pub proof fn arrays_have_their_length<T: ToTerm + FromTerm, const N: usize>(
    trail: Seq<(usize, Tree)>,
    t: Tree,
    len: usize,
    value: [T; N],
    items: Vec<T>,
)
    ensures
        <[T; N] as FromTerm>::read_fault(trail, t) is None <==> <Vec<T> as FromTerm>::read_fault(
            trail,
            t,
        ) is None && shape_of(trail, t) == (ListShape::Proper { len: N }),
        <Vec<T> as FromTerm>::read_fault(trail, t) matches Some(fault) ==> <[
            T;
            N
        ] as FromTerm>::read_fault(trail, t) == Some(fault),
        <Vec<T> as FromTerm>::read_fault(trail, t) is None && shape_of(trail, t) == (
        ListShape::Proper { len }) && len != N ==> <[T; N] as FromTerm>::read_fault(trail, t)
            == Some(CodecFault::ArityMismatch(N as nat, len as nat)),
        value.encoded() == encoded_list(value@),
        items.encoded() == encoded_list(items@),
{
}


/// The field of a list, an array or a map must be there.
pub proof fn collection_fields_must_be_there<T: FromTerm, K: TermMapKey, const N: usize>(
    trail: Seq<(usize, Tree)>,
    t: Tree,
    name: Seq<char>,
)
    ensures
        <Vec<T> as FromTerm>::read_field_fault(trail, None, name) == Some(
            CodecFault::MissingField(name),
        ),
        <[T; N] as FromTerm>::read_field_fault(trail, None, name) == Some(
            CodecFault::MissingField(name),
        ),
        <TermMap<K, T> as FromTerm>::read_field_fault(trail, None, name) == Some(
            CodecFault::MissingField(name),
        ),
        <(T,) as FromTerm>::read_field_fault(trail, None, name) == Some(
            CodecFault::MissingField(name),
        ),
        <(T, T) as FromTerm>::read_field_fault(trail, None, name) == Some(
            CodecFault::MissingField(name),
        ),
        <Vec<T> as FromTerm>::read_field_fault(trail, Some(t), name) == <Vec<
            T,
        > as FromTerm>::read_fault(trail, t),
        <[T; N] as FromTerm>::read_field_fault(trail, Some(t), name) == <[
            T;
            N
        ] as FromTerm>::read_fault(trail, t),
        <TermMap<K, T> as FromTerm>::read_field_fault(trail, Some(t), name) == <TermMap<
            K,
            T,
        > as FromTerm>::read_fault(trail, t),
{
}

/// Texts and booleans are keys as they are written out; a text of two is a
/// boolean key.
pub proof fn texts_and_booleans_are_keys(text: Seq<char>, key: String, flag: bool)
    ensures
        key.text() == key@,
        <String as TermMapKey>::text_fault(text) is None,
        <String as TermMapKey>::text_reads(text, key) <==> key@ == text,
        true.text() == "true"@,
        false.text() == "false"@,
        <bool as TermMapKey>::text_fault(text) is None <==> text == "true"@ || text == "false"@,
        <bool as TermMapKey>::text_fault(text) matches Some(fault) ==> fault == CodecFault::Type(
            "a boolean dict key"@,
        ),
        <bool as TermMapKey>::text_reads("true"@, flag) <==> flag,
        <bool as TermMapKey>::text_reads("false"@, flag) <==> !flag,
{
    reveal_strlit("true");
    reveal_strlit("false");
    assert("true"@.len() == 4 && "false"@.len() == 5);
}

/// An integer is a key as it is written out, and a text is an integer key
/// exactly if it denotes an integer of the type; another text is told to be no
/// number.
pub proof fn integers_are_keys(
    text: Seq<char>,
    value: int,
    a_i8: i8,
    a_i16: i16,
    a_i32: i32,
    a_i64: i64,
    a_isize: isize,
    a_u8: u8,
    a_u16: u16,
    a_u32: u32,
    a_u64: u64,
    a_usize: usize,
)
    ensures
        integer_value(a_i8.text(), true) == Some(a_i8 as int),
        integer_value(text, true) == Some(value) ==> (<i8 as TermMapKey>::text_fault(text) is None <==> i8::MIN <= value <= i8::MAX),
        integer_value(text, true) == Some(value) ==> (<i8 as TermMapKey>::text_reads(text, a_i8) <==> a_i8 == value),
        integer_value(text, true) is None ==> <i8 as TermMapKey>::text_fault(text) is Some,
        <i8 as TermMapKey>::text_fault(text) matches Some(fault) ==> fault == CodecFault::Type(
            "a numeric dict key"@,
        ),
        integer_value(a_i16.text(), true) == Some(a_i16 as int),
        integer_value(text, true) == Some(value) ==> (<i16 as TermMapKey>::text_fault(text) is None <==> i16::MIN <= value <= i16::MAX),
        integer_value(text, true) == Some(value) ==> (<i16 as TermMapKey>::text_reads(text, a_i16) <==> a_i16 == value),
        integer_value(text, true) is None ==> <i16 as TermMapKey>::text_fault(text) is Some,
        <i16 as TermMapKey>::text_fault(text) matches Some(fault) ==> fault == CodecFault::Type(
            "a numeric dict key"@,
        ),
        integer_value(a_i32.text(), true) == Some(a_i32 as int),
        integer_value(text, true) == Some(value) ==> (<i32 as TermMapKey>::text_fault(text) is None <==> i32::MIN <= value <= i32::MAX),
        integer_value(text, true) == Some(value) ==> (<i32 as TermMapKey>::text_reads(text, a_i32) <==> a_i32 == value),
        integer_value(text, true) is None ==> <i32 as TermMapKey>::text_fault(text) is Some,
        <i32 as TermMapKey>::text_fault(text) matches Some(fault) ==> fault == CodecFault::Type(
            "a numeric dict key"@,
        ),
        integer_value(a_i64.text(), true) == Some(a_i64 as int),
        integer_value(text, true) == Some(value) ==> (<i64 as TermMapKey>::text_fault(text) is None <==> i64::MIN <= value <= i64::MAX),
        integer_value(text, true) == Some(value) ==> (<i64 as TermMapKey>::text_reads(text, a_i64) <==> a_i64 == value),
        integer_value(text, true) is None ==> <i64 as TermMapKey>::text_fault(text) is Some,
        <i64 as TermMapKey>::text_fault(text) matches Some(fault) ==> fault == CodecFault::Type(
            "a numeric dict key"@,
        ),
        integer_value(a_isize.text(), true) == Some(a_isize as int),
        integer_value(text, true) == Some(value) ==> (<isize as TermMapKey>::text_fault(text) is None <==> isize::MIN <= value <= isize::MAX),
        integer_value(text, true) == Some(value) ==> (<isize as TermMapKey>::text_reads(text, a_isize) <==> a_isize == value),
        integer_value(text, true) is None ==> <isize as TermMapKey>::text_fault(text) is Some,
        <isize as TermMapKey>::text_fault(text) matches Some(fault) ==> fault == CodecFault::Type(
            "a numeric dict key"@,
        ),
        integer_value(a_u8.text(), false) == Some(a_u8 as int),
        integer_value(text, false) == Some(value) ==> (<u8 as TermMapKey>::text_fault(text) is None <==> u8::MIN <= value <= u8::MAX),
        integer_value(text, false) == Some(value) ==> (<u8 as TermMapKey>::text_reads(text, a_u8) <==> a_u8 == value),
        integer_value(text, false) is None ==> <u8 as TermMapKey>::text_fault(text) is Some,
        <u8 as TermMapKey>::text_fault(text) matches Some(fault) ==> fault == CodecFault::Type(
            "a numeric dict key"@,
        ),
        integer_value(a_u16.text(), false) == Some(a_u16 as int),
        integer_value(text, false) == Some(value) ==> (<u16 as TermMapKey>::text_fault(text) is None <==> u16::MIN <= value <= u16::MAX),
        integer_value(text, false) == Some(value) ==> (<u16 as TermMapKey>::text_reads(text, a_u16) <==> a_u16 == value),
        integer_value(text, false) is None ==> <u16 as TermMapKey>::text_fault(text) is Some,
        <u16 as TermMapKey>::text_fault(text) matches Some(fault) ==> fault == CodecFault::Type(
            "a numeric dict key"@,
        ),
        integer_value(a_u32.text(), false) == Some(a_u32 as int),
        integer_value(text, false) == Some(value) ==> (<u32 as TermMapKey>::text_fault(text) is None <==> u32::MIN <= value <= u32::MAX),
        integer_value(text, false) == Some(value) ==> (<u32 as TermMapKey>::text_reads(text, a_u32) <==> a_u32 == value),
        integer_value(text, false) is None ==> <u32 as TermMapKey>::text_fault(text) is Some,
        <u32 as TermMapKey>::text_fault(text) matches Some(fault) ==> fault == CodecFault::Type(
            "a numeric dict key"@,
        ),
        integer_value(a_u64.text(), false) == Some(a_u64 as int),
        integer_value(text, false) == Some(value) ==> (<u64 as TermMapKey>::text_fault(text) is None <==> u64::MIN <= value <= u64::MAX),
        integer_value(text, false) == Some(value) ==> (<u64 as TermMapKey>::text_reads(text, a_u64) <==> a_u64 == value),
        integer_value(text, false) is None ==> <u64 as TermMapKey>::text_fault(text) is Some,
        <u64 as TermMapKey>::text_fault(text) matches Some(fault) ==> fault == CodecFault::Type(
            "a numeric dict key"@,
        ),
        integer_value(a_usize.text(), false) == Some(a_usize as int),
        integer_value(text, false) == Some(value) ==> (<usize as TermMapKey>::text_fault(text) is None <==> usize::MIN <= value <= usize::MAX),
        integer_value(text, false) == Some(value) ==> (<usize as TermMapKey>::text_reads(text, a_usize) <==> a_usize == value),
        integer_value(text, false) is None ==> <usize as TermMapKey>::text_fault(text) is Some,
        <usize as TermMapKey>::text_fault(text) matches Some(fault) ==> fault == CodecFault::Type(
            "a numeric dict key"@,
        ),
{
    decimal_reads_back(a_i8 as int, true);
    decimal_reads_back(a_i16 as int, true);
    decimal_reads_back(a_i32 as int, true);
    decimal_reads_back(a_i64 as int, true);
    decimal_reads_back(a_isize as int, true);
    decimal_reads_back(a_u8 as int, false);
    decimal_reads_back(a_u16 as int, false);
    decimal_reads_back(a_u32 as int, false);
    decimal_reads_back(a_u64 as int, false);
    decimal_reads_back(a_usize as int, false);
    unsigned_texts(text);
}

proof fn unsigned_texts(text: Seq<char>)
    ensures
        integer_value(text, false) matches Some(n) ==> n >= 0,
{
}

/// A map is written entry by entry in its order: an entry whose value is left
/// out is left out, and one whose value cannot be written is the fault of the
/// map unless an earlier one is.
pub proof fn maps_are_written_entry_by_entry<K: TermMapKey, V: ToTerm>(
    entries: Seq<(K, V)>,
    key: K,
    value: V,
    before: Seq<(Seq<char>, Tree)>,
    t: Tree,
)
    ensures
        encoded_pairs(Seq::<(K, V)>::empty()) == Ok::<Seq<(Seq<char>, Tree)>, CodecFault>(
            Seq::empty(),
        ),
        encoded_pairs(entries) == Ok::<Seq<(Seq<char>, Tree)>, CodecFault>(before) ==> {
            let more = encoded_pairs(entries.push((key, value)));
            &&& value.encoded_field() == Ok::<Option<Tree>, CodecFault>(Some(t)) ==> more == Ok::<
                Seq<(Seq<char>, Tree)>,
                CodecFault,
            >(before.push((key.text(), t)))
            &&& value.encoded_field() == Ok::<Option<Tree>, CodecFault>(None) ==> more == Ok::<
                Seq<(Seq<char>, Tree)>,
                CodecFault,
            >(before)
            &&& value.encoded_field() matches Err(fault) ==> more == Err::<
                Seq<(Seq<char>, Tree)>,
                CodecFault,
            >(fault)
        },
        encoded_pairs(entries) matches Err(fault) ==> encoded_pairs(entries.push((key, value)))
            == Err::<Seq<(Seq<char>, Tree)>, CodecFault>(fault),
{
    assert(entries.push((key, value)).drop_last() =~= entries);
    assert(entries.push((key, value)).last() == (key, value));
}

/// A map is a dict with the tag `#`; a struct or variant is one with its own.
/// No two fields may have one name: the error tells a name that two have.
pub proof fn fields_make_a_dict(tag: Seq<char>, fields: Seq<(Seq<char>, Tree)>)
    ensures
        fields_tree(tag, fields) is Ok <==> forall|i: int, j: int|
            0 <= i < j < fields.len() ==> (#[trigger] fields[i]).0 != (#[trigger] fields[j]).0,
        fields_tree(tag, fields) is Ok ==> fields_tree(tag, fields) == Ok::<Tree, CodecFault>(
            dict_tree(tag, names(fields), values(fields)),
        ),
        fields_tree(tag, fields) matches Err(fault) ==> exists|i: int, j: int|
            0 <= i < j < fields.len() && (#[trigger] fields[i]).0 == (#[trigger] fields[j]).0
                && fault == CodecFault::DuplicateField(fields[i].0),
{
    let keys = names(fields);
    match repeated_key(keys) {
        None => {
            no_repeated_key(keys);
            assert forall|i: int, j: int| 0 <= i < j < fields.len() implies (
            #[trigger] fields[i]).0 != (#[trigger] fields[j]).0 by {
                assert(keys[i] != keys[j]);
            }
        },
        Some(key) => {
            let (i, j) = a_key_repeats(keys);
            assert(keys[i] == fields[i].0 && keys[j] == fields[j].0);
        },
    }
}

proof fn a_key_repeats(keys: Seq<Seq<char>>) -> (at: (int, int))
    requires
        repeated_key(keys) is Some,
    ensures
        0 <= at.0 < at.1 < keys.len(),
        keys[at.0] == repeated_key(keys)->0,
        keys[at.1] == repeated_key(keys)->0,
    decreases keys.len(),
{
    let front = keys.drop_last();
    if repeated_key(front) is Some {
        a_key_repeats(front)
    } else {
        let i = choose|i: int| 0 <= i < front.len() && front[i] == keys.last();
        (i, keys.len() - 1)
    }
}

/// A map is written under the tag `#`, and as the dict of its entries.
pub proof fn maps_are_untagged_dicts<K: TermMapKey, V: ToTerm>(
    map: TermMap<K, V>,
    fields: Seq<(Seq<char>, Tree)>,
)
    ensures
        encoded_pairs(map@) == Ok::<Seq<(Seq<char>, Tree)>, CodecFault>(fields) && repeated_key(
            names(fields),
        ) is None ==> map.encoded() == Ok::<Tree, CodecFault>(
            dict_tree("#"@, names(fields), values(fields)),
        ),
        encoded_pairs(map@) matches Err(fault) ==> map.encoded() == Err::<Tree, CodecFault>(fault),
{
}

/// A dict is read as a map field by field: the first field whose key or whose
/// value is not readable is the fault, and the key of a field comes before its
/// value.
pub proof fn maps_are_read_field_by_field<K: TermMapKey, V: FromTerm>(
    trail: Seq<(usize, Tree)>,
    fields: Seq<(Seq<char>, Tree)>,
    key: Seq<char>,
    t: Tree,
    fault: CodecFault,
)
    ensures
        pairs_fault::<K, V>(trail, Seq::empty()) is None,
        pairs_fault::<K, V>(trail, fields) == Some(fault) ==> pairs_fault::<K, V>(
            trail,
            fields.push((key, t)),
        ) == Some(fault),
        pairs_fault::<K, V>(trail, fields) is None && K::text_fault(key) == Some(fault)
            ==> pairs_fault::<K, V>(trail, fields.push((key, t))) == Some(fault),
        pairs_fault::<K, V>(trail, fields) is None && K::text_fault(key) is None ==> pairs_fault::<
            K,
            V,
        >(trail, fields.push((key, t))) == V::read_field_fault(trail, Some(t), key),
{
    assert(fields.push((key, t)).drop_last() =~= fields);
    assert(fields.push((key, t)).last() == (key, t));
}

/// Only a dict is read as a map.
pub proof fn only_dicts_are_maps<K: TermMapKey, V: FromTerm>(
    trail: Seq<(usize, Tree)>,
    t: Tree,
    value: TermMap<K, V>,
)
    requires
        kind_of(resolve(trail, t)) != TermKind::Dict,
    ensures
        <TermMap<K, V> as FromTerm>::read_fault(trail, t) == Some(
            CodecFault::Term(TermError::TypeMismatch { expected: "a dict" }),
        ),
        !<TermMap<K, V> as FromTerm>::reads(trail, t, value),
{
}

/// Of pairs with one key the last gives the value, and the first the place; no
/// other pair is touched.
pub proof fn last_pair_wins<K: TermMapKey, V>(entries: Seq<(K, V)>, pair: (K, V), i: int)
    ensures
        collected(Seq::<(K, V)>::empty()).len() == 0,
        collected(entries.push(pair)) == with_pair(collected(entries), pair),
        with_pair(entries, pair).contains(pair),
        0 <= i < entries.len() && entries[i].0.text() != pair.0.text() ==> with_pair(
            entries,
            pair,
        )[i] == entries[i],
        (forall|k: int| 0 <= k < entries.len() ==> (#[trigger] entries[k]).0.text()
            != pair.0.text()) ==> with_pair(entries, pair) == entries.push(pair),
        0 <= i < entries.len() && entries[i].0.text() == pair.0.text() ==> with_pair(
            entries,
            pair,
        ).len() == entries.len(),
{
    assert(entries.push(pair).drop_last() =~= entries);
    assert(entries.push(pair).last() == pair);
    key_position_holds(entries, pair.0.text());
    match key_position(entries, pair.0.text()) {
        Some(p) => {
            assert(with_pair(entries, pair)[p as int] == pair);
        },
        None => {
            assert(with_pair(entries, pair)[entries.len() as int] == pair);
        },
    }
}

/// What a list is read as has its length, and each value is read from the
/// element at its place.
pub proof fn lists_are_read_in_order<T: FromTerm>(
    trail: Seq<(usize, Tree)>,
    t: Tree,
    items: Vec<T>,
    i: int,
)
    requires
        <Vec<T> as FromTerm>::reads(trail, t, items),
    ensures
        shape_of(trail, t) == (ListShape::Proper { len: items@.len() as usize }),
        0 <= i < items@.len() ==> T::reads(trail, element_at(trail, t, i as nat)->0, items@[i]),
{
    shape_is(trail, t, ListShape::Proper { len: items@.len() as usize });
    if 0 <= i < items@.len() {
        let item = items@[i];
    }
}

/// A dict is read as a map whatever its tag is, from all of its entries in the
/// order of their keys; reading a map leaves no field over.
pub proof fn maps_are_read_from_all_entries<K: TermMapKey, V: FromTerm>(
    trail: Seq<(usize, Tree)>,
    tag: Tree,
    entries: Seq<(Key, Tree)>,
    fields: Seq<(Seq<char>, Tree)>,
)
    ensures
        <TermMap<K, V> as FromTerm>::read_fault(trail, Tree::Dict(Box::new(tag), entries))
            == pairs_fault::<K, V>(trail, fields_of(in_order(entries))),
        <TermMap<K, V> as FromTermFields>::fields_fault(trail, fields) == pairs_fault::<K, V>(
            trail,
            fields,
        ),
        <TermMap<K, V> as FromTermFields>::fields_left(fields).len() == 0,
{
}

/// What a map is read as holds exactly the keys and values that its fields stand
/// for: each pair comes from the field at its place.
pub proof fn map_entries_come_from_fields<K: TermMapKey, V: FromTerm>(
    trail: Seq<(usize, Tree)>,
    fields: Seq<(Seq<char>, Tree)>,
    pairs: Seq<(K, V)>,
    i: int,
)
    requires
        pairs_read(trail, fields, pairs),
    ensures
        pairs.len() == fields.len(),
        0 <= i < pairs.len() ==> K::text_reads(fields[i].0, pairs[i].0) && V::reads_field(
            trail,
            Some(fields[i].1),
            pairs[i].1,
        ),
{
    if 0 <= i < pairs.len() {
        let pair = pairs[i];
    }
}

} // verus!
