//! What is serialized is deserialized again.

use vstd::prelude::*;

use crate::codec::list_tree;
use crate::codec::round_trip::list_reads_back;
use crate::data::Tree;
use crate::dict::{
    dict_tree, in_order, keys_distinct, order_is_sorted, order_is_stable, rearranged, zipped,
};
use crate::fli::{resolve, State};
use crate::format::de::{
    any_shown, bool_shown, bytes_of, bytes_shown, enum_shown, i64_shown, key_shown, seq_shown,
    struct_shown, text_entries, text_shown, tuple_struct_shown, u64_shown, Shape, Shown,
};
use crate::format::ser::byte_trees;
use crate::format::Fault;
use crate::list::shape_is;
use crate::term::{compound_reads_back, compound_tree, ListShape};
use crate::text::{decimal, decimal_reads_back, digits_read_back};

verus! {

/// A boolean is read back, also where nothing is known of the target.
pub proof fn bool_reads_back(s: State, value: bool)
    requires
        s.verdict is Grant,
    ensures
        ({
            let t = Tree::Atom(if value { "true"@ } else { "false"@ });
            &&& bool_shown(s, resolve(s.trail, t)) == Ok::<Shown, Fault>(Shown::Bool(value))
            &&& any_shown(s, t) == Ok::<Shown, Fault>(Shown::Bool(value))
        }),
{
    reveal_strlit("true");
    reveal_strlit("false");
    reveal_strlit("on");
    reveal_strlit("off");
    assert("true"@.len() == 4 && "false"@.len() == 5 && "on"@.len() == 2);
}

/// An integer is read back, also where nothing is known of the target.
pub proof fn integer_reads_back(s: State, value: int)
    requires
        s.verdict is Grant,
    ensures
        i64::MIN <= value <= i64::MAX ==> i64_shown(
            s,
            resolve(s.trail, Tree::Integer(value)),
        ) == Ok::<Shown, Fault>(Shown::I64(value)),
        0 <= value <= u64::MAX ==> u64_shown(s, resolve(s.trail, Tree::Integer(value))) == Ok::<
            Shown,
            Fault,
        >(Shown::U64(value)),
        i64::MIN <= value <= i64::MAX ==> any_shown(s, Tree::Integer(value)) == Ok::<
            Shown,
            Fault,
        >(Shown::I64(value)),
        i64::MAX < value <= u64::MAX ==> any_shown(s, Tree::Integer(value)) == Ok::<
            Shown,
            Fault,
        >(Shown::U64(value)),
{
}

/// A text is read back, also where nothing is known of the target.
pub proof fn text_reads_back(s: State, text: Seq<char>)
    requires
        s.verdict is Grant,
    ensures
        text_shown(s, resolve(s.trail, Tree::String(text))) == Ok::<Shown, Fault>(
            Shown::Text(text),
        ),
        any_shown(s, Tree::String(text)) == Ok::<Shown, Fault>(Shown::Text(text)),
{
}

/// The elements of a sequence are read back, also where nothing is known of
/// the target.
pub proof fn sequence_reads_back(s: State, items: Seq<Tree>)
    requires
        s.verdict is Grant,
        items.len() <= usize::MAX,
    ensures
        seq_shown(s, list_tree(items)) == Ok::<Shown, Fault>(Shown::Sequence(items)),
        any_shown(s, list_tree(items)) == Ok::<Shown, Fault>(Shown::Sequence(items)),
{
    list_reads_back(s.trail, items);
    shape_is(s.trail, list_tree(items), ListShape::Proper { len: items.len() as usize });
}

/// Bytes are read back.
pub proof fn bytes_read_back(s: State, bytes: Seq<u8>)
    requires
        s.verdict is Grant,
        bytes.len() <= usize::MAX,
    ensures
        bytes_shown(s, list_tree(byte_trees(bytes))) == Ok::<Shown, Fault>(Shown::Bytes(bytes)),
{
    sequence_reads_back(s, byte_trees(bytes));
    bytes_of_bytes(s.trail, bytes);
}

proof fn bytes_of_bytes(trail: Seq<(usize, Tree)>, bytes: Seq<u8>)
    ensures
        bytes_of(trail, byte_trees(bytes)) == Ok::<Seq<u8>, Fault>(bytes),
    decreases bytes.len(),
{
    if bytes.len() > 0 {
        bytes_of_bytes(trail, bytes.drop_last());
        assert(byte_trees(bytes).drop_last() =~= byte_trees(bytes.drop_last()));
        assert(bytes.drop_last().push(bytes.last()) =~= bytes);
    } else {
        assert(bytes =~= Seq::empty());
    }
}

/// The fields of a tuple struct are read back.
pub proof fn tuple_struct_reads_back(s: State, name: Seq<char>, args: Seq<Tree>)
    requires
        s.verdict is Grant,
    ensures
        tuple_struct_shown(
            s,
            resolve(s.trail, compound_tree(name, args)),
            name,
            args.len(),
        ) == Ok::<Shown, Fault>(Shown::Sequence(args)),
{
    if args.len() > 0 {
        compound_reads_back(name, args);
    } else {
        assert(args =~= Seq::empty());
    }
}

/// Whether the entries are those that keys and values make up, in some order.
pub open spec fn entries_of(
    entries: Seq<(Seq<char>, Tree)>,
    keys: Seq<Seq<char>>,
    values: Seq<Tree>,
) -> bool {
    &&& entries.len() == keys.len()
    &&& forall|i: int| 0 <= i < keys.len() ==> entries.contains((#[trigger] keys[i], values[i]))
}

/// The fields of a struct are read back under its name, and so are a map's
/// entries under `#`.
pub proof fn struct_reads_back(
    s: State,
    name: Seq<char>,
    keys: Seq<Seq<char>>,
    values: Seq<Tree>,
)
    requires
        s.verdict is Grant,
        keys_distinct(keys),
        keys.len() == values.len(),
    ensures
        struct_shown(s, resolve(s.trail, dict_tree(name, keys, values)), name) matches Ok(
            Shown::Entries(entries),
        ) && entries_of(entries, keys, values),
        any_shown(s, dict_tree(name, keys, values)) matches Ok(Shown::Entries(entries))
            && entries_of(entries, keys, values),
{
    let plain = zipped(keys, values);
    let sorted = in_order(plain);
    order_is_sorted(plain);
    order_is_stable(sorted);
    let entries = text_entries(sorted);
    assert forall|i: int| 0 <= i < keys.len() implies entries.contains(
        (#[trigger] keys[i], values[i]),
    ) by {
        let j = rearranged(plain, sorted, i);
        assert(entries[j] == (keys[i], values[i]));
    }
}

/// Each encoding of an enum variant is recognised: the atom, the compound (but
/// for the list cell) and the tagged dict.
pub proof fn variant_reads_back(
    s: State,
    variant: Seq<char>,
    args: Seq<Tree>,
    keys: Seq<Seq<char>>,
    values: Seq<Tree>,
)
    requires
        s.verdict is Grant,
        !(args.len() == 2 && variant == "[|]"@),
    ensures
        enum_shown(s, Tree::Atom(variant)) == Ok::<Shown, Fault>(
            Shown::Variant(Shape::Unit(variant), Tree::Atom(variant)),
        ),
        args.len() > 0 ==> enum_shown(s, compound_tree(variant, args)) == Ok::<Shown, Fault>(
            Shown::Variant(
                Shape::Compound(variant, args.len()),
                compound_tree(variant, args),
            ),
        ),
        enum_shown(s, dict_tree(variant, keys, values)) == Ok::<Shown, Fault>(
            Shown::Variant(Shape::Dict(variant), dict_tree(variant, keys, values)),
        ),
{
}

/// An integer key is read back from its text.
pub proof fn integer_key_reads_back(value: int)
    requires
        i64::MIN <= value <= u64::MAX,
    ensures
        key_shown(decimal(value)) == if value <= i64::MAX {
            Shown::I64(value)
        } else {
            Shown::U64(value)
        },
{
    decimal_reads_back(value, true);
    if value >= 0 {
        decimal_reads_back(value, false);
    }
    reveal_strlit("true");
    reveal_strlit("false");
    digits_read_back(if value < 0 { (-value) as nat } else { value as nat });
    assert("true"@[0] == 't' && "false"@[0] == 'f');
    assert(decimal(value)[0] != 't' && decimal(value)[0] != 'f');
}

} // verus!
