//! Laws of terms: what is built is what is read.

use vstd::prelude::*;

use crate::codec::list_tree;
use crate::data::{Key, KeyData, TermData, Tree};
use crate::dict::dict_tree;
use crate::fli::{
    binding, binding_none, binding_some, bound_by, resolve, resolved_to_the_end, walk, State,
};
use crate::list::{element_at, has_shape, shape_is, shape_of, spine_breaks, spine_opens, tail_after};
use crate::term::{
    atomic_text, bool_value, compound_parts, compound_reads_back, compound_tree, float_value,
    int_value, kind_of, ListShape, TermKind,
};
use crate::text::{decimal_reads_back, integer_value};

verus! {

/// Every atomic term has a text: names and strings are their own, a number has
/// the one that denotes it or that the engine renders for it, and the empty
/// list is `[]`.
pub proof fn atomic_terms_have_their_text(text: Seq<char>, value: int, bits: u64)
    ensures
        atomic_text(Tree::Atom(text)) == Some(text),
        atomic_text(Tree::String(text)) == Some(text),
        atomic_text(Tree::Float(bits, text)) == Some(text),
        atomic_text(Tree::Rational(text)) == Some(text),
        atomic_text(Tree::BigInteger(text)) == Some(text),
        atomic_text(Tree::Integer(value)) matches Some(digits) && integer_value(digits, true)
            == Some(value),
        atomic_text(Tree::Nil) == Some("[]"@),
{
    decimal_reads_back(value, true);
}

/// Variables and terms with parts have no text.
pub proof fn other_terms_have_no_text(
    id: usize,
    head: Tree,
    tail: Tree,
    name: Seq<char>,
    args: Seq<Tree>,
    keys: Seq<Seq<char>>,
    values: Seq<Tree>,
)
    ensures
        atomic_text(Tree::Var(id)) is None,
        atomic_text(Tree::Pair(Box::new(head), Box::new(tail))) is None,
        args.len() > 0 ==> atomic_text(compound_tree(name, args)) is None,
        atomic_text(dict_tree(name, keys, values)) is None,
{
}

/// A term is a boolean exactly if it is one of four atoms: `true` and `on` are
/// true, `false` and `off` are false. A string is none.
pub proof fn four_atoms_are_booleans(name: Seq<char>, t: Tree)
    ensures
        bool_value(Tree::Atom("true"@)) == Some(true),
        bool_value(Tree::Atom("on"@)) == Some(true),
        bool_value(Tree::Atom("false"@)) == Some(false),
        bool_value(Tree::Atom("off"@)) == Some(false),
        bool_value(Tree::Atom(name)) is Some ==> name == "true"@ || name == "on"@ || name
            == "false"@ || name == "off"@,
        bool_value(t) is Some ==> kind_of(t) == TermKind::Atom,
{
    reveal_strlit("true");
    reveal_strlit("false");
    reveal_strlit("on");
    reveal_strlit("off");
    assert("true"@.len() == 4 && "false"@.len() == 5 && "on"@.len() == 2 && "off"@.len() == 3);
}

/// A term is an integer within bounds exactly if it is that integer; nothing
/// else is one, whatever its text is.
pub proof fn integers_are_read_within_bounds(t: Tree, value: int, low: int, high: int)
    ensures
        low <= value <= high <==> int_value(Tree::Integer(value), low, high) == Some(value),
        !(low <= value <= high) <==> int_value(Tree::Integer(value), low, high) is None,
        int_value(t, low, high) matches Some(n) ==> t == Tree::Integer(n),
{
}

/// A float is read as its own bits, whatever the engine would convert; another
/// number as what the engine converts it to; nothing else as a float.
pub proof fn floats_keep_their_bits(
    bits: u64,
    text: Seq<char>,
    value: int,
    converted: Option<u64>,
    t: Tree,
)
    ensures
        float_value(Tree::Float(bits, text), converted) == Some(bits),
        float_value(Tree::Integer(value), converted) == converted,
        float_value(Tree::Rational(text), converted) == converted,
        float_value(Tree::BigInteger(text), converted) == converted,
        float_value(t, converted) is Some ==> kind_of(t) == TermKind::Float || kind_of(t)
            == TermKind::Integer || kind_of(t) == TermKind::Rational,
{
}

/// Each term is of the kind that it was built as.
pub proof fn terms_have_their_kind(
    id: usize,
    text: Seq<char>,
    value: int,
    bits: u64,
    head: Tree,
    rest: Tree,
    args: Seq<Tree>,
    keys: Seq<Seq<char>>,
    values: Seq<Tree>,
)
    ensures
        kind_of(Tree::Var(id)) == TermKind::Variable,
        kind_of(Tree::Atom(text)) == TermKind::Atom,
        kind_of(Tree::Integer(value)) == TermKind::Integer,
        kind_of(Tree::BigInteger(text)) == TermKind::Integer,
        kind_of(Tree::Rational(text)) == TermKind::Rational,
        kind_of(Tree::Float(bits, text)) == TermKind::Float,
        kind_of(Tree::String(text)) == TermKind::String,
        kind_of(Tree::Blob(text)) == TermKind::Blob,
        kind_of(list_tree(Seq::empty())) == TermKind::Nil,
        kind_of(list_tree(seq![head] + args)) == TermKind::ListPair,
        kind_of(Tree::Pair(Box::new(head), Box::new(rest))) == TermKind::ListPair,
        kind_of(compound_tree("[|]"@, seq![head, rest])) == TermKind::ListPair,
        args.len() == 0 ==> kind_of(compound_tree(text, args)) == TermKind::Atom,
        args.len() > 0 && !(args.len() == 2 && text == "[|]"@) ==> kind_of(
            compound_tree(text, args),
        ) == TermKind::Compound,
        kind_of(dict_tree(text, keys, values)) == TermKind::Dict,
{
    assert((seq![head] + args).len() > 0);
}

/// Compounds are equal exactly if their names and arguments are, and a term
/// that is no compound has no parts.
pub proof fn compounds_are_told_apart(
    name: Seq<char>,
    args: Seq<Tree>,
    other: Seq<char>,
    others: Seq<Tree>,
    text: Seq<char>,
)
    ensures
        compound_tree(name, args) == compound_tree(other, others) <==> name == other && args
            == others,
        compound_parts(Tree::Atom(text)) is None,
        compound_parts(Tree::String(text)) is None,
        compound_parts(Tree::Nil) is None,
        compound_parts(compound_tree(name, args)) is Some <==> args.len() > 0,
{
    if args.len() > 0 {
        compound_reads_back(name, args);
    }
    if others.len() > 0 {
        compound_reads_back(other, others);
    }
    if args.len() == 0 && others.len() == 0 {
        assert(args =~= others);
    }
}

/// What follows the first cell of a list is what its tail is.
proof fn tail_of_cell(trail: Seq<(usize, Tree)>, head: Tree, tail: Tree, n: nat)
    ensures
        tail_after(trail, Tree::Pair(Box::new(head), Box::new(tail)), n + 1) == tail_after(
            trail,
            tail,
            n,
        ),
    decreases n,
{
    let cell = Tree::Pair(Box::new(head), Box::new(tail));
    if n == 0 {
        assert(tail_after(trail, cell, 0) == Some(cell));
        assert(resolve(trail, cell) == cell);
    } else {
        tail_of_cell(trail, head, tail, (n - 1) as nat);
    }
}

/// A list cell holds its head, and behind it the elements of its tail; it is a
/// proper, partial or cyclic list as its tail is, and an improper one where the
/// tail is no list.
pub proof fn cells_extend_lists(
    trail: Seq<(usize, Tree)>,
    head: Tree,
    tail: Tree,
    n: nat,
    len: usize,
)
    ensures
        ({
            let cell = Tree::Pair(Box::new(head), Box::new(tail));
            &&& element_at(trail, cell, 0) == Some(head)
            &&& element_at(trail, cell, n + 1) == element_at(trail, tail, n)
            &&& len < usize::MAX && has_shape(trail, tail, ListShape::Proper { len })
                ==> shape_of(trail, cell) == (ListShape::Proper { len: (len + 1) as usize })
            &&& has_shape(trail, tail, ListShape::Partial) ==> shape_of(trail, cell)
                == ListShape::Partial
            &&& has_shape(trail, tail, ListShape::Improper) ==> shape_of(trail, cell)
                == ListShape::Improper
            &&& has_shape(trail, tail, ListShape::NotAList) ==> shape_of(trail, cell)
                == ListShape::Improper
            &&& has_shape(trail, tail, ListShape::Cyclic) ==> shape_of(trail, cell)
                == ListShape::Cyclic
        }),
{
    let cell = Tree::Pair(Box::new(head), Box::new(tail));
    assert(tail_after(trail, cell, 0) == Some(cell));
    assert(resolve(trail, cell) == cell);
    tail_of_cell(trail, head, tail, n);
    tail_of_cell(trail, head, tail, len as nat);
    if len < usize::MAX && has_shape(trail, tail, ListShape::Proper { len }) {
        shape_is(trail, cell, ListShape::Proper { len: (len + 1) as usize });
    }
    if has_shape(trail, tail, ListShape::Partial) {
        let m = choose|m: nat| spine_opens(trail, tail, m);
        tail_of_cell(trail, head, tail, m);
        assert(spine_opens(trail, cell, m + 1));
        shape_is(trail, cell, ListShape::Partial);
    }
    if has_shape(trail, tail, ListShape::Improper) {
        let m = choose|m: nat| m > 0 && #[trigger] spine_breaks(trail, tail, m);
        tail_of_cell(trail, head, tail, m);
        assert(spine_breaks(trail, cell, m + 1));
        shape_is(trail, cell, ListShape::Improper);
    }
    if has_shape(trail, tail, ListShape::NotAList) {
        tail_of_cell(trail, head, tail, 0);
        assert(spine_breaks(trail, cell, 1));
        shape_is(trail, cell, ListShape::Improper);
    }
    if has_shape(trail, tail, ListShape::Cyclic) {
        assert forall|m: nat| #[trigger] tail_after(trail, cell, m) is Some by {
            if m > 0 {
                tail_of_cell(trail, head, tail, (m - 1) as nat);
                assert(tail_after(trail, tail, (m - 1) as nat) is Some);
            }
        }
        shape_is(trail, cell, ListShape::Cyclic);
    }
}

/// The empty list is the proper list of no elements, an unbound variable is a
/// partial list, and anything that is neither a list nor a variable is none.
pub proof fn lists_end_where_they_end(trail: Seq<(usize, Tree)>, t: Tree)
    ensures
        shape_of(trail, Tree::Nil) == (ListShape::Proper { len: 0 }),
        element_at(trail, Tree::Nil, 0) is None,
        kind_of(resolve(trail, t)) == TermKind::Variable ==> shape_of(trail, t)
            == ListShape::Partial,
        kind_of(resolve(trail, t)) != TermKind::Variable && kind_of(resolve(trail, t))
            != TermKind::Nil && kind_of(resolve(trail, t)) != TermKind::ListPair ==> shape_of(
            trail,
            t,
        ) == ListShape::NotAList,
{
    assert(tail_after(trail, Tree::Nil, 0) == Some(Tree::Nil));
    assert(tail_after(trail, t, 0) == Some(t));
    shape_is(trail, Tree::Nil, ListShape::Proper { len: 0 });
    if resolve(trail, t) is Var {
        assert(spine_opens(trail, t, 0));
        shape_is(trail, t, ListShape::Partial);
    } else if !(resolve(trail, t) is Nil) && !(resolve(trail, t) is Pair) {
        assert(spine_breaks(trail, t, 0));
        shape_is(trail, t, ListShape::NotAList);
    }
}

/// A list term is a cell for its first element, with the list of the others
/// behind it.
pub proof fn lists_are_cells(item: Tree, items: Seq<Tree>)
    ensures
        list_tree(Seq::empty()) == Tree::Nil,
        list_tree(seq![item] + items) == Tree::Pair(
            Box::new(item),
            Box::new(list_tree(items)),
        ),
{
    assert((seq![item] + items).drop_first() =~= items);
}

/// Only a variable stands for something else; an unbound one stands for itself.
pub proof fn only_bound_variables_stand_for_others(trail: Seq<(usize, Tree)>, t: Tree, id: usize)
    ensures
        kind_of(t) != TermKind::Variable ==> resolve(trail, t) == t,
        (forall|i: int| 0 <= i < trail.len() ==> (#[trigger] trail[i]).0 != id) ==> resolve(
            trail,
            Tree::Var(id),
        ) == Tree::Var(id),
{
    binding_none(trail, 0, id);
}

/// A variable that was just bound stands for what the other term stands for,
/// and so does every term that stood for the variable; other terms stand for
/// what they stood for.
pub proof fn binding_takes_effect(s: State, id: usize, t: Tree, u: Tree)
    requires
        s.valid(),
        binding(s.trail, 0, id) is None,
        resolve(s.trail, t) != Tree::Var(id),
    ensures
        ({
            let after = s.with_bindings(seq![(id, t)]);
            &&& resolve(after.trail, Tree::Var(id)) == resolve(s.trail, t)
            &&& resolve(s.trail, u) == Tree::Var(id) ==> resolve(after.trail, u) == resolve(
                s.trail,
                t,
            )
            &&& resolve(s.trail, u) != Tree::Var(id) ==> resolve(after.trail, u) == resolve(
                s.trail,
                u,
            )
            &&& after.refs == s.refs
        }),
{
    let more = seq![(id, t)];
    let value = resolve(s.trail, t);
    assert(more.drop_last() =~= Seq::empty());
    assert(more.last() == (id, t));
    assert(bound_by(s.trail, more.drop_last()) == s.trail);
    assert(bound_by(s.trail, more) == s.trail.push((id, value)));
    resolved_to_the_end(s.trail, t);
    walk_longer(s.trail, 0, u, id, value);
    walk_longer(s.trail, 0, Tree::Var(id), id, value);
}

proof fn walk_longer(trail: Seq<(usize, Tree)>, from: nat, u: Tree, id: usize, value: Tree)
    requires
        from <= trail.len(),
        binding(trail, 0, id) is None,
        value != Tree::Var(id),
        value matches Tree::Var(v) ==> binding(trail, 0, v) is None,
    ensures
        walk(trail.push((id, value)), from, u) == if walk(trail, from, u) == Tree::Var(id) {
            value
        } else {
            walk(trail, from, u)
        },
    decreases trail.len() - from,
{
    let longer = trail.push((id, value));
    if let Tree::Var(v) = u {
        binding_longer(trail, from, v, id, value);
        binding_none(trail, 0, id);
        binding_none(trail, from, v);
        match binding(trail, from, v) {
            Some(i) => {
                binding_some(trail, from, v);
                assert(longer[i as int] == trail[i as int]);
                walk_longer(trail, i + 1, trail[i as int].1, id, value);
            },
            None => {
                if v == id {
                    assert(binding(longer, from, v) == Some(trail.len()));
                    assert(longer[trail.len() as int] == (id, value));
                    assert(walk(longer, trail.len() + 1, value) == value) by {
                        if let Tree::Var(w) = value {
                            assert(binding(longer, trail.len() + 1, w) is None);
                        }
                    }
                }
            },
        }
    }
}

proof fn binding_longer(
    trail: Seq<(usize, Tree)>,
    from: nat,
    v: usize,
    id: usize,
    value: Tree,
)
    requires
        from <= trail.len(),
    ensures
        binding(trail.push((id, value)), from, v) == match binding(trail, from, v) {
            Some(i) => Some(i),
            None => if v == id {
                Some(trail.len())
            } else {
                None
            },
        },
    decreases trail.len() - from,
{
    let longer = trail.push((id, value));
    if from < trail.len() {
        assert(longer[from as int] == trail[from as int]);
        binding_longer(trail, from + 1, v, id, value);
    } else {
        assert(longer[trail.len() as int] == (id, value));
        assert(binding(longer, from + 1, v) is None);
    }
}

/// A reference that was overwritten stands for the term it was given, and every
/// other one for what it stood for; a new reference is behind the others.
pub proof fn references_hold_what_was_put(s: State, raw: usize, other: usize, t: Tree)
    requires
        raw < s.refs.len(),
        other < s.refs.len(),
        s.refs.len() < usize::MAX,
    ensures
        s.with_ref(raw, t).value(raw) == resolve(s.trail, t),
        other != raw ==> s.with_ref(raw, t).value(other) == s.value(other),
        s.with_ref(raw, t).refs.len() == s.refs.len(),
        s.with_new_ref(t).value(s.refs.len() as usize) == resolve(s.trail, t),
        s.with_new_ref(t).value(other) == s.value(other),
        s.with_new_ref(t).refs.len() == s.refs.len() + 1,
        s.with_new_var().value(other) == s.value(other),
        s.with_new_var().refs.len() == s.refs.len() + 1,
{
}

/// New references hold variables that are unbound and different from each other
/// and from every earlier one.
pub proof fn new_variables_are_new(s: State, n: nat, i: int, j: int)
    requires
        s.valid(),
        s.fresh + n <= usize::MAX,
        0 <= i < j < n,
    ensures
        ({
            let after = s.with_new_vars(n);
            let a = after.refs[s.refs.len() + i];
            let b = after.refs[s.refs.len() + j];
            &&& after.refs.len() == s.refs.len() + n
            &&& a is Var && b is Var && a != b
            &&& resolve(after.trail, a) == a && resolve(after.trail, b) == b
            &&& s.fresh <= a->Var_0 < after.fresh && s.fresh <= b->Var_0 < after.fresh
        }),
{
    binding_none(s.trail, 0, (s.fresh + i) as usize);
    binding_none(s.trail, 0, (s.fresh + j) as usize);
}

/// A plain term denotes the tree of the same shape.
pub proof fn plain_terms_denote_their_tree(
    id: usize,
    value: i128,
    bits: u64,
    text: String,
    head: TermData,
    tail: TermData,
    args: Vec<TermData>,
    entries: Vec<(KeyData, TermData)>,
    i: int,
)
    ensures
        TermData::Var(id)@ == Tree::Var(id),
        TermData::Atom(text)@ == Tree::Atom(text@),
        TermData::Integer(value)@ == Tree::Integer(value as int),
        TermData::BigInteger(text)@ == Tree::BigInteger(text@),
        TermData::Rational(text)@ == Tree::Rational(text@),
        TermData::Float(bits, text)@ == Tree::Float(bits, text@),
        TermData::String(text)@ == Tree::String(text@),
        TermData::Nil@ == Tree::Nil,
        TermData::Blob(text)@ == Tree::Blob(text@),
        TermData::Pair(Box::new(head), Box::new(tail))@ == Tree::Pair(
            Box::new(head@),
            Box::new(tail@),
        ),
        TermData::Compound(text, args)@ matches Tree::Compound(name, parts) && name == text@
            && parts.len() == args@.len() && (0 <= i < args@.len() ==> parts[i] == args@[i]@),
        TermData::Dict(Box::new(head), entries)@ matches Tree::Dict(tag, parts) && *tag == head@
            && parts.len() == entries@.len() && (0 <= i < entries@.len() ==> parts[i].0
            == entries@[i].0@ && parts[i].1 == entries@[i].1@),
        KeyData::Atom(text)@ == Key::Atom(text@),
{
}

} // verus!
