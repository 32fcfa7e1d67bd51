//! Laws of texts and of the order of texts and dict keys.

use vstd::prelude::*;

use crate::codec::{key_text, with_field};
use crate::data::{Key, Tree};
use crate::dict::{dict_lookup, in_order, key_before, key_order, lookup, order_is_sorted};
use crate::term::{kind_of, TermKind};
use crate::text::{
    decimal, decimal_reads_back, digit_value, digits, digits_value, integer_value, text_before,
};

verus! {

/// A text comes before every longer one that starts with it, and of two texts
/// that differ the one with the smaller character at the first difference
/// comes first.
pub proof fn texts_are_ordered_by_character(
    prefix: Seq<char>,
    c: char,
    d: char,
    x: Seq<char>,
    y: Seq<char>,
)
    ensures
        x.len() > 0 ==> text_before(prefix, prefix + x) && !text_before(prefix + x, prefix),
        (c as int) < (d as int) ==> text_before(prefix.push(c) + x, prefix.push(d) + y)
            && !text_before(prefix.push(d) + y, prefix.push(c) + x),
        !text_before(prefix, prefix),
    decreases prefix.len(),
{
    let a = prefix.push(c) + x;
    let b = prefix.push(d) + y;
    if prefix.len() > 0 {
        let rest = prefix.drop_first();
        texts_are_ordered_by_character(rest, c, d, x, y);
        assert((prefix + x).drop_first() =~= rest + x);
        assert(a.drop_first() =~= rest.push(c) + x);
        assert(b.drop_first() =~= rest.push(d) + y);
        assert(a[0] == prefix[0] && b[0] == prefix[0]);
        if x.len() > 0 {
            assert((prefix + x)[0] == prefix[0]);
        }
    } else {
        assert(a[0] == c && b[0] == d);
        assert(prefix + x =~= x);
    }
}

/// Integer keys come before atoms and stand by value; atoms stand by text.
pub proof fn keys_are_ordered(m: int, n: int, a: Seq<char>, b: Seq<char>)
    ensures
        key_before(Key::Int(m), Key::Int(n)) <==> m < n,
        key_before(Key::Int(m), Key::Atom(a)),
        !key_before(Key::Atom(a), Key::Int(m)),
        key_before(Key::Atom(a), Key::Atom(b)) <==> text_before(a, b),
{
}

/// Sorting entries by key keeps them all, and no entry comes behind one with a
/// later key.
pub proof fn sorted_entries_are_the_entries(entries: Seq<(Key, Tree)>)
    ensures
        in_order(entries).to_multiset() == entries.to_multiset(),
        forall|i: int, j: int|
            0 <= i < j < in_order(entries).len() ==> match (
                (#[trigger] in_order(entries)[i]).0,
                (#[trigger] in_order(entries)[j]).0,
            ) {
                (Key::Int(m), Key::Int(n)) => m <= n,
                (Key::Int(m), Key::Atom(b)) => true,
                (Key::Atom(a), Key::Int(n)) => false,
                (Key::Atom(a), Key::Atom(b)) => a == b || text_before(a, b),
            },
{
    order_is_sorted(entries);
    let sorted = in_order(entries);
    assert forall|i: int, j: int| 0 <= i < j < sorted.len() implies match (
        (#[trigger] sorted[i]).0,
        (#[trigger] sorted[j]).0,
    ) {
        (Key::Int(m), Key::Int(n)) => m <= n,
        (Key::Int(m), Key::Atom(b)) => true,
        (Key::Atom(a), Key::Int(n)) => false,
        (Key::Atom(a), Key::Atom(b)) => a == b || text_before(a, b),
    } by {
        assert(!key_before(sorted[j].0, sorted[i].0));
        key_order(sorted[i].0, sorted[j].0);
    }
}

/// What is stored under a key is found under it and under no other key; where
/// several entries have the key, the first counts.
pub proof fn stored_values_are_found(
    before: Seq<(Key, Tree)>,
    key: Key,
    value: Tree,
    after: Seq<(Key, Tree)>,
    other: Key,
)
    requires
        forall|i: int| 0 <= i < before.len() ==> (#[trigger] before[i]).0 != key,
    ensures
        lookup(before.push((key, value)) + after, key) == Some(value),
        lookup(before, key) is None,
        other != key ==> lookup(before.push((key, value)) + after, other) == lookup(
            before + after,
            other,
        ),
    decreases before.len(),
{
    let all = before.push((key, value)) + after;
    if before.len() > 0 {
        let rest = before.drop_first();
        assert forall|i: int| 0 <= i < rest.len() implies (#[trigger] rest[i]).0 != key by {
            assert(before[i + 1].0 != key);
        }
        stored_values_are_found(rest, key, value, after, other);
        assert(all.drop_first() =~= rest.push((key, value)) + after);
        assert((before + after).drop_first() =~= rest + after);
        assert(all[0] == before[0] && (before + after)[0] == before[0]);
        assert(before[0].0 != key);
    } else {
        assert(all[0] == (key, value));
        assert(all.drop_first() =~= after);
        assert(before + after =~= after);
    }
}

/// The text of an integer is its decimal notation: reading it gives the integer
/// back, a negative one starts with `-`, and there is no leading zero.
pub proof fn integers_have_their_notation(n: int)
    ensures
        integer_value(decimal(n), true) == Some(n),
        n >= 0 ==> integer_value(decimal(n), false) == Some(n),
        n < 0 <==> decimal(n)[0] == '-',
        decimal(n).len() > 0,
        n != 0 ==> decimal(n)[if n < 0 {
            1
        } else {
            0
        }] != '0',
        key_text(Key::Int(n)) == decimal(n),
{
    decimal_reads_back(n, true);
    if n >= 0 {
        decimal_reads_back(n, false);
    }
    first_digit(if n < 0 {
        (-n) as nat
    } else {
        n as nat
    });
}

proof fn first_digit(n: nat)
    ensures
        digits(n).len() > 0,
        digits(n)[0] != '-',
        n > 0 ==> digits(n)[0] != '0',
    decreases n,
{
    if n >= 10 {
        first_digit(n / 10);
    }
}

/// A text is an integer only if it is digits behind at most one sign: the empty
/// text, a sign alone and a text with another character are none, a `+` changes
/// nothing, and `-` counts only where signs do.
pub proof fn only_digits_make_integers(text: Seq<char>, signed: bool, i: int)
    ensures
        integer_value(Seq::empty(), signed) is None,
        integer_value(seq!['+'], signed) is None,
        integer_value(seq!['-'], signed) is None,
        0 <= i < text.len() && !('0' <= text[i] <= '9') && (i > 0 || (text[0] != '+' && text[0]
            != '-')) ==> integer_value(text, signed) is None,
        text.len() > 0 && '0' <= text[0] <= '9' ==> integer_value(
            seq!['+'] + text,
            signed,
        ) == integer_value(text, signed),
        text.len() > 0 && text[0] == '-' ==> integer_value(text, false) is None,
{
    let plain: Seq<char> = Seq::empty();
    assert(digits_value(seq!['-'].drop_last()) == Some(0nat)) by {
        assert(seq!['-'].drop_last() =~= plain);
    }
    assert(seq!['-'].last() == '-');
    if 0 <= i < text.len() && !('0' <= text[i] <= '9') {
        not_digits(text, i);
        if i > 0 {
            not_digits(text.drop_first(), i - 1);
        }
    }
    if text.len() > 0 && '0' <= text[0] <= '9' {
        assert((seq!['+'] + text).drop_first() =~= text);
    }
    if text.len() > 0 && text[0] == '-' {
        not_digits(text, 0);
    }
}

proof fn not_digits(text: Seq<char>, i: int)
    requires
        0 <= i < text.len(),
        !('0' <= text[i] <= '9'),
    ensures
        digits_value(text) is None,
    decreases text.len(),
{
    if i < text.len() - 1 {
        not_digits(text.drop_last(), i);
    }
}

/// Setting a field gives it the value, once, and leaves the others as they are.
pub proof fn a_field_is_set_once(
    fields: Seq<(Seq<char>, Tree)>,
    name: Seq<char>,
    value: Tree,
    other: Seq<char>,
)
    requires
        forall|i: int, j: int|
            0 <= i < j < fields.len() ==> (#[trigger] fields[i]).0 != (#[trigger] fields[j]).0,
        other != name,
    ensures
        with_field(fields, name, value).contains((name, value)),
        forall|i: int|
            0 <= i < with_field(fields, name, value).len() && (#[trigger] with_field(
                fields,
                name,
                value,
            )[i]).0 == name ==> with_field(fields, name, value)[i].1 == value,
        forall|t: Tree|
            #[trigger] fields.contains((other, t)) <==> with_field(
                fields,
                name,
                value,
            ).contains((other, t)),
{
    crate::codec::field_position_holds(fields, name);
    let next = with_field(fields, name, value);
    match crate::codec::field_position(fields, name) {
        Some(p) => {
            assert(next[p as int] == (name, value));
            assert forall|t: Tree| #[trigger] fields.contains((other, t)) implies next.contains(
                (other, t),
            ) by {
                let i = choose|i: int| 0 <= i < fields.len() && fields[i] == (other, t);
                assert(next[i] == (other, t));
            }
            assert forall|t: Tree| next.contains((other, t)) implies #[trigger] fields.contains(
                (other, t),
            ) by {
                let i = choose|i: int| 0 <= i < next.len() && next[i] == (other, t);
                assert(fields[i] == (other, t));
            }
            assert forall|i: int| 0 <= i < next.len() && (#[trigger] next[i]).0 == name implies
                next[i].1 == value by {
                if i != p {
                    assert(fields[i].0 == name && fields[p as int].0 == name);
                }
            }
        },
        None => {
            let p = crate::codec::field_place(fields, name) as int;
            place_within(fields, name);
            assert(next[p] == (name, value));
            assert forall|t: Tree| #[trigger] fields.contains((other, t)) implies next.contains(
                (other, t),
            ) by {
                let i = choose|i: int| 0 <= i < fields.len() && fields[i] == (other, t);
                if i < p {
                    assert(next[i] == (other, t));
                } else {
                    assert(next[i + 1] == (other, t));
                }
            }
            assert forall|t: Tree| next.contains((other, t)) implies #[trigger] fields.contains(
                (other, t),
            ) by {
                let i = choose|i: int| 0 <= i < next.len() && next[i] == (other, t);
                if i < p {
                    assert(fields[i] == (other, t));
                } else {
                    assert(fields[i - 1] == (other, t));
                }
            }
            assert forall|i: int| 0 <= i < next.len() && (#[trigger] next[i]).0 == name implies
                next[i].1 == value by {
                if i < p {
                    assert(fields[i].0 == name);
                } else if i > p {
                    assert(fields[i - 1].0 == name);
                }
            }
        },
    }
}

proof fn place_within(fields: Seq<(Seq<char>, Tree)>, name: Seq<char>)
    ensures
        crate::codec::field_place(fields, name) <= fields.len(),
    decreases fields.len(),
{
    if fields.len() > 0 {
        place_within(fields.drop_last(), name);
    }
}

/// A digit behind an integer makes it ten times as large and adds its own value,
/// away from zero.
pub proof fn digits_count_by_their_place(text: Seq<char>, c: char, signed: bool, value: int)
    requires
        '0' <= c <= '9',
    ensures
        integer_value(seq![c], signed) == Some(c as int - '0' as int),
        integer_value(seq!['+', c], signed) == Some(c as int - '0' as int),
        integer_value(seq!['-', c], true) == Some('0' as int - c as int),
        integer_value(text, signed) == Some(value) ==> integer_value(text.push(c), signed) == Some(
            if text[0] == '-' {
                value * 10 - (c as int - '0' as int)
            } else {
                value * 10 + (c as int - '0' as int)
            },
        ),
{
    let none: Seq<char> = Seq::empty();
    assert(seq![c].drop_last() =~= none);
    assert(digits_value(none) == Some(0nat));
    assert(seq![c].last() == c);
    assert(digits_value(seq![c]) == Some((c as int - '0' as int) as nat));
    assert(seq!['+', c].drop_first() =~= seq![c]);
    assert(seq!['-', c].drop_first() =~= seq![c]);
    if text.len() > 0 {
        let more = text.push(c);
        assert(more.drop_last() =~= text);
        assert(more.drop_first() =~= text.drop_first().push(c));
        assert(more.drop_first().drop_last() =~= text.drop_first());
        assert(more.last() == c && more.drop_first().last() == c);
        assert(more[0] == text[0]);
        let d = (c as int - '0' as int) as nat;
        assert(digit_value(c) == Some(d));
        if let Some(n) = digits_value(text) {
            assert(digits_value(more) == Some(n * 10 + d));
        }
        if let Some(n) = digits_value(text.drop_first()) {
            assert(digits_value(more.drop_first()) == Some(n * 10 + d));
        }
        if text[0] == '-' && !signed {
            not_digits(text, 0);
        }
    }
}

/// A dict holds under a key what its entries hold under it; no other term holds
/// anything.
pub proof fn only_dicts_hold_keys(tag: Tree, entries: Seq<(Key, Tree)>, key: Key, t: Tree)
    ensures
        dict_lookup(Tree::Dict(Box::new(tag), entries), key) == lookup(entries, key),
        kind_of(t) != TermKind::Dict ==> dict_lookup(t, key) is None,
{
}

} // verus!
