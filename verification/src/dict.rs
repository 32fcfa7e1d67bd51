//! Dict construction and inspection.
//!
//! Dicts are ordinary terms, so these are methods on [`Term`].

use vstd::prelude::*;
use vstd::string::*;

use crate::data::{Key, KeyData, TermData, Tree};
use crate::exception::{PrologException, Verdict};
use crate::fli::{resolve, Fli, State};
use crate::handles::Atom;
use crate::term::{get_error, grows, raised_within, FliContext, Term, TermError, TermList};
use crate::text::{
    is_text_before, same_text, text_before, text_before_irreflexive, text_before_total,
    text_before_transitive,
};

verus! {

/// A dict key, which is either an atom or a small integer.
#[derive(Debug, PartialEq, Eq, Hash)]
pub enum DictKey {
    Atom(Atom),
    Int(i64),
}

impl View for DictKey {
    type V = Key;

    open spec fn view(&self) -> Key {
        match self {
            DictKey::Atom(atom) => Key::Atom(atom@),
            DictKey::Int(value) => Key::Int(*value as int),
        }
    }
}

/// Whether key `a` comes before key `b` in the standard order: integers before
/// atoms, integers by value, atoms by text.
pub open spec fn key_before(a: Key, b: Key) -> bool {
    match (a, b) {
        (Key::Int(x), Key::Int(y)) => x < y,
        (Key::Int(x), Key::Atom(y)) => true,
        (Key::Atom(x), Key::Int(y)) => false,
        (Key::Atom(x), Key::Atom(y)) => text_before(x, y),
    }
}

/// Whether entries stand in the standard order of their keys.
pub open spec fn sorted_by_key(entries: Seq<(Key, Tree)>) -> bool {
    forall|i: int, j: int|
        0 <= i < j < entries.len() ==> !key_before(
            (#[trigger] entries[j]).0,
            (#[trigger] entries[i]).0,
        )
}

/// What dict entries denote.
pub open spec fn entries_view(entries: Seq<(KeyData, TermData)>) -> Seq<(Key, Tree)> {
    Seq::new(entries.len(), |i: int| (entries[i].0@, entries[i].1@))
}

/// The value stored under `key`, if there is one.
pub open spec fn lookup(entries: Seq<(Key, Tree)>, key: Key) -> Option<Tree>
    decreases entries.len(),
{
    if entries.len() == 0 {
        None
    } else if entries[0].0 == key {
        Some(entries[0].1)
    } else {
        lookup(entries.drop_first(), key)
    }
}

/// Whether no key occurs twice.
pub open spec fn keys_distinct(keys: Seq<Seq<char>>) -> bool {
    forall|i: int, j: int|
        0 <= i < j < keys.len() ==> (#[trigger] keys[i]) != (#[trigger] keys[j])
}

/// The entries that keys and values make up.
pub open spec fn zipped(keys: Seq<Seq<char>>, values: Seq<Tree>) -> Seq<(Key, Tree)> {
    Seq::new(keys.len(), |i: int| (Key::Atom(keys[i]), values[i]))
}

/// Sorted entries together with one more, which goes behind all entries that do
/// not come after it.
pub open spec fn with_entry(entries: Seq<(Key, Tree)>, entry: (Key, Tree)) -> Seq<(Key, Tree)>
    decreases entries.len(),
{
    if entries.len() > 0 && key_before(entry.0, entries.last().0) {
        with_entry(entries.drop_last(), entry).push(entries.last())
    } else {
        entries.push(entry)
    }
}

/// Entries in the standard order of their keys.
pub open spec fn in_order(entries: Seq<(Key, Tree)>) -> Seq<(Key, Tree)>
    decreases entries.len(),
{
    if entries.len() == 0 {
        Seq::empty()
    } else {
        with_entry(in_order(entries.drop_last()), entries.last())
    }
}

/// The dict with the given tag, keys and values.
pub open spec fn dict_tree(tag: Seq<char>, keys: Seq<Seq<char>>, values: Seq<Tree>) -> Tree {
    Tree::Dict(Box::new(Tree::Atom(tag)), in_order(zipped(keys, values)))
}

/// Inserting at the right place is what [`with_entry`] does.
proof fn inserted_is_with_entry(entries: Seq<(Key, Tree)>, entry: (Key, Tree), p: int)
    requires
        0 <= p <= entries.len(),
        forall|i: int| 0 <= i < p ==> !key_before(entry.0, (#[trigger] entries[i]).0),
        forall|i: int| p <= i < entries.len() ==> key_before(entry.0, (#[trigger] entries[i]).0),
    ensures
        with_entry(entries, entry) == entries.insert(p, entry),
    decreases entries.len(),
{
    if p < entries.len() {
        inserted_is_with_entry(entries.drop_last(), entry, p);
        assert(entries.insert(p, entry) =~= entries.drop_last().insert(p, entry).push(
            entries.last(),
        ));
    } else {
        assert(entries.insert(p, entry) =~= entries.push(entry));
    }
}

/// Whether no key comes before an earlier one, for entries one of which was
/// put where it belongs.
proof fn with_entry_sorted(entries: Seq<(Key, Tree)>, entry: (Key, Tree))
    requires
        sorted_by_key(entries),
    ensures
        sorted_by_key(with_entry(entries, entry)),
        with_entry(entries, entry).to_multiset() == entries.to_multiset().insert(entry),
        with_entry(entries, entry).len() == entries.len() + 1,
    decreases entries.len(),
{
    broadcast use vstd::seq_lib::group_to_multiset_ensures;

    if entries.len() > 0 && key_before(entry.0, entries.last().0) {
        let front = entries.drop_last();
        let back = entries.last();
        let inner = with_entry(front, entry);
        with_entry_sorted(front, entry);
        assert(entries =~= front.push(back));
        let all = inner.push(back);
        assert forall|i: int, j: int| 0 <= i < j < all.len() implies !key_before(
            (#[trigger] all[j]).0,
            (#[trigger] all[i]).0,
        ) by {
            if j == all.len() - 1 {
                assert(inner.to_multiset().count(all[i]) > 0);
                if all[i] == entry {
                    key_order(entry.0, back.0);
                } else {
                    assert(front.to_multiset().count(all[i]) > 0);
                    assert(front.contains(all[i]));
                    let k = choose|k: int| 0 <= k < front.len() && front[k] == all[i];
                    assert(entries[k] == front[k]);
                    assert(!key_before(entries[entries.len() - 1].0, entries[k].0));
                }
            }
        }
        assert(all.to_multiset() =~= entries.to_multiset().insert(entry));
    } else {
        let all = entries.push(entry);
        assert forall|i: int, j: int| 0 <= i < j < all.len() implies !key_before(
            (#[trigger] all[j]).0,
            (#[trigger] all[i]).0,
        ) by {
            if j == all.len() - 1 && i < entries.len() - 1 {
                let last = entries.last();
                assert(!key_before(entries[entries.len() - 1].0, entries[i].0));
                if key_before(entry.0, all[i].0) {
                    key_order_transitive(entry.0, all[i].0, last.0);
                }
            }
        }
    }
}

/// Putting entries in order keeps every entry, and leaves no key before an
/// earlier one.
pub proof fn order_is_sorted(entries: Seq<(Key, Tree)>)
    ensures
        sorted_by_key(in_order(entries)),
        in_order(entries).to_multiset() == entries.to_multiset(),
        in_order(entries).len() == entries.len(),
    decreases entries.len(),
{
    broadcast use vstd::seq_lib::group_to_multiset_ensures;

    if entries.len() > 0 {
        order_is_sorted(entries.drop_last());
        with_entry_sorted(in_order(entries.drop_last()), entries.last());
        assert(entries =~= entries.drop_last().push(entries.last()));
    } else {
        assert(in_order(entries) =~= entries);
    }
}

/// Entries that are in order stay as they are.
pub proof fn order_is_stable(entries: Seq<(Key, Tree)>)
    requires
        sorted_by_key(entries),
    ensures
        in_order(entries) == entries,
    decreases entries.len(),
{
    if entries.len() > 0 {
        let front = entries.drop_last();
        assert forall|i: int, j: int| 0 <= i < j < front.len() implies !key_before(
            (#[trigger] front[j]).0,
            (#[trigger] front[i]).0,
        ) by {
            assert(!key_before(entries[j].0, entries[i].0));
        }
        order_is_stable(front);
        if front.len() > 0 {
            assert(!key_before(entries[entries.len() - 1].0, entries[entries.len() - 2].0));
        }
        assert(entries =~= front.push(entries.last()));
    }
}

/// The value stored under a key that occurs once is the one that is found.
proof fn lookup_finds(entries: Seq<(Key, Tree)>, key: Key, j: int)
    requires
        0 <= j < entries.len(),
        entries[j].0 == key,
        forall|i: int| 0 <= i < entries.len() && i != j ==> (#[trigger] entries[i]).0 != key,
    ensures
        lookup(entries, key) == Some(entries[j].1),
    decreases entries.len(),
{
    if j > 0 {
        let rest = entries.drop_first();
        assert(entries[0].0 != key);
        assert forall|i: int| 0 <= i < rest.len() && i != j - 1 implies (#[trigger] rest[i]).0
            != key by {
            assert(entries[i + 1].0 != key);
        }
        lookup_finds(rest, key, j - 1);
    }
}

/// Under a key that does not occur, nothing is found.
proof fn lookup_misses(entries: Seq<(Key, Tree)>, key: Key)
    requires
        forall|i: int| 0 <= i < entries.len() ==> (#[trigger] entries[i]).0 != key,
    ensures
        lookup(entries, key) is None,
    decreases entries.len(),
{
    if entries.len() > 0 {
        assert(entries[0].0 != key);
        assert forall|i: int| 0 <= i < entries.drop_first().len() implies (
        #[trigger] entries.drop_first()[i]).0 != key by {
            assert(entries[i + 1].0 != key);
        }
        lookup_misses(entries.drop_first(), key);
    }
}

/// Rearranging entries with different keys keeps the keys different.
pub proof fn distinct_rearranged(a: Seq<(Key, Tree)>, b: Seq<(Key, Tree)>)
    requires
        a.to_multiset() == b.to_multiset(),
        a.len() == b.len(),
        forall|i: int, j: int|
            0 <= i < j < a.len() ==> (#[trigger] a[i]).0 != (#[trigger] a[j]).0,
    ensures
        forall|i: int, j: int|
            0 <= i < j < b.len() ==> (#[trigger] b[i]).0 != (#[trigger] b[j]).0,
{
    broadcast use vstd::seq_lib::group_to_multiset_ensures;

    assert(a.no_duplicates());
    a.lemma_multiset_has_no_duplicates();
    b.lemma_multiset_has_no_duplicates_conv();
    assert forall|i: int, j: int| 0 <= i < j < b.len() implies (#[trigger] b[i]).0 != (
    #[trigger] b[j]).0 by {
        let p = rearranged(b, a, i);
        let q = rearranged(b, a, j);
        assert(b[i] != b[j]);
        assert(p != q);
        if p < q {
            assert(a[p].0 != a[q].0);
        } else {
            assert(a[q].0 != a[p].0);
        }
    }
}

/// What stands in a sequence stands in its rearrangements.
pub proof fn rearranged(a: Seq<(Key, Tree)>, b: Seq<(Key, Tree)>, i: int) -> (j: int)
    requires
        a.to_multiset() == b.to_multiset(),
        0 <= i < a.len(),
    ensures
        0 <= j < b.len(),
        b[j] == a[i],
{
    broadcast use vstd::seq_lib::group_to_multiset_ensures;

    assert(a.contains(a[i]));
    assert(a.to_multiset().count(a[i]) > 0);
    assert(b.contains(a[i]));
    choose|j: int| 0 <= j < b.len() && b[j] == a[i]
}

/// A dict gives back, under each of its keys, the value it was built with, and
/// nothing under any other key.
pub proof fn dict_reads_back(
    tag: Seq<char>,
    keys: Seq<Seq<char>>,
    values: Seq<Tree>,
    key: Seq<char>,
)
    requires
        keys_distinct(keys),
        keys.len() == values.len(),
    ensures
        forall|i: int|
            0 <= i < keys.len() && #[trigger] keys[i] == key ==> dict_lookup(
                dict_tree(tag, keys, values),
                Key::Atom(key),
            ) == Some(values[i]),
        !keys.contains(key) ==> dict_lookup(dict_tree(tag, keys, values), Key::Atom(key)) is None,
{
    let plain = zipped(keys, values);
    let sorted = in_order(plain);
    order_is_sorted(plain);
    assert forall|i: int, j: int| 0 <= i < j < plain.len() implies (#[trigger] plain[i]).0 != (
    #[trigger] plain[j]).0 by {
        assert(keys[i] != keys[j]);
    }
    distinct_rearranged(plain, sorted);
    assert forall|i: int| 0 <= i < keys.len() && #[trigger] keys[i] == key implies lookup(
        sorted,
        Key::Atom(key),
    ) == Some(values[i]) by {
        let j = rearranged(plain, sorted, i);
        assert forall|k: int| 0 <= k < sorted.len() && k != j implies (#[trigger] sorted[k]).0
            != Key::Atom(key) by {
            if k < j {
                assert(sorted[k].0 != sorted[j].0);
            } else {
                assert(sorted[j].0 != sorted[k].0);
            }
        }
        lookup_finds(sorted, Key::Atom(key), j);
    }
    if !keys.contains(key) {
        assert forall|k: int| 0 <= k < sorted.len() implies (#[trigger] sorted[k]).0
            != Key::Atom(key) by {
            let i = rearranged(sorted, plain, k);
            assert(keys.contains(keys[i]));
        }
        lookup_misses(sorted, Key::Atom(key));
    }
}

/// Whether `after` is `before` once the pending answer was used up, and nothing
/// else changed but what the block of `values` holds, which the engine may
/// rearrange.
pub open spec fn dict_kept(before: State, after: State, values: TermList) -> bool {
    &&& after == (State { refs: after.refs, ..before.answered() })
    &&& after.refs.len() == before.refs.len()
    &&& forall|i: int|
        0 <= i < before.refs.len() && !(values.first() <= i < values.first() + values.count())
            ==> #[trigger] after.refs[i] == before.refs[i]
}

/// Whether `after` is `before` with reference `raw` overwritten by `t`, and
/// nothing else changed but what the block of `values` holds, which the engine
/// may rearrange.
pub open spec fn dict_put(
    before: State,
    after: State,
    raw: usize,
    values: TermList,
    t: Tree,
) -> bool {
    &&& after == (State { refs: after.refs, ..before })
    &&& after.refs.len() == before.refs.len()
    &&& after.refs[raw as int] == t
    &&& forall|i: int|
        0 <= i < before.refs.len() && i != raw && !(values.first() <= i < values.first()
            + values.count()) ==> #[trigger] after.refs[i] == before.refs[i]
}

/// The order of keys is a strict total order.
pub proof fn key_order(a: Key, b: Key)
    ensures
        !key_before(a, a),
        a != b ==> key_before(a, b) != key_before(b, a),
        key_before(a, b) ==> !key_before(b, a),
{
    if let Key::Atom(x) = a {
        text_before_irreflexive(x);
        if let Key::Atom(y) = b {
            if x != y {
                text_before_total(x, y);
            }
        }
    }
}

/// The order of keys is transitive.
pub proof fn key_order_transitive(a: Key, b: Key, c: Key)
    requires
        key_before(a, b),
        !key_before(c, b),
    ensures
        key_before(a, c),
{
    key_order(b, c);
    if b != c {
        if let (Key::Atom(x), Key::Atom(y), Key::Atom(z)) = (a, b, c) {
            text_before_transitive(x, y, z);
        }
    }
}

fn is_key_before(a: &KeyData, b: &KeyData) -> (r: bool)
    ensures
        r == key_before(a@, b@),
{
    match (a, b) {
        (KeyData::Int(x), KeyData::Int(y)) => *x < *y,
        (KeyData::Int(_), KeyData::Atom(_)) => true,
        (KeyData::Atom(_), KeyData::Int(_)) => false,
        (KeyData::Atom(x), KeyData::Atom(y)) => is_text_before(x.as_str(), y.as_str()),
    }
}

fn same_key(a: &KeyData, b: &KeyData) -> (r: bool)
    ensures
        r == (a@ == b@),
{
    match (a, b) {
        (KeyData::Int(x), KeyData::Int(y)) => *x == *y,
        (KeyData::Atom(x), KeyData::Atom(y)) => same_text(x.as_str(), y.as_str()),
        _ => false,
    }
}

/// Where an entry with key `key` goes: behind all entries that do not come
/// after it.
fn place_of(entries: &Vec<(KeyData, TermData)>, key: &KeyData) -> (p: usize)
    requires
        sorted_by_key(entries_view(entries@)),
    ensures
        p <= entries@.len(),
        forall|i: int| 0 <= i < p ==> !key_before(key@, (#[trigger] entries@[i]).0@),
        forall|i: int| p <= i < entries@.len() ==> key_before(key@, (#[trigger] entries@[i]).0@),
{
    let ghost view = entries_view(entries@);
    let mut p: usize = 0;
    while p < entries.len() && !is_key_before(key, &entries[p].0)
        invariant
            p <= entries@.len(),
            forall|i: int| 0 <= i < p ==> !key_before(key@, (#[trigger] entries@[i]).0@),
        decreases entries@.len() - p,
    {
        p = p + 1;
    }
    proof {
        assert forall|i: int| p <= i < entries@.len() implies key_before(
            key@,
            (#[trigger] entries@[i]).0@,
        ) by {
            if i > p {
                assert(!key_before(view[i].0, view[p as int].0));
                key_order_transitive(key@, entries@[p as int].0@, entries@[i].0@);
            }
        }
    }
    p
}

/// Puts an entry where it belongs.
fn insert_entry(entries: &mut Vec<(KeyData, TermData)>, p: usize, entry: (KeyData, TermData))
    requires
        sorted_by_key(entries_view(old(entries)@)),
        p <= old(entries)@.len(),
        forall|i: int|
            0 <= i < p ==> !key_before(entry.0@, (#[trigger] old(entries)@[i]).0@),
        forall|i: int|
            p <= i < old(entries)@.len() ==> key_before(
                entry.0@,
                (#[trigger] old(entries)@[i]).0@,
            ),
    ensures
        sorted_by_key(entries_view(final(entries)@)),
        entries_view(final(entries)@) == with_entry(
            entries_view(old(entries)@),
            (entry.0@, entry.1@),
        ),
{
    entries.insert(p, entry);
    proof {
        let before = entries_view(old(entries)@);
        let after = entries_view(entries@);
        assert(after =~= before.insert(p as int, (entry.0@, entry.1@)));
        assert forall|i: int| 0 <= i < p implies !key_before(
            entry.0@,
            (#[trigger] before[i]).0,
        ) by {
            assert(before[i].0 == old(entries)@[i].0@);
        }
        assert forall|i: int| p <= i < before.len() implies key_before(
            entry.0@,
            (#[trigger] before[i]).0,
        ) by {
            assert(before[i].0 == old(entries)@[i].0@);
        }
        inserted_is_with_entry(before, (entry.0@, entry.1@), p as int);
        with_entry_sorted(before, (entry.0@, entry.1@));
    }
}

/// The entries in the standard order of their keys.
fn sorted_entries(entries: &Vec<(KeyData, TermData)>) -> (r: Vec<(KeyData, TermData)>)
    ensures
        entries_view(r@) == in_order(entries_view(entries@)),
{
    let ghost view = entries_view(entries@);
    let mut out: Vec<(KeyData, TermData)> = Vec::new();
    let mut i: usize = 0;
    proof {
        assert(view.take(0) =~= Seq::empty());
        assert(entries_view(out@) =~= in_order(view.take(0)));
    }
    while i < entries.len()
        invariant
            i <= entries@.len(),
            view == entries_view(entries@),
            entries_view(out@) == in_order(view.take(i as int)),
        decreases entries@.len() - i,
    {
        proof {
            order_is_sorted(view.take(i as int));
            assert(view.take(i + 1).drop_last() =~= view.take(i as int));
            assert(view.take(i + 1).last() == view[i as int]);
        }
        let p: usize = place_of(&out, &entries[i].0);
        insert_entry(&mut out, p, (entries[i].0.copy(), entries[i].1.copy()));
        i = i + 1;
    }
    assert(view.take(i as int) =~= view);
    out
}

/// The texts of some atoms.
pub open spec fn texts(atoms: Seq<&Atom>) -> Seq<Seq<char>> {
    Seq::new(atoms.len(), |i: int| atoms[i]@)
}

/// A key that occurs in sorted entries stands right before the place where it
/// would be inserted again.
proof fn repeated_key(entries: Seq<(Key, Tree)>, key: Key, p: int, i: int)
    requires
        sorted_by_key(entries),
        0 <= p <= entries.len(),
        forall|k: int| 0 <= k < p ==> !key_before(key, (#[trigger] entries[k]).0),
        forall|k: int| p <= k < entries.len() ==> key_before(key, (#[trigger] entries[k]).0),
        0 <= i < entries.len(),
        entries[i].0 == key,
    ensures
        p > 0,
        entries[p - 1].0 == key,
{
    key_order(key, key);
    assert(i < p);
    if i < p - 1 {
        assert(!key_before(entries[p - 1].0, entries[i].0));
        key_order(key, entries[p - 1].0);
    }
}

impl<'f> Term<'f> {
    /// Builds a dict `tag{key: value, ...}` in this reference. `keys` and
    /// `values` must have equal length, and no key may occur twice. What the
    /// block of `values` holds afterwards is left open: the engine may
    /// rearrange it.
    pub fn put_dict(
        &self,
        fli: &mut Fli,
        tag: &Atom,
        keys: &[&Atom],
        values: &TermList<'_>,
    ) -> (r: Result<(), TermError>)
        requires
            self.live(old(fli)@),
            values.live(old(fli)@),
            !(old(fli)@.verdict is Refuse),
        ensures
            if keys@.len() != values.count() {
                r == Err::<(), TermError>(
                    TermError::DictLengthMismatch {
                        keys: keys@.len() as usize,
                        values: values.count() as usize,
                    },
                ) && final(fli)@ == old(fli)@
            } else if old(fli)@.verdict is Raise {
                &&& r == Err::<(), TermError>(TermError::Exception(old(fli)@.verdict->Raise_0))
                &&& dict_kept(old(fli)@, final(fli)@, *values)
            } else if !keys_distinct(texts(keys@)) {
                &&& dict_kept(old(fli)@, final(fli)@, *values)
                &&& r matches Err(TermError::Exception(_))
            } else {
                &&& r is Ok
                &&& dict_put(
                    old(fli)@,
                    final(fli)@,
                    self.raw(),
                    *values,
                    dict_tree(tag@, texts(keys@), values.held(old(fli)@)),
                )
            },
    {
        let n: usize = keys.len();
        if n != values.len() {
            return Err(TermError::DictLengthMismatch { keys: n, values: values.len() });
        }
        match fli.take_verdict() {
            Verdict::Raise(exception) => {
                return Err(TermError::Exception(exception));
            },
            _ => {},
        }
        let ghost names = texts(keys@);
        let ghost trees = values.held(old(fli)@);
        let ghost whole = zipped(names, trees);
        let mut entries: Vec<(KeyData, TermData)> = Vec::new();
        let mut i: usize = 0;
        assert(whole.take(0) =~= Seq::empty());
        assert(entries_view(entries@) =~= in_order(whole.take(0)));
        while i < n
            invariant
                i <= n,
                n == keys@.len(),
                n == values.count(),
                values.live(old(fli)@),
                fli@ == old(fli)@.answered(),
                old(fli)@.verdict is Grant,
                names == texts(keys@),
                trees == values.held(old(fli)@),
                whole == zipped(names, trees),
                entries_view(entries@) == in_order(whole.take(i as int)),
                forall|a: int, b: int|
                    0 <= a < b < i ==> (#[trigger] names[a]) != (#[trigger] names[b]),
            decreases n - i,
        {
            let key: KeyData = KeyData::Atom(keys[i].text());
            proof {
                order_is_sorted(whole.take(i as int));
            }
            let p: usize = place_of(&entries, &key);
            let ghost view = entries_view(entries@);
            proof {
                broadcast use vstd::seq_lib::group_to_multiset_ensures;

                assert forall|a: int| 0 <= a < i && names[a] == names[i as int] implies p > 0
                    && entries@[p - 1].0@ == key@ by {
                    assert(whole.take(i as int)[a] == whole[a]);
                    assert(whole.take(i as int).to_multiset().count(whole[a]) > 0);
                    assert(view.contains(whole[a]));
                    let at = choose|at: int| 0 <= at < view.len() && view[at] == whole[a];
                    assert forall|k: int| 0 <= k < p implies !key_before(
                        key@,
                        (#[trigger] view[k]).0,
                    ) by {
                        assert(view[k].0 == entries@[k].0@);
                    }
                    assert forall|k: int| p <= k < view.len() implies key_before(
                        key@,
                        (#[trigger] view[k]).0,
                    ) by {
                        assert(view[k].0 == entries@[k].0@);
                    }
                    repeated_key(view, key@, p as int, at);
                    assert(view[p - 1].0 == entries@[p - 1].0@);
                }
            }
            if p > 0 && same_key(&entries[p - 1].0, &key) {
                let mut message: String = "error(duplicate_key(".to_owned();
                message.append(keys[i].as_str());
                message.append("),_)");
                proof {
                    broadcast use vstd::seq_lib::group_to_multiset_ensures;

                    assert(view[p - 1].0 == key@);
                    assert(view.contains(view[p - 1]));
                    assert(view.to_multiset().count(view[p - 1]) > 0);
                    assert(whole.take(i as int).contains(view[p - 1]));
                    let a = choose|a: int|
                        0 <= a < whole.take(i as int).len() && whole.take(i as int)[a] == view[p
                            - 1];
                    assert(whole[a].0 == key@);
                    assert(names[a] == names[i as int]);
                    assert(keys@[a]@ == keys@[i as int]@);
                }
                return Err(TermError::Exception(PrologException(message)));
            }
            let raw: usize = match values.get(i) {
                Some(term) => term.as_raw(),
                None => 0,
            };
            let value: TermData = fli.held(raw).copy();
            proof {
                assert(whole.take(i + 1).drop_last() =~= whole.take(i as int));
                assert(whole.take(i + 1).last() == whole[i as int]);
            }
            insert_entry(&mut entries, p, (key, value));
            i = i + 1;
        }
        assert(whole.take(i as int) =~= whole);
        let label = TermData::Atom(tag.text());
        assert(label@ == Tree::Atom(tag@));
        let data = TermData::Dict(Box::new(label), entries);
        assert(data@->Dict_1 =~= entries_view(entries@));
        fli.set_ref(self.as_raw(), data);
        assert(keys_distinct(texts(keys@)));
        assert(fli@.refs[self.raw() as int] == data@);
        assert(fli@ == old(fli)@.with_ref(self.raw(), fli@.refs[self.raw() as int]));
        Ok(())
    }

    /// Reads the value stored under `key` in this dict into a fresh reference
    /// allocated from `ctx`. A missing key or a non-dict term is a
    /// [`TermError::TypeMismatch`].
    pub fn get_dict<'a, C: FliContext>(&self, ctx: &'a C, fli: &mut Fli, key: &Atom) -> (r: Result<
        Term<'a>,
        TermError,
    >)
        requires
            self.live(old(fli)@),
            old(fli)@.at(ctx.place()),
            !(old(fli)@.verdict is Refuse),
        ensures
            old(fli)@.verdict is Raise ==> raised_within(old(fli)@, final(fli)@, r),
            old(fli)@.verdict is Grant ==> match dict_lookup(
                old(fli)@.value(self.raw()),
                Key::Atom(key@),
            ) {
                Some(value) => r matches Ok(t) && t.raw() == old(fli)@.refs.len() && t.gen()
                    == old(fli)@.gen && final(fli)@ == (State {
                    fresh: old(fli)@.fresh + 1,
                    ..old(fli)@.with_new_ref(value)
                }),
                None => r == Err::<Term<'a>, TermError>(
                    TermError::TypeMismatch { expected: "a dict containing the key" },
                ) && final(fli)@ == old(fli)@.with_new_var(),
            },
    {
        let wanted: KeyData = KeyData::Atom(key.text());
        let found: Option<TermData> = match fli.value(self.as_raw()) {
            TermData::Dict(_, entries) => {
                assert(fli@.value(self.raw())->Dict_1 =~= entries_view(entries@));
                find_entry(entries, &wanted)
            },
            _ => None,
        };
        match ctx.term(fli) {
            Err(error) => Err(error),
            Ok(dest) => {
                match found {
                    None => Err(TermError::TypeMismatch { expected: "a dict containing the key" }),
                    Some(value) => {
                        fli.set_ref(dest.as_raw(), value);
                        assert(fli@.refs =~= old(fli)@.refs.push(value@));
                        Ok(dest)
                    },
                }
            },
        }
    }

    /// Enumerates this dict's key/value pairs in the standard order of the
    /// keys. Each value is copied into a fresh reference allocated from `ctx`.
    /// A non-dict term is a [`TermError::TypeMismatch`].
    pub fn dict_entries<'a, C: FliContext>(&self, ctx: &'a C, fli: &mut Fli) -> (r: Result<
        Vec<(DictKey, Term<'a>)>,
        TermError,
    >)
        requires
            self.live(old(fli)@),
            old(fli)@.at(ctx.place()),
            !(old(fli)@.verdict is Refuse),
        ensures
            match old(fli)@.value(self.raw()) {
                Tree::Dict(tag, entries) => if old(fli)@.verdict is Raise && entries.len() > 0 {
                    raised_within(old(fli)@, final(fli)@, r)
                } else {
                    &&& grows(old(fli)@, final(fli)@)
                    &&& final(fli)@.verdict == old(fli)@.verdict
                    &&& r matches Ok(out) && {
                        &&& forall|i: int| 0 <= i < out@.len() ==> (#[trigger] out@[i]).1.live(
                            final(fli)@,
                        )
                        &&& pairs_view(out@, final(fli)@) == in_order(entries)
                    }
                },
                _ => r == Err::<Vec<(DictKey, Term<'a>)>, TermError>(
                    TermError::TypeMismatch { expected: "a dict" },
                ) && final(fli)@ == old(fli)@,
            },
    {
        let entries: Vec<(KeyData, TermData)> = match fli.value(self.as_raw()) {
            TermData::Dict(_, entries) => {
                assert(fli@.value(self.raw())->Dict_1 =~= entries_view(entries@));
                sorted_entries(entries)
            },
            _ => {
                return Err(TermError::TypeMismatch { expected: "a dict" });
            },
        };
        let ghost view = entries_view(entries@);
        proof {
            order_is_sorted(old(fli)@.value(self.raw())->Dict_1);
        }
        let mut out: Vec<(DictKey, Term<'a>)> = Vec::new();
        let mut i: usize = 0;
        while i < entries.len()
            invariant
                i <= entries@.len(),
                view == entries_view(entries@),
                out@.len() == i,
                old(fli)@.at(ctx.place()),
                !(old(fli)@.verdict is Refuse),
                grows(old(fli)@, fli@),
                i == 0 ==> fli@ == old(fli)@,
                i > 0 ==> old(fli)@.verdict is Grant,
                fli@.verdict == old(fli)@.verdict,
                forall|k: int|
                    0 <= k < i ==> (#[trigger] out@[k]).1.live(fli@) && out@[k].0@ == view[k].0
                        && fli@.refs[out@[k].1.raw() as int] == view[k].1,
                old(fli)@.value(self.raw()) is Dict,
                view.len() == (old(fli)@.value(self.raw())->Dict_1).len(),
            decreases entries@.len() - i,
        {
            let ghost before = fli@;
            let dest: Term<'a> = match ctx.term(fli) {
                Err(error) => {
                    return Err(error);
                },
                Ok(term) => term,
            };
            let key: DictKey = match &entries[i].0 {
                KeyData::Atom(name) => DictKey::Atom(Atom::from_text(name.clone())),
                KeyData::Int(value) => DictKey::Int(*value),
            };
            fli.set_ref(dest.as_raw(), entries[i].1.copy());
            out.push((key, dest));
            i = i + 1;
        }
        assert(pairs_view(out@, fli@) =~= view);
        Ok(out)
    }

    /// Reads this dict's tag: `Some(atom)` for an atom tag, `None` for an
    /// unbound tag. A non-dict term is a [`TermError::TypeMismatch`].
    ///
    /// The tag is asked for with a call of its own, whose two arguments are
    /// allocated from `ctx`: the dict, and what stands for the tag.
    pub fn dict_tag<C: FliContext>(&self, ctx: &C, fli: &mut Fli) -> (r: Result<
        Option<Atom>,
        TermError,
    >)
        requires
            self.live(old(fli)@),
            old(fli)@.value(self.raw()) is Dict ==> old(fli)@.at(ctx.place()),
        ensures
            match old(fli)@.value(self.raw()) {
                Tree::Dict(tag, entries) => {
                    &&& grows(old(fli)@, final(fli)@)
                    &&& final(fli)@.verdict is Grant
                    &&& if old(fli)@.verdict is Grant {
                        &&& final(fli)@.refs.len() == old(fli)@.refs.len() + 2
                        &&& final(fli)@.refs[old(fli)@.refs.len() as int]
                            == old(fli)@.refs[self.raw() as int]
                        &&& resolve(
                            old(fli)@.trail,
                            final(fli)@.refs[old(fli)@.refs.len() as int + 1],
                        ) == resolve(old(fli)@.trail, *tag)
                        &&& match resolve(old(fli)@.trail, *tag) {
                            Tree::Var(id) => r == Ok::<Option<Atom>, TermError>(None),
                            Tree::Atom(name) => r matches Ok(Some(atom)) && atom@ == name,
                            _ => r == Err::<Option<Atom>, TermError>(
                                TermError::TypeMismatch { expected: "an atom" },
                            ),
                        }
                    } else {
                        r == Err::<Option<Atom>, TermError>(get_error(old(fli)@, "a dict"))
                    }
                },
                _ => r == Err::<Option<Atom>, TermError>(
                    TermError::TypeMismatch { expected: "a dict" },
                ) && final(fli)@ == old(fli)@,
            },
    {
        let label: TermData = match fli.value(self.as_raw()) {
            TermData::Dict(tag, _) => tag.copy(),
            _ => {
                return Err(TermError::TypeMismatch { expected: "a dict" });
            },
        };
        match fli.take_verdict() {
            Verdict::Grant => {},
            Verdict::Refuse => {
                return Err(TermError::TypeMismatch { expected: "a dict" });
            },
            Verdict::Raise(exception) => {
                return Err(TermError::Exception(exception));
            },
        }
        let tag: Result<Option<Atom>, TermError> = match fli.resolved(&label).0 {
            TermData::Var(_) => Ok(None),
            TermData::Atom(name) => Ok(Some(Atom::from_text(name.clone()))),
            _ => Err(TermError::TypeMismatch { expected: "an atom" }),
        };
        let args: TermList<'_> = match ctx.terms(fli, 2) {
            Ok(args) => args,
            Err(error) => {
                return Err(error);
            },
        };
        let first: usize = args.as_raw();
        fli.attest();
        let held: TermData = fli.held(self.as_raw()).copy();
        fli.set_ref(first, held);
        fli.set_ref(first + 1, label);
        tag
    }
}

/// The value that a dict stores under `key`.
pub open spec fn dict_lookup(t: Tree, key: Key) -> Option<Tree> {
    match t {
        Tree::Dict(tag, entries) => lookup(entries, key),
        _ => None,
    }
}

/// What enumerated entries denote.
pub open spec fn pairs_view(pairs: Seq<(DictKey, Term)>, s: State) -> Seq<(Key, Tree)> {
    Seq::new(pairs.len(), |i: int| (pairs[i].0@, s.refs[pairs[i].1.raw() as int]))
}

/// Finds the value stored under `key`.
fn find_entry(entries: &Vec<(KeyData, TermData)>, key: &KeyData) -> (r: Option<TermData>)
    ensures
        match lookup(entries_view(entries@), key@) {
            Some(value) => r matches Some(data) && data@ == value,
            None => r is None,
        },
{
    let ghost view = entries_view(entries@);
    let mut i: usize = 0;
    assert(view.skip(0) =~= view);
    while i < entries.len()
        invariant
            i <= entries@.len(),
            view == entries_view(entries@),
            lookup(view, key@) == lookup(view.skip(i as int), key@),
        decreases entries@.len() - i,
    {
        assert(view.skip(i as int).drop_first() =~= view.skip(i + 1));
        if same_key(&entries[i].0, key) {
            return Some(entries[i].1.copy());
        }
        i = i + 1;
    }
    None
}

} // verus!
