//! Laws of the `splint` attributes, in terms of the tokens that are written.

use vstd::prelude::*;

use crate::derive::attrs::{
    attrs_of, path_at, path_end, path_value_at, property_at, punct_at, sep_at, value_at,
    with_properties, with_property, AttrsView, Fault,
};
use crate::derive::input::{Arguments, Attribute, Token};
use crate::derive::rename::RenameRule;

verus! {

/// Whether a token is the identifier `name`.
pub open spec fn is_name(t: Token, name: Seq<char>) -> bool {
    t matches Token::Ident(text) && text@ == name
}

/// Whether a token is the punctuation character `c`.
pub open spec fn is_mark(t: Token, c: char) -> bool {
    t matches Token::Punct { ch, joint } && ch == c
}

/// Whether a token is a string literal with the value `text`, and whether that
/// was found to be a path.
pub open spec fn is_text(t: Token, text: Seq<char>, path: bool) -> bool {
    t matches Token::Text { value, path_fault } && value@ == text && (path_fault is None <==> path)
}

/// Whether a list starts with a property of `n` tokens, behind which it ends or
/// goes on after a comma.
pub open spec fn stands_alone(ts: Seq<Token>, n: int) -> bool {
    ts.len() == n || (ts.len() > n && is_mark(ts[n], ','))
}

/// What a list says once its first property, of `n` tokens, has made of the
/// attributes what `next` is: what the rest behind the comma says.
pub open spec fn goes_on(next: AttrsView, ts: Seq<Token>, n: int) -> Result<AttrsView, Fault> {
    if ts.len() <= n + 1 {
        Ok(next)
    } else {
        with_properties(next, ts.skip(n + 1), 0)
    }
}

proof fn path_end_from(ts: Seq<Token>, k: nat, i: nat)
    requires
        k <= ts.len(),
    ensures
        path_end(ts, i + k) == match path_end(ts.skip(k as int), i) {
            Ok(end) => Ok((end + k) as nat),
            Err(fault) => Err(fault),
        },
    decreases ts.len() - i,
{
    let rest = ts.skip(k as int);
    assert forall|j: int| 0 <= j < rest.len() implies #[trigger] rest[j] == ts[j + k] by {}
    assert(sep_at(ts, (i + k) as int) == sep_at(rest, i as int));
    if sep_at(rest, i as int) && i + 2 < rest.len() && rest[i as int + 2] is Ident {
        path_end_from(ts, k, i + 3);
    }
}

proof fn property_from(a: AttrsView, ts: Seq<Token>, k: nat, i: nat)
    requires
        k <= ts.len(),
    ensures
        property_at(a, ts, i + k) == match property_at(a, ts.skip(k as int), i) {
            Ok((next, end)) => Ok((next, (end + k) as nat)),
            Err(fault) => Err(fault),
        },
{
    let rest = ts.skip(k as int);
    assert forall|j: int| 0 <= j < rest.len() implies #[trigger] rest[j] == ts[j + k] by {}
    assert(sep_at(ts, (i + k) as int) == sep_at(rest, i as int));
    path_end_from(ts, k, i + 1);
    path_end_from(ts, k, i + 3);
    assert(path_at(ts, i + k) == match path_at(rest, i) {
        Ok((name, end)) => Ok((name, (end + k) as nat)),
        Err(fault) => Err(fault),
    });
    if let Ok((name, end)) = path_at(rest, i) {
        assert(punct_at(ts, (end + k) as int, '=') == punct_at(rest, end as int, '='));
        assert(value_at(ts, end + k) == value_at(rest, end));
        assert(path_value_at(ts, end + k) == path_value_at(rest, end));
        assert(with_property(a, ts, name, end + k) == match with_property(a, rest, name, end) {
            Ok((next, e)) => Ok((next, (e + k) as nat)),
            Err(fault) => Err(fault),
        });
    }
}

/// Where a path ends, it ends no earlier than it was read to.
proof fn path_end_grows(ts: Seq<Token>, i: nat)
    ensures
        path_end(ts, i) matches Ok(end) ==> end >= i,
    decreases ts.len() - i,
{
    if sep_at(ts, i as int) && i + 2 < ts.len() && ts[i as int + 2] is Ident {
        path_end_grows(ts, i + 3);
    }
}

proof fn properties_from(a: AttrsView, ts: Seq<Token>, k: nat, i: nat)
    requires
        k <= ts.len(),
    ensures
        with_properties(a, ts, i + k) == with_properties(a, ts.skip(k as int), i),
    decreases ts.len() - i,
{
    let rest = ts.skip(k as int);
    property_from(a, ts, k, i);
    path_end_grows(rest, i + 1);
    path_end_grows(rest, i + 3);
    if i < rest.len() {
        if let Ok((next, end)) = property_at(a, rest, i) {
            if end < rest.len() {
                assert(rest[end as int] == ts[(end + k) as int]);
                assert(punct_at(ts, (end + k) as int, ',') == punct_at(rest, end as int, ','));
                if punct_at(rest, end as int, ',') {
                    properties_from(next, ts, k, end + 1);
                }
            }
        }
    }
}

/// An identifier that nothing joins on to is the name of a property.
proof fn plain_name(ts: Seq<Token>, name: Seq<char>)
    requires
        ts.len() > 0,
        is_name(ts[0], name),
        ts.len() > 1 ==> !is_mark(ts[1], ':'),
    ensures
        path_at(ts, 0) == Ok::<(Seq<char>, nat), Fault>((name, 1)),
{
}

/// Each property with a text sets just what it is called after, to that text:
/// `rename`, `tag`, `content`, and `crate` and `default` where the text is a
/// path. The list then goes on.
pub proof fn text_properties_set_their_text(a: AttrsView, ts: Seq<Token>, text: Seq<char>, path: bool)
    requires
        ts.len() >= 3,
        is_mark(ts[1], '='),
        is_text(ts[2], text, path),
        stands_alone(ts, 3),
    ensures
        is_name(ts[0], "rename"@) ==> with_properties(a, ts, 0) == goes_on(
            AttrsView { rename: Some(text), ..a },
            ts,
            3,
        ),
        is_name(ts[0], "tag"@) ==> with_properties(a, ts, 0) == goes_on(
            AttrsView { tag: Some(text), ..a },
            ts,
            3,
        ),
        is_name(ts[0], "content"@) ==> with_properties(a, ts, 0) == goes_on(
            AttrsView { content: Some(text), ..a },
            ts,
            3,
        ),
        is_name(ts[0], "crate"@) && path ==> with_properties(a, ts, 0) == goes_on(
            AttrsView { crate_path: Some(text), ..a },
            ts,
            3,
        ),
        is_name(ts[0], "default"@) && path ==> with_properties(a, ts, 0) == goes_on(
            AttrsView { default: Some(Some(text)), ..a },
            ts,
            3,
        ),
        (is_name(ts[0], "crate"@) || is_name(ts[0], "default"@)) && !path ==> with_properties(
            a,
            ts,
            0,
        ) == Err::<AttrsView, Fault>(Fault::InvalidPath(ts[2]->path_fault->0@)),
{
    names_differ();
    if let Token::Ident(name) = ts[0] {
        plain_name(ts, name@);
        first_property(a, ts, 3);
        assert(property_at(a, ts, 0) == with_property(a, ts, name@, 1));
    }
}

/// `rename_all` sets the rule that its text names; there are eight, and another
/// text is a fault.
pub proof fn rename_all_sets_the_named_rule(a: AttrsView, ts: Seq<Token>, text: Seq<char>, path: bool)
    requires
        ts.len() >= 3,
        is_name(ts[0], "rename_all"@),
        is_mark(ts[1], '='),
        is_text(ts[2], text, path),
        stands_alone(ts, 3),
    ensures
        ({
            let with = |rule: RenameRule|
                with_properties(a, ts, 0) == goes_on(
                    AttrsView { rename_all: Some(rule), ..a },
                    ts,
                    3,
                );
            &&& text == "lowercase"@ ==> with(RenameRule::Lowercase)
            &&& text == "UPPERCASE"@ ==> with(RenameRule::Uppercase)
            &&& text == "snake_case"@ ==> with(RenameRule::SnakeCase)
            &&& text == "SCREAMING_SNAKE_CASE"@ ==> with(RenameRule::ScreamingSnakeCase)
            &&& text == "kebab-case"@ ==> with(RenameRule::KebabCase)
            &&& text == "SCREAMING-KEBAB-CASE"@ ==> with(RenameRule::ScreamingKebabCase)
            &&& text == "camelCase"@ ==> with(RenameRule::CamelCase)
            &&& text == "PascalCase"@ ==> with(RenameRule::PascalCase)
        }),
        text != "lowercase"@ && text != "UPPERCASE"@ && text != "snake_case"@ && text
            != "SCREAMING_SNAKE_CASE"@ && text != "kebab-case"@ && text
            != "SCREAMING-KEBAB-CASE"@ && text != "camelCase"@ && text != "PascalCase"@
            ==> with_properties(a, ts, 0) == Err::<AttrsView, Fault>(Fault::UnsupportedRule),
{
    names_differ();
    rule_names_differ();
    plain_name(ts, "rename_all"@);
    first_property(a, ts, 3);
    assert(property_at(a, ts, 0) == with_property(a, ts, "rename_all"@, 1));
    assert(value_at(ts, 1) == Ok::<Seq<char>, Fault>(text));
}

/// The first property of a list makes of the attributes what it says, and the
/// rest of the list goes on from there.
proof fn first_property(a: AttrsView, ts: Seq<Token>, n: nat)
    requires
        1 <= n <= ts.len(),
        stands_alone(ts, n as int),
    ensures
        property_at(a, ts, 0) matches Ok((next, end)) ==> end == n ==> with_properties(a, ts, 0)
            == goes_on(next, ts, n as int),
{
    if let Ok((next, end)) = property_at(a, ts, 0) {
        if end == n && n < ts.len() {
            assert(punct_at(ts, end as int, ','));
            properties_from(next, ts, n + 1, 0);
            assert(with_properties(a, ts, 0) == with_properties(next, ts, n + 1));
        }
    }
}

/// Each flag sets just itself, and so does a bare `default`. The list then goes
/// on.
pub proof fn flags_set_themselves(a: AttrsView, ts: Seq<Token>)
    requires
        ts.len() >= 1,
        stands_alone(ts, 1),
    ensures
        is_name(ts[0], "skip"@) ==> with_properties(a, ts, 0) == goes_on(
            AttrsView { skip: true, ..a },
            ts,
            1,
        ),
        is_name(ts[0], "skip_to_term"@) ==> with_properties(a, ts, 0) == goes_on(
            AttrsView { skip_to_term: true, ..a },
            ts,
            1,
        ),
        is_name(ts[0], "skip_from_term"@) ==> with_properties(a, ts, 0) == goes_on(
            AttrsView { skip_from_term: true, ..a },
            ts,
            1,
        ),
        is_name(ts[0], "flatten"@) ==> with_properties(a, ts, 0) == goes_on(
            AttrsView { flatten: true, ..a },
            ts,
            1,
        ),
        is_name(ts[0], "untagged"@) ==> with_properties(a, ts, 0) == goes_on(
            AttrsView { untagged: true, ..a },
            ts,
            1,
        ),
        is_name(ts[0], "default"@) ==> with_properties(a, ts, 0) == goes_on(
            AttrsView { default: Some(None), ..a },
            ts,
            1,
        ),
{
    names_differ();
    if let Token::Ident(name) = ts[0] {
        plain_name(ts, name@);
        first_property(a, ts, 1);
        assert(property_at(a, ts, 0) == with_property(a, ts, name@, 1));
    }
}

/// What is wrong with a property is told at once, whatever stands behind it: an
/// unknown name, a missing equals sign, a value that is no string literal, and
/// that no comma follows.
pub proof fn faulty_properties_are_told(a: AttrsView, ts: Seq<Token>, name: Seq<char>)
    requires
        ts.len() >= 1,
        is_name(ts[0], name),
        ts.len() > 1 ==> !is_mark(ts[1], ':'),
    ensures
        name != "rename"@ && name != "rename_all"@ && name != "tag"@ && name != "content"@ && name
            != "crate"@ && name != "default"@ && name != "skip"@ && name != "skip_to_term"@ && name
            != "skip_from_term"@ && name != "flatten"@ && name != "untagged"@ ==> with_properties(
            a,
            ts,
            0,
        ) == Err::<AttrsView, Fault>(Fault::UnsupportedProperty),
        (name == "rename"@ || name == "rename_all"@ || name == "tag"@ || name == "content"@ || name
            == "crate"@) && !(ts.len() > 1 && is_mark(ts[1], '=')) ==> with_properties(a, ts, 0)
            == Err::<AttrsView, Fault>(Fault::EqualsExpected),
        (name == "rename"@ || name == "rename_all"@ || name == "tag"@ || name == "content"@ || name
            == "crate"@ || name == "default"@) && ts.len() > 1 && is_mark(ts[1], '=') && !(ts.len()
            > 2 && ts[2] is Text) ==> with_properties(a, ts, 0) == Err::<AttrsView, Fault>(
            Fault::StringExpected(ts.len() <= 2),
        ),
        (name == "skip"@ || name == "skip_to_term"@ || name == "skip_from_term"@ || name
            == "flatten"@ || name == "untagged"@) && ts.len() > 1 && !is_mark(ts[1], ',')
            ==> with_properties(a, ts, 0) == Err::<AttrsView, Fault>(Fault::CommaExpected),
        (name == "rename"@ || name == "tag"@ || name == "content"@) && ts.len() > 3 && is_mark(
            ts[1],
            '=',
        ) && ts[2] is Text && !is_mark(ts[3], ',') ==> with_properties(a, ts, 0) == Err::<
            AttrsView,
            Fault,
        >(Fault::CommaExpected),
{
    names_differ();
    plain_name(ts, name);
}

/// A list that does not start with a name is at fault, and so is a path of
/// several names: there is no such property.
pub proof fn properties_start_with_one_name(a: AttrsView, ts: Seq<Token>)
    requires
        ts.len() >= 1,
    ensures
        (ts[0] is Text || ts[0] is Literal) ==> with_properties(a, ts, 0) == Err::<AttrsView, Fault>(
            Fault::LiteralUnexpected,
        ),
        ts[0] is Group ==> with_properties(a, ts, 0) == Err::<AttrsView, Fault>(
            Fault::TokenUnexpected,
        ),
        is_mark(ts[0], ',') ==> with_properties(a, ts, 0) == Err::<AttrsView, Fault>(
            Fault::TokenUnexpected,
        ),
        ts.len() == 4 && ts[0] is Ident && ts[1] == (Token::Punct { ch: ':', joint: true })
            && is_mark(ts[2], ':') && ts[3] is Ident ==> with_properties(a, ts, 0) == Err::<
            AttrsView,
            Fault,
        >(Fault::UnsupportedProperty),
        ts.len() == 3 && ts[0] is Ident && ts[1] == (Token::Punct { ch: ':', joint: true })
            && is_mark(ts[2], ':') ==> with_properties(a, ts, 0) == Err::<AttrsView, Fault>(
            Fault::IdentExpected(true),
        ),
{
    empty_is_no_name();
    if ts.len() == 4 && ts[0] is Ident && ts[1] == (Token::Punct { ch: ':', joint: true })
        && is_mark(ts[2], ':') && ts[3] is Ident {
        assert(sep_at(ts, 1));
        assert(!sep_at(ts, 4));
        assert(path_end(ts, 4) == Ok::<nat, Fault>(4));
        assert(path_end(ts, 1) == Ok::<nat, Fault>(4));
        assert(path_at(ts, 0) == Ok::<(Seq<char>, nat), Fault>((Seq::empty(), 4)));
    }
}

/// An empty list says nothing. The attributes of a type, variant or field are
/// those of its `splint` attributes, one after another; others say nothing, and
/// a `splint` attribute must have a list.
pub proof fn attributes_are_read_in_turn(
    a: AttrsView,
    attributes: Seq<Attribute>,
    attribute: Attribute,
)
    ensures
        with_properties(a, Seq::empty(), 0) == Ok::<AttrsView, Fault>(a),
        attrs_of(Seq::empty()) matches Ok(none) && none.rename is None && none.rename_all is None
            && !none.skip && !none.skip_to_term && !none.skip_from_term && !none.flatten
            && none.default is None && !none.untagged && none.tag is None && none.content is None
            && none.crate_path is None,
        attribute.path@ != "splint"@ ==> attrs_of(attributes.push(attribute)) == attrs_of(
            attributes,
        ),
        attrs_of(attributes) is Err ==> attrs_of(attributes.push(attribute)) == attrs_of(
            attributes,
        ),
        attribute.path@ == "splint"@ ==> match attrs_of(attributes) {
            Err(fault) => true,
            Ok(before) => attrs_of(attributes.push(attribute)) == match attribute.arguments {
                Arguments::List(list) => with_properties(before, list@, 0),
                Arguments::Nothing => Err(Fault::NoList),
                Arguments::Value => Err(Fault::NotAList),
            },
        },
{
    assert(attributes.push(attribute).drop_last() =~= attributes);
    assert(attributes.push(attribute).last() == attribute);
}

proof fn empty_is_no_name()
    ensures
        Seq::<char>::empty() != "rename"@,
        Seq::<char>::empty() != "rename_all"@,
        Seq::<char>::empty() != "tag"@,
        Seq::<char>::empty() != "content"@,
        Seq::<char>::empty() != "crate"@,
        Seq::<char>::empty() != "default"@,
        Seq::<char>::empty() != "skip"@,
        Seq::<char>::empty() != "skip_to_term"@,
        Seq::<char>::empty() != "skip_from_term"@,
        Seq::<char>::empty() != "flatten"@,
        Seq::<char>::empty() != "untagged"@,
{
    names_differ();
}

/// The names of properties differ, and none is empty.
proof fn names_differ()
    ensures
        "rename"@.len() == 6 && "rename_all"@.len() == 10 && "tag"@.len() == 3 && "content"@.len()
            == 7 && "crate"@.len() == 5 && "default"@.len() == 7 && "skip"@.len() == 4,
        "skip_to_term"@.len() == 12 && "skip_from_term"@.len() == 14 && "flatten"@.len() == 7
            && "untagged"@.len() == 8,
        "content"@[0] == 'c' && "default"@[0] == 'd' && "flatten"@[0] == 'f',
{
    reveal_strlit("rename");
    reveal_strlit("rename_all");
    reveal_strlit("tag");
    reveal_strlit("content");
    reveal_strlit("crate");
    reveal_strlit("default");
    reveal_strlit("skip");
    reveal_strlit("skip_to_term");
    reveal_strlit("skip_from_term");
    reveal_strlit("flatten");
    reveal_strlit("untagged");
}

/// The names of renaming rules differ.
proof fn rule_names_differ()
    ensures
        "lowercase"@.len() == 9 && "UPPERCASE"@.len() == 9 && "snake_case"@.len() == 10
            && "SCREAMING_SNAKE_CASE"@.len() == 20 && "kebab-case"@.len() == 10,
        "SCREAMING-KEBAB-CASE"@.len() == 20 && "camelCase"@.len() == 9 && "PascalCase"@.len() == 10,
        "lowercase"@[0] == 'l' && "UPPERCASE"@[0] == 'U' && "camelCase"@[0] == 'c',
        "snake_case"@[0] == 's' && "kebab-case"@[0] == 'k' && "PascalCase"@[0] == 'P',
        "SCREAMING_SNAKE_CASE"@[9] == '_' && "SCREAMING-KEBAB-CASE"@[9] == '-',
{
    reveal_strlit("lowercase");
    reveal_strlit("UPPERCASE");
    reveal_strlit("snake_case");
    reveal_strlit("SCREAMING_SNAKE_CASE");
    reveal_strlit("kebab-case");
    reveal_strlit("SCREAMING-KEBAB-CASE");
    reveal_strlit("camelCase");
    reveal_strlit("PascalCase");
}

} // verus!
