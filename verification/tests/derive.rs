use splint::derive::attrs::{attrs, DeriveError};
use splint::derive::decode::{arm_wires, expand_from, FromAction, FromBody, Missing, ReadSource};
use splint::derive::encode::{expand_to, FieldWrite, ToAction, ToBody};
use proc_macro2::{TokenStream, TokenTree};
use splint::derive::input::{
    Arguments, Attribute, Body, Field, Fields, Input, Token, TypeUse, Variant,
};
use splint::derive::rename::{capitalize, join, rename, split_marked, split_words, RenameRule};

/// The tokens of an attribute's list.
fn tokens(list: &str) -> Vec<Token> {
    let stream: TokenStream = list.parse().unwrap();
    stream
        .into_iter()
        .map(|tree| match tree {
            TokenTree::Ident(ident) => Token::Ident(ident.to_string()),
            TokenTree::Punct(punct) => Token::Punct {
                ch: punct.as_char(),
                joint: punct.spacing() == proc_macro2::Spacing::Joint,
            },
            TokenTree::Literal(literal) => match syn::Lit::new(literal) {
                syn::Lit::Str(text) => Token::text(text.value()),
                syn::Lit::Int(_) | syn::Lit::Float(_) => Token::Literal { number: true },
                _ => Token::Literal { number: false },
            },
            TokenTree::Group(_) => Token::Group,
        })
        .collect()
}

fn splint(list: &str) -> Attribute {
    Attribute {
        path: "splint".to_owned(),
        arguments: Arguments::List(tokens(list)),
    }
}

fn ty(text: &str, leading: &[&str]) -> TypeUse {
    TypeUse {
        text: text.to_owned(),
        leading: leading.iter().map(|name| (*name).to_owned()).collect(),
    }
}

fn field(name: &str, text: &str, attributes: &[&str]) -> Field {
    Field {
        name: name.to_owned(),
        ty: ty(text, &[text]),
        attributes: attributes.iter().map(|list| splint(list)).collect(),
    }
}

fn variant(name: &str, attributes: &[&str], fields: Fields) -> Variant {
    Variant {
        name: name.to_owned(),
        attributes: attributes.iter().map(|list| splint(list)).collect(),
        fields,
    }
}

fn input(name: &str, params: &[&str], attributes: &[&str], body: Body) -> Input {
    Input {
        name: name.to_owned(),
        type_params: params.iter().map(|param| (*param).to_owned()).collect(),
        attributes: attributes.iter().map(|list| splint(list)).collect(),
        body,
    }
}

#[test]
fn supported_rename_rules_are_applied() {
    let cases = [
        ("lowercase", "somevalue"),
        ("UPPERCASE", "SOMEVALUE"),
        ("snake_case", "some_value"),
        ("SCREAMING_SNAKE_CASE", "SOME_VALUE"),
        ("kebab-case", "some-value"),
        ("SCREAMING-KEBAB-CASE", "SOME-VALUE"),
        ("camelCase", "someValue"),
        ("PascalCase", "SomeValue"),
    ];

    for (rule, expected) in cases {
        let rule = RenameRule::parse(rule).unwrap();
        assert_eq!(rename("someValue", Some(rule)), expected);
    }
}

#[test]
fn unsupported_rename_rule_is_rejected() {
    let input = input(
        "Example",
        &[],
        &["rename_all = \"snakecase\""],
        Body::Struct(Fields::Named(vec![field("some_value", "i64", &[])])),
    );

    let error = match expand_to(&input) {
        Ok(_) => panic!("the rule should not be supported"),
        Err(error) => error,
    };
    assert!(error.message().contains("unsupported rename_all rule"));
}

#[test]
fn malformed_named_variant_field_attribute_is_rejected_for_to_term() {
    let input = input(
        "Example",
        &[],
        &[],
        Body::Enum(vec![variant(
            "Variant",
            &[],
            Fields::Named(vec![field("value", "i64", &["rename"])]),
        )]),
    );

    assert!(expand_to(&input).is_err());
}

#[test]
fn names_without_a_rule_stay_and_non_ascii_names_are_split() {
    assert_eq!(rename("someValue", None), "someValue");
    assert_eq!(rename("some_value", Some(RenameRule::PascalCase)), "SomeValue");
    assert_eq!(rename("HTTPServer", Some(RenameRule::SnakeCase)), "h_t_t_p_server");
    assert_eq!(rename("straßeÄ", Some(RenameRule::ScreamingSnakeCase)), "STRASSE_Ä");
    assert_eq!(rename("straßeÄ", Some(RenameRule::SnakeCase)), "straße_ä");
}

#[test]
fn attribute_faults_are_told_apart() {
    let fault = |list: &str| match attrs(&vec![splint(list)]) {
        Ok(_) => panic!("{list} should be rejected"),
        Err(error) => error,
    };
    assert!(matches!(fault("rename ="), DeriveError::StringExpected { end: true }));
    assert!(matches!(fault("rename"), DeriveError::EqualsExpected));
    assert!(matches!(fault("rename(x)"), DeriveError::EqualsExpected));
    assert!(matches!(fault("rename = 5"), DeriveError::StringExpected { end: false }));
    assert!(matches!(fault("default(x)"), DeriveError::CommaExpected));
    assert!(matches!(fault("skip = \"x\""), DeriveError::CommaExpected));
    assert!(matches!(fault("rename_all = \"no\""), DeriveError::UnsupportedRule));
    assert!(matches!(fault("colour"), DeriveError::UnsupportedProperty));
    assert!(matches!(fault("crate = \"1 2\""), DeriveError::InvalidPath(_)));
    assert!(matches!(fault("default = \"\""), DeriveError::InvalidPath(_)));
    assert!(matches!(fault("default = \"9_lives\""), DeriveError::InvalidPath(_)));
    assert!(attrs(&vec![splint("default = \"my_mod::make_it\"")]).is_ok());
    assert!(matches!(fault("skip::"), DeriveError::IdentExpected { end: true }));
    assert!(matches!(fault("skip:: = 1"), DeriveError::IdentExpected { end: false }));
    assert!(matches!(fault("skip::x"), DeriveError::UnsupportedProperty));
    assert!(matches!(fault("::"), DeriveError::NestedExpected));
    assert!(matches!(fault("::skip"), DeriveError::UnsupportedProperty));
    assert!(matches!(fault("-5"), DeriveError::LiteralUnexpected));
    assert!(matches!(fault("\"skip\""), DeriveError::LiteralUnexpected));
    assert!(matches!(fault("(skip)"), DeriveError::TokenUnexpected));
    assert!(matches!(fault("skip flatten"), DeriveError::CommaExpected));
    assert!(matches!(fault("rename = \"a\" + \"b\""), DeriveError::CommaExpected));
    // The first fault counts, whatever follows it.
    assert!(matches!(fault("colour, = ="), DeriveError::UnsupportedProperty));
    assert_eq!(
        fault("tag =").message(),
        "unexpected end of input, expected string literal"
    );
    assert!(attrs(&vec![splint("")]).is_ok());
    assert!(attrs(&vec![splint("skip,")]).is_ok());
    let bare = Attribute {
        path: "splint".to_owned(),
        arguments: Arguments::Nothing,
    };
    assert!(matches!(attrs(&vec![bare]), Err(DeriveError::NoList)));
    let valued = Attribute {
        path: "splint".to_owned(),
        arguments: Arguments::Value,
    };
    assert!(matches!(attrs(&vec![valued]), Err(DeriveError::NotAList)));

    // Other attributes are not looked at.
    let other = Attribute {
        path: "serde".to_owned(),
        arguments: Arguments::List(tokens("colour")),
    };
    assert!(attrs(&vec![other]).is_ok());
    let several = attrs(&vec![
        splint("rename = \"a\", flatten"),
        splint("crate = \"my::path\", default = \"f::g\", skip_to_term"),
    ]);
    let several = match several {
        Ok(read) => read,
        Err(error) => panic!("{}", error.message()),
    };
    assert_eq!(several.rename.as_deref(), Some("a"));
    assert_eq!(several.crate_path.as_deref(), Some("my::path"));
    assert!(matches!(several.default, Some(Some(ref path)) if path == "f::g"));
    assert!(several.flatten && several.skip_to_term && !several.skip);
}

#[test]
fn structs_are_planned_as_dicts_with_skipped_and_flattened_fields() {
    let envelope = input(
        "Envelope",
        &["T"],
        &["rename_all = \"camelCase\", default"],
        Body::Struct(Fields::Named(vec![
            field("generic_value", "T", &[]),
            field("details", "Details", &["flatten"]),
            field("runtime_only", "RuntimeOnly", &["skip"]),
            field("given", "i64", &["rename = \"other\", default = \"eleven\""]),
        ])),
    );

    let to = match expand_to(&envelope) {
        Ok(plan) => plan,
        Err(error) => panic!("{}", error.message()),
    };
    assert_eq!(to.bounded, ["T"]);
    assert_eq!(to.predicates, ["Details"]);
    match &to.body {
        ToBody::Dict { tag, writes } => {
            assert_eq!(tag, "Envelope");
            assert!(matches!(&writes[0], FieldWrite::Put { name, wire }
                if name == "generic_value" && wire == "genericValue"));
            assert!(matches!(&writes[1], FieldWrite::Flatten { name } if name == "details"));
            assert!(matches!(&writes[2], FieldWrite::Skip { name } if name == "runtime_only"));
            assert!(matches!(&writes[3], FieldWrite::Put { wire, .. } if wire == "other"));
        }
        _ => panic!("a struct with named fields is a dict"),
    }

    let from = match expand_from(&envelope) {
        Ok(plan) => plan,
        Err(error) => panic!("{}", error.message()),
    };
    match &from.body {
        FromBody::Dict { tag, reads } => {
            assert_eq!(tag, "Envelope");
            assert!(matches!(&reads[0].source, ReadSource::Wire { wire, missing: Missing::Default }
                if wire == "genericValue"));
            assert!(matches!(&reads[1].source, ReadSource::Flatten));
            assert!(matches!(&reads[2].source, ReadSource::Default));
            assert!(matches!(&reads[3].source, ReadSource::Wire { wire, missing: Missing::Call(f) }
                if wire == "other" && f == "eleven"));
        }
        _ => panic!("a struct with named fields is a dict"),
    }
}

#[test]
fn enums_are_planned_by_their_tagging() {
    let variants = || {
        vec![
            variant("Empty", &[], Fields::Unit),
            variant("Circle", &[], Fields::Unnamed(vec![ty("u8", &["u8"])])),
            variant(
                "Rect",
                &["rename = \"box\""],
                Fields::Unnamed(vec![ty("i64", &["i64"]), ty("i64", &["i64"])]),
            ),
            variant("Label", &[], Fields::Named(vec![field("text", "String", &[])])),
            variant("Gone", &["skip"], Fields::Unit),
        ]
    };
    let arms = |attributes: &[&str]| {
        let shape = input("Shape", &[], attributes, Body::Enum(variants()));
        let to = match expand_to(&shape) {
            Ok(plan) => plan,
            Err(error) => panic!("{}", error.message()),
        };
        let from = match expand_from(&shape) {
            Ok(plan) => plan,
            Err(error) => panic!("{}", error.message()),
        };
        let to = match to.body {
            ToBody::Match(arms) => arms,
            _ => panic!("an enum is matched"),
        };
        let from = match from.body {
            FromBody::Attempts(arms) => arms,
            FromBody::Tagged(arms) => arms,
            _ => panic!("an enum is attempted"),
        };
        (to, from)
    };

    let (to, from) = arms(&[]);
    assert!(matches!(&to[0].action, ToAction::Atom { wire } if wire == "Empty"));
    assert!(matches!(&to[1].action, ToAction::Compound { wire, arity: 1 } if wire == "Circle"));
    assert!(matches!(&to[2].action, ToAction::Compound { wire, arity: 2 } if wire == "box"));
    assert!(matches!(&to[3].action, ToAction::Dict { tag, .. } if tag == "Label"));
    assert!(matches!(&to[4].action, ToAction::Skipped));
    assert_eq!(from.len(), 4);
    assert!(matches!(&from[2].action, FromAction::Compound { wire, arity: 2 } if wire == "box"));

    let (to, from) = arms(&["untagged"]);
    assert!(matches!(&to[0].action, ToAction::Absent));
    assert!(matches!(&to[1].action, ToAction::Newtype));
    assert!(matches!(&to[2].action, ToAction::List { arity: 2 }));
    assert!(matches!(&to[3].action, ToAction::Dict { tag, .. } if tag == "#"));
    assert_eq!(from.len(), 3);
    assert!(matches!(&from[2].action, FromAction::TryDict { .. }));

    let (to, from) = arms(&["tag = \"kind\", content = \"data\""]);
    assert!(matches!(&to[0].action, ToAction::TaggedUnit { wire } if wire == "Empty"));
    assert!(matches!(&to[2].action, ToAction::TaggedTuple { wire, arity: 2 } if wire == "box"));
    assert!(matches!(&to[3].action, ToAction::TaggedDict { .. }));
    assert!(matches!(&from[1].action, FromAction::TaggedNewtype { wire } if wire == "Circle"));
}

#[test]
fn shapes_that_cannot_be_derived_are_rejected() {
    assert!(matches!(
        expand_to(&input("U", &[], &[], Body::Union)),
        Err(DeriveError::ToUnion)
    ));
    assert!(matches!(
        expand_from(&input("U", &[], &[], Body::Union)),
        Err(DeriveError::FromUnion)
    ));
    let tuple = || {
        vec![variant(
            "V",
            &[],
            Fields::Unnamed(vec![ty("i64", &["i64"])]),
        )]
    };
    assert!(matches!(
        expand_to(&input("E", &[], &["tag = \"kind\""], Body::Enum(tuple()))),
        Err(DeriveError::ContentRequired)
    ));
    assert!(matches!(
        expand_from(&input("E", &[], &["tag = \"kind\""], Body::Enum(tuple()))),
        Err(DeriveError::ContentRequired)
    ));
    assert!(matches!(
        expand_from(&input(
            "S",
            &[],
            &["default = \"f\""],
            Body::Struct(Fields::Unit)
        )),
        Err(DeriveError::ContainerDefaultPath)
    ));
}

#[test]
fn names_split_into_words_at_separators_and_upper_case() {
    assert_eq!(split_words("userId_of-home"), ["user", "Id", "of", "home"]);
    assert_eq!(split_words("__a--B_"), ["a", "B"]);
    assert!(split_words("_-_").is_empty());
    // The marks decide, whatever the characters are.
    let marks = vec![false, false, true, false, true];
    assert_eq!(split_marked("ab_cd", &marks), ["ab", "c", "d"]);
    assert_eq!(join(&split_words("userId"), "+"), "user+Id");
    assert_eq!(capitalize("hOME"), "Home");
    assert_eq!(capitalize(""), "");
}

#[test]
fn renaming_twice_is_renaming_once_on_values() {
    for name in ["someValue", "HTTPServer", "a_b-C1d", "_x", "1st_place", ""] {
        for rule in [
            RenameRule::Lowercase,
            RenameRule::Uppercase,
            RenameRule::SnakeCase,
            RenameRule::KebabCase,
            RenameRule::CamelCase,
            RenameRule::PascalCase,
        ] {
            let once = rename(name, Some(rule));
            assert_eq!(rename(&once, Some(rule)), once);
        }
        assert_eq!(rename(name, None), name);
    }
    // Not so for words all in upper case.
    assert_ne!(
        rename("AB", Some(RenameRule::ScreamingSnakeCase)),
        rename("ab", Some(RenameRule::ScreamingSnakeCase))
    );
}

#[test]
fn tagged_decoders_name_their_arms() {
    let shape = input(
        "Node",
        &[],
        &["tag = \"kind\", rename_all = \"lowercase\""],
        Body::Enum(vec![
            variant("Leaf", &[], Fields::Unit),
            variant("Hidden", &["skip"], Fields::Unit),
            variant("Branch", &["rename = \"fork\""], Fields::Unit),
        ]),
    );
    match expand_from(&shape) {
        Ok(plan) => match &plan.body {
            FromBody::Tagged(arms) => assert_eq!(arm_wires(arms), ["leaf", "fork"]),
            _ => panic!("the decoder goes by the tag"),
        },
        Err(error) => panic!("{}", error.message()),
    }
}

#[test]
fn values_are_told_apart_as_paths() {
    for path in [
        "String::new",
        "Vec::new",
        "splint",
        "::splint",
        "crate::x",
        "self::a",
        "super::super::b2",
        "Self",
        "my::path",
        "f::g",
        "eleven",
        "_private",
        "union::auto",
    ] {
        assert!(
            matches!(Token::text(path.to_owned()), Token::Text { path_fault: None, value } if value == path),
            "{path}"
        );
        assert!(attrs(&vec![splint(&format!("default = \"{path}\""))]).is_ok());
    }
    for none in [
        "", "0", "9_lives", "fn", "let", "struct", "_", "a::fn", "type::a", "::where", "a::",
        "::a::b::", "extern",
    ] {
        assert!(
            matches!(Token::text(none.to_owned()), Token::Text { path_fault: Some(_), .. }),
            "{none}"
        );
    }
    // The message is handed on.
    let fault = Token::checked("x y".to_owned(), Err("unexpected token".to_owned()));
    assert!(matches!(
        &fault,
        Token::Text { path_fault: Some(message), .. } if message == "unexpected token"
    ));
    let message = match Token::text("fn".to_owned()) {
        Token::Text { path_fault: Some(message), .. } => message,
        _ => panic!("a keyword is no path"),
    };
    match attrs(&vec![splint("crate = \"fn\"")]) {
        Err(error) => assert_eq!(error.message(), message),
        Ok(_) => panic!("a keyword is no path"),
    }
    assert!(message.contains("keyword"));
}
