//! The `splint` attributes of types, variants and fields.

use syn::{LitStr, Path};
use vstd::prelude::*;
use vstd::string::*;

use crate::derive::input::{Arguments, Attribute, Token};
use crate::derive::rename::{joined, rule_named, RenameRule};
use crate::text::same_text;

verus! {

/// Why a type's encoder or decoder cannot be derived.
#[derive(Debug, PartialEq, Eq)]
pub enum DeriveError {
    /// An attribute has no arguments.
    NoList,
    /// An attribute has a value in place of a list of properties.
    NotAList,
    /// A list of properties ends where a property should stand.
    NestedExpected,
    /// A literal stands where a property should.
    LiteralUnexpected,
    /// Something else stands where a property should.
    TokenUnexpected,
    /// A path goes on without an identifier; `end` tells that the list ends
    /// there.
    IdentExpected { end: bool },
    /// A property has no value.
    EqualsExpected,
    /// The value of a property is not a string literal; `end` tells that the
    /// list ends there.
    StringExpected { end: bool },
    /// A property is not followed by a comma.
    CommaExpected,
    /// The value of `rename_all` is not a known rule.
    UnsupportedRule,
    /// A property is not known.
    UnsupportedProperty,
    /// A value is not a path.
    InvalidPath(String),
    /// Encoders cannot be derived for unions.
    ToUnion,
    /// Decoders cannot be derived for unions.
    FromUnion,
    /// A container's `default` takes no function path.
    ContainerDefaultPath,
    /// An internally tagged enum has a tuple variant but no `content`.
    ContentRequired,
}

/// What a [`DeriveError`] denotes.
#[verifier::ext_equal]
pub enum Fault {
    NoList,
    NotAList,
    NestedExpected,
    LiteralUnexpected,
    TokenUnexpected,
    IdentExpected(bool),
    EqualsExpected,
    StringExpected(bool),
    CommaExpected,
    UnsupportedRule,
    UnsupportedProperty,
    InvalidPath(Seq<char>),
    ToUnion,
    FromUnion,
    ContainerDefaultPath,
    ContentRequired,
}

impl View for DeriveError {
    type V = Fault;

    open spec fn view(&self) -> Fault {
        match self {
            DeriveError::NoList => Fault::NoList,
            DeriveError::NotAList => Fault::NotAList,
            DeriveError::NestedExpected => Fault::NestedExpected,
            DeriveError::LiteralUnexpected => Fault::LiteralUnexpected,
            DeriveError::TokenUnexpected => Fault::TokenUnexpected,
            DeriveError::IdentExpected { end } => Fault::IdentExpected(*end),
            DeriveError::EqualsExpected => Fault::EqualsExpected,
            DeriveError::StringExpected { end } => Fault::StringExpected(*end),
            DeriveError::CommaExpected => Fault::CommaExpected,
            DeriveError::UnsupportedRule => Fault::UnsupportedRule,
            DeriveError::UnsupportedProperty => Fault::UnsupportedProperty,
            DeriveError::InvalidPath(text) => Fault::InvalidPath(text@),
            DeriveError::ToUnion => Fault::ToUnion,
            DeriveError::FromUnion => Fault::FromUnion,
            DeriveError::ContainerDefaultPath => Fault::ContainerDefaultPath,
            DeriveError::ContentRequired => Fault::ContentRequired,
        }
    }
}

impl DeriveError {
    /// What is reported to the author of the type.
    pub fn message(&self) -> (r: String)
        ensures
            r@ == match self {
                DeriveError::NoList => "expected attribute arguments in parentheses: #[splint(...)]"@,
                DeriveError::NotAList => "expected parentheses: #[splint(...)]"@,
                DeriveError::NestedExpected => "unexpected end of input, expected nested attribute"@,
                DeriveError::LiteralUnexpected => "unexpected literal in nested attribute, expected ident"@,
                DeriveError::TokenUnexpected => "unexpected token in nested attribute, expected ident"@,
                DeriveError::IdentExpected { end } => if *end {
                    "unexpected end of input, expected ident"@
                } else {
                    "expected ident"@
                },
                DeriveError::EqualsExpected => "expected `=`"@,
                DeriveError::StringExpected { end } => if *end {
                    "unexpected end of input, expected string literal"@
                } else {
                    "expected string literal"@
                },
                DeriveError::CommaExpected => "expected `,`"@,
                DeriveError::UnsupportedRule => "unsupported rename_all rule"@,
                DeriveError::UnsupportedProperty => "unsupported #[splint] attribute"@,
                DeriveError::InvalidPath(text) => text@,
                DeriveError::ToUnion => "ToTerm cannot be derived for unions"@,
                DeriveError::FromUnion => "FromTerm cannot be derived for unions"@,
                DeriveError::ContainerDefaultPath => "container-level default does not accept a function path"@,
                DeriveError::ContentRequired => "internally tagged tuple/newtype variants require content = ..."@,
            },
    {
        match self {
            DeriveError::NoList => {
                "expected attribute arguments in parentheses: #[splint(...)]".to_owned()
            },
            DeriveError::NotAList => "expected parentheses: #[splint(...)]".to_owned(),
            DeriveError::NestedExpected => {
                "unexpected end of input, expected nested attribute".to_owned()
            },
            DeriveError::LiteralUnexpected => {
                "unexpected literal in nested attribute, expected ident".to_owned()
            },
            DeriveError::TokenUnexpected => {
                "unexpected token in nested attribute, expected ident".to_owned()
            },
            DeriveError::IdentExpected { end } => {
                if *end {
                    "unexpected end of input, expected ident".to_owned()
                } else {
                    "expected ident".to_owned()
                }
            },
            DeriveError::EqualsExpected => "expected `=`".to_owned(),
            DeriveError::StringExpected { end } => {
                if *end {
                    "unexpected end of input, expected string literal".to_owned()
                } else {
                    "expected string literal".to_owned()
                }
            },
            DeriveError::CommaExpected => "expected `,`".to_owned(),
            DeriveError::UnsupportedRule => "unsupported rename_all rule".to_owned(),
            DeriveError::UnsupportedProperty => "unsupported #[splint] attribute".to_owned(),
            DeriveError::InvalidPath(text) => text.clone(),
            DeriveError::ToUnion => "ToTerm cannot be derived for unions".to_owned(),
            DeriveError::FromUnion => "FromTerm cannot be derived for unions".to_owned(),
            DeriveError::ContainerDefaultPath => {
                "container-level default does not accept a function path".to_owned()
            },
            DeriveError::ContentRequired => {
                "internally tagged tuple/newtype variants require content = ...".to_owned()
            },
        }
    }
}

/// Whether a character may start an ASCII word.
pub open spec fn starts_word(c: char) -> bool {
    'a' <= c <= 'z' || 'A' <= c <= 'Z' || c == '_'
}

/// Whether a text is an ASCII word: a letter or an underscore, then letters,
/// digits and underscores.
pub open spec fn is_word(text: Seq<char>) -> bool {
    &&& text.len() > 0
    &&& starts_word(text[0])
    &&& forall|i: int|
        0 <= i < text.len() ==> starts_word(#[trigger] text[i]) || '0' <= text[i] <= '9'
}

/// Whether a word is a keyword that no path has as a segment, or the
/// underscore. `try` is left out: it depends on how syn was built.
pub open spec fn is_reserved(text: Seq<char>) -> bool {
    ||| text == "_"@
    ||| text == "abstract"@
    ||| text == "as"@
    ||| text == "async"@
    ||| text == "await"@
    ||| text == "become"@
    ||| text == "box"@
    ||| text == "break"@
    ||| text == "const"@
    ||| text == "continue"@
    ||| text == "do"@
    ||| text == "dyn"@
    ||| text == "else"@
    ||| text == "enum"@
    ||| text == "extern"@
    ||| text == "false"@
    ||| text == "final"@
    ||| text == "fn"@
    ||| text == "for"@
    ||| text == "if"@
    ||| text == "impl"@
    ||| text == "in"@
    ||| text == "let"@
    ||| text == "loop"@
    ||| text == "macro"@
    ||| text == "match"@
    ||| text == "mod"@
    ||| text == "move"@
    ||| text == "mut"@
    ||| text == "override"@
    ||| text == "priv"@
    ||| text == "pub"@
    ||| text == "ref"@
    ||| text == "return"@
    ||| text == "static"@
    ||| text == "struct"@
    ||| text == "trait"@
    ||| text == "true"@
    ||| text == "type"@
    ||| text == "typeof"@
    ||| text == "unsafe"@
    ||| text == "unsized"@
    ||| text == "use"@
    ||| text == "virtual"@
    ||| text == "where"@
    ||| text == "while"@
    ||| text == "yield"@
}

/// Words with `::` between them, and in front of them where `leading` is set.
pub open spec fn path_text(leading: bool, words: Seq<Seq<char>>) -> Seq<char> {
    (if leading {
        "::"@
    } else {
        Seq::empty()
    }) + joined(words, "::"@)
}

/// Whether these are words, at least one.
pub open spec fn are_words(words: Seq<Seq<char>>) -> bool {
    words.len() > 0 && forall|i: int| 0 <= i < words.len() ==> is_word(#[trigger] words[i])
}

/// Whether a text is a path without generic arguments in its plain form: ASCII
/// words with `::` between them and perhaps in front, none of them a keyword
/// but `self`, `super`, `crate` and `Self`.
pub open spec fn is_plain_path(text: Seq<char>) -> bool {
    exists|leading: bool, words: Seq<Seq<char>>|
        text == #[trigger] path_text(leading, words) && are_words(words) && forall|i: int|
            0 <= i < words.len() ==> !is_reserved(#[trigger] words[i]) && words[i] != "try"@
}

/// Whether a text is plainly no path: it is empty, it starts with a digit, or
/// it is such words with a keyword among them, or with `::` behind them.
pub open spec fn is_no_path(text: Seq<char>) -> bool {
    ||| text.len() == 0
    ||| '0' <= text[0] <= '9'
    ||| exists|leading: bool, words: Seq<Seq<char>>|
        text == #[trigger] path_text(leading, words) && are_words(words) && exists|i: int|
            0 <= i < words.len() && is_reserved(#[trigger] words[i])
    ||| exists|leading: bool, words: Seq<Seq<char>>|
        text == #[trigger] path_text(leading, words) + "::"@ && are_words(words)
}

/// Words with `::` between them start and end with a character of a word.
proof fn words_border(words: Seq<Seq<char>>)
    requires
        are_words(words),
    ensures
        joined(words, "::"@).len() > 0,
        joined(words, "::"@)[0] != ':',
        joined(words, "::"@).last() != ':',
    decreases words.len(),
{
    reveal_strlit("::");
    let front = words.drop_last();
    assert(is_word(words[words.len() - 1]));
    assert(starts_word(words.last()[words.last().len() - 1]) || '0' <= words.last()[words.last().len()
        - 1] <= '9');
    if words.len() > 1 {
        assert forall|i: int| 0 <= i < front.len() implies is_word(#[trigger] front[i]) by {
            assert(is_word(words[i]));
        }
        words_border(front);
        assert(joined(words, "::"@) == joined(front, "::"@) + "::"@ + words.last());
        assert(joined(words, "::"@)[0] == joined(front, "::"@)[0]);
    }
}

/// A text is words with `::` between them in one way.
proof fn words_unique(a: Seq<Seq<char>>, b: Seq<Seq<char>>)
    requires
        are_words(a),
        are_words(b),
        joined(a, "::"@) == joined(b, "::"@),
    ensures
        a == b,
    decreases a.len(),
{
    reveal_strlit("::");
    let text = joined(a, "::"@);
    let x = a[a.len() - 1];
    let y = b[b.len() - 1];
    assert(is_word(x) && is_word(y));
    let fa = joined(a.drop_last(), "::"@);
    let fb = joined(b.drop_last(), "::"@);
    if a.len() > 1 {
        assert(text == fa + "::"@ + x);
    }
    if b.len() > 1 {
        assert(text == fb + "::"@ + y);
    }
    if x.len() < y.len() {
        let i = text.len() - x.len() - 1;
        assert(text[i] == y[y.len() - x.len() - 1]);
        assert(false);
    }
    if y.len() < x.len() {
        let i = text.len() - y.len() - 1;
        assert(text[i] == x[x.len() - y.len() - 1]);
        assert(false);
    }
    assert(x =~= y) by {
        assert forall|k: int| 0 <= k < x.len() implies x[k] == y[k] by {
            assert(text[text.len() - x.len() + k] == x[k]);
            assert(text[text.len() - y.len() + k] == y[k]);
        }
    }
    if a.len() > 1 && b.len() > 1 {
        assert(fa =~= text.take(fa.len() as int));
        assert(fb =~= text.take(fb.len() as int));
        assert forall|i: int| 0 <= i < a.drop_last().len() implies is_word(
            #[trigger] a.drop_last()[i],
        ) by {
            assert(is_word(a[i]));
        }
        assert forall|i: int| 0 <= i < b.drop_last().len() implies is_word(
            #[trigger] b.drop_last()[i],
        ) by {
            assert(is_word(b[i]));
        }
        words_unique(a.drop_last(), b.drop_last());
        assert(a =~= a.drop_last().push(x));
        assert(b =~= b.drop_last().push(y));
    } else {
        assert(a =~= seq![x]);
        assert(b =~= seq![y]);
    }
}

/// No text is plainly a path and plainly none.
pub proof fn plain_paths_differ(text: Seq<char>)
    requires
        is_plain_path(text),
    ensures
        !is_no_path(text),
{
    reveal_strlit("::");
    let (leading, words) = choose|leading: bool, words: Seq<Seq<char>>|
        text == #[trigger] path_text(leading, words) && are_words(words) && forall|i: int|
            0 <= i < words.len() ==> !is_reserved(#[trigger] words[i]) && words[i] != "try"@;
    words_border(words);
    let rest = joined(words, "::"@);
    assert(leading <==> text[0] == ':');
    assert(text.last() == rest.last());
    if !leading {
        assert(text =~= rest);
        assert(is_word(words[0]));
        words_start(words);
    }
    assert forall|l: bool, ws: Seq<Seq<char>>|
        text == #[trigger] path_text(l, ws) && are_words(ws) implies ws == words by {
        words_border(ws);
        assert(l <==> text[0] == ':');
        let skip: int = if l {
            2
        } else {
            0
        };
        assert(joined(ws, "::"@) =~= text.skip(skip));
        assert(rest =~= text.skip(skip));
        words_unique(ws, words);
    }
    assert forall|l: bool, ws: Seq<Seq<char>>|
        are_words(ws) implies text != #[trigger] path_text(l, ws) + "::"@ by {
        assert((path_text(l, ws) + "::"@).last() == ':');
    }
}

/// Words with `::` between them start as the first word does.
proof fn words_start(words: Seq<Seq<char>>)
    requires
        are_words(words),
    ensures
        joined(words, "::"@).len() > 0,
        joined(words, "::"@)[0] == words[0][0],
        starts_word(words[0][0]),
    decreases words.len(),
{
    let front = words.drop_last();
    assert(is_word(words[0]));
    if words.len() > 1 {
        assert forall|i: int| 0 <= i < front.len() implies is_word(#[trigger] front[i]) by {
            assert(is_word(words[i]));
        }
        words_start(front);
        assert(joined(words, "::"@) == joined(front, "::"@) + "::"@ + words.last());
    }
}

/// `syn::LitStr::parse::<syn::Path>`: syn's message where the text is not a
/// path. Stated: what becomes of ASCII words with `::` between them, of the
/// empty text and of texts that start with a digit. Of other texts (those with
/// blanks, comments, generic arguments, raw or non-ASCII identifiers) nothing
/// is stated, nor is the message.
#[verifier::external_body]
fn check_path(text: &str) -> (r: Result<(), String>)
    ensures
        is_plain_path(text@) ==> r is Ok,
        is_no_path(text@) ==> r is Err,
{
    let literal = LitStr::new(text, proc_macro2::Span::call_site());
    literal.parse::<Path>().map(|_| ()).map_err(|error| error.to_string())
}

impl Token {
    /// The token of a string literal, with what syn says of its value as a
    /// path.
    pub fn text(value: String) -> (r: Token)
        ensures
            r matches Token::Text { value: v, path_fault } && v@ == value@ && (is_plain_path(value@)
                ==> path_fault is None) && (is_no_path(value@) ==> path_fault is Some),
    {
        let outcome: Result<(), String> = check_path(value.as_str());
        Token::checked(value, outcome)
    }

    /// The token of a string literal whose value was found to be a path, or not
    /// to be one for the given reason.
    pub fn checked(value: String, outcome: Result<(), String>) -> (r: Token)
        ensures
            r == (Token::Text {
                value,
                path_fault: match outcome {
                    Ok(_) => None,
                    Err(message) => Some(message),
                },
            }),
    {
        match outcome {
            Ok(()) => Token::Text { value, path_fault: None },
            Err(message) => Token::Text { value, path_fault: Some(message) },
        }
    }
}

/// The attributes of a type, variant or field.
pub struct Attrs {
    pub rename: Option<String>,
    pub rename_all: Option<RenameRule>,
    pub skip: bool,
    pub skip_to_term: bool,
    pub skip_from_term: bool,
    pub flatten: bool,
    /// `default` alone, or with the path of a function.
    pub default: Option<Option<String>>,
    pub untagged: bool,
    pub tag: Option<String>,
    pub content: Option<String>,
    pub crate_path: Option<String>,
}

/// What [`Attrs`] denotes.
#[verifier::ext_equal]
pub struct AttrsView {
    pub rename: Option<Seq<char>>,
    pub rename_all: Option<RenameRule>,
    pub skip: bool,
    pub skip_to_term: bool,
    pub skip_from_term: bool,
    pub flatten: bool,
    pub default: Option<Option<Seq<char>>>,
    pub untagged: bool,
    pub tag: Option<Seq<char>>,
    pub content: Option<Seq<char>>,
    pub crate_path: Option<Seq<char>>,
}

/// What an optional text denotes.
pub open spec fn text_view(text: Option<String>) -> Option<Seq<char>> {
    match text {
        Some(s) => Some(s@),
        None => None,
    }
}

impl View for Attrs {
    type V = AttrsView;

    open spec fn view(&self) -> AttrsView {
        AttrsView {
            rename: text_view(self.rename),
            rename_all: self.rename_all,
            skip: self.skip,
            skip_to_term: self.skip_to_term,
            skip_from_term: self.skip_from_term,
            flatten: self.flatten,
            default: match self.default {
                Some(path) => Some(text_view(path)),
                None => None,
            },
            untagged: self.untagged,
            tag: text_view(self.tag),
            content: text_view(self.content),
            crate_path: text_view(self.crate_path),
        }
    }
}

/// No attributes.
pub open spec fn no_attrs() -> AttrsView {
    AttrsView {
        rename: None,
        rename_all: None,
        skip: false,
        skip_to_term: false,
        skip_from_term: false,
        flatten: false,
        default: None,
        untagged: false,
        tag: None,
        content: None,
        crate_path: None,
    }
}

/// Whether the punctuation character `c` stands at `i`.
pub open spec fn punct_at(ts: Seq<Token>, i: int, c: char) -> bool {
    0 <= i < ts.len() && (ts[i] matches Token::Punct { ch, joint } && ch == c)
}

/// Whether a path separator starts at `i`.
pub open spec fn sep_at(ts: Seq<Token>, i: int) -> bool {
    &&& punct_at(ts, i, ':')
    &&& (ts[i] matches Token::Punct { ch, joint } && joint)
    &&& punct_at(ts, i + 1, ':')
}

/// Whether an identifier stands at `i`.
pub open spec fn ident_at(ts: Seq<Token>, i: int) -> bool {
    0 <= i < ts.len() && ts[i] is Ident
}

/// Whether a literal starts at `i`: one by itself, or a number behind a minus
/// sign.
pub open spec fn literal_at(ts: Seq<Token>, i: int) -> bool {
    ||| 0 <= i < ts.len() && (ts[i] is Text || ts[i] is Literal)
    ||| punct_at(ts, i, '-') && i + 1 < ts.len() && (ts[i + 1] matches Token::Literal { number }
        && number)
}

/// Where a path ends that has a segment right before `i`.
pub open spec fn path_end(ts: Seq<Token>, i: nat) -> Result<nat, Fault>
    decreases ts.len() - i,
{
    if !sep_at(ts, i as int) {
        Ok(i)
    } else if ident_at(ts, i as int + 2) {
        path_end(ts, i + 3)
    } else {
        Err(Fault::IdentExpected(i + 2 >= ts.len()))
    }
}

/// The path at `i`: its name, which is empty where it is more than one
/// identifier, and where it ends.
pub open spec fn path_at(ts: Seq<Token>, i: nat) -> Result<(Seq<char>, nat), Fault> {
    let start: nat = if sep_at(ts, i as int) {
        i + 2
    } else {
        i
    };
    if ident_at(ts, start as int) {
        match path_end(ts, start + 1) {
            Ok(end) => Ok(
                (
                    if start == i && end == i + 1 {
                        ts[i as int]->Ident_0@
                    } else {
                        Seq::empty()
                    },
                    end,
                ),
            ),
            Err(fault) => Err(fault),
        }
    } else if start >= ts.len() {
        Err(Fault::NestedExpected)
    } else if literal_at(ts, start as int) {
        Err(Fault::LiteralUnexpected)
    } else {
        Err(Fault::TokenUnexpected)
    }
}

/// The text that a property must have as its value, behind an equals sign at
/// `i`.
pub open spec fn value_at(ts: Seq<Token>, i: nat) -> Result<Seq<char>, Fault> {
    if !punct_at(ts, i as int, '=') {
        Err(Fault::EqualsExpected)
    } else if i + 1 < ts.len() && ts[i as int + 1] is Text {
        Ok(ts[i as int + 1]->value@)
    } else {
        Err(Fault::StringExpected(i + 1 >= ts.len()))
    }
}

/// The path that a property must have as its value.
pub open spec fn path_value_at(ts: Seq<Token>, i: nat) -> Result<Seq<char>, Fault> {
    match value_at(ts, i) {
        Ok(text) => match ts[i as int + 1]->path_fault {
            None => Ok(text),
            Some(message) => Err(Fault::InvalidPath(message@)),
        },
        Err(fault) => Err(fault),
    }
}

/// The attributes once the property called `name` was read, and where it
/// ends; `i` is where its name ends.
pub open spec fn with_property(a: AttrsView, ts: Seq<Token>, name: Seq<char>, i: nat) -> Result<
    (AttrsView, nat),
    Fault,
> {
    if name == "rename"@ {
        match value_at(ts, i) {
            Ok(text) => Ok((AttrsView { rename: Some(text), ..a }, i + 2)),
            Err(fault) => Err(fault),
        }
    } else if name == "rename_all"@ {
        match value_at(ts, i) {
            Ok(text) => match rule_named(text) {
                Some(rule) => Ok((AttrsView { rename_all: Some(rule), ..a }, i + 2)),
                None => Err(Fault::UnsupportedRule),
            },
            Err(fault) => Err(fault),
        }
    } else if name == "tag"@ {
        match value_at(ts, i) {
            Ok(text) => Ok((AttrsView { tag: Some(text), ..a }, i + 2)),
            Err(fault) => Err(fault),
        }
    } else if name == "content"@ {
        match value_at(ts, i) {
            Ok(text) => Ok((AttrsView { content: Some(text), ..a }, i + 2)),
            Err(fault) => Err(fault),
        }
    } else if name == "crate"@ {
        match path_value_at(ts, i) {
            Ok(text) => Ok((AttrsView { crate_path: Some(text), ..a }, i + 2)),
            Err(fault) => Err(fault),
        }
    } else if name == "default"@ {
        if punct_at(ts, i as int, '=') {
            match path_value_at(ts, i) {
                Ok(text) => Ok((AttrsView { default: Some(Some(text)), ..a }, i + 2)),
                Err(fault) => Err(fault),
            }
        } else {
            Ok((AttrsView { default: Some(None), ..a }, i))
        }
    } else if name == "skip"@ {
        Ok((AttrsView { skip: true, ..a }, i))
    } else if name == "skip_to_term"@ {
        Ok((AttrsView { skip_to_term: true, ..a }, i))
    } else if name == "skip_from_term"@ {
        Ok((AttrsView { skip_from_term: true, ..a }, i))
    } else if name == "flatten"@ {
        Ok((AttrsView { flatten: true, ..a }, i))
    } else if name == "untagged"@ {
        Ok((AttrsView { untagged: true, ..a }, i))
    } else {
        Err(Fault::UnsupportedProperty)
    }
}

/// The attributes once the property at `i` was read, and where it ends.
pub open spec fn property_at(a: AttrsView, ts: Seq<Token>, i: nat) -> Result<
    (AttrsView, nat),
    Fault,
> {
    match path_at(ts, i) {
        Ok((name, end)) => with_property(a, ts, name, end),
        Err(fault) => Err(fault),
    }
}

/// The attributes once the properties from `i` on were read, in order and up
/// to the first fault. Commas stand between them, and one may stand behind
/// the last.
pub open spec fn with_properties(a: AttrsView, ts: Seq<Token>, i: nat) -> Result<AttrsView, Fault>
    decreases ts.len() - i via properties_advance
{
    if i >= ts.len() {
        Ok(a)
    } else {
        match property_at(a, ts, i) {
            Ok((next, end)) => if end >= ts.len() {
                Ok(next)
            } else if !punct_at(ts, end as int, ',') {
                Err(Fault::CommaExpected)
            } else {
                with_properties(next, ts, end + 1)
            },
            Err(fault) => Err(fault),
        }
    }
}

#[via_fn]
proof fn properties_advance(a: AttrsView, ts: Seq<Token>, i: nat) {
    if i < ts.len() {
        path_advances(ts, i + 1);
        path_advances(ts, i + 3);
    }
}

/// A path ends no earlier than where it was read to.
proof fn path_advances(ts: Seq<Token>, i: nat)
    ensures
        path_end(ts, i) matches Ok(end) ==> end >= i,
    decreases ts.len() - i,
{
    if sep_at(ts, i as int) && ident_at(ts, i as int + 2) {
        path_advances(ts, i + 3);
    }
}

/// The attributes once one more attribute was read; only those whose path is
/// `splint` count.
pub open spec fn with_attribute(a: AttrsView, attribute: Attribute) -> Result<
    AttrsView,
    Fault,
> {
    if attribute.path@ != "splint"@ {
        Ok(a)
    } else {
        match attribute.arguments {
            Arguments::Nothing => Err(Fault::NoList),
            Arguments::Value => Err(Fault::NotAList),
            Arguments::List(list) => with_properties(a, list@, 0),
        }
    }
}

/// What a type's, variant's or field's attributes say, or the first fault in
/// them.
pub open spec fn attrs_of(attributes: Seq<Attribute>) -> Result<AttrsView, Fault>
    decreases attributes.len(),
{
    if attributes.len() == 0 {
        Ok(no_attrs())
    } else {
        match attrs_of(attributes.drop_last()) {
            Ok(before) => with_attribute(before, attributes.last()),
            Err(fault) => Err(fault),
        }
    }
}

/// Whether a result is what the model says.
pub open spec fn agrees(r: Result<Attrs, DeriveError>, model: Result<AttrsView, Fault>) -> bool {
    match r {
        Ok(a) => model == Ok::<AttrsView, Fault>(a@),
        Err(e) => model == Err::<AttrsView, Fault>(e@),
    }
}

/// Whether a step of reading a property is what the model says.
spec fn step_agrees(r: Result<(Attrs, usize), DeriveError>, model: Result<(AttrsView, nat), Fault>) -> bool {
    match r {
        Ok((a, end)) => model == Ok::<(AttrsView, nat), Fault>((a@, end as nat)),
        Err(e) => model == Err::<(AttrsView, nat), Fault>(e@),
    }
}

fn is_punct(ts: &Vec<Token>, i: usize, c: char) -> (r: bool)
    ensures
        r == punct_at(ts@, i as int, c),
{
    if i >= ts.len() {
        return false;
    }
    match &ts[i] {
        Token::Punct { ch, .. } => *ch == c,
        _ => false,
    }
}

fn is_sep(ts: &Vec<Token>, i: usize) -> (r: bool)
    ensures
        r == sep_at(ts@, i as int),
{
    if i >= ts.len() {
        return false;
    }
    match &ts[i] {
        Token::Punct { ch, joint } => *ch == ':' && *joint && is_punct(ts, i + 1, ':'),
        _ => false,
    }
}

fn is_ident(ts: &Vec<Token>, i: usize) -> (r: bool)
    ensures
        r == ident_at(ts@, i as int),
{
    i < ts.len() && matches!(&ts[i], Token::Ident(_))
}

fn is_literal(ts: &Vec<Token>, i: usize) -> (r: bool)
    requires
        i < ts@.len(),
    ensures
        r == literal_at(ts@, i as int),
{
    let n: usize = ts.len();
    match &ts[i] {
        Token::Text { .. } => true,
        Token::Literal { .. } => true,
        Token::Punct { ch, .. } => *ch == '-' && i + 1 < n && matches!(
            &ts[i + 1],
            Token::Literal { number: true }
        ),
        _ => false,
    }
}

/// Reads the path at `i`: its name, which is empty where it is more than one
/// identifier, and where it ends.
fn read_path(ts: &Vec<Token>, i: usize) -> (r: Result<(String, usize), DeriveError>)
    requires
        i <= ts@.len(),
    ensures
        match r {
            Ok((name, end)) => path_at(ts@, i as nat) == Ok::<(Seq<char>, nat), Fault>(
                (name@, end as nat),
            ) && i < end <= ts@.len(),
            Err(e) => path_at(ts@, i as nat) == Err::<(Seq<char>, nat), Fault>(e@),
        },
{
    let n: usize = ts.len();
    let start: usize = if is_sep(ts, i) {
        i + 2
    } else {
        i
    };
    if !is_ident(ts, start) {
        return Err(
            if start >= n {
                DeriveError::NestedExpected
            } else if is_literal(ts, start) {
                DeriveError::LiteralUnexpected
            } else {
                DeriveError::TokenUnexpected
            },
        );
    }
    let mut end: usize = start + 1;
    while is_sep(ts, end)
        invariant
            start < end <= ts@.len(),
            n == ts@.len(),
            start == if sep_at(ts@, i as int) {
                i + 2
            } else {
                i as int
            },
            ident_at(ts@, start as int),
            path_end(ts@, end as nat) == path_end(ts@, (start + 1) as nat),
        decreases ts@.len() - end,
    {
        if !is_ident(ts, end + 2) {
            return Err(DeriveError::IdentExpected { end: end + 2 >= n });
        }
        end = end + 3;
    }
    if start == i && end == i + 1 {
        match &ts[i] {
            Token::Ident(name) => {
                return Ok((name.clone(), end));
            },
            _ => {},
        }
    }
    let none: String = String::new();
    assert(none@ =~= Seq::<char>::empty());
    Ok((none, end))
}

/// Reads the text behind an equals sign at `i`.
fn read_value(ts: &Vec<Token>, i: usize) -> (r: Result<String, DeriveError>)
    requires
        i <= ts@.len(),
    ensures
        match r {
            Ok(text) => value_at(ts@, i as nat) == Ok::<Seq<char>, Fault>(text@) && i + 2
                <= ts@.len(),
            Err(e) => value_at(ts@, i as nat) == Err::<Seq<char>, Fault>(e@),
        },
{
    let n: usize = ts.len();
    if !is_punct(ts, i, '=') {
        return Err(DeriveError::EqualsExpected);
    }
    if i + 1 >= n {
        return Err(DeriveError::StringExpected { end: true });
    }
    match &ts[i + 1] {
        Token::Text { value, .. } => Ok(value.clone()),
        _ => Err(DeriveError::StringExpected { end: false }),
    }
}

/// Reads the path behind an equals sign at `i`.
fn read_path_value(ts: &Vec<Token>, i: usize) -> (r: Result<String, DeriveError>)
    requires
        i <= ts@.len(),
    ensures
        match r {
            Ok(text) => path_value_at(ts@, i as nat) == Ok::<Seq<char>, Fault>(text@) && i + 2
                <= ts@.len(),
            Err(e) => path_value_at(ts@, i as nat) == Err::<Seq<char>, Fault>(e@),
        },
{
    let _n: usize = ts.len();
    match read_value(ts, i) {
        Err(error) => Err(error),
        Ok(text) => {
            match &ts[i + 1] {
                Token::Text { path_fault: Some(message), .. } => Err(
                    DeriveError::InvalidPath(message.clone()),
                ),
                _ => Ok(text),
            }
        },
    }
}

/// Reads the property called `name`, whose name ends at `i`.
fn read_property(a: Attrs, ts: &Vec<Token>, name: &str, i: usize) -> (r: Result<
    (Attrs, usize),
    DeriveError,
>)
    requires
        i <= ts@.len(),
    ensures
        step_agrees(r, with_property(a@, ts@, name@, i as nat)),
        r matches Ok((_, end)) ==> i <= end <= ts@.len(),
{
    let _n: usize = ts.len();
    let mut out: Attrs = a;
    if same_text(name, "rename") {
        match read_value(ts, i) {
            Ok(text) => {
                out.rename = Some(text);
                Ok((out, i + 2))
            },
            Err(error) => Err(error),
        }
    } else if same_text(name, "rename_all") {
        match read_value(ts, i) {
            Ok(text) => {
                match RenameRule::parse(text.as_str()) {
                    Some(rule) => {
                        out.rename_all = Some(rule);
                        Ok((out, i + 2))
                    },
                    None => Err(DeriveError::UnsupportedRule),
                }
            },
            Err(error) => Err(error),
        }
    } else if same_text(name, "tag") {
        match read_value(ts, i) {
            Ok(text) => {
                out.tag = Some(text);
                Ok((out, i + 2))
            },
            Err(error) => Err(error),
        }
    } else if same_text(name, "content") {
        match read_value(ts, i) {
            Ok(text) => {
                out.content = Some(text);
                Ok((out, i + 2))
            },
            Err(error) => Err(error),
        }
    } else if same_text(name, "crate") {
        match read_path_value(ts, i) {
            Ok(text) => {
                out.crate_path = Some(text);
                Ok((out, i + 2))
            },
            Err(error) => Err(error),
        }
    } else if same_text(name, "default") {
        if !is_punct(ts, i, '=') {
            out.default = Some(None);
            return Ok((out, i));
        }
        match read_path_value(ts, i) {
            Ok(text) => {
                out.default = Some(Some(text));
                Ok((out, i + 2))
            },
            Err(error) => Err(error),
        }
    } else {
        if same_text(name, "skip") {
            out.skip = true;
        } else if same_text(name, "skip_to_term") {
            out.skip_to_term = true;
        } else if same_text(name, "skip_from_term") {
            out.skip_from_term = true;
        } else if same_text(name, "flatten") {
            out.flatten = true;
        } else if same_text(name, "untagged") {
            out.untagged = true;
        } else {
            return Err(DeriveError::UnsupportedProperty);
        }
        Ok((out, i))
    }
}

/// Reads a list of properties, in order, up to the first fault.
pub fn read_properties(a: Attrs, ts: &Vec<Token>) -> (r: Result<Attrs, DeriveError>)
    ensures
        agrees(r, with_properties(a@, ts@, 0)),
{
    let ghost whole = with_properties(a@, ts@, 0);
    let mut out: Attrs = a;
    let mut i: usize = 0;
    while i < ts.len()
        invariant
            i <= ts@.len(),
            whole == with_properties(a@, ts@, 0),
            with_properties(out@, ts@, i as nat) == whole,
        decreases ts@.len() - i,
    {
        let (name, end) = match read_path(ts, i) {
            Ok(path) => path,
            Err(error) => {
                return Err(error);
            },
        };
        match read_property(out, ts, name.as_str(), end) {
            Err(error) => {
                return Err(error);
            },
            Ok((next, end)) => {
                out = next;
                if end >= ts.len() {
                    return Ok(out);
                }
                if !is_punct(ts, end, ',') {
                    return Err(DeriveError::CommaExpected);
                }
                i = end + 1;
            },
        }
    }
    Ok(out)
}

/// A fault in the first attributes is the fault of all.
proof fn attribute_fault_stays(attributes: Seq<Attribute>, n: int)
    requires
        0 <= n <= attributes.len(),
        attrs_of(attributes.take(n)) is Err,
    ensures
        attrs_of(attributes) == attrs_of(attributes.take(n)),
    decreases attributes.len(),
{
    if n == attributes.len() {
        assert(attributes.take(n) =~= attributes);
    } else {
        assert(attributes.drop_last().take(n) =~= attributes.take(n));
        attribute_fault_stays(attributes.drop_last(), n);
    }
}

/// Reads the attributes of a type, variant or field.
pub fn attrs(attributes: &Vec<Attribute>) -> (r: Result<Attrs, DeriveError>)
    ensures
        agrees(r, attrs_of(attributes@)),
{
    let ghost whole = attributes@;
    let mut out: Attrs = Attrs {
        rename: None,
        rename_all: None,
        skip: false,
        skip_to_term: false,
        skip_from_term: false,
        flatten: false,
        default: None,
        untagged: false,
        tag: None,
        content: None,
        crate_path: None,
    };
    let mut i: usize = 0;
    assert(whole.take(0) =~= Seq::empty());
    while i < attributes.len()
        invariant
            i <= attributes@.len(),
            whole == attributes@,
            attrs_of(whole.take(i as int)) == Ok::<AttrsView, Fault>(out@),
        decreases attributes@.len() - i,
    {
        proof {
            assert(whole.take(i + 1).drop_last() =~= whole.take(i as int));
            assert(whole.take(i + 1).last() == whole[i as int]);
        }
        if same_text(attributes[i].path.as_str(), "splint") {
            let next: Result<Attrs, DeriveError> = match &attributes[i].arguments {
                Arguments::Nothing => Err(DeriveError::NoList),
                Arguments::Value => Err(DeriveError::NotAList),
                Arguments::List(list) => read_properties(out, list),
            };
            match next {
                Ok(a) => {
                    out = a;
                },
                Err(error) => {
                    proof {
                        attribute_fault_stays(whole, i as int + 1);
                    }
                    return Err(error);
                },
            }
        }
        i = i + 1;
    }
    assert(whole.take(i as int) =~= whole);
    Ok(out)
}

} // verus!
