//! Renaming rules for fields and variants.

use vstd::prelude::*;
use vstd::string::*;

use crate::text::{push_char, same_text};

verus! {

/// How the names of fields and variants are rewritten.
#[derive(Debug, Clone, Copy, PartialEq, Eq, Structural)]
pub enum RenameRule {
    Lowercase,
    Uppercase,
    SnakeCase,
    ScreamingSnakeCase,
    KebabCase,
    ScreamingKebabCase,
    CamelCase,
    PascalCase,
}

/// Whether a text is made of ASCII characters alone.
pub open spec fn is_ascii(text: Seq<char>) -> bool {
    forall|i: int| 0 <= i < text.len() ==> (#[trigger] text[i]) as u32 <= 127
}

/// An ASCII character in lower case.
pub open spec fn lower_ascii(c: char) -> char {
    if 'A' <= c <= 'Z' {
        (c as u32 + 32) as u8 as char
    } else {
        c
    }
}

/// An ASCII character in upper case.
pub open spec fn upper_ascii(c: char) -> char {
    if 'a' <= c <= 'z' {
        (c as u32 - 32) as u8 as char
    } else {
        c
    }
}

/// A text with other than ASCII characters in lower case.
pub uninterp spec fn unicode_lowercase(text: Seq<char>) -> Seq<char>;

/// A text with other than ASCII characters in upper case.
pub uninterp spec fn unicode_uppercase(text: Seq<char>) -> Seq<char>;

/// A character outside of ASCII in upper case, which may be several
/// characters.
pub uninterp spec fn unicode_uppercase_char(c: char) -> Seq<char>;

/// Whether a character outside of ASCII is an upper-case one.
pub uninterp spec fn unicode_is_upper(c: char) -> bool;

/// A text in lower case.
pub open spec fn lowercase(text: Seq<char>) -> Seq<char> {
    if is_ascii(text) {
        text.map_values(|c: char| lower_ascii(c))
    } else {
        unicode_lowercase(text)
    }
}

/// A text in upper case.
pub open spec fn uppercase(text: Seq<char>) -> Seq<char> {
    if is_ascii(text) {
        text.map_values(|c: char| upper_ascii(c))
    } else {
        unicode_uppercase(text)
    }
}

/// A character in upper case, which may be several characters.
pub open spec fn uppercase_char(c: char) -> Seq<char> {
    if c as u32 <= 127 {
        seq![upper_ascii(c)]
    } else {
        unicode_uppercase_char(c)
    }
}

/// Whether a character is an upper-case one.
pub open spec fn is_upper(c: char) -> bool {
    if c as u32 <= 127 {
        'A' <= c <= 'Z'
    } else {
        unicode_is_upper(c)
    }
}

/// `str::to_lowercase`: the text with every character in its Unicode lower
/// case, a function of the text alone. On ASCII text that is `a` to `z` for
/// `A` to `Z`, and every other character as it is.
#[verifier::external_body]
fn to_lowercase(text: &str) -> (r: String)
    ensures
        !is_ascii(text@) ==> r@ == unicode_lowercase(text@),
        is_ascii(text@) ==> r@ == text@.map_values(|c: char| lower_ascii(c)),
{
    text.to_lowercase()
}

/// `str::to_uppercase`: the text with every character in its Unicode upper
/// case, a function of the text alone. On ASCII text that is `A` to `Z` for
/// `a` to `z`, and every other character as it is.
#[verifier::external_body]
fn to_uppercase(text: &str) -> (r: String)
    ensures
        !is_ascii(text@) ==> r@ == unicode_uppercase(text@),
        is_ascii(text@) ==> r@ == text@.map_values(|c: char| upper_ascii(c)),
{
    text.to_uppercase()
}

/// `char::to_uppercase`: the Unicode upper case of a character, a function of
/// the character alone. For an ASCII character that is `A` to `Z` for `a` to
/// `z`, and else the character itself.
#[verifier::external_body]
fn char_to_uppercase(c: char) -> (r: String)
    ensures
        c as u32 > 127 ==> r@ == unicode_uppercase_char(c),
        c as u32 <= 127 ==> r@ == seq![upper_ascii(c)],
{
    c.to_uppercase().to_string()
}

/// `char::is_uppercase`: whether the character has the Unicode property
/// `Uppercase`, a function of the character alone. Of the ASCII characters,
/// `A` to `Z` have it.
#[verifier::external_body]
fn char_is_uppercase(c: char) -> (r: bool)
    ensures
        c as u32 > 127 ==> r == unicode_is_upper(c),
        c as u32 <= 127 ==> r == ('A' <= c <= 'Z'),
{
    c.is_uppercase()
}

/// The rule with the given name.
pub open spec fn rule_named(name: Seq<char>) -> Option<RenameRule> {
    if name == "lowercase"@ {
        Some(RenameRule::Lowercase)
    } else if name == "UPPERCASE"@ {
        Some(RenameRule::Uppercase)
    } else if name == "snake_case"@ {
        Some(RenameRule::SnakeCase)
    } else if name == "SCREAMING_SNAKE_CASE"@ {
        Some(RenameRule::ScreamingSnakeCase)
    } else if name == "kebab-case"@ {
        Some(RenameRule::KebabCase)
    } else if name == "SCREAMING-KEBAB-CASE"@ {
        Some(RenameRule::ScreamingKebabCase)
    } else if name == "camelCase"@ {
        Some(RenameRule::CamelCase)
    } else if name == "PascalCase"@ {
        Some(RenameRule::PascalCase)
    } else {
        None
    }
}

impl RenameRule {
    /// The rule with the given name, if there is one.
    pub fn parse(name: &str) -> (r: Option<RenameRule>)
        ensures
            r == rule_named(name@),
    {
        if same_text(name, "lowercase") {
            Some(RenameRule::Lowercase)
        } else if same_text(name, "UPPERCASE") {
            Some(RenameRule::Uppercase)
        } else if same_text(name, "snake_case") {
            Some(RenameRule::SnakeCase)
        } else if same_text(name, "SCREAMING_SNAKE_CASE") {
            Some(RenameRule::ScreamingSnakeCase)
        } else if same_text(name, "kebab-case") {
            Some(RenameRule::KebabCase)
        } else if same_text(name, "SCREAMING-KEBAB-CASE") {
            Some(RenameRule::ScreamingKebabCase)
        } else if same_text(name, "camelCase") {
            Some(RenameRule::CamelCase)
        } else if same_text(name, "PascalCase") {
            Some(RenameRule::PascalCase)
        } else {
            None
        }
    }
}

/// Whether a character separates words.
pub open spec fn is_separator(c: char) -> bool {
    c == '_' || c == '-'
}

/// Which characters of a text are upper-case ones.
pub open spec fn uppers(text: Seq<char>) -> Seq<bool> {
    Seq::new(text.len(), |i: int| is_upper(text[i]))
}

/// Whether the character at the end of `text` starts a word: one that does not
/// continue a word, or an upper-case one.
pub open spec fn starts_word(text: Seq<char>, upper: bool) -> bool {
    ||| text.len() == 1
    ||| is_separator(text[text.len() - 2])
    ||| upper
}

/// The words of a name whose upper-case characters are marked: separators
/// divide words and belong to none, and every upper-case character starts a
/// new word.
pub open spec fn marked_words(text: Seq<char>, upper: Seq<bool>) -> Seq<Seq<char>>
    decreases text.len(),
{
    if text.len() == 0 {
        Seq::empty()
    } else {
        let before = marked_words(text.drop_last(), upper);
        if is_separator(text.last()) {
            before
        } else if starts_word(text, upper[text.len() - 1]) {
            before.push(seq![text.last()])
        } else {
            before.drop_last().push(before.last().push(text.last()))
        }
    }
}

/// The words of a name.
pub open spec fn words_of(text: Seq<char>) -> Seq<Seq<char>> {
    marked_words(text, uppers(text))
}

/// Texts one behind another, with `glue` between them.
pub open spec fn joined(parts: Seq<Seq<char>>, glue: Seq<char>) -> Seq<char>
    decreases parts.len(),
{
    if parts.len() == 0 {
        Seq::empty()
    } else if parts.len() == 1 {
        parts[0]
    } else {
        joined(parts.drop_last(), glue) + glue + parts.last()
    }
}

/// A word with its first character in upper case and the rest in lower case.
pub open spec fn capitalized(word: Seq<char>) -> Seq<char> {
    if word.len() == 0 {
        Seq::empty()
    } else {
        uppercase_char(word[0]) + lowercase(word.drop_first())
    }
}

/// The words in camel case: all but the first one capitalized, or all of them
/// where `first` is set.
pub open spec fn camel(words: Seq<Seq<char>>, first: bool) -> Seq<char> {
    joined(
        Seq::new(
            words.len(),
            |i: int|
                if i == 0 && !first {
                    lowercase(words[i])
                } else {
                    capitalized(words[i])
                },
        ),
        Seq::empty(),
    )
}

/// A name under a renaming rule.
pub open spec fn renamed(name: Seq<char>, rule: Option<RenameRule>) -> Seq<char> {
    let words = words_of(name);
    match rule {
        Some(RenameRule::Lowercase) => lowercase(joined(words, Seq::empty())),
        Some(RenameRule::Uppercase) => uppercase(joined(words, Seq::empty())),
        Some(RenameRule::SnakeCase) => lowercase(joined(words, "_"@)),
        Some(RenameRule::ScreamingSnakeCase) => uppercase(joined(words, "_"@)),
        Some(RenameRule::KebabCase) => lowercase(joined(words, "-"@)),
        Some(RenameRule::ScreamingKebabCase) => uppercase(joined(words, "-"@)),
        Some(RenameRule::CamelCase) => if words.len() == 0 {
            lowercase(Seq::empty())
        } else {
            camel(words, false)
        },
        Some(RenameRule::PascalCase) => camel(words, true),
        None => name,
    }
}

/// What texts denote.
pub open spec fn texts_view(texts: Seq<String>) -> Seq<Seq<char>> {
    Seq::new(texts.len(), |i: int| texts[i]@)
}

/// Splits a name into words.
pub fn split_words(value: &str) -> (r: Vec<String>)
    ensures
        texts_view(r@) == words_of(value@),
{
    let n: usize = value.unicode_len();
    let mut upper: Vec<bool> = Vec::new();
    let mut i: usize = 0;
    while i < n
        invariant
            n == value@.len(),
            i <= n,
            upper@.len() == i,
            forall|k: int| 0 <= k < i ==> #[trigger] upper@[k] == is_upper(value@[k]),
        decreases n - i,
    {
        upper.push(char_is_uppercase(value.get_char(i)));
        i = i + 1;
    }
    assert(upper@ =~= uppers(value@));
    split_marked(value, &upper)
}

/// Splits a name whose upper-case characters are marked into words.
pub fn split_marked(value: &str, upper: &Vec<bool>) -> (r: Vec<String>)
    requires
        upper@.len() == value@.len(),
    ensures
        texts_view(r@) == marked_words(value@, upper@),
{
    let mut result: Vec<String> = Vec::new();
    let mut current: String = String::new();
    let n: usize = value.unicode_len();
    let mut i: usize = 0;
    // The words so far, the one being built included.
    assert(value@.take(0) =~= Seq::empty());
    assert(texts_view(result@) =~= marked_words(value@.take(0), upper@));
    while i < n
        invariant
            n == value@.len(),
            n == upper@.len(),
            i <= n,
            current@.len() == 0 <==> (i == 0 || is_separator(value@[i - 1])),
            marked_words(value@.take(i as int), upper@) == if current@.len() == 0 {
                texts_view(result@)
            } else {
                texts_view(result@).push(current@)
            },
        decreases n - i,
    {
        let c: char = value.get_char(i);
        let ghost text = value@.take(i + 1);
        proof {
            assert(text.drop_last() =~= value@.take(i as int));
            assert(text.last() == c);
            if i > 0 {
                assert(text[text.len() - 2] == value@[i - 1]);
            }
        }
        if c == '_' || c == '-' {
            if !current.as_str().is_empty() {
                let ghost so_far = texts_view(result@);
                let ghost word = current@;
                let mut taken: String = String::new();
                std::mem::swap(&mut taken, &mut current);
                result.push(taken);
                assert(texts_view(result@) =~= so_far.push(word));
            }
        } else if upper[i] && !current.as_str().is_empty() {
            let ghost so_far = texts_view(result@);
            let ghost word = current@;
            let mut taken: String = String::new();
            std::mem::swap(&mut taken, &mut current);
            result.push(taken);
            push_char(&mut current, c);
            assert(texts_view(result@) =~= so_far.push(word));
            assert(current@ =~= seq![c]);
        } else {
            let ghost so_far = texts_view(result@);
            let ghost word = current@;
            push_char(&mut current, c);
            proof {
                if word.len() == 0 {
                    assert(current@ =~= seq![c]);
                } else {
                    assert(so_far.push(word).drop_last() =~= so_far);
                }
            }
        }
        i = i + 1;
    }
    assert(value@.take(i as int) =~= value@);
    if !current.as_str().is_empty() {
        let ghost so_far = texts_view(result@);
        let ghost word = current@;
        result.push(current);
        assert(texts_view(result@) =~= so_far.push(word));
    }
    result
}

/// Puts texts one behind another, with `glue` between them.
pub fn join(parts: &Vec<String>, glue: &str) -> (r: String)
    ensures
        r@ == joined(texts_view(parts@), glue@),
{
    let ghost view = texts_view(parts@);
    let mut out: String = String::new();
    let mut i: usize = 0;
    assert(view.take(0) =~= Seq::empty());
    while i < parts.len()
        invariant
            i <= parts@.len(),
            view == texts_view(parts@),
            out@ == joined(view.take(i as int), glue@),
        decreases parts@.len() - i,
    {
        proof {
            assert(view.take(i + 1).drop_last() =~= view.take(i as int));
            assert(view.take(i + 1).last() == parts@[i as int]@);
        }
        if i > 0 {
            out.append(glue);
        }
        let ghost before = out@;
        out.append(parts[i].as_str());
        i = i + 1;
        proof {
            if i == 1 {
                assert(before + parts@[0]@ =~= parts@[0]@);
            }
        }
    }
    assert(view.take(i as int) =~= view);
    out
}

/// Puts a word's first character in upper case and the rest in lower case.
pub fn capitalize(value: &str) -> (r: String)
    ensures
        r@ == capitalized(value@),
{
    let n: usize = value.unicode_len();
    if n == 0 {
        return String::new();
    }
    let mut out: String = char_to_uppercase(value.get_char(0));
    let rest: &str = value.substring_char(1, n);
    assert(value@.subrange(1, n as int) =~= value@.drop_first());
    out.append(to_lowercase(rest).as_str());
    out
}

/// Puts words in camel case.
fn camel_text(words: &Vec<String>, first: bool) -> (r: String)
    ensures
        r@ == camel(texts_view(words@), first),
{
    let ghost view = texts_view(words@);
    let ghost cased = Seq::new(
        view.len(),
        |i: int|
            if i == 0 && !first {
                lowercase(view[i])
            } else {
                capitalized(view[i])
            },
    );
    let mut parts: Vec<String> = Vec::new();
    let mut i: usize = 0;
    while i < words.len()
        invariant
            i <= words@.len(),
            view == texts_view(words@),
            parts@.len() == i,
            cased.len() == words@.len(),
            forall|k: int|
                0 <= k < cased.len() ==> #[trigger] cased[k] == if k == 0 && !first {
                    lowercase(view[k])
                } else {
                    capitalized(view[k])
                },
            forall|k: int| 0 <= k < i ==> (#[trigger] parts@[k])@ == cased[k],
        decreases words@.len() - i,
    {
        assert(view[i as int] == words@[i as int]@);
        let part: String = if i == 0 && !first {
            to_lowercase(words[i].as_str())
        } else {
            capitalize(words[i].as_str())
        };
        parts.push(part);
        i = i + 1;
    }
    assert(texts_view(parts@) =~= cased);
    proof {
        reveal_strlit("");
        assert(""@ =~= Seq::<char>::empty());
    }
    join(&parts, "")
}

/// Rewrites a name under a renaming rule.
pub fn rename(name: &str, rule: Option<RenameRule>) -> (r: String)
    ensures
        r@ == renamed(name@, rule),
{
    let words: Vec<String> = split_words(name);
    proof {
        reveal_strlit("");
        assert(""@ =~= Seq::<char>::empty());
    }
    match rule {
        Some(RenameRule::Lowercase) => to_lowercase(join(&words, "").as_str()),
        Some(RenameRule::Uppercase) => to_uppercase(join(&words, "").as_str()),
        Some(RenameRule::SnakeCase) => to_lowercase(join(&words, "_").as_str()),
        Some(RenameRule::ScreamingSnakeCase) => to_uppercase(join(&words, "_").as_str()),
        Some(RenameRule::KebabCase) => to_lowercase(join(&words, "-").as_str()),
        Some(RenameRule::ScreamingKebabCase) => to_uppercase(join(&words, "-").as_str()),
        Some(RenameRule::CamelCase) => {
            if words.len() == 0 {
                to_lowercase("")
            } else {
                camel_text(&words, false)
            }
        },
        Some(RenameRule::PascalCase) => camel_text(&words, true),
        None => name.to_owned(),
    }
}

/// The characters of a name that are no separators.
pub open spec fn letters(text: Seq<char>) -> Seq<char>
    decreases text.len(),
{
    if text.len() == 0 {
        Seq::empty()
    } else if is_separator(text.last()) {
        letters(text.drop_last())
    } else {
        letters(text.drop_last()).push(text.last())
    }
}

/// Whichever characters of a name are marked, its words are not empty, hold no
/// separator, and one behind another they are the name without its separators.
pub proof fn words_partition_a_name(text: Seq<char>, upper: Seq<bool>)
    ensures
        joined(marked_words(text, upper), Seq::empty()) == letters(text),
        forall|i: int|
            0 <= i < marked_words(text, upper).len() ==> (#[trigger] marked_words(text, upper)[i]).len()
                > 0,
        forall|i: int, j: int|
            0 <= i < marked_words(text, upper).len() && 0 <= j < marked_words(text, upper)[i].len()
                ==> !is_separator(#[trigger] marked_words(text, upper)[i][j]),
        text.len() > 0 && !is_separator(text.last()) ==> marked_words(text, upper).len() > 0,
    decreases text.len(),
{
    if text.len() > 0 {
        let before = marked_words(text.drop_last(), upper);
        let words = marked_words(text, upper);
        words_partition_a_name(text.drop_last(), upper);
        if is_separator(text.last()) {
        } else if starts_word(text, upper[text.len() - 1]) {
            assert(words.drop_last() =~= before);
            assert(joined(words, Seq::empty()) =~= letters(text));
        } else {
            assert(text.drop_last().last() == text[text.len() - 2]);
            assert(words.drop_last() =~= before.drop_last());
            assert(joined(words, Seq::empty()) =~= letters(text));
        }
    }
}

/// Without a rule a name stays as it is, separators and all.
pub proof fn no_rule_keeps_a_name(name: Seq<char>)
    ensures
        renamed(name, None) == name,
{
}

/// Renaming an ASCII name twice by one rule gives the same as once, for every
/// rule but the two whose words are all in upper case.
pub proof fn renaming_twice_is_renaming_once(name: Seq<char>, rule: RenameRule)
    requires
        is_ascii(name),
        rule != RenameRule::ScreamingSnakeCase,
        rule != RenameRule::ScreamingKebabCase,
    ensures
        renamed(renamed(name, Some(rule)), Some(rule)) == renamed(name, Some(rule)),
{
    let words = words_of(name);
    let once = renamed(name, Some(rule));
    words_partition_a_name(name, uppers(name));
    words_are_ascii(name, uppers(name));
    match rule {
        RenameRule::Lowercase => {
            joined_keeps(words, Seq::empty());
            lower_facts(joined(words, Seq::empty()));
            plain_text_joins(once);
            lower_facts(once);
        },
        RenameRule::Uppercase => {
            joined_keeps(words, Seq::empty());
            upper_facts(joined(words, Seq::empty()));
            plain_text_joins(once);
            upper_facts(once);
        },
        RenameRule::SnakeCase => {
            reveal_strlit("_");
            glued_twice(words, '_');
            assert("_"@ =~= seq!['_']);
        },
        RenameRule::KebabCase => {
            reveal_strlit("-");
            glued_twice(words, '-');
            assert("-"@ =~= seq!['-']);
        },
        RenameRule::CamelCase => {
            camel_twice(words, false);
        },
        RenameRule::PascalCase => {
            camel_twice(words, true);
        },
        _ => {},
    }
}

/// Whether a text has no separator.
spec fn unseparated(text: Seq<char>) -> bool {
    forall|i: int| 0 <= i < text.len() ==> !is_separator(#[trigger] text[i])
}

/// Whether words are made of ASCII characters without separators, at least one
/// each.
spec fn good_words(words: Seq<Seq<char>>) -> bool {
    forall|i: int|
        0 <= i < words.len() ==> is_ascii(#[trigger] words[i]) && unseparated(words[i])
            && words[i].len() > 0
}

/// The words of an ASCII name are made of its characters.
proof fn words_are_ascii(text: Seq<char>, upper: Seq<bool>)
    requires
        is_ascii(text),
    ensures
        good_words(marked_words(text, upper)),
    decreases text.len(),
{
    words_partition_a_name(text, upper);
    if text.len() > 0 {
        let front = text.drop_last();
        assert forall|i: int| 0 <= i < front.len() implies (#[trigger] front[i]) as u32 <= 127 by {
            assert(text[i] as u32 <= 127);
        }
        words_are_ascii(front, upper);
        words_partition_a_name(front, upper);
        let before = marked_words(front, upper);
        let words = marked_words(text, upper);
        assert(text.last() == text[text.len() - 1]);
        assert forall|i: int| 0 <= i < words.len() implies is_ascii(#[trigger] words[i])
            && unseparated(words[i]) && words[i].len() > 0 by {
            assert forall|j: int| 0 <= j < words[i].len() implies !is_separator(
                #[trigger] words[i][j],
            ) by {
            }
            if !is_separator(text.last()) && !starts_word(text, upper[text.len() - 1]) {
                assert(front.last() == text[text.len() - 2]);
                assert(before.len() > 0);
                if i == words.len() - 1 {
                    assert(is_ascii(before[before.len() - 1]));
                } else {
                    assert(is_ascii(before[i]));
                }
            } else if i < before.len() {
                assert(is_ascii(before[i]));
            }
        }
    }
}

/// Good words one behind another are ASCII without separators.
proof fn joined_keeps(words: Seq<Seq<char>>, glue: Seq<char>)
    requires
        good_words(words),
        glue.len() == 0,
    ensures
        is_ascii(joined(words, glue)),
        unseparated(joined(words, glue)),
        words.len() > 0 ==> joined(words, glue).len() > 0 && joined(words, glue)[0] == words[0][0],
    decreases words.len(),
{
    if words.len() > 0 {
        let front = words.drop_last();
        assert forall|i: int| 0 <= i < front.len() implies is_ascii(#[trigger] front[i])
            && unseparated(front[i]) && front[i].len() > 0 by {
            assert(is_ascii(words[i]));
        }
        joined_keeps(front, glue);
        assert(is_ascii(words[words.len() - 1]) && unseparated(words[words.len() - 1]));
        if words.len() > 1 {
            let all = joined(words, glue);
            let start = joined(front, glue);
            assert(all =~= start + words.last());
            assert forall|i: int| 0 <= i < all.len() implies (#[trigger] all[i]) as u32 <= 127
                && !is_separator(all[i]) by {
                if i < start.len() {
                    assert(all[i] == start[i]);
                } else {
                    assert(all[i] == words.last()[i - start.len()]);
                }
            }
            assert(front[0] == words[0]);
        }
    }
}

/// A text without separators is its words one behind another.
proof fn plain_text_joins(text: Seq<char>)
    requires
        unseparated(text),
    ensures
        joined(words_of(text), Seq::empty()) == text,
{
    words_partition_a_name(text, uppers(text));
    letters_of_plain(text);
}

proof fn letters_of_plain(text: Seq<char>)
    requires
        unseparated(text),
    ensures
        letters(text) == text,
    decreases text.len(),
{
    if text.len() > 0 {
        assert(!is_separator(text[text.len() - 1]));
        assert forall|i: int| 0 <= i < text.drop_last().len() implies !is_separator(
            #[trigger] text.drop_last()[i],
        ) by {
            assert(!is_separator(text[i]));
        }
        letters_of_plain(text.drop_last());
        assert(letters(text) =~= text);
    }
}

/// What lower case is on ASCII text: ASCII without capitals or new separators,
/// and the same when done twice.
proof fn lower_facts(text: Seq<char>)
    requires
        is_ascii(text),
    ensures
        is_ascii(lowercase(text)),
        lowercase(text).len() == text.len(),
        unseparated(text) ==> unseparated(lowercase(text)),
        forall|i: int| 0 <= i < text.len() ==> !is_upper(#[trigger] lowercase(text)[i]),
        forall|i: int|
            0 <= i < text.len() ==> #[trigger] lowercase(text)[i] == lower_ascii(text[i]),
        lowercase(lowercase(text)) == lowercase(text),
{
    let low = lowercase(text);
    assert forall|i: int| 0 <= i < low.len() implies (#[trigger] low[i]) as u32 <= 127 && !is_upper(
        low[i],
    ) && (is_separator(low[i]) ==> is_separator(text[i])) by {
        assert(text[i] as u32 <= 127);
    }
    assert(lowercase(low) =~= low);
}

/// What upper case is on ASCII text.
proof fn upper_facts(text: Seq<char>)
    requires
        is_ascii(text),
    ensures
        is_ascii(uppercase(text)),
        unseparated(text) ==> unseparated(uppercase(text)),
        uppercase(uppercase(text)) == uppercase(text),
{
    let up = uppercase(text);
    assert forall|i: int| 0 <= i < up.len() implies (#[trigger] up[i]) as u32 <= 127 && (
    is_separator(up[i]) ==> is_separator(text[i])) by {
        assert(text[i] as u32 <= 127);
    }
    assert(uppercase(up) =~= up);
}

/// Lower case of words that are glued together is the lower-case words glued
/// together.
proof fn lower_glued(words: Seq<Seq<char>>, sep: char)
    requires
        good_words(words),
        is_separator(sep),
    ensures
        is_ascii(joined(words, seq![sep])),
        lowercase(joined(words, seq![sep])) == joined(
            words.map_values(|w: Seq<char>| lowercase(w)),
            seq![sep],
        ),
    decreases words.len(),
{
    let lows = words.map_values(|w: Seq<char>| lowercase(w));
    let all = joined(words, seq![sep]);
    if words.len() == 0 {
        assert(lowercase(all) =~= joined(lows, seq![sep]));
    } else {
        let last = words[words.len() - 1];
        assert(is_ascii(last));
        if words.len() > 1 {
            let front = words.drop_last();
            assert forall|i: int| 0 <= i < front.len() implies is_ascii(#[trigger] front[i])
                && unseparated(front[i]) && front[i].len() > 0 by {
                assert(is_ascii(words[i]));
            }
            lower_glued(front, sep);
            let start = joined(front, seq![sep]);
            assert(lows.drop_last() =~= front.map_values(|w: Seq<char>| lowercase(w)));
            assert(all == start + seq![sep] + last);
            assert forall|i: int| 0 <= i < all.len() implies (#[trigger] all[i]) as u32 <= 127 by {
                if i < start.len() {
                    assert(all[i] == start[i]);
                } else if i > start.len() {
                    assert(all[i] == last[i - start.len() - 1]);
                }
            }
            assert(lowercase(all) =~= lowercase(start) + seq![sep] + lowercase(last));
        }
    }
}

/// A word behind a separator, or at the start, is one more word.
proof fn word_is_added(text: Seq<char>, word: Seq<char>, upper: Seq<bool>)
    requires
        word.len() > 0,
        unseparated(word),
        text.len() > 0 ==> is_separator(text.last()),
        forall|i: int| 0 <= i < text.len() + word.len() ==> !#[trigger] upper[i],
    ensures
        marked_words(text + word, upper) == marked_words(text, upper).push(word),
    decreases word.len(),
{
    let all = text + word;
    let rest = word.drop_last();
    assert(all.drop_last() =~= text + rest);
    assert(all.last() == word[word.len() - 1]);
    assert(!upper[all.len() - 1]);
    if word.len() == 1 {
        assert(text + rest =~= text);
        if text.len() > 0 {
            assert(all[all.len() - 2] == text.last());
        }
        assert(seq![all.last()] =~= word);
    } else {
        assert forall|i: int| 0 <= i < rest.len() implies !is_separator(#[trigger] rest[i]) by {
            assert(!is_separator(word[i]));
        }
        word_is_added(text, rest, upper);
        assert(all[all.len() - 2] == word[word.len() - 2]);
        let before = marked_words(text, upper).push(rest);
        assert(before.drop_last() =~= marked_words(text, upper));
        assert(rest.push(all.last()) =~= word);
    }
}

/// Words without capitals that are glued together are the words of the result.
proof fn glued_words_split(words: Seq<Seq<char>>, sep: char, upper: Seq<bool>)
    requires
        good_words(words),
        is_separator(sep),
        forall|i: int| 0 <= i < joined(words, seq![sep]).len() ==> !#[trigger] upper[i],
    ensures
        marked_words(joined(words, seq![sep]), upper) == words,
    decreases words.len(),
{
    let all = joined(words, seq![sep]);
    if words.len() == 0 {
        assert(marked_words(all, upper) =~= words);
    } else {
        let last = words[words.len() - 1];
        let front = words.drop_last();
        assert(unseparated(last) && last.len() > 0);
        if words.len() == 1 {
            assert(all =~= Seq::empty() + last);
            word_is_added(Seq::empty(), last, upper);
            assert(marked_words(all, upper) =~= words);
        } else {
            assert forall|i: int| 0 <= i < front.len() implies is_ascii(#[trigger] front[i])
                && unseparated(front[i]) && front[i].len() > 0 by {
                assert(is_ascii(words[i]));
            }
            let start = joined(front, seq![sep]);
            glued_words_split(front, sep, upper);
            let text = start + seq![sep];
            assert(text.drop_last() =~= start);
            assert(text.last() == sep);
            word_is_added(text, last, upper);
            assert(front.push(last) =~= words);
        }
    }
}

proof fn glued_twice(words: Seq<Seq<char>>, sep: char)
    requires
        good_words(words),
        is_separator(sep),
    ensures
        ({
            let once = lowercase(joined(words, seq![sep]));
            lowercase(joined(words_of(once), seq![sep])) == once
        }),
{
    let all = joined(words, seq![sep]);
    let once = lowercase(all);
    let lows = words.map_values(|w: Seq<char>| lowercase(w));
    lower_glued(words, sep);
    lower_facts(all);
    assert forall|i: int| 0 <= i < lows.len() implies is_ascii(#[trigger] lows[i]) && unseparated(
        lows[i],
    ) && lows[i].len() > 0 by {
        assert(is_ascii(words[i]));
        lower_facts(words[i]);
    }
    assert forall|i: int| 0 <= i < once.len() implies !#[trigger] uppers(once)[i] by {
        assert(!is_upper(once[i]));
    }
    glued_words_split(lows, sep, uppers(once));
}

/// How a text without separators splits: every word but the first starts with
/// a capital, and no word has another one.
proof fn capitals_split(text: Seq<char>, upper: Seq<bool>)
    requires
        unseparated(text),
        text.len() <= upper.len(),
        forall|i: int| 0 <= i < text.len() ==> #[trigger] upper[i] == is_upper(text[i]),
    ensures
        forall|i: int|
            0 <= i < marked_words(text, upper).len() ==> (#[trigger] marked_words(
                text,
                upper,
            )[i]).len() > 0,
        forall|i: int|
            1 <= i < marked_words(text, upper).len() ==> is_upper(
                (#[trigger] marked_words(text, upper)[i])[0],
            ),
        forall|i: int, j: int|
            0 <= i < marked_words(text, upper).len() && 1 <= j < marked_words(text, upper)[i].len()
                ==> !is_upper(#[trigger] marked_words(text, upper)[i][j]),
        text.len() > 0 ==> marked_words(text, upper).len() > 0 && marked_words(text, upper)[0][0]
            == text[0],
    decreases text.len(),
{
    words_partition_a_name(text, upper);
    if text.len() > 0 {
        let front = text.drop_last();
        assert forall|i: int| 0 <= i < front.len() implies !is_separator(#[trigger] front[i])
            && upper[i] == is_upper(front[i]) by {
            assert(!is_separator(text[i]));
            assert(upper[i] == is_upper(text[i]));
        }
        capitals_split(front, upper);
        let before = marked_words(front, upper);
        let words = marked_words(text, upper);
        assert(text.last() == text[text.len() - 1]);
        assert(!is_separator(text[text.len() - 1]));
        assert(upper[text.len() - 1] == is_upper(text.last()));
        if text.len() > 1 {
            assert(!is_separator(text[text.len() - 2]));
            assert(front[0] == text[0]);
            assert(before.len() > 0);
            if starts_word(text, upper[text.len() - 1]) {
                assert forall|i: int, j: int|
                    0 <= i < words.len() && 1 <= j < words[i].len() implies !is_upper(
                    #[trigger] words[i][j],
                ) by {
                    assert(i < before.len());
                    assert(words[i] == before[i]);
                    assert(!is_upper(before[i][j]));
                }
            } else {
                assert forall|i: int, j: int|
                    0 <= i < words.len() && 1 <= j < words[i].len() implies !is_upper(
                    #[trigger] words[i][j],
                ) by {
                    if i < before.len() - 1 {
                        assert(words[i] == before[i]);
                        assert(!is_upper(before[i][j]));
                    } else if j < before[i].len() {
                        assert(words[i][j] == before[i][j]);
                    }
                }
                assert forall|i: int| 1 <= i < words.len() implies is_upper(
                    (#[trigger] words[i])[0],
                ) by {
                    assert(is_upper(before[i][0]));
                    assert(words[i][0] == before[i][0]);
                }
                assert(words[0][0] == before[0][0]);
            }
        } else {
            assert(before.len() == 0);
        }
    }
}

proof fn camel_twice(words: Seq<Seq<char>>, first: bool)
    requires
        good_words(words),
    ensures
        ({
            let once = camel(words, first);
            &&& camel(words_of(once), first) == once
            &&& words_of(once).len() == 0 <==> words.len() == 0
            &&& words.len() == 0 ==> once == lowercase(Seq::empty())
        }),
{
    let parts = Seq::new(
        words.len(),
        |i: int|
            if i == 0 && !first {
                lowercase(words[i])
            } else {
                capitalized(words[i])
            },
    );
    let once = camel(words, first);
    assert(lowercase(Seq::empty()) =~= Seq::empty());
    assert forall|i: int| 0 <= i < parts.len() implies is_ascii(#[trigger] parts[i]) && unseparated(
        parts[i],
    ) && parts[i].len() > 0 by {
        let word = words[i];
        assert(is_ascii(word) && unseparated(word));
        lower_facts(word);
        let rest = word.drop_first();
        assert forall|j: int| 0 <= j < rest.len() implies (#[trigger] rest[j]) as u32 <= 127
            && !is_separator(rest[j]) by {
            assert(word[j + 1] as u32 <= 127 && !is_separator(word[j + 1]));
        }
        lower_facts(rest);
        assert(word[0] as u32 <= 127 && !is_separator(word[0]));
        let cap = capitalized(word);
        assert(cap =~= seq![upper_ascii(word[0])] + lowercase(rest));
        assert forall|j: int| 0 <= j < cap.len() implies (#[trigger] cap[j]) as u32 <= 127
            && !is_separator(cap[j]) by {
            if j > 0 {
                assert(cap[j] == lowercase(rest)[j - 1]);
            }
        }
    }
    joined_keeps(parts, Seq::empty());
    assert(once == joined(parts, Seq::empty()));
    plain_text_joins(once);
    let again = words_of(once);
    capitals_split(once, uppers(once));
    words_are_ascii(once, uppers(once));
    if words.len() > 0 {
        assert(once[0] == parts[0][0]);
        assert(is_ascii(words[0]));
        assert(words[0][0] as u32 <= 127);
        lower_facts(words[0]);
        if !first {
            assert(!is_upper(lowercase(words[0])[0]));
        }
    }
    let same = Seq::new(
        again.len(),
        |i: int|
            if i == 0 && !first {
                lowercase(again[i])
            } else {
                capitalized(again[i])
            },
    );
    assert forall|i: int| 0 <= i < again.len() implies #[trigger] same[i] == again[i] by {
        let word = again[i];
        assert(is_ascii(word));
        assert(word[0] as u32 <= 127);
        if i == 0 && !first {
            assert forall|j: int| 0 <= j < word.len() implies lower_ascii(#[trigger] word[j])
                == word[j] by {
                assert(word[j] as u32 <= 127);
                if j >= 1 {
                    assert(!is_upper(again[i][j]));
                }
            }
            assert(lowercase(word) =~= word);
        } else {
            let rest = word.drop_first();
            assert forall|j: int| 0 <= j < rest.len() implies (#[trigger] rest[j]) as u32 <= 127
                && lower_ascii(rest[j]) == rest[j] by {
                assert(word[j + 1] as u32 <= 127);
                assert(!is_upper(again[i][j + 1]));
            }
            assert(lowercase(rest) =~= rest);
            if i >= 1 {
                assert(is_upper(again[i][0]));
            }
            assert(upper_ascii(word[0]) == word[0]);
            assert(capitalized(word) =~= word);
        }
    }
    assert(same =~= again);
}

/// The words of a name depend on its characters alone.
proof fn marks_within(text: Seq<char>, a: Seq<bool>, b: Seq<bool>)
    requires
        forall|i: int| 0 <= i < text.len() ==> #[trigger] a[i] == b[i],
    ensures
        marked_words(text, a) == marked_words(text, b),
    decreases text.len(),
{
    if text.len() > 0 {
        marks_within(text.drop_last(), a, b);
        assert(a[text.len() - 1] == b[text.len() - 1]);
    }
}

/// One more character of a name: a separator adds nothing; a character that is
/// an upper-case one, or that is the first or stands behind a separator, starts
/// a word; any other goes on with the last word.
pub proof fn characters_make_words(text: Seq<char>, c: char)
    ensures
        words_of(Seq::empty()).len() == 0,
        c == '_' || c == '-' ==> words_of(text.push(c)) == words_of(text),
        c != '_' && c != '-' && (is_upper(c) || text.len() == 0 || text.last() == '_' || text.last()
            == '-') ==> words_of(text.push(c)) == words_of(text).push(seq![c]),
        c != '_' && c != '-' && !is_upper(c) && text.len() > 0 && text.last() != '_' && text.last()
            != '-' ==> words_of(text).len() > 0 && words_of(text.push(c)) == words_of(
            text,
        ).drop_last().push(words_of(text).last().push(c)),
{
    let all = text.push(c);
    assert(all.drop_last() =~= text);
    assert(all.last() == c);
    marks_within(text, uppers(all), uppers(text));
    words_partition_a_name(text, uppers(text));
    if text.len() > 0 {
        assert(all[all.len() - 2] == text.last());
    }
}

/// Parts one behind another, with the same text between any two.
pub proof fn parts_are_joined(parts: Seq<Seq<char>>, part: Seq<char>, glue: Seq<char>)
    ensures
        joined(Seq::empty(), glue).len() == 0,
        joined(seq![part], glue) == part,
        parts.len() > 0 ==> joined(parts.push(part), glue) == joined(parts, glue) + glue + part,
{
    assert(parts.push(part).drop_last() =~= parts);
}

/// Whether these are words of small letters and digits that start with a
/// letter.
pub open spec fn small_words(words: Seq<Seq<char>>) -> bool {
    forall|i: int| 0 <= i < words.len() ==> small_word(#[trigger] words[i])
}

/// Whether this is a word of small letters and digits that starts with a
/// letter.
pub open spec fn small_word(word: Seq<char>) -> bool {
    &&& word.len() > 0
    &&& 'a' <= word[0] <= 'z'
    &&& forall|j: int|
        0 <= j < word.len() ==> 'a' <= #[trigger] word[j] <= 'z' || '0' <= word[j] <= '9'
}

/// A small word with its first letter made big.
pub open spec fn with_big_first(word: Seq<char>) -> Seq<char> {
    word.update(0, ((word[0] as u32 - 32) as u8) as char)
}

/// A small word with every letter made big.
pub open spec fn all_big(word: Seq<char>) -> Seq<char> {
    word.map_values(
        |c: char|
            if 'a' <= c <= 'z' {
                ((c as u32 - 32) as u8) as char
            } else {
                c
            },
    )
}

/// What the cases make of a small word.
proof fn small_word_cases(word: Seq<char>)
    requires
        small_word(word),
    ensures
        is_ascii(word),
        unseparated(word),
        lowercase(word) == word,
        uppercase(word) == all_big(word),
        capitalized(word) == with_big_first(word),
        forall|j: int| 0 <= j < word.len() ==> !is_upper(#[trigger] word[j]),
{
    assert forall|j: int| 0 <= j < word.len() implies (#[trigger] word[j]) as u32 <= 127
        && !is_separator(word[j]) && !is_upper(word[j]) && lower_ascii(word[j]) == word[j] by {
        assert('a' <= word[j] <= 'z' || '0' <= word[j] <= '9');
    }
    assert(lowercase(word) =~= word);
    assert(uppercase(word) =~= all_big(word));
    let rest = word.drop_first();
    assert forall|j: int| 0 <= j < rest.len() implies (#[trigger] rest[j]) as u32 <= 127
        && lower_ascii(rest[j]) == rest[j] by {
        assert(word[j + 1] as u32 <= 127);
        assert(lower_ascii(word[j + 1]) == word[j + 1]);
    }
    assert(lowercase(rest) =~= rest);
    assert(uppercase_char(word[0]) =~= seq![upper_ascii(word[0])]);
    assert(capitalized(word) =~= with_big_first(word));
}

proof fn small_words_cases(words: Seq<Seq<char>>)
    requires
        small_words(words),
    ensures
        good_words(words),
        words.map_values(|w: Seq<char>| lowercase(w)) == words,
{
    assert forall|i: int| 0 <= i < words.len() implies is_ascii(#[trigger] words[i])
        && unseparated(words[i]) && words[i].len() > 0 && lowercase(words[i]) == words[i] by {
        assert(small_word(words[i]));
        small_word_cases(words[i]);
    }
    assert(words.map_values(|w: Seq<char>| lowercase(w)) =~= words);
}

/// A name of small words with a separator between them has those words.
proof fn small_words_split(words: Seq<Seq<char>>, sep: char)
    requires
        small_words(words),
        is_separator(sep),
    ensures
        words_of(joined(words, seq![sep])) == words,
        lowercase(joined(words, seq![sep])) == joined(words, seq![sep]),
        is_ascii(joined(words, seq![sep])),
{
    small_words_cases(words);
    lower_glued(words, sep);
    let all = joined(words, seq![sep]);
    lower_facts(all);
    assert forall|i: int| 0 <= i < all.len() implies !#[trigger] uppers(all)[i] by {
        assert(!is_upper(lowercase(all)[i]));
    }
    glued_words_split(words, sep, uppers(all));
}

/// Big letters of glued small words are the big words glued.
proof fn upper_glued(words: Seq<Seq<char>>, glue: Seq<char>)
    requires
        small_words(words),
        glue.len() == 0 || (glue.len() == 1 && is_separator(glue[0])),
    ensures
        is_ascii(joined(words, glue)),
        uppercase(joined(words, glue)) == joined(
            words.map_values(|w: Seq<char>| all_big(w)),
            glue,
        ),
    decreases words.len(),
{
    let bigs = words.map_values(|w: Seq<char>| all_big(w));
    let all = joined(words, glue);
    if words.len() == 0 {
        assert(uppercase(all) =~= joined(bigs, glue));
    } else {
        let last = words[words.len() - 1];
        assert(small_word(last));
        small_word_cases(last);
        if words.len() > 1 {
            let front = words.drop_last();
            assert forall|i: int| 0 <= i < front.len() implies small_word(#[trigger] front[i]) by {
                assert(small_word(words[i]));
            }
            upper_glued(front, glue);
            let start = joined(front, glue);
            assert(bigs.drop_last() =~= front.map_values(|w: Seq<char>| all_big(w)));
            assert(all == start + glue + last);
            assert forall|i: int| 0 <= i < all.len() implies (#[trigger] all[i]) as u32 <= 127 by {
                if i < start.len() {
                    assert(all[i] == start[i]);
                } else if i >= start.len() + glue.len() {
                    assert(all[i] == last[i - start.len() - glue.len()]);
                }
            }
            assert(uppercase(all) =~= uppercase(start) + glue + uppercase(last));
        }
    }
}

/// Small letters of small words one behind another are those words.
proof fn lower_run(words: Seq<Seq<char>>)
    requires
        small_words(words),
    ensures
        lowercase(joined(words, Seq::empty())) == joined(words, Seq::empty()),
    decreases words.len(),
{
    small_words_cases(words);
    joined_keeps(words, Seq::empty());
    let all = joined(words, Seq::empty());
    if words.len() == 0 {
        assert(lowercase(all) =~= all);
    } else {
        let last = words[words.len() - 1];
        assert(small_word(last));
        small_word_cases(last);
        if words.len() > 1 {
            let front = words.drop_last();
            assert forall|i: int| 0 <= i < front.len() implies small_word(#[trigger] front[i]) by {
                assert(small_word(words[i]));
            }
            lower_run(front);
            small_words_cases(front);
            joined_keeps(front, Seq::empty());
            let start = joined(front, Seq::empty());
            assert(all =~= start + last);
            assert(lowercase(all) =~= lowercase(start) + lowercase(last));
        }
    }
}

/// What each rule makes of a name in snake case: the words run together, in
/// small or big letters; or with underscores or hyphens between them, in small
/// or big letters; or run together with a big letter at the start of each word,
/// or of each but the first.
pub proof fn rules_rewrite_words(words: Seq<Seq<char>>)
    requires
        small_words(words),
    ensures
        ({
            let name = joined(words, "_"@);
            let bigs = words.map_values(|w: Seq<char>| all_big(w));
            let firsts = words.map_values(|w: Seq<char>| with_big_first(w));
            &&& renamed(name, Some(RenameRule::Lowercase)) == joined(words, Seq::empty())
            &&& renamed(name, Some(RenameRule::Uppercase)) == joined(bigs, Seq::empty())
            &&& renamed(name, Some(RenameRule::SnakeCase)) == joined(words, "_"@)
            &&& renamed(name, Some(RenameRule::ScreamingSnakeCase)) == joined(bigs, "_"@)
            &&& renamed(name, Some(RenameRule::KebabCase)) == joined(words, "-"@)
            &&& renamed(name, Some(RenameRule::ScreamingKebabCase)) == joined(bigs, "-"@)
            &&& renamed(name, Some(RenameRule::PascalCase)) == joined(firsts, Seq::empty())
            &&& words.len() > 0 ==> renamed(name, Some(RenameRule::CamelCase)) == joined(
                firsts.update(0, words[0]),
                Seq::empty(),
            )
        }),
{
    reveal_strlit("_");
    reveal_strlit("-");
    assert("_"@ =~= seq!['_']);
    assert("-"@ =~= seq!['-']);
    small_words_split(words, '_');
    small_words_split(words, '-');
    upper_glued(words, Seq::empty());
    upper_glued(words, seq!['_']);
    upper_glued(words, seq!['-']);
    lower_run(words);
    let firsts = words.map_values(|w: Seq<char>| with_big_first(w));
    assert forall|i: int| 0 <= i < words.len() implies capitalized(#[trigger] words[i])
        == with_big_first(words[i]) && lowercase(words[i]) == words[i] && firsts[i]
        == with_big_first(words[i]) by {
        assert(small_word(words[i]));
        small_word_cases(words[i]);
    }
    camel_parts(words, true, firsts);
    if words.len() > 0 {
        camel_parts(words, false, firsts.update(0, words[0]));
    }
}

proof fn camel_parts(words: Seq<Seq<char>>, first: bool, parts: Seq<Seq<char>>)
    requires
        parts.len() == words.len(),
        forall|i: int|
            0 <= i < words.len() ==> #[trigger] parts[i] == if i == 0 && !first {
                lowercase(words[i])
            } else {
                capitalized(words[i])
            },
    ensures
        camel(words, first) == joined(parts, Seq::empty()),
{
    assert(Seq::new(
        words.len(),
        |i: int|
            if i == 0 && !first {
                lowercase(words[i])
            } else {
                capitalized(words[i])
            },
    ) =~= parts);
}

/// A word with a capital at its start alone is one more word, whatever is
/// before it.
proof fn big_word_is_added(text: Seq<char>, word: Seq<char>, upper: Seq<bool>)
    requires
        word.len() > 0,
        unseparated(word),
        upper[text.len() as int] || text.len() == 0,
        forall|i: int|
            text.len() < i < text.len() + word.len() ==> !#[trigger] upper[i],
    ensures
        marked_words(text + word, upper) == marked_words(text, upper).push(word),
    decreases word.len(),
{
    let all = text + word;
    let rest = word.drop_last();
    assert(all.drop_last() =~= text + rest);
    assert(all.last() == word[word.len() - 1]);
    if word.len() == 1 {
        assert(text + rest =~= text);
        assert(seq![all.last()] =~= word);
    } else {
        assert(!upper[all.len() - 1]);
        assert forall|i: int| 0 <= i < rest.len() implies !is_separator(#[trigger] rest[i]) by {
            assert(!is_separator(word[i]));
        }
        big_word_is_added(text, rest, upper);
        assert(all[all.len() - 2] == word[word.len() - 2]);
        let before = marked_words(text, upper).push(rest);
        assert(before.drop_last() =~= marked_words(text, upper));
        assert(rest.push(all.last()) =~= word);
    }
}

/// Whether a part is a small word, with a big first letter unless `plain`.
spec fn camel_part(part: Seq<char>, plain: bool) -> bool {
    &&& part.len() > 0
    &&& is_ascii(part)
    &&& unseparated(part)
    &&& !plain ==> is_upper(part[0])
    &&& forall|j: int| 1 <= j < part.len() ==> !is_upper(#[trigger] part[j])
}

/// Parts that each start with a capital, but perhaps the first, are the words of
/// the name that they make up.
proof fn camel_parts_split(parts: Seq<Seq<char>>, upper: Seq<bool>)
    requires
        forall|i: int| 0 <= i < parts.len() ==> camel_part(#[trigger] parts[i], i == 0),
        forall|i: int|
            0 <= i < joined(parts, Seq::empty()).len() ==> #[trigger] upper[i] == is_upper(
                joined(parts, Seq::empty())[i],
            ),
    ensures
        marked_words(joined(parts, Seq::empty()), upper) == parts,
    decreases parts.len(),
{
    let all = joined(parts, Seq::empty());
    if parts.len() == 0 {
        assert(marked_words(all, upper) =~= parts);
    } else {
        let last = parts[parts.len() - 1];
        let front = parts.drop_last();
        assert(camel_part(last, parts.len() == 1));
        let start = joined(front, Seq::empty());
        assert(all =~= start + last) by {
            if parts.len() == 1 {
                assert(start =~= Seq::empty());
            }
        }
        assert forall|i: int| 0 <= i < front.len() implies camel_part(
            #[trigger] front[i],
            i == 0,
        ) by {
            assert(camel_part(parts[i], i == 0));
        }
        assert forall|i: int| 0 <= i < start.len() implies #[trigger] upper[i] == is_upper(
            start[i],
        ) by {
            assert(all[i] == start[i]);
        }
        camel_parts_split(front, upper);
        assert(all[start.len() as int] == last[0]);
        assert forall|i: int| start.len() < i < start.len() + last.len() implies !(
        #[trigger] upper[i]) by {
            assert(all[i] == last[i - start.len()]);
        }
        if parts.len() == 1 {
            assert(start.len() == 0);
        }
        big_word_is_added(start, last, upper);
        assert(front.push(last) =~= parts);
    }
}

/// Putting a name of small words in camel case, with or without a big letter at
/// its start, and then in snake case gives the name back.
pub proof fn camel_case_loses_nothing(words: Seq<Seq<char>>)
    requires
        small_words(words),
    ensures
        ({
            let name = joined(words, "_"@);
            let camel = renamed(name, Some(RenameRule::CamelCase));
            let pascal = renamed(name, Some(RenameRule::PascalCase));
            &&& renamed(camel, Some(RenameRule::SnakeCase)) == name
            &&& renamed(pascal, Some(RenameRule::SnakeCase)) == name
        }),
{
    reveal_strlit("_");
    assert("_"@ =~= seq!['_']);
    rules_rewrite_words(words);
    let firsts = words.map_values(|w: Seq<char>| with_big_first(w));
    back_to_snake(words, firsts);
    if words.len() > 0 {
        back_to_snake(words, firsts.update(0, words[0]));
    } else {
        small_words_split(words, '_');
        assert(words_of(joined(words, "_"@)) =~= words);
        assert(firsts =~= words);
        assert(lowercase(Seq::<char>::empty()) =~= Seq::<char>::empty());
        assert(joined(words, "_"@) =~= Seq::empty());
    }
}

proof fn back_to_snake(words: Seq<Seq<char>>, parts: Seq<Seq<char>>)
    requires
        small_words(words),
        parts.len() == words.len(),
        forall|i: int|
            0 <= i < words.len() ==> #[trigger] parts[i] == with_big_first(words[i]) || (i == 0
                && parts[i] == words[i]),
    ensures
        lowercase(joined(words_of(joined(parts, Seq::empty())), seq!['_'])) == joined(
            words,
            seq!['_'],
        ),
{
    let all = joined(parts, Seq::empty());
    assert forall|i: int| 0 <= i < parts.len() implies camel_part(#[trigger] parts[i], i == 0)
        && lowercase(parts[i]) == words[i] by {
        let word = words[i];
        let part = parts[i];
        assert(small_word(word));
        small_word_cases(word);
        assert forall|j: int| 0 <= j < part.len() implies (#[trigger] part[j]) as u32 <= 127
            && !is_separator(part[j]) && lower_ascii(part[j]) == word[j] && (j >= 1 ==> !is_upper(
            part[j],
        )) by {
            assert('a' <= word[j] <= 'z' || '0' <= word[j] <= '9');
            assert(!is_upper(word[j]));
        }
        assert(lowercase(part) =~= word);
    }
    assert forall|i: int| 0 <= i < all.len() implies #[trigger] uppers(all)[i] == is_upper(
        all[i],
    ) by {}
    camel_parts_split(parts, uppers(all));
    assert forall|i: int| 0 <= i < parts.len() implies is_ascii(#[trigger] parts[i])
        && unseparated(parts[i]) && parts[i].len() > 0 by {
        assert(camel_part(parts[i], i == 0));
    }
    lower_glued(parts, '_');
    assert(parts.map_values(|w: Seq<char>| lowercase(w)) =~= words);
}

/// The cases of glued words are the words in those cases, glued.
proof fn cases_glued(
    parts: Seq<Seq<char>>,
    glue: Seq<char>,
    lowers: Seq<Seq<char>>,
    bigs: Seq<Seq<char>>,
)
    requires
        lowers.len() == parts.len(),
        bigs.len() == parts.len(),
        glue.len() == 0 || (glue.len() == 1 && is_separator(glue[0])),
        forall|i: int|
            0 <= i < parts.len() ==> is_ascii(#[trigger] parts[i]) && lowers[i] == lowercase(
                parts[i],
            ) && bigs[i] == uppercase(parts[i]),
    ensures
        is_ascii(joined(parts, glue)),
        lowercase(joined(parts, glue)) == joined(lowers, glue),
        uppercase(joined(parts, glue)) == joined(bigs, glue),
    decreases parts.len(),
{
    let all = joined(parts, glue);
    if parts.len() == 0 {
        assert(lowercase(all) =~= joined(lowers, glue));
        assert(uppercase(all) =~= joined(bigs, glue));
    } else {
        let last = parts[parts.len() - 1];
        assert(is_ascii(last) && lowers[parts.len() - 1] == lowercase(last)
            && bigs[parts.len() - 1] == uppercase(last));
        if parts.len() > 1 {
            let front = parts.drop_last();
            assert forall|i: int| 0 <= i < front.len() implies is_ascii(#[trigger] front[i])
                && lowers.drop_last()[i] == lowercase(front[i]) && bigs.drop_last()[i] == uppercase(
                front[i],
            ) by {
                assert(is_ascii(parts[i]));
            }
            cases_glued(front, glue, lowers.drop_last(), bigs.drop_last());
            let start = joined(front, glue);
            assert(all == start + glue + last);
            assert forall|i: int| 0 <= i < all.len() implies (#[trigger] all[i]) as u32 <= 127 by {
                if i < start.len() {
                    assert(all[i] == start[i]);
                } else if i >= start.len() + glue.len() {
                    assert(all[i] == last[i - start.len() - glue.len()]);
                }
            }
            assert(uppercase(all) =~= uppercase(start) + glue + uppercase(last));
            assert(lowercase(all) =~= lowercase(start) + glue + lowercase(last));
        }
    }
}

/// Names with the same words become the same name under every rule.
pub proof fn only_the_words_of_a_name_count(a: Seq<char>, b: Seq<char>, rule: RenameRule)
    requires
        words_of(a) == words_of(b),
    ensures
        renamed(a, Some(rule)) == renamed(b, Some(rule)),
{
}

/// Whether a name is written in camel case, with or without a big letter at its
/// start, or in snake case, is the same to every rule.
pub proof fn names_are_renamed_alike_from_every_case(words: Seq<Seq<char>>, rule: RenameRule)
    requires
        small_words(words),
        words.len() > 0,
    ensures
        ({
            let firsts = words.map_values(|w: Seq<char>| with_big_first(w));
            let name = joined(words, "_"@);
            let pascal = joined(firsts, Seq::empty());
            let camel = joined(firsts.update(0, words[0]), Seq::empty());
            &&& renamed(pascal, Some(rule)) == renamed(name, Some(rule))
            &&& renamed(camel, Some(rule)) == renamed(name, Some(rule))
        }),
{
    rules_rewrite_words(words);
    let firsts = words.map_values(|w: Seq<char>| with_big_first(w));
    renamed_from_camel(words, firsts, rule);
    renamed_from_camel(words, firsts.update(0, words[0]), rule);
}

proof fn renamed_from_camel(words: Seq<Seq<char>>, parts: Seq<Seq<char>>, rule: RenameRule)
    requires
        small_words(words),
        words.len() > 0,
        parts.len() == words.len(),
        forall|i: int|
            0 <= i < words.len() ==> #[trigger] parts[i] == with_big_first(words[i]) || (i == 0
                && parts[i] == words[i]),
    ensures
        renamed(joined(parts, Seq::empty()), Some(rule)) == renamed(
            joined(words, "_"@),
            Some(rule),
        ),
{
    reveal_strlit("_");
    reveal_strlit("-");
    assert("_"@ =~= seq!['_']);
    assert("-"@ =~= seq!['-']);
    let all = joined(parts, Seq::empty());
    let firsts = words.map_values(|w: Seq<char>| with_big_first(w));
    let bigs = words.map_values(|w: Seq<char>| all_big(w));
    assert forall|i: int| 0 <= i < parts.len() implies camel_part(#[trigger] parts[i], i == 0)
        && is_ascii(parts[i]) && words[i] == lowercase(parts[i]) && bigs[i] == uppercase(parts[i])
        && capitalized(parts[i]) == firsts[i] by {
        part_cases(words[i], parts[i], i == 0);
    }
    assert forall|i: int| 0 <= i < all.len() implies #[trigger] uppers(all)[i] == is_upper(
        all[i],
    ) by {}
    camel_parts_split(parts, uppers(all));
    cases_glued(parts, Seq::empty(), words, bigs);
    cases_glued(parts, seq!['_'], words, bigs);
    cases_glued(parts, seq!['-'], words, bigs);
    camel_parts(parts, true, firsts);
    camel_parts(parts, false, firsts.update(0, words[0]));
    rules_rewrite_words(words);
}

proof fn part_cases(word: Seq<char>, part: Seq<char>, plain: bool)
    requires
        small_word(word),
        part == with_big_first(word) || (plain && part == word),
    ensures
        camel_part(part, plain),
        lowercase(part) == word,
        uppercase(part) == all_big(word),
        capitalized(part) == with_big_first(word),
{
    small_word_cases(word);
    assert forall|j: int| 0 <= j < part.len() implies (#[trigger] part[j]) as u32 <= 127
        && !is_separator(part[j]) && lower_ascii(part[j]) == word[j] && upper_ascii(part[j])
        == all_big(word)[j] && (j >= 1 ==> !is_upper(part[j])) by {
        assert('a' <= word[j] <= 'z' || '0' <= word[j] <= '9');
        assert(!is_upper(word[j]));
    }
    assert(lowercase(part) =~= word);
    assert(uppercase(part) =~= all_big(word));
    let rest = part.drop_first();
    assert(rest =~= word.drop_first());
    assert forall|j: int| 0 <= j < rest.len() implies (#[trigger] rest[j]) as u32 <= 127
        && lower_ascii(rest[j]) == rest[j] by {
        assert(part[j + 1] as u32 <= 127);
        assert(lower_ascii(part[j + 1]) == word[j + 1]);
    }
    assert(lowercase(rest) =~= rest);
    assert(upper_ascii(part[0]) == with_big_first(word)[0]);
    assert(uppercase_char(part[0]) =~= seq![upper_ascii(part[0])]);
    assert(capitalized(part) =~= with_big_first(word));
}

/// Letters beyond ASCII take the case that Unicode gives them: a name with such
/// letters is put in lower or upper case as a whole, and a letter starts a word
/// if Unicode says that it is an upper-case one. Of ASCII only `A` to `Z` do.
pub proof fn letters_beyond_ascii_take_their_case(name: Seq<char>, c: char)
    ensures
        ({
            let run = joined(words_of(name), Seq::empty());
            let snake = joined(words_of(name), "_"@);
            let kebab = joined(words_of(name), "-"@);
            &&& !is_ascii(run) ==> renamed(name, Some(RenameRule::Lowercase))
                == unicode_lowercase(run)
            &&& !is_ascii(run) ==> renamed(name, Some(RenameRule::Uppercase))
                == unicode_uppercase(run)
            &&& !is_ascii(snake) ==> renamed(name, Some(RenameRule::SnakeCase))
                == unicode_lowercase(snake)
            &&& !is_ascii(snake) ==> renamed(name, Some(RenameRule::ScreamingSnakeCase))
                == unicode_uppercase(snake)
            &&& !is_ascii(kebab) ==> renamed(name, Some(RenameRule::KebabCase))
                == unicode_lowercase(kebab)
            &&& !is_ascii(kebab) ==> renamed(name, Some(RenameRule::ScreamingKebabCase))
                == unicode_uppercase(kebab)
        }),
        c as u32 > 127 ==> is_upper(c) == unicode_is_upper(c),
        c as u32 <= 127 ==> (is_upper(c) <==> 'A' <= c <= 'Z'),
        c as u32 > 127 ==> capitalized(seq![c]) == unicode_uppercase_char(c),
        is_ascii(name) <==> forall|i: int| 0 <= i < name.len() ==> (#[trigger] name[i]) as u32
            <= 127,
{
    let rest = seq![c].drop_first();
    assert(rest =~= Seq::<char>::empty());
    assert(lowercase(rest) =~= Seq::<char>::empty());
    if c as u32 > 127 {
        assert(capitalized(seq![c]) =~= unicode_uppercase_char(c));
    }
}

} // verus!
