use std::sync::Arc;

use splint::codec::maps::{FromTermFields, TermMap};
use splint::codec::records::{external_from_term, external_to_term};
use splint::codec::steps::{
    is_unit_variant, pick_variant, put_content, put_field, put_flattened, put_tagged, read_field,
    read_field_if_there, read_listed, read_variant_name, skipped_variant, tagged_variant,
    take_content, unknown_variant, untagged_attempt, Choice,
};
use splint::codec::{
    compound_args, dict_fields, put_compound, put_dict, require_dict_tag,
};
use splint::data::{KeyData, TermData};
use splint::engine::EngineStatus;
use splint::exception::Verdict;
use splint::runtime::RuntimeState;
use splint::term::Unification;
use splint::{
    from_term, to_term, AttachedEngine, DictKey, Engine, ExternalRecord, Fli, FliContext, Frame, FromTerm, ListShape,
    PrologException, Runtime, Term, TermCodecError, TermError, TermKind, ToTerm,
};

fn runtime() -> Runtime {
    let mut state = RuntimeState::Uninitialized;
    Runtime::initialize(
        &mut state,
        &vec![b"splint-test".to_vec(), b"-q".to_vec()],
        |_| true,
    )
    .expect("runtime initialize failed")
}

/// Runs `body` with a fresh engine attached.
fn with_engine<R>(body: impl for<'a> FnOnce(&mut Fli, &'a AttachedEngine<'a>) -> R) -> R {
    let runtime = runtime();
    let mut fli = Fli::new();
    let mut engine = Engine::new(&runtime, true).expect("engine create failed");
    engine
        .with_attached(&mut fli, 1, EngineStatus::Current, body)
        .expect("attach failed")
}

/// Runs `body` in a frame of a fresh engine.
fn with_frame<R>(body: impl for<'a> FnOnce(&mut Fli, &'a Frame<'a>) -> R) -> R {
    with_engine(|fli, ctx| ctx.with_frame(fli, body).unwrap())
}

/// Reads the syntax of terms, as far as the tests below need it.
struct Reader<'a> {
    text: &'a [u8],
    at: usize,
    names: Vec<(String, usize)>,
}

impl Reader<'_> {
    fn peek(&mut self) -> u8 {
        while self.at < self.text.len() && self.text[self.at] == b' ' {
            self.at += 1;
        }
        if self.at < self.text.len() {
            self.text[self.at]
        } else {
            0
        }
    }

    fn take(&mut self, wanted: u8) -> Option<()> {
        if self.peek() == wanted {
            self.at += 1;
            Some(())
        } else {
            None
        }
    }

    fn word(&mut self) -> String {
        let start = self.at;
        while self.at < self.text.len()
            && (self.text[self.at].is_ascii_alphanumeric() || self.text[self.at] == b'_')
        {
            self.at += 1;
        }
        String::from_utf8(self.text[start..self.at].to_vec()).unwrap()
    }

    fn quoted(&mut self, quote: u8) -> Option<String> {
        let start = self.at;
        while self.at < self.text.len() && self.text[self.at] != quote {
            self.at += 1;
        }
        let inner = String::from_utf8(self.text[start..self.at].to_vec()).unwrap();
        self.take(quote)?;
        Some(inner)
    }

    fn variable(&mut self, fli: &mut Fli, name: String) -> TermData {
        if name != "_" {
            for (known, id) in &self.names {
                if *known == name {
                    return TermData::Var(*id);
                }
            }
        }
        let id = fli.new_var();
        self.names.push((name, id));
        TermData::Var(id)
    }

    fn items(&mut self, fli: &mut Fli, end: u8) -> Option<Vec<TermData>> {
        let mut items = vec![self.term(fli)?];
        while self.take(b',').is_some() {
            items.push(self.term(fli)?);
        }
        self.take(end)?;
        Some(items)
    }

    fn entries(&mut self, fli: &mut Fli) -> Option<Vec<(KeyData, TermData)>> {
        let mut entries = Vec::new();
        if self.take(b'}').is_some() {
            return Some(entries);
        }
        loop {
            self.peek();
            let key = self.word();
            self.take(b':')?;
            let value = self.term(fli)?;
            entries.push(match key.parse::<i64>() {
                Ok(number) => (KeyData::Int(number), value),
                Err(_) => (KeyData::Atom(key), value),
            });
            if self.take(b'}').is_some() {
                return Some(entries);
            }
            self.take(b',')?;
        }
    }

    fn primary(&mut self, fli: &mut Fli) -> Option<TermData> {
        let first = self.peek();
        let atom = match first {
            b'"' => {
                self.at += 1;
                return Some(TermData::String(self.quoted(b'"')?));
            }
            b'[' => {
                self.at += 1;
                if self.take(b']').is_some() {
                    return Some(TermData::Nil);
                }
                let mut items = vec![self.term(fli)?];
                while self.take(b',').is_some() {
                    items.push(self.term(fli)?);
                }
                let mut list = if self.take(b'|').is_some() {
                    self.term(fli)?
                } else {
                    TermData::Nil
                };
                self.take(b']')?;
                while let Some(item) = items.pop() {
                    list = TermData::Pair(Box::new(item), Box::new(list));
                }
                return Some(list);
            }
            b'\'' => {
                self.at += 1;
                TermData::Atom(self.quoted(b'\'')?)
            }
            b'-' | b'0'..=b'9' => {
                let negative = self.take(b'-').is_some();
                let digits = self.word();
                if digits.contains('r') {
                    return Some(TermData::Rational(digits));
                }
                let value: i128 = digits.parse().ok()?;
                return Some(TermData::Integer(if negative { -value } else { value }));
            }
            b'_' | b'A'..=b'Z' => {
                let name = self.word();
                self.variable(fli, name)
            }
            b'a'..=b'z' => TermData::Atom(self.word()),
            _ => return None,
        };
        let open = if self.at < self.text.len() {
            self.text[self.at]
        } else {
            0
        };
        match (atom, open) {
            (TermData::Atom(name), b'(') => {
                self.at += 1;
                Some(TermData::Compound(name, self.items(fli, b')')?))
            }
            (tag, b'{') => {
                self.at += 1;
                Some(TermData::Dict(Box::new(tag), self.entries(fli)?))
            }
            (other, _) => Some(other),
        }
    }

    fn term(&mut self, fli: &mut Fli) -> Option<TermData> {
        let left = self.primary(fli)?;
        if self.take(b'+').is_some() {
            let right = self.term(fli)?;
            return Some(TermData::Compound("+".to_owned(), vec![left, right]));
        }
        Some(left)
    }
}

/// Parses a text into `term`, raising a syntax error where it is malformed.
fn put_text(fli: &mut Fli, term: Term<'_>, text: &str) -> Result<(), TermError> {
    let mut reader = Reader {
        text: text.as_bytes(),
        at: 0,
        names: Vec::new(),
    };
    let parsed = reader.term(fli);
    match parsed {
        Some(data) if reader.peek() == 0 => term.put_term_from_text(fli, data),
        _ => {
            fli.answer(Verdict::Raise(PrologException(
                "error(syntax_error(cannot_start_term),_)".to_owned(),
            )));
            term.put_term_from_text(fli, TermData::Nil)
        }
    }
}

/// Writes terms the way `writeq/1` does, as far as the tests below need it.
fn show(fli: &Fli, data: &TermData) -> String {
    let atom = |name: &String| {
        let plain = name.starts_with(|c: char| c.is_ascii_lowercase())
            && name.chars().all(|c| c.is_ascii_alphanumeric() || c == '_');
        if plain || name == "#" {
            name.clone()
        } else {
            format!("'{name}'")
        }
    };
    match fli.resolved(data).0 {
        TermData::Var(id) => format!("_{id}"),
        TermData::Atom(name) => atom(name),
        TermData::Integer(value) => value.to_string(),
        TermData::BigInteger(digits) => digits.clone(),
        TermData::Rational(text) | TermData::Float(_, text) | TermData::Blob(text) => text.clone(),
        TermData::String(text) => format!("{text:?}"),
        TermData::Nil => "[]".to_owned(),
        TermData::Pair(head, tail) => format!("[{}|{}]", show(fli, head), show(fli, tail)),
        TermData::Compound(name, args) => {
            let shown: Vec<String> = args.iter().map(|arg| show(fli, arg)).collect();
            format!("{}({})", atom(name), shown.join(","))
        }
        TermData::Dict(tag, entries) => {
            let shown: Vec<String> = entries
                .iter()
                .map(|(key, value)| {
                    let key = match key {
                        KeyData::Atom(name) => atom(name),
                        KeyData::Int(number) => number.to_string(),
                    };
                    format!("{key}:{}", show(fli, value))
                })
                .collect();
            format!("{}{{{}}}", show(fli, tag), shown.join(","))
        }
    }
}

/// Renders a term.
fn render(fli: &mut Fli, term: Term<'_>) -> String {
    let text = show(fli, fli.held(term.as_raw()));
    term.write_to_string(fli, Some(text)).unwrap()
}

fn round_trip<C: FliContext, T: ToTerm + FromTerm>(ctx: &C, fli: &mut Fli, value: &T) -> T {
    let term = ctx.term(fli).unwrap();
    to_term(ctx, fli, term, value).unwrap();
    from_term(ctx, fli, term).unwrap()
}

fn text(value: &str) -> String {
    value.to_owned()
}

/// Reads a field that must be there.
fn required<C: FliContext, T: FromTerm>(
    ctx: &C,
    fli: &mut Fli,
    term: Option<Term<'_>>,
    name: &str,
) -> Result<T, TermCodecError> {
    match term {
        Some(present) => T::from_term(ctx, fli, present),
        None => Err(TermCodecError::MissingField { field: text(name) }),
    }
}

/// Writes a value into a fresh term.
fn fresh<'a, C: FliContext, T: ToTerm>(
    ctx: &'a C,
    fli: &mut Fli,
    value: &T,
) -> Result<Term<'a>, TermCodecError> {
    let term = ctx.term(fli).map_err(TermCodecError::Term)?;
    value.to_term(ctx, fli, term)?;
    Ok(term)
}

fn term_result<T>(result: Result<T, TermError>) -> Result<T, TermCodecError> {
    result.map_err(TermCodecError::Term)
}

/// A floating-point number, which terms hold by its bit pattern.
#[derive(Debug, PartialEq)]
struct Real(f64);

impl ToTerm for Real {
    fn to_term<Ctx: FliContext>(
        &self,
        ctx: &Ctx,
        fli: &mut Fli,
        dest: Term<'_>,
    ) -> Result<(), TermCodecError> {
        let _ = ctx;
        term_result(dest.put_float(fli, self.0.to_bits(), &format!("{:?}", self.0)))
    }

    fn __to_field<Ctx: FliContext>(
        &self,
        ctx: &Ctx,
        fli: &mut Fli,
        dest: Term<'_>,
    ) -> Result<bool, TermCodecError> {
        self.to_term(ctx, fli, dest).map(|()| true)
    }
}

impl FromTerm for Real {
    fn from_term<Ctx: FliContext>(
        ctx: &Ctx,
        fli: &mut Fli,
        term: Term<'_>,
    ) -> Result<Self, TermCodecError> {
        let _ = ctx;
        let bits = term_result(term.get_float(fli, None))?;
        Ok(Real(f64::from_bits(bits)))
    }

    fn __from_field<Ctx: FliContext>(
        ctx: &Ctx,
        fli: &mut Fli,
        term: Option<Term<'_>>,
        name: &str,
    ) -> Result<Self, TermCodecError> {
        required(ctx, fli, term, name)
    }
}

#[derive(Debug, PartialEq)]
struct RecursiveNode {
    value: i64,
    next: Option<Box<RecursiveNode>>,
}

impl ToTerm for RecursiveNode {
    fn to_term<Ctx: FliContext>(
        &self,
        ctx: &Ctx,
        fli: &mut Fli,
        dest: Term<'_>,
    ) -> Result<(), TermCodecError> {
        let mut fields = Vec::new();
        put_field(ctx, fli, &mut fields, "value", &self.value)?;
        put_field(ctx, fli, &mut fields, "next", &self.next)?;
        put_dict(ctx, fli, dest, "RecursiveNode", fields)
    }

    fn __to_field<Ctx: FliContext>(
        &self,
        ctx: &Ctx,
        fli: &mut Fli,
        dest: Term<'_>,
    ) -> Result<bool, TermCodecError> {
        self.to_term(ctx, fli, dest).map(|()| true)
    }
}

impl FromTerm for RecursiveNode {
    fn from_term<Ctx: FliContext>(
        ctx: &Ctx,
        fli: &mut Fli,
        term: Term<'_>,
    ) -> Result<Self, TermCodecError> {
        require_dict_tag(ctx, fli, term, "RecursiveNode")?;
        let mut fields = dict_fields(ctx, fli, term)?;
        Ok(RecursiveNode {
            value: read_field(ctx, fli, &mut fields, "value")?,
            next: read_field(ctx, fli, &mut fields, "next")?,
        })
    }

    fn __from_field<Ctx: FliContext>(
        ctx: &Ctx,
        fli: &mut Fli,
        term: Option<Term<'_>>,
        name: &str,
    ) -> Result<Self, TermCodecError> {
        required(ctx, fli, term, name)
    }
}

#[derive(Debug, PartialEq)]
struct Tree<T> {
    value: T,
    children: Vec<Tree<T>>,
}

impl<T: ToTerm> ToTerm for Tree<T> {
    fn to_term<Ctx: FliContext>(
        &self,
        ctx: &Ctx,
        fli: &mut Fli,
        dest: Term<'_>,
    ) -> Result<(), TermCodecError> {
        let mut fields = Vec::new();
        put_field(ctx, fli, &mut fields, "value", &self.value)?;
        put_field(ctx, fli, &mut fields, "children", &self.children)?;
        put_dict(ctx, fli, dest, "Tree", fields)
    }

    fn __to_field<Ctx: FliContext>(
        &self,
        ctx: &Ctx,
        fli: &mut Fli,
        dest: Term<'_>,
    ) -> Result<bool, TermCodecError> {
        self.to_term(ctx, fli, dest).map(|()| true)
    }
}

impl<T: FromTerm> FromTerm for Tree<T> {
    fn from_term<Ctx: FliContext>(
        ctx: &Ctx,
        fli: &mut Fli,
        term: Term<'_>,
    ) -> Result<Self, TermCodecError> {
        require_dict_tag(ctx, fli, term, "Tree")?;
        let mut fields = dict_fields(ctx, fli, term)?;
        Ok(Tree {
            value: read_field(ctx, fli, &mut fields, "value")?,
            children: read_field(ctx, fli, &mut fields, "children")?,
        })
    }

    fn __from_field<Ctx: FliContext>(
        ctx: &Ctx,
        fli: &mut Fli,
        term: Option<Term<'_>>,
        name: &str,
    ) -> Result<Self, TermCodecError> {
        required(ctx, fli, term, name)
    }
}

#[derive(Debug, PartialEq)]
struct BoxedTree<T> {
    value: T,
    children: Vec<Box<BoxedTree<T>>>,
}

impl<T: ToTerm> ToTerm for BoxedTree<T> {
    fn to_term<Ctx: FliContext>(
        &self,
        ctx: &Ctx,
        fli: &mut Fli,
        dest: Term<'_>,
    ) -> Result<(), TermCodecError> {
        let mut fields = Vec::new();
        put_field(ctx, fli, &mut fields, "value", &self.value)?;
        put_field(ctx, fli, &mut fields, "children", &self.children)?;
        put_dict(ctx, fli, dest, "BoxedTree", fields)
    }

    fn __to_field<Ctx: FliContext>(
        &self,
        ctx: &Ctx,
        fli: &mut Fli,
        dest: Term<'_>,
    ) -> Result<bool, TermCodecError> {
        self.to_term(ctx, fli, dest).map(|()| true)
    }
}

impl<T: FromTerm> FromTerm for BoxedTree<T> {
    fn from_term<Ctx: FliContext>(
        ctx: &Ctx,
        fli: &mut Fli,
        term: Term<'_>,
    ) -> Result<Self, TermCodecError> {
        require_dict_tag(ctx, fli, term, "BoxedTree")?;
        let mut fields = dict_fields(ctx, fli, term)?;
        Ok(BoxedTree {
            value: read_field(ctx, fli, &mut fields, "value")?,
            children: read_field(ctx, fli, &mut fields, "children")?,
        })
    }

    fn __from_field<Ctx: FliContext>(
        ctx: &Ctx,
        fli: &mut Fli,
        term: Option<Term<'_>>,
        name: &str,
    ) -> Result<Self, TermCodecError> {
        required(ctx, fli, term, name)
    }
}

#[derive(Debug, PartialEq)]
struct SharedTree {
    value: i64,
    children: Vec<Arc<SharedTree>>,
}

impl ToTerm for SharedTree {
    fn to_term<Ctx: FliContext>(
        &self,
        ctx: &Ctx,
        fli: &mut Fli,
        dest: Term<'_>,
    ) -> Result<(), TermCodecError> {
        let mut fields = Vec::new();
        put_field(ctx, fli, &mut fields, "value", &self.value)?;
        put_field(ctx, fli, &mut fields, "children", &self.children)?;
        put_dict(ctx, fli, dest, "SharedTree", fields)
    }

    fn __to_field<Ctx: FliContext>(
        &self,
        ctx: &Ctx,
        fli: &mut Fli,
        dest: Term<'_>,
    ) -> Result<bool, TermCodecError> {
        self.to_term(ctx, fli, dest).map(|()| true)
    }
}

impl FromTerm for SharedTree {
    fn from_term<Ctx: FliContext>(
        ctx: &Ctx,
        fli: &mut Fli,
        term: Term<'_>,
    ) -> Result<Self, TermCodecError> {
        require_dict_tag(ctx, fli, term, "SharedTree")?;
        let mut fields = dict_fields(ctx, fli, term)?;
        Ok(SharedTree {
            value: read_field(ctx, fli, &mut fields, "value")?,
            children: read_field(ctx, fli, &mut fields, "children")?,
        })
    }

    fn __from_field<Ctx: FliContext>(
        ctx: &Ctx,
        fli: &mut Fli,
        term: Option<Term<'_>>,
        name: &str,
    ) -> Result<Self, TermCodecError> {
        required(ctx, fli, term, name)
    }
}

#[test]
fn recursive_structs_round_trip_through_option_vec_box_and_arc() {
    with_frame(|fli, frame| {
        let node = RecursiveNode {
            value: 1,
            next: Some(Box::new(RecursiveNode {
                value: 2,
                next: None,
            })),
        };
        assert_eq!(round_trip(frame, fli, &node), node);

        let tree = Tree {
            value: "root".to_owned(),
            children: vec![
                Tree {
                    value: "first".to_owned(),
                    children: Vec::new(),
                },
                Tree {
                    value: "second".to_owned(),
                    children: vec![Tree {
                        value: "grandchild".to_owned(),
                        children: Vec::new(),
                    }],
                },
            ],
        };
        assert_eq!(round_trip(frame, fli, &tree), tree);

        let boxed = BoxedTree {
            value: 1_i64,
            children: vec![Box::new(BoxedTree {
                value: 2,
                children: vec![Box::new(BoxedTree {
                    value: 3,
                    children: Vec::new(),
                })],
            })],
        };
        assert_eq!(round_trip(frame, fli, &boxed), boxed);

        let shared = SharedTree {
            value: 1,
            children: vec![Arc::new(SharedTree {
                value: 2,
                children: Vec::new(),
            })],
        };
        assert_eq!(round_trip(frame, fli, &shared), shared);
    });
}

#[derive(Debug, PartialEq)]
enum Left {
    End,
    Rights(Vec<Right>),
}

impl ToTerm for Left {
    fn to_term<Ctx: FliContext>(
        &self,
        ctx: &Ctx,
        fli: &mut Fli,
        dest: Term<'_>,
    ) -> Result<(), TermCodecError> {
        match self {
            Left::End => term_result(dest.put_atom_text(fli, "End")),
            Left::Rights(items) => {
                let value = fresh(ctx, fli, items)?;
                put_compound(ctx, fli, dest, "Rights", &vec![value])
            }
        }
    }

    fn __to_field<Ctx: FliContext>(
        &self,
        ctx: &Ctx,
        fli: &mut Fli,
        dest: Term<'_>,
    ) -> Result<bool, TermCodecError> {
        self.to_term(ctx, fli, dest).map(|()| true)
    }
}

impl FromTerm for Left {
    fn from_term<Ctx: FliContext>(
        ctx: &Ctx,
        fli: &mut Fli,
        term: Term<'_>,
    ) -> Result<Self, TermCodecError> {
        if is_unit_variant(fli, term, "End")? {
            return Ok(Left::End);
        }
        if let Ok(args) = compound_args(ctx, fli, term, "Rights", 1) {
            return Ok(Left::Rights(from_term(ctx, fli, args[0])?));
        }
        Err(unknown_variant(ctx, fli, term))
    }

    fn __from_field<Ctx: FliContext>(
        ctx: &Ctx,
        fli: &mut Fli,
        term: Option<Term<'_>>,
        name: &str,
    ) -> Result<Self, TermCodecError> {
        required(ctx, fli, term, name)
    }
}

#[derive(Debug, PartialEq)]
enum Right {
    End,
    Lefts(Vec<Left>),
}

impl ToTerm for Right {
    fn to_term<Ctx: FliContext>(
        &self,
        ctx: &Ctx,
        fli: &mut Fli,
        dest: Term<'_>,
    ) -> Result<(), TermCodecError> {
        match self {
            Right::End => term_result(dest.put_atom_text(fli, "End")),
            Right::Lefts(items) => {
                let value = fresh(ctx, fli, items)?;
                put_compound(ctx, fli, dest, "Lefts", &vec![value])
            }
        }
    }

    fn __to_field<Ctx: FliContext>(
        &self,
        ctx: &Ctx,
        fli: &mut Fli,
        dest: Term<'_>,
    ) -> Result<bool, TermCodecError> {
        self.to_term(ctx, fli, dest).map(|()| true)
    }
}

impl FromTerm for Right {
    fn from_term<Ctx: FliContext>(
        ctx: &Ctx,
        fli: &mut Fli,
        term: Term<'_>,
    ) -> Result<Self, TermCodecError> {
        if is_unit_variant(fli, term, "End")? {
            return Ok(Right::End);
        }
        if let Ok(args) = compound_args(ctx, fli, term, "Lefts", 1) {
            return Ok(Right::Lefts(from_term(ctx, fli, args[0])?));
        }
        Err(unknown_variant(ctx, fli, term))
    }

    fn __from_field<Ctx: FliContext>(
        ctx: &Ctx,
        fli: &mut Fli,
        term: Option<Term<'_>>,
        name: &str,
    ) -> Result<Self, TermCodecError> {
        required(ctx, fli, term, name)
    }
}

#[derive(Debug, PartialEq)]
enum TaggedTree {
    Leaf { value: i64 },
    Branch { children: Vec<TaggedTree> },
}

impl ToTerm for TaggedTree {
    fn to_term<Ctx: FliContext>(
        &self,
        ctx: &Ctx,
        fli: &mut Fli,
        dest: Term<'_>,
    ) -> Result<(), TermCodecError> {
        let mut fields = Vec::new();
        let wire = match self {
            TaggedTree::Leaf { value } => {
                put_field(ctx, fli, &mut fields, "value", value)?;
                "Leaf"
            }
            TaggedTree::Branch { children } => {
                put_field(ctx, fli, &mut fields, "children", children)?;
                "Branch"
            }
        };
        put_tagged(ctx, fli, dest, "kind", wire, fields)
    }

    fn __to_field<Ctx: FliContext>(
        &self,
        ctx: &Ctx,
        fli: &mut Fli,
        dest: Term<'_>,
    ) -> Result<bool, TermCodecError> {
        self.to_term(ctx, fli, dest).map(|()| true)
    }
}

impl FromTerm for TaggedTree {
    fn from_term<Ctx: FliContext>(
        ctx: &Ctx,
        fli: &mut Fli,
        term: Term<'_>,
    ) -> Result<Self, TermCodecError> {
        let mut fields = dict_fields(ctx, fli, term)?;
        let variant = read_variant_name(fli, &mut fields, "kind")?;
        match variant.as_str() {
            "Leaf" => Ok(TaggedTree::Leaf {
                value: read_field(ctx, fli, &mut fields, "value")?,
            }),
            "Branch" => Ok(TaggedTree::Branch {
                children: read_field(ctx, fli, &mut fields, "children")?,
            }),
            _ => Err(TermCodecError::UnknownVariant { variant }),
        }
    }

    fn __from_field<Ctx: FliContext>(
        ctx: &Ctx,
        fli: &mut Fli,
        term: Option<Term<'_>>,
        name: &str,
    ) -> Result<Self, TermCodecError> {
        required(ctx, fli, term, name)
    }
}

#[test]
fn recursive_enums_and_mutually_recursive_vecs_round_trip() {
    with_frame(|fli, frame| {
        let mutual = Left::Rights(vec![
            Right::End,
            Right::Lefts(vec![Left::End, Left::Rights(Vec::new())]),
        ]);
        assert_eq!(round_trip(frame, fli, &mutual), mutual);

        let tagged = TaggedTree::Branch {
            children: vec![
                TaggedTree::Leaf { value: 1 },
                TaggedTree::Branch {
                    children: vec![TaggedTree::Leaf { value: 2 }],
                },
            ],
        };
        assert_eq!(round_trip(frame, fli, &tagged), tagged);
    });
}

#[derive(Debug, PartialEq)]
enum Shape {
    Empty,
    Circle(Real),
    Rect(i64, i64),
    Label { text: String },
}

impl ToTerm for Shape {
    fn to_term<Ctx: FliContext>(
        &self,
        ctx: &Ctx,
        fli: &mut Fli,
        dest: Term<'_>,
    ) -> Result<(), TermCodecError> {
        match self {
            Shape::Empty => term_result(dest.put_atom_text(fli, "Empty")),
            Shape::Circle(radius) => {
                let value = fresh(ctx, fli, radius)?;
                put_compound(ctx, fli, dest, "Circle", &vec![value])
            }
            Shape::Rect(width, height) => {
                let first = fresh(ctx, fli, width)?;
                let second = fresh(ctx, fli, height)?;
                put_compound(ctx, fli, dest, "Rect", &vec![first, second])
            }
            Shape::Label { text } => {
                let mut fields = Vec::new();
                put_field(ctx, fli, &mut fields, "text", text)?;
                put_dict(ctx, fli, dest, "Label", fields)
            }
        }
    }

    fn __to_field<Ctx: FliContext>(
        &self,
        ctx: &Ctx,
        fli: &mut Fli,
        dest: Term<'_>,
    ) -> Result<bool, TermCodecError> {
        self.to_term(ctx, fli, dest).map(|()| true)
    }
}

impl FromTerm for Shape {
    fn from_term<Ctx: FliContext>(
        ctx: &Ctx,
        fli: &mut Fli,
        term: Term<'_>,
    ) -> Result<Self, TermCodecError> {
        if is_unit_variant(fli, term, "Empty")? {
            return Ok(Shape::Empty);
        }
        if let Ok(args) = compound_args(ctx, fli, term, "Circle", 1) {
            return Ok(Shape::Circle(from_term(ctx, fli, args[0])?));
        }
        if let Ok(args) = compound_args(ctx, fli, term, "Rect", 2) {
            let width = from_term(ctx, fli, args[0])?;
            let height = from_term(ctx, fli, args[1])?;
            return Ok(Shape::Rect(width, height));
        }
        if require_dict_tag(ctx, fli, term, "Label").is_ok() {
            let mut fields = dict_fields(ctx, fli, term)?;
            return Ok(Shape::Label {
                text: read_field(ctx, fli, &mut fields, "text")?,
            });
        }
        Err(unknown_variant(ctx, fli, term))
    }

    fn __from_field<Ctx: FliContext>(
        ctx: &Ctx,
        fli: &mut Fli,
        term: Option<Term<'_>>,
        name: &str,
    ) -> Result<Self, TermCodecError> {
        required(ctx, fli, term, name)
    }
}

#[test]
fn externally_tagged_enums_round_trip() {
    with_frame(|fli, frame| {
        for value in [
            Shape::Empty,
            Shape::Circle(Real(2.5)),
            Shape::Rect(3, 4),
            Shape::Label { text: "x".into() },
        ] {
            assert_eq!(round_trip(frame, fli, &value), value);
        }
    });
}

#[derive(Default)]
struct RuntimeOnly;

struct Config<T> {
    generic_value: T,
    runtime_only: RuntimeOnly,
}

impl<T: ToTerm> ToTerm for Config<T> {
    fn to_term<Ctx: FliContext>(
        &self,
        ctx: &Ctx,
        fli: &mut Fli,
        dest: Term<'_>,
    ) -> Result<(), TermCodecError> {
        let mut fields = Vec::new();
        put_field(ctx, fli, &mut fields, "genericValue", &self.generic_value)?;
        put_dict(ctx, fli, dest, "Config", fields)
    }

    fn __to_field<Ctx: FliContext>(
        &self,
        ctx: &Ctx,
        fli: &mut Fli,
        dest: Term<'_>,
    ) -> Result<bool, TermCodecError> {
        self.to_term(ctx, fli, dest).map(|()| true)
    }
}

impl<T: FromTerm> FromTerm for Config<T> {
    fn from_term<Ctx: FliContext>(
        ctx: &Ctx,
        fli: &mut Fli,
        term: Term<'_>,
    ) -> Result<Self, TermCodecError> {
        require_dict_tag(ctx, fli, term, "Config")?;
        let mut fields = dict_fields(ctx, fli, term)?;
        Ok(Config {
            generic_value: read_field(ctx, fli, &mut fields, "genericValue")?,
            runtime_only: Default::default(),
        })
    }

    fn __from_field<Ctx: FliContext>(
        ctx: &Ctx,
        fli: &mut Fli,
        term: Option<Term<'_>>,
        name: &str,
    ) -> Result<Self, TermCodecError> {
        required(ctx, fli, term, name)
    }
}

struct SkippedGeneric<T: Default> {
    value: i64,
    runtime_only: T,
}

impl<T: Default> ToTerm for SkippedGeneric<T> {
    fn to_term<Ctx: FliContext>(
        &self,
        ctx: &Ctx,
        fli: &mut Fli,
        dest: Term<'_>,
    ) -> Result<(), TermCodecError> {
        let mut fields = Vec::new();
        put_field(ctx, fli, &mut fields, "value", &self.value)?;
        put_dict(ctx, fli, dest, "SkippedGeneric", fields)
    }

    fn __to_field<Ctx: FliContext>(
        &self,
        ctx: &Ctx,
        fli: &mut Fli,
        dest: Term<'_>,
    ) -> Result<bool, TermCodecError> {
        self.to_term(ctx, fli, dest).map(|()| true)
    }
}

impl<T: Default> FromTerm for SkippedGeneric<T> {
    fn from_term<Ctx: FliContext>(
        ctx: &Ctx,
        fli: &mut Fli,
        term: Term<'_>,
    ) -> Result<Self, TermCodecError> {
        require_dict_tag(ctx, fli, term, "SkippedGeneric")?;
        let mut fields = dict_fields(ctx, fli, term)?;
        Ok(SkippedGeneric {
            value: read_field(ctx, fli, &mut fields, "value")?,
            runtime_only: Default::default(),
        })
    }

    fn __from_field<Ctx: FliContext>(
        ctx: &Ctx,
        fli: &mut Fli,
        term: Option<Term<'_>>,
        name: &str,
    ) -> Result<Self, TermCodecError> {
        required(ctx, fli, term, name)
    }
}

struct Defaults {
    value: i64,
}

impl FromTerm for Defaults {
    fn from_term<Ctx: FliContext>(
        ctx: &Ctx,
        fli: &mut Fli,
        term: Term<'_>,
    ) -> Result<Self, TermCodecError> {
        require_dict_tag(ctx, fli, term, "Defaults")?;
        let mut fields = dict_fields(ctx, fli, term)?;
        Ok(Defaults {
            value: read_field_if_there(ctx, fli, &mut fields, "value")?.unwrap_or_default(),
        })
    }

    fn __from_field<Ctx: FliContext>(
        ctx: &Ctx,
        fli: &mut Fli,
        term: Option<Term<'_>>,
        name: &str,
    ) -> Result<Self, TermCodecError> {
        required(ctx, fli, term, name)
    }
}

#[test]
fn derives_add_generic_bounds_and_skip_runtime_only_fields() {
    with_frame(|fli, frame| {
        let value = Config {
            generic_value: 5_i64,
            runtime_only: RuntimeOnly,
        };
        let term = frame.term(fli).unwrap();
        to_term(frame, fli, term, &value).unwrap();
        let text = render(fli, term);
        assert!(text.contains("genericValue"));
        assert!(!text.contains("runtime_only"));
        let decoded: Config<i64> = from_term(frame, fli, term).unwrap();
        assert_eq!(decoded.generic_value, 5);
        let _ = decoded.runtime_only;

        let skipped = SkippedGeneric::<RuntimeOnly> {
            value: 6,
            runtime_only: RuntimeOnly,
        };
        let term = frame.term(fli).unwrap();
        to_term(frame, fli, term, &skipped).unwrap();
        let decoded: SkippedGeneric<RuntimeOnly> = from_term(frame, fli, term).unwrap();
        assert_eq!(decoded.value, 6);
        let _ = decoded.runtime_only;

        let empty = frame.term(fli).unwrap();
        put_text(fli, empty, "'Defaults'{}").unwrap();
        assert_eq!(from_term::<_, Defaults>(frame, fli, empty).unwrap().value, 0);
    });
}

/// An internally tagged enum with its content apart.
#[derive(Debug, PartialEq)]
enum Event {
    Stop,
    Number(i64),
    Span(i64, i64),
    Named { value: i64, note: Option<String> },
}

fn write_event<C: FliContext>(
    ctx: &C,
    fli: &mut Fli,
    dest: Term<'_>,
    event: &Event,
) -> Result<(), TermCodecError> {
    let (wire, content) = match event {
        Event::Stop => return put_tagged(ctx, fli, dest, "kind", "Stop", Vec::new()),
        Event::Number(number) => {
            let term = ctx.term(fli).map_err(TermCodecError::Term)?;
            to_term(ctx, fli, term, number)?;
            let content = ctx.term(fli).map_err(TermCodecError::Term)?;
            put_content(ctx, fli, content, &vec![term])?;
            ("Number", content)
        }
        Event::Span(low, high) => {
            let first = ctx.term(fli).map_err(TermCodecError::Term)?;
            to_term(ctx, fli, first, low)?;
            let second = ctx.term(fli).map_err(TermCodecError::Term)?;
            to_term(ctx, fli, second, high)?;
            let content = ctx.term(fli).map_err(TermCodecError::Term)?;
            put_content(ctx, fli, content, &vec![first, second])?;
            ("Span", content)
        }
        Event::Named { value, note } => {
            let mut fields = Vec::new();
            put_field(ctx, fli, &mut fields, "value", value)?;
            put_field(ctx, fli, &mut fields, "note", note)?;
            let content = ctx.term(fli).map_err(TermCodecError::Term)?;
            put_dict(ctx, fli, content, "#", fields)?;
            ("Named", content)
        }
    };
    put_tagged(ctx, fli, dest, "kind", wire, vec![(text("data"), content)])
}

fn read_event<C: FliContext>(
    ctx: &C,
    fli: &mut Fli,
    term: Term<'_>,
) -> Result<Event, TermCodecError> {
    let mut fields = dict_fields(ctx, fli, term)?;
    let variant = read_variant_name(fli, &mut fields, "kind")?;
    match variant.as_str() {
        "Stop" => Ok(Event::Stop),
        "Number" => {
            let content = take_content(fli, &mut fields, "data")?;
            Ok(Event::Number(from_term(ctx, fli, content)?))
        }
        "Span" => {
            let content = take_content(fli, &mut fields, "data")?;
            let items = read_listed(ctx, fli, content, 2)?;
            Ok(Event::Span(
                from_term(ctx, fli, items[0])?,
                from_term(ctx, fli, items[1])?,
            ))
        }
        "Named" => {
            let content = take_content(fli, &mut fields, "data")?;
            let mut payload = dict_fields(ctx, fli, content)?;
            let value = match read_field_if_there(ctx, fli, &mut payload, "value")? {
                Some(value) => value,
                None => 11,
            };
            let note = read_field(ctx, fli, &mut payload, "note")?;
            Ok(Event::Named { value, note })
        }
        _ => Err(TermCodecError::UnknownVariant { variant }),
    }
}

#[test]
fn tagged_variants_round_trip_through_the_steps() {
    with_frame(|fli, frame| {
        for event in [
            Event::Stop,
            Event::Number(3),
            Event::Span(4, 5),
            Event::Named {
                value: 8,
                note: None,
            },
            Event::Named {
                value: 9,
                note: Some(text("kept")),
            },
        ] {
            let term = frame.term(fli).unwrap();
            write_event(frame, fli, term, &event).unwrap();
            assert_eq!(term.kind(fli), TermKind::Dict);
            assert_eq!(read_event(frame, fli, term).unwrap(), event);
        }

        let term = frame.term(fli).unwrap();
        put_text(fli, term, "_{kind: \"Named\", data: _{note: \"x\"}}").unwrap();
        assert_eq!(
            read_event(frame, fli, term).unwrap(),
            Event::Named {
                value: 11,
                note: Some(text("x"))
            }
        );
        put_text(fli, term, "_{kind: \"Span\", data: [1]}").unwrap();
        assert_eq!(
            read_event(frame, fli, term),
            Err(TermCodecError::ArityMismatch {
                expected: 2,
                actual: 1
            })
        );
        put_text(fli, term, "_{kind: \"Span\"}").unwrap();
        assert_eq!(
            read_event(frame, fli, term),
            Err(TermCodecError::MissingField { field: text("data") })
        );
        put_text(fli, term, "_{kind: \"Other\"}").unwrap();
        assert_eq!(
            read_event(frame, fli, term),
            Err(TermCodecError::UnknownVariant {
                variant: text("Other")
            })
        );
        put_text(fli, term, "_{data: 1}").unwrap();
        assert_eq!(
            read_event(frame, fli, term),
            Err(TermCodecError::MissingField { field: text("kind") })
        );
    });
}

#[test]
fn flattened_fields_take_the_place_of_their_field() {
    with_frame(|fli, frame| {
        let mut details: TermMap<String, i64> = TermMap::new();
        details.insert(text("count"), 3);
        let mut fields = Vec::new();
        put_field(frame, fli, &mut fields, "id", &7_i64).unwrap();
        put_flattened(frame, fli, &mut fields, &details).unwrap();
        assert_eq!(fields.len(), 2);
        let term = frame.term(fli).unwrap();
        put_dict(frame, fli, term, "Envelope", fields).unwrap();

        let mut read = dict_fields(frame, fli, term).unwrap();
        assert_eq!(read_field::<_, i64>(frame, fli, &mut read, "id").unwrap(), 7);
        let back = TermMap::<String, i64>::__from_fields(frame, fli, &mut read).unwrap();
        assert_eq!(back.entries(), details.entries());
    });
}

#[test]
fn terms_that_no_variant_stands_for_are_named() {
    with_frame(|fli, frame| {
        let term = frame.term(fli).unwrap();
        let unknown = |fli: &mut Fli, source: &str| {
            put_text(fli, term, source).unwrap();
            unknown_variant(frame, fli, term)
        };
        let named = |name: &str| TermCodecError::UnknownVariant { variant: text(name) };
        assert_eq!(unknown(fli, "blue"), named("blue"));
        assert_eq!(unknown(fli, "f(1)"), named("f"));
        assert_eq!(unknown(fli, "t{a: 1}"), named("t"));
        assert_eq!(unknown(fli, "_{a: 1}"), named(""));
        assert_eq!(unknown(fli, "5"), named(""));
        put_text(fli, term, "blue").unwrap();
        assert!(is_unit_variant(fli, term, "blue").unwrap());
        assert!(!is_unit_variant(fli, term, "red").unwrap());
        assert_eq!(
            skipped_variant("Gone"),
            TermCodecError::Message(text("variant Gone is skipped for ToTerm"))
        );
    });
}

#[test]
fn variants_round_trip_through_the_compound_helpers() {
    with_frame(|fli, frame| {
        let term = frame.term(fli).unwrap();
        put_compound(frame, fli, term, "Empty", &Vec::new()).unwrap();
        assert_eq!(term.kind(fli), TermKind::Atom);
        assert!(compound_args(frame, fli, term, "Empty", 0).unwrap().is_empty());

        let width = frame.term(fli).unwrap();
        width.put_i64(fli, 3).unwrap();
        let height = frame.term(fli).unwrap();
        height.put_i64(fli, 4).unwrap();
        put_compound(frame, fli, term, "Rect", &vec![width, height]).unwrap();
        assert_eq!(term.kind(fli), TermKind::Compound);
        let args = compound_args(frame, fli, term, "Rect", 2).unwrap();
        assert_eq!(args[0].get_i64(fli).unwrap(), 3);
        assert_eq!(args[1].get_i64(fli).unwrap(), 4);
        assert!(compound_args(frame, fli, term, "Rect", 1).is_err());
    });
}

#[test]
fn built_in_values_round_trip() {
    with_frame(|fli, frame| {
        assert_eq!(round_trip(frame, fli, &42_i64), 42);
        assert_eq!(round_trip(frame, fli, &u64::MAX), u64::MAX);
        let float = frame.term(fli).unwrap();
        float.put_float(fli, 1.5_f64.to_bits(), "1.5").unwrap();
        assert_eq!(f64::from_bits(float.get_float(fli, None).unwrap()), 1.5);
        assert_eq!(round_trip(frame, fli, &text("hello")), "hello");
        assert_eq!(round_trip(frame, fli, &vec![1_i64, 2, 3]), [1, 2, 3]);
        assert_eq!(
            round_trip(frame, fli, &(1_i64, text("two"))),
            (1, text("two"))
        );

        let mut map: TermMap<String, i64> = TermMap::new();
        map.insert(text("a"), 1);
        map.insert(text("b"), 2);
        let back = round_trip(frame, fli, &map);
        assert_eq!(back.entries(), map.entries());
    });
}

#[test]
fn every_built_in_type_round_trips() {
    with_frame(|fli, frame| {
        assert!(round_trip(frame, fli, &true));
        assert!(!round_trip(frame, fli, &false));
        assert_eq!(round_trip(frame, fli, &i8::MIN), i8::MIN);
        assert_eq!(round_trip(frame, fli, &i16::MAX), i16::MAX);
        assert_eq!(round_trip(frame, fli, &i32::MIN), i32::MIN);
        assert_eq!(round_trip(frame, fli, &i64::MIN), i64::MIN);
        assert_eq!(round_trip(frame, fli, &isize::MAX), isize::MAX);
        assert_eq!(round_trip(frame, fli, &u8::MAX), u8::MAX);
        assert_eq!(round_trip(frame, fli, &u16::MAX), u16::MAX);
        assert_eq!(round_trip(frame, fli, &u32::MAX), u32::MAX);
        assert_eq!(round_trip(frame, fli, &usize::MAX), usize::MAX);
        assert_eq!(round_trip(frame, fli, &'q'), 'q');
        assert_eq!(round_trip(frame, fli, &'ß'), 'ß');
        assert_eq!(round_trip(frame, fli, &[7_i64, 8, 9]), [7, 8, 9]);
        assert_eq!(round_trip(frame, fli, &Box::new(5_i64)), Box::new(5));
        assert_eq!(round_trip(frame, fli, &Arc::new(text("a"))), Arc::new(text("a")));
        assert_eq!(
            round_trip(frame, fli, &(1_i64, true, 'c', vec![text("d")], (2_u8, 3_u8))),
            (1, true, 'c', vec![text("d")], (2, 3))
        );
        let mut by_number: TermMap<i64, bool> = TermMap::new();
        by_number.insert(-3, true);
        by_number.insert(12, false);
        let back = round_trip(frame, fli, &by_number);
        assert_eq!(back.len(), 2);
        assert_eq!(back.get(&-3), Some(&true));
        assert_eq!(back.get(&12), Some(&false));
        assert_eq!(back.get(&4), None);
    });
}

#[test]
fn values_of_the_wrong_type_are_rejected() {
    with_frame(|fli, frame| {
        let term = frame.term(fli).unwrap();
        term.put_i64(fli, 300).unwrap();
        assert!(matches!(
            from_term::<_, u8>(frame, fli, term),
            Err(TermCodecError::Type { expected: "u8" })
        ));
        assert!(matches!(
            from_term::<_, bool>(frame, fli, term),
            Err(TermCodecError::Term(TermError::TypeMismatch { expected: "a boolean" }))
        ));
        assert!(matches!(
            from_term::<_, char>(frame, fli, term),
            Err(TermCodecError::Type { expected: "a character" })
        ));
        assert!(matches!(
            from_term::<_, Option<i64>>(frame, fli, term),
            Err(TermCodecError::OptionOutsideField)
        ));
        assert!(matches!(
            to_term(frame, fli, term, &()),
            Err(TermCodecError::OptionOutsideField)
        ));
        assert!(matches!(
            from_term::<_, Vec<i64>>(frame, fli, term),
            Err(TermCodecError::Term(TermError::NotAProperList(ListShape::NotAList)))
        ));
        put_text(fli, term, "[1, 2, 3]").unwrap();
        assert!(matches!(
            from_term::<_, (i64, i64)>(frame, fli, term),
            Err(TermCodecError::ArityMismatch { expected: 2, actual: 3 })
        ));
        assert!(matches!(
            from_term::<_, [i64; 2]>(frame, fli, term),
            Err(TermCodecError::ArityMismatch { expected: 2, actual: 3 })
        ));
        put_text(fli, term, "#{x: 1}").unwrap_err();
        put_text(fli, term, "m{x: 1}").unwrap();
        assert!(matches!(
            from_term::<_, TermMap<i64, i64>>(frame, fli, term),
            Err(TermCodecError::Type { expected: "a numeric dict key" })
        ));
        assert!(matches!(
            from_term::<_, TermMap<bool, i64>>(frame, fli, term),
            Err(TermCodecError::Type { expected: "a boolean dict key" })
        ));
    });
}

#[test]
fn dict_helpers_report_tags_functors_and_missing_and_repeated_fields() {
    with_frame(|fli, frame| {
        let term = frame.term(fli).unwrap();
        put_text(fli, term, "wrong{value: 1}").unwrap();
        match from_term::<_, RecursiveNode>(frame, fli, term) {
            Err(TermCodecError::DictTag { expected, actual }) => {
                assert_eq!(expected, "RecursiveNode");
                assert_eq!(actual.as_deref(), Some("wrong"));
            }
            _ => panic!("expected a wrong tag"),
        }
        put_text(fli, term, "_{value: 1}").unwrap();
        assert!(matches!(
            from_term::<_, RecursiveNode>(frame, fli, term),
            Err(TermCodecError::DictTag { actual: None, .. })
        ));
        put_text(fli, term, "'RecursiveNode'{next: 1}").unwrap();
        assert!(matches!(
            from_term::<_, RecursiveNode>(frame, fli, term),
            Err(TermCodecError::MissingField { field }) if field == "value"
        ));
        put_text(fli, term, "f(1)").unwrap();
        match compound_args(frame, fli, term, "g", 2) {
            Err(TermCodecError::Functor {
                expected_name,
                expected_arity,
                actual_name,
                actual_arity,
            }) => {
                assert_eq!((expected_name.as_str(), expected_arity), ("g", 2));
                assert_eq!((actual_name.as_str(), actual_arity), ("f", 1));
            }
            _ => panic!("expected a wrong functor"),
        }

        let value = frame.term(fli).unwrap();
        assert!(matches!(
            put_dict(
                frame,
                fli,
                term,
                "t",
                vec![(text("k"), value), (text("l"), value), (text("k"), value)]
            ),
            Err(TermCodecError::DuplicateField { field }) if field == "k"
        ));
    });
}

#[test]
fn a_pending_exception_surfaces_from_a_conversion() {
    with_frame(|fli, frame| {
        let term = frame.term(fli).unwrap();
        fli.answer(Verdict::Raise(PrologException(text("no room"))));
        assert_eq!(
            to_term(frame, fli, term, &vec![1_i64]),
            Err(TermCodecError::Term(TermError::Exception(PrologException(text("no room")))))
        );
        assert_eq!(to_term(frame, fli, term, &vec![1_i64]), Ok(()));
        assert_eq!(from_term::<_, Vec<i64>>(frame, fli, term), Ok(vec![1]));
    });
}

#[test]
fn a_tag_picks_the_first_variant_with_its_name() {
    assert_eq!(pick_variant(&["a", "b", "a"], "a").unwrap(), 0);
    assert_eq!(pick_variant(&["a", "b"], "b").unwrap(), 1);
    assert!(matches!(
        pick_variant(&["a", "b"], "c"),
        Err(TermCodecError::UnknownVariant { variant }) if variant == "c"
    ));
    with_frame(|fli, frame| {
        let name = frame.term(fli).unwrap();
        name.put_string(fli, "Leaf").unwrap();
        let mut fields = vec![("kind".to_owned(), name)];
        let picked = tagged_variant(fli, &mut fields, "kind", &["Branch", "Leaf"]);
        assert_eq!(picked.unwrap(), 1);
        assert!(fields.is_empty());
        assert!(matches!(
            tagged_variant(fli, &mut fields, "kind", &["Branch", "Leaf"]),
            Err(TermCodecError::MissingField { field }) if field == "kind"
        ));
        let mut fields = vec![("kind".to_owned(), name)];
        assert!(matches!(
            tagged_variant(fli, &mut fields, "kind", &["Branch"]),
            Err(TermCodecError::UnknownVariant { variant }) if variant == "Leaf"
        ));
    });
}

#[test]
fn the_first_variant_that_decodes_is_chosen() {
    let failed = || Err(TermCodecError::OptionOutsideField);
    let choice = Choice::new();
    assert!(choice.is_open());
    let choice = choice.tried(untagged_attempt(failed()));
    assert!(choice.is_open());
    let choice = choice.tried(untagged_attempt(Ok(2)));
    assert!(!choice.is_open());
    let choice = choice.tried(untagged_attempt(Ok(3)));
    assert!(matches!(choice.outcome(), Some(Ok(2))));

    let none: Choice<i64> = Choice::new();
    assert!(none.tried(untagged_attempt(failed())).outcome().is_none());
    let refused: Choice<i64> = Choice::new();
    assert!(matches!(
        refused.tried(Some(failed())).tried(Some(Ok(1))).outcome(),
        Some(Err(TermCodecError::OptionOutsideField))
    ));
}

#[test]
fn tuples_report_how_many_elements_were_found() {
    with_frame(|fli, frame| {
        let term = frame.term(fli).unwrap();
        to_term(frame, fli, term, &vec![1i64]).unwrap();
        assert!(matches!(
            from_term::<_, (i64, i64)>(frame, fli, term),
            Err(TermCodecError::ArityMismatch { expected: 2, actual: 1 })
        ));
        to_term(frame, fli, term, &vec![1i64, 2, 3, 4]).unwrap();
        assert!(matches!(
            from_term::<_, (i64, i64)>(frame, fli, term),
            Err(TermCodecError::ArityMismatch { expected: 2, actual: 4 })
        ));
    });
}

#[test]
fn a_pending_exception_stops_an_encoder_and_a_decoder() {
    with_frame(|fli, frame| {
        let term = frame.term(fli).unwrap();
        let raise = || Verdict::Raise(PrologException("late".to_owned()));
        fli.answer(raise());
        assert!(matches!(
            to_term(frame, fli, term, &vec![1i64]),
            Err(TermCodecError::Term(TermError::Exception(e))) if e.0 == "late"
        ));
        to_term(frame, fli, term, &5i64).unwrap();
        fli.answer(raise());
        assert!(matches!(
            from_term::<_, i64>(frame, fli, term),
            Err(TermCodecError::Term(TermError::Exception(e))) if e.0 == "late"
        ));
        assert_eq!(from_term::<_, i64>(frame, fli, term).unwrap(), 5);
        let mut fields = Vec::new();
        fli.answer(raise());
        assert!(matches!(
            put_field(frame, fli, &mut fields, "a", &1i64),
            Err(TermCodecError::Term(TermError::Exception(e))) if e.0 == "late"
        ));
        assert!(fields.is_empty());
    });
}

/// What the engine makes of a term's bytes, which are its text here.
fn decoded(fli: &mut Fli, record: &ExternalRecord) -> TermData {
    let mut reader = Reader {
        text: record.as_bytes(),
        at: 0,
        names: Vec::new(),
    };
    reader.term(fli).unwrap()
}

/// Shows what a record holds.
fn recalled(fli: &mut Fli, frame: &Frame<'_>, record: &ExternalRecord) -> String {
    let data = decoded(fli, record);
    let term = record.recall(frame, fli, data).unwrap();
    show(fli, fli.held(term.as_raw()))
}

/// A record whose bytes come from, and go to, the stand-in for the engine.
#[derive(Debug, PartialEq)]
struct Stored(ExternalRecord);

impl ToTerm for Stored {
    fn to_term<Ctx: FliContext>(
        &self,
        ctx: &Ctx,
        fli: &mut Fli,
        dest: Term<'_>,
    ) -> Result<(), TermCodecError> {
        let _ = ctx;
        let data = decoded(fli, &self.0);
        external_to_term(&self.0, fli, dest, data)
    }

    fn __to_field<Ctx: FliContext>(
        &self,
        ctx: &Ctx,
        fli: &mut Fli,
        dest: Term<'_>,
    ) -> Result<bool, TermCodecError> {
        self.to_term(ctx, fli, dest).map(|()| true)
    }
}

impl FromTerm for Stored {
    fn from_term<Ctx: FliContext>(
        ctx: &Ctx,
        fli: &mut Fli,
        term: Term<'_>,
    ) -> Result<Self, TermCodecError> {
        let _ = ctx;
        let bytes = show(fli, fli.held(term.as_raw())).into_bytes();
        external_from_term(fli, term, bytes).map(Stored)
    }

    fn __from_field<Ctx: FliContext>(
        ctx: &Ctx,
        fli: &mut Fli,
        term: Option<Term<'_>>,
        name: &str,
    ) -> Result<Self, TermCodecError> {
        required(ctx, fli, term, name)
    }
}

struct Details {
    display_name: String,
    count: Option<i64>,
}

struct Envelope {
    id: u64,
    details: Details,
    payload: Stored,
    priority: i64,
}

fn default_priority() -> i64 {
    11
}

impl ToTerm for Envelope {
    fn to_term<Ctx: FliContext>(
        &self,
        ctx: &Ctx,
        fli: &mut Fli,
        dest: Term<'_>,
    ) -> Result<(), TermCodecError> {
        let mut fields = Vec::new();
        put_field(ctx, fli, &mut fields, "id", &self.id)?;
        put_field(ctx, fli, &mut fields, "display_name", &self.details.display_name)?;
        put_field(ctx, fli, &mut fields, "count", &self.details.count)?;
        put_field(ctx, fli, &mut fields, "payload", &self.payload)?;
        put_field(ctx, fli, &mut fields, "priority", &self.priority)?;
        put_dict(ctx, fli, dest, "Envelope", fields)
    }

    fn __to_field<Ctx: FliContext>(
        &self,
        ctx: &Ctx,
        fli: &mut Fli,
        dest: Term<'_>,
    ) -> Result<bool, TermCodecError> {
        self.to_term(ctx, fli, dest).map(|()| true)
    }
}

impl FromTerm for Envelope {
    fn from_term<Ctx: FliContext>(
        ctx: &Ctx,
        fli: &mut Fli,
        term: Term<'_>,
    ) -> Result<Self, TermCodecError> {
        require_dict_tag(ctx, fli, term, "Envelope")?;
        let mut fields = dict_fields(ctx, fli, term)?;
        Ok(Envelope {
            id: read_field(ctx, fli, &mut fields, "id")?,
            details: Details {
                display_name: read_field(ctx, fli, &mut fields, "display_name")?,
                count: read_field(ctx, fli, &mut fields, "count")?,
            },
            payload: read_field(ctx, fli, &mut fields, "payload")?,
            priority: read_field_if_there(ctx, fli, &mut fields, "priority")?
                .unwrap_or_else(default_priority),
        })
    }

    fn __from_field<Ctx: FliContext>(
        ctx: &Ctx,
        fli: &mut Fli,
        term: Option<Term<'_>>,
        name: &str,
    ) -> Result<Self, TermCodecError> {
        required(ctx, fli, term, name)
    }
}

#[test]
fn structs_flatten_and_capture_an_ordinary_term_losslessly() {
    with_frame(|fli, frame| {
        let source = frame.term(fli).unwrap();
        put_text(
            fli,
            source,
            "'Envelope'{id: 7, display_name: \"hello\", payload: foo(X, X)}",
        )
        .unwrap();

        let decoded: Envelope = from_term(frame, fli, source).unwrap();
        assert_eq!(decoded.id, 7);
        assert_eq!(decoded.details.display_name, "hello");
        assert_eq!(decoded.details.count, None);
        assert_eq!(decoded.priority, 11);

        let dest = frame.term(fli).unwrap();
        to_term(frame, fli, dest, &decoded).unwrap();
        assert_eq!(dest.kind(fli), TermKind::Dict);
        let fields = dest.dict_entries(frame, fli).unwrap();
        let payload = fields
            .into_iter()
            .find_map(|(key, value)| match key {
                DictKey::Atom(atom) if atom.text() == "payload" => Some(value),
                _ => None,
            })
            .unwrap();
        assert!(show(fli, fli.held(payload.as_raw())).starts_with("foo("));
        let first = payload.get_arg(frame, fli, 0).unwrap();
        let second = payload.get_arg(frame, fli, 1).unwrap();
        let nine = frame.term(fli).unwrap();
        nine.put_i64(fli, 9).unwrap();
        let variable = match fli.value(first.as_raw()) {
            TermData::Var(id) => *id,
            _ => panic!("the argument is a variable"),
        };
        let outcome = Unification {
            unified: true,
            bindings: vec![(variable, TermData::Integer(9))],
        };
        assert!(first.unify(fli, nine, outcome).unwrap());
        assert_eq!(second.get_i64(fli).unwrap(), 9, "variable sharing was lost");
    });
}

enum KnownOrOpaque {
    Number(i64),
    Pair(i64, String),
    Opaque(Stored),
}

impl ToTerm for KnownOrOpaque {
    fn to_term<Ctx: FliContext>(
        &self,
        ctx: &Ctx,
        fli: &mut Fli,
        dest: Term<'_>,
    ) -> Result<(), TermCodecError> {
        match self {
            KnownOrOpaque::Number(number) => number.to_term(ctx, fli, dest),
            KnownOrOpaque::Pair(number, text) => {
                (*number, text.clone()).to_term(ctx, fli, dest)
            }
            KnownOrOpaque::Opaque(stored) => stored.to_term(ctx, fli, dest),
        }
    }

    fn __to_field<Ctx: FliContext>(
        &self,
        ctx: &Ctx,
        fli: &mut Fli,
        dest: Term<'_>,
    ) -> Result<bool, TermCodecError> {
        self.to_term(ctx, fli, dest).map(|()| true)
    }
}

impl FromTerm for KnownOrOpaque {
    fn from_term<Ctx: FliContext>(
        ctx: &Ctx,
        fli: &mut Fli,
        term: Term<'_>,
    ) -> Result<Self, TermCodecError> {
        let mut choice = Choice::new();
        choice = choice.tried(untagged_attempt(
            i64::from_term(ctx, fli, term).map(KnownOrOpaque::Number),
        ));
        if choice.is_open() {
            choice = choice.tried(untagged_attempt((|| {
                let args = read_listed(ctx, fli, term, 2)?;
                Ok(KnownOrOpaque::Pair(
                    i64::from_term(ctx, fli, args[0])?,
                    String::from_term(ctx, fli, args[1])?,
                ))
            })()));
        }
        if choice.is_open() {
            choice = choice.tried(untagged_attempt(
                Stored::from_term(ctx, fli, term).map(KnownOrOpaque::Opaque),
            ));
        }
        match choice.outcome() {
            Some(decided) => decided,
            None => Err(unknown_variant(ctx, fli, term)),
        }
    }

    fn __from_field<Ctx: FliContext>(
        ctx: &Ctx,
        fli: &mut Fli,
        term: Option<Term<'_>>,
        name: &str,
    ) -> Result<Self, TermCodecError> {
        required(ctx, fli, term, name)
    }
}

#[test]
fn untagged_external_record_is_a_lossless_catch_all() {
    with_frame(|fli, frame| {
        let number = frame.term(fli).unwrap();
        number.put_i64(fli, 4).unwrap();
        assert!(matches!(
            from_term(frame, fli, number).unwrap(),
            KnownOrOpaque::Number(4)
        ));

        let pair = frame.term(fli).unwrap();
        let value = KnownOrOpaque::Pair(3, "three".to_owned());
        to_term(frame, fli, pair, &value).unwrap();
        assert_eq!(pair.kind(fli), TermKind::ListPair);
        assert!(matches!(
            from_term(frame, fli, pair).unwrap(),
            KnownOrOpaque::Pair(3, text) if text == "three"
        ));

        let compound = frame.term(fli).unwrap();
        put_text(fli, compound, "unknown(a, 1r3)").unwrap();
        let KnownOrOpaque::Opaque(record) = from_term(frame, fli, compound).unwrap() else {
            panic!("opaque variant did not match");
        };
        assert_eq!(recalled(fli, frame, &record.0), "unknown(a,1r3)");
    });
}

#[derive(Debug, PartialEq)]
enum Node {
    Leaf { value: i64 },
}

impl ToTerm for Node {
    fn to_term<Ctx: FliContext>(
        &self,
        ctx: &Ctx,
        fli: &mut Fli,
        dest: Term<'_>,
    ) -> Result<(), TermCodecError> {
        match self {
            Node::Leaf { value } => {
                let mut fields = Vec::new();
                put_field(ctx, fli, &mut fields, "value", value)?;
                put_tagged(ctx, fli, dest, "kind", "Leaf", fields)
            }
        }
    }

    fn __to_field<Ctx: FliContext>(
        &self,
        ctx: &Ctx,
        fli: &mut Fli,
        dest: Term<'_>,
    ) -> Result<bool, TermCodecError> {
        self.to_term(ctx, fli, dest).map(|()| true)
    }
}

impl FromTerm for Node {
    fn from_term<Ctx: FliContext>(
        ctx: &Ctx,
        fli: &mut Fli,
        term: Term<'_>,
    ) -> Result<Self, TermCodecError> {
        let mut fields = dict_fields(ctx, fli, term)?;
        tagged_variant(fli, &mut fields, "kind", &["Leaf"])?;
        Ok(Node::Leaf {
            value: read_field(ctx, fli, &mut fields, "value")?,
        })
    }

    fn __from_field<Ctx: FliContext>(
        ctx: &Ctx,
        fli: &mut Fli,
        term: Option<Term<'_>>,
        name: &str,
    ) -> Result<Self, TermCodecError> {
        required(ctx, fli, term, name)
    }
}

#[derive(Debug, PartialEq)]
enum Notice {
    Stop,
    Value(Stored),
    Named { value: i64 },
}

impl ToTerm for Notice {
    fn to_term<Ctx: FliContext>(
        &self,
        ctx: &Ctx,
        fli: &mut Fli,
        dest: Term<'_>,
    ) -> Result<(), TermCodecError> {
        let mut entries = Vec::new();
        let wire = match self {
            Notice::Stop => "Stop",
            Notice::Value(stored) => {
                put_field(ctx, fli, &mut entries, "data", stored)?;
                "Value"
            }
            Notice::Named { value } => {
                let mut fields = Vec::new();
                put_field(ctx, fli, &mut fields, "value", value)?;
                let payload = term_result(ctx.term(fli))?;
                put_dict(ctx, fli, payload, "#", fields)?;
                entries.push(("data".to_owned(), payload));
                "Named"
            }
        };
        put_tagged(ctx, fli, dest, "kind", wire, entries)
    }

    fn __to_field<Ctx: FliContext>(
        &self,
        ctx: &Ctx,
        fli: &mut Fli,
        dest: Term<'_>,
    ) -> Result<bool, TermCodecError> {
        self.to_term(ctx, fli, dest).map(|()| true)
    }
}

impl FromTerm for Notice {
    fn from_term<Ctx: FliContext>(
        ctx: &Ctx,
        fli: &mut Fli,
        term: Term<'_>,
    ) -> Result<Self, TermCodecError> {
        let mut fields = dict_fields(ctx, fli, term)?;
        match tagged_variant(fli, &mut fields, "kind", &["Stop", "Value", "Named"])? {
            0 => Ok(Notice::Stop),
            1 => {
                let content = take_content(fli, &mut fields, "data")?;
                Ok(Notice::Value(Stored::from_term(ctx, fli, content)?))
            }
            _ => {
                let content = take_content(fli, &mut fields, "data")?;
                let mut payload = dict_fields(ctx, fli, content)?;
                Ok(Notice::Named {
                    value: read_field(ctx, fli, &mut payload, "value")?,
                })
            }
        }
    }

    fn __from_field<Ctx: FliContext>(
        ctx: &Ctx,
        fli: &mut Fli,
        term: Option<Term<'_>>,
        name: &str,
    ) -> Result<Self, TermCodecError> {
        required(ctx, fli, term, name)
    }
}

#[test]
fn tagged_enums_round_trip_without_buffering_payloads() {
    with_frame(|fli, frame| {
        assert_eq!(
            round_trip(frame, fli, &Node::Leaf { value: 3 }),
            Node::Leaf { value: 3 }
        );
        let payload = frame.term(fli).unwrap();
        put_text(fli, payload, "kept(X, X)").unwrap();
        let bytes = show(fli, fli.held(payload.as_raw())).into_bytes();
        let event = Notice::Value(Stored(payload.record_external(fli, bytes).unwrap()));
        let decoded = round_trip(frame, fli, &event);
        let Notice::Value(record) = decoded else {
            panic!("wrong variant")
        };
        assert!(recalled(fli, frame, &record.0).starts_with("kept("));
        assert_eq!(
            round_trip(frame, fli, &Notice::Named { value: 8 }),
            Notice::Named { value: 8 }
        );
        assert_eq!(round_trip(frame, fli, &Notice::Stop), Notice::Stop);
    });
}

#[test]
fn fields_stand_in_the_order_of_their_names() {
    with_frame(|fli, frame| {
        let term = frame.term(fli).unwrap();
        put_text(fli, term, "_{9: 1, 10: 2, b: 3, a: 4}").unwrap();
        let fields = dict_fields(frame, fli, term).unwrap();
        let names: Vec<&str> = fields.iter().map(|(name, _)| name.as_str()).collect();
        assert_eq!(names, ["10", "9", "a", "b"]);
    });
}

/// An entry whose value is absent is left out, and a value that is there is
/// read as present.
#[test]
fn maps_leave_out_absent_values() {
    with_frame(|fli, frame| {
        let mut map: TermMap<String, Option<i64>> = TermMap::new();
        map.insert(text("there"), Some(4));
        map.insert(text("gone"), None);
        let term = fresh(frame, fli, &map).unwrap();
        assert_eq!(show(fli, fli.held(term.as_raw())), "#{there:4}");
        let back: TermMap<String, Option<i64>> = from_term(frame, fli, term).unwrap();
        assert_eq!(back.entries(), &vec![(text("there"), Some(4))]);
    });
}
