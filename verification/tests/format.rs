use splint::data::{KeyData, TermData};
use splint::engine::EngineStatus;
use splint::exception::Verdict;
use splint::format::de::{
    args_sequence, CompoundValue, DictKeyDeserializer, KeyVisit, MapDeserializer,
    TermDeserializer, Visit,
};
use splint::format::ser::{ArgsSerializer, MapKeySerializer, TermSerializer};
use splint::format::Error;
use splint::runtime::RuntimeState;
use splint::{
    AttachedEngine, Engine, Fli, FliContext, Frame, PrologException, Runtime, Term, TermError,
    TermKind,
};

fn runtime() -> Runtime {
    let mut state = RuntimeState::Uninitialized;
    Runtime::initialize(
        &mut state,
        &vec![b"splint-test".to_vec(), b"-q".to_vec()],
        |_| true,
    )
    .expect("runtime initialize failed")
}

/// Runs `body` with a fresh engine attached.
fn with_engine<R>(body: impl for<'a> FnOnce(&mut Fli, &'a AttachedEngine<'a>) -> R) -> R {
    let runtime = runtime();
    let mut fli = Fli::new();
    let mut engine = Engine::new(&runtime, true).expect("engine create failed");
    engine
        .with_attached(&mut fli, 1, EngineStatus::Current, body)
        .expect("attach failed")
}

/// Runs `body` in a frame of a fresh engine.
fn with_frame<R>(body: impl for<'a> FnOnce(&mut Fli, &'a Frame<'a>) -> R) -> R {
    with_engine(|fli, ctx| ctx.with_frame(fli, body).unwrap())
}

/// Reads the syntax of terms, as far as the tests below need it.
struct Reader<'a> {
    text: &'a [u8],
    at: usize,
    names: Vec<(String, usize)>,
}

impl Reader<'_> {
    fn peek(&mut self) -> u8 {
        while self.at < self.text.len() && self.text[self.at] == b' ' {
            self.at += 1;
        }
        if self.at < self.text.len() {
            self.text[self.at]
        } else {
            0
        }
    }

    fn take(&mut self, wanted: u8) -> Option<()> {
        if self.peek() == wanted {
            self.at += 1;
            Some(())
        } else {
            None
        }
    }

    fn word(&mut self) -> String {
        let start = self.at;
        while self.at < self.text.len()
            && (self.text[self.at].is_ascii_alphanumeric() || self.text[self.at] == b'_')
        {
            self.at += 1;
        }
        String::from_utf8(self.text[start..self.at].to_vec()).unwrap()
    }

    fn quoted(&mut self, quote: u8) -> Option<String> {
        let start = self.at;
        while self.at < self.text.len() && self.text[self.at] != quote {
            self.at += 1;
        }
        let inner = String::from_utf8(self.text[start..self.at].to_vec()).unwrap();
        self.take(quote)?;
        Some(inner)
    }

    fn variable(&mut self, fli: &mut Fli, name: String) -> TermData {
        if name != "_" {
            for (known, id) in &self.names {
                if *known == name {
                    return TermData::Var(*id);
                }
            }
        }
        let id = fli.new_var();
        self.names.push((name, id));
        TermData::Var(id)
    }

    fn items(&mut self, fli: &mut Fli, end: u8) -> Option<Vec<TermData>> {
        let mut items = vec![self.term(fli)?];
        while self.take(b',').is_some() {
            items.push(self.term(fli)?);
        }
        self.take(end)?;
        Some(items)
    }

    fn entries(&mut self, fli: &mut Fli) -> Option<Vec<(KeyData, TermData)>> {
        let mut entries = Vec::new();
        if self.take(b'}').is_some() {
            return Some(entries);
        }
        loop {
            self.peek();
            let key = self.word();
            self.take(b':')?;
            let value = self.term(fli)?;
            entries.push(match key.parse::<i64>() {
                Ok(number) => (KeyData::Int(number), value),
                Err(_) => (KeyData::Atom(key), value),
            });
            if self.take(b'}').is_some() {
                return Some(entries);
            }
            self.take(b',')?;
        }
    }

    fn primary(&mut self, fli: &mut Fli) -> Option<TermData> {
        let first = self.peek();
        let atom = match first {
            b'"' => {
                self.at += 1;
                return Some(TermData::String(self.quoted(b'"')?));
            }
            b'[' => {
                self.at += 1;
                if self.take(b']').is_some() {
                    return Some(TermData::Nil);
                }
                let mut items = vec![self.term(fli)?];
                while self.take(b',').is_some() {
                    items.push(self.term(fli)?);
                }
                let mut list = if self.take(b'|').is_some() {
                    self.term(fli)?
                } else {
                    TermData::Nil
                };
                self.take(b']')?;
                while let Some(item) = items.pop() {
                    list = TermData::Pair(Box::new(item), Box::new(list));
                }
                return Some(list);
            }
            b'\'' => {
                self.at += 1;
                TermData::Atom(self.quoted(b'\'')?)
            }
            b'-' | b'0'..=b'9' => {
                let negative = self.take(b'-').is_some();
                let digits = self.word();
                if digits.contains('r') {
                    return Some(TermData::Rational(digits));
                }
                let value: i128 = digits.parse().ok()?;
                return Some(TermData::Integer(if negative { -value } else { value }));
            }
            b'_' | b'A'..=b'Z' => {
                let name = self.word();
                self.variable(fli, name)
            }
            b'a'..=b'z' => TermData::Atom(self.word()),
            _ => return None,
        };
        let open = if self.at < self.text.len() {
            self.text[self.at]
        } else {
            0
        };
        match (atom, open) {
            (TermData::Atom(name), b'(') => {
                self.at += 1;
                Some(TermData::Compound(name, self.items(fli, b')')?))
            }
            (tag, b'{') => {
                self.at += 1;
                Some(TermData::Dict(Box::new(tag), self.entries(fli)?))
            }
            (other, _) => Some(other),
        }
    }

    fn term(&mut self, fli: &mut Fli) -> Option<TermData> {
        let left = self.primary(fli)?;
        if self.take(b'+').is_some() {
            let right = self.term(fli)?;
            return Some(TermData::Compound("+".to_owned(), vec![left, right]));
        }
        Some(left)
    }
}

/// Parses a text into `term`, raising a syntax error where it is malformed.
fn put_text(fli: &mut Fli, term: Term<'_>, text: &str) -> Result<(), TermError> {
    let mut reader = Reader {
        text: text.as_bytes(),
        at: 0,
        names: Vec::new(),
    };
    let parsed = reader.term(fli);
    match parsed {
        Some(data) if reader.peek() == 0 => term.put_term_from_text(fli, data),
        _ => {
            fli.answer(Verdict::Raise(PrologException(
                "error(syntax_error(cannot_start_term),_)".to_owned(),
            )));
            term.put_term_from_text(fli, TermData::Nil)
        }
    }
}

/// Writes terms the way `writeq/1` does, as far as the tests below need it.
fn show(fli: &Fli, data: &TermData) -> String {
    let atom = |name: &String| {
        let plain = name.starts_with(|c: char| c.is_ascii_lowercase())
            && name.chars().all(|c| c.is_ascii_alphanumeric() || c == '_');
        if plain || name == "#" {
            name.clone()
        } else {
            format!("'{name}'")
        }
    };
    match fli.resolved(data).0 {
        TermData::Var(id) => format!("_{id}"),
        TermData::Atom(name) => atom(name),
        TermData::Integer(value) => value.to_string(),
        TermData::BigInteger(digits) => digits.clone(),
        TermData::Rational(text) | TermData::Float(_, text) | TermData::Blob(text) => text.clone(),
        TermData::String(text) => format!("{text:?}"),
        TermData::Nil => "[]".to_owned(),
        TermData::Pair(head, tail) => format!("[{}|{}]", show(fli, head), show(fli, tail)),
        TermData::Compound(name, args) => {
            let shown: Vec<String> = args.iter().map(|arg| show(fli, arg)).collect();
            format!("{}({})", atom(name), shown.join(","))
        }
        TermData::Dict(tag, entries) => {
            let shown: Vec<String> = entries
                .iter()
                .map(|(key, value)| {
                    let key = match key {
                        KeyData::Atom(name) => atom(name),
                        KeyData::Int(number) => number.to_string(),
                    };
                    format!("{key}:{}", show(fli, value))
                })
                .collect();
            format!("{}{{{}}}", show(fli, tag), shown.join(","))
        }
    }
}

/// Renders a term.
fn render(fli: &mut Fli, term: Term<'_>) -> String {
    let text = show(fli, fli.held(term.as_raw()));
    term.write_to_string(fli, Some(text)).unwrap()
}

/// A value of the data model.
enum Value {
    Bool(bool),
    I8(i8),
    I64(i64),
    U64(u64),
    Float(f64),
    Char(char),
    Text(&'static str),
    Bytes(Vec<u8>),
    Absent,
    Present(Box<Value>),
    Unit,
    UnitStruct,
    UnitVariant(&'static str),
    NewtypeVariant(&'static str, Box<Value>),
    Sequence(Vec<Value>),
    TupleStruct(&'static str, usize, Vec<Value>),
    Struct(&'static str, Vec<(&'static str, Value)>),
    Entries(Vec<(Value, Value)>),
}

fn put<C: FliContext>(
    fli: &mut Fli,
    serializer: TermSerializer<'_, '_, C>,
    value: &Value,
) -> Result<bool, Error> {
    match value {
        Value::Bool(value) => serializer.serialize_bool(fli, *value),
        Value::I8(value) => serializer.serialize_i8(fli, *value),
        Value::I64(value) => serializer.serialize_i64(fli, *value),
        Value::U64(value) => serializer.serialize_u64(fli, *value),
        Value::Float(value) => {
            serializer.serialize_float(fli, value.to_bits(), &format!("{value:?}"))
        }
        Value::Char(value) => serializer.serialize_char(fli, *value),
        Value::Text(text) => serializer.serialize_str(fli, text),
        Value::Bytes(bytes) => serializer.serialize_bytes(fli, bytes),
        Value::Absent => serializer.serialize_none(),
        Value::Present(inner) => {
            let serializer = serializer.serialize_some()?;
            put(fli, serializer, inner)
        }
        Value::Unit => serializer.serialize_unit(),
        Value::UnitStruct => serializer.serialize_unit_struct(),
        Value::UnitVariant(variant) => serializer.serialize_unit_variant(fli, variant),
        Value::NewtypeVariant(variant, inner) => {
            let mut compound = serializer.serialize_newtype_variant(fli, variant)?;
            let slot = compound.field().unwrap();
            put(fli, slot, inner)?;
            compound.push();
            compound.end(fli)
        }
        Value::Sequence(items) => {
            let mut list = serializer.serialize_seq();
            for item in items {
                let child = list.element(fli)?;
                let term = child.term;
                put(fli, child, item)?;
                list.push(term);
            }
            list.end(fli)
        }
        Value::TupleStruct(name, len, items) => {
            let mut compound = serializer.serialize_tuple_struct(fli, name, *len)?;
            for item in items {
                let slot = compound.field().unwrap();
                put(fli, slot, item)?;
                compound.push();
            }
            compound.end(fli)
        }
        Value::Struct(name, fields) => {
            let mut dict = serializer.serialize_struct(name);
            for (key, value) in fields {
                let child = dict.value(fli)?;
                let term = child.term;
                let present = put(fli, child, value)?;
                dict.insert((*key).to_owned(), term, present);
            }
            dict.end(fli)
        }
        Value::Entries(entries) => {
            let mut dict = serializer.serialize_map();
            for (key, value) in entries {
                dict.serialize_key(key_text(key)?)?;
                let key = dict.serialize_value()?;
                let child = dict.value(fli)?;
                let term = child.term;
                let present = put(fli, child, value)?;
                dict.insert(key, term, present);
            }
            dict.end(fli)
        }
    }
}

fn key_text(key: &Value) -> Result<String, Error> {
    match key {
        Value::Bool(value) => Ok(MapKeySerializer.serialize_bool(*value)),
        Value::I64(value) => Ok(MapKeySerializer.serialize_i64(*value)),
        Value::U64(value) => Ok(MapKeySerializer.serialize_u64(*value)),
        Value::Char(value) => Ok(MapKeySerializer.serialize_char(*value)),
        Value::Text(text) => Ok(MapKeySerializer.serialize_str(text)),
        Value::UnitVariant(variant) => Ok(MapKeySerializer.serialize_unit_variant(variant)),
        _ => Err(MapKeySerializer::unsupported()),
    }
}

/// Serializes a value into a fresh term.
fn written<'a, C: FliContext>(fli: &mut Fli, ctx: &'a C, value: &Value) -> Term<'a> {
    let term = ctx.term(fli).unwrap();
    assert!(put(fli, TermSerializer::new(ctx, term), value).unwrap());
    term
}

fn write_error<C: FliContext>(fli: &mut Fli, ctx: &C, value: &Value) -> Error {
    let term = ctx.term(fli).unwrap();
    put(fli, TermSerializer::new(ctx, term), value).unwrap_err()
}

fn get<'a, C: FliContext>(ctx: &'a C, term: Term<'a>) -> TermDeserializer<'a, 'a, C> {
    TermDeserializer::new(ctx, term)
}

fn text_of<C: FliContext>(visit: Result<Visit<'_, '_, C>, Error>) -> String {
    match visit {
        Ok(Visit::Text(text)) => text,
        _ => panic!("expected a text"),
    }
}

fn i64_of<C: FliContext>(visit: Result<Visit<'_, '_, C>, Error>) -> i64 {
    match visit {
        Ok(Visit::I64(value)) => value,
        _ => panic!("expected a signed integer"),
    }
}

/// Reads a list of signed integers.
fn integers<C: FliContext>(fli: &mut Fli, ctx: &C, term: Term<'_>) -> Vec<i64> {
    match TermDeserializer::new(ctx, term).deserialize_seq(fli) {
        Ok(Visit::Sequence(mut items)) => {
            let mut read = Vec::new();
            while let Some(item) = items.next_element() {
                read.push(i64_of(item.deserialize_i64(fli)));
            }
            read
        }
        _ => panic!("expected a sequence"),
    }
}

/// Reads the entries of a dict of signed integers.
fn fields<C: FliContext>(fli: &mut Fli, map: MapDeserializer<'_, C>) -> Vec<(String, i64)> {
    let mut map = map;
    let mut read = Vec::new();
    while let Some(key) = map.next_key().unwrap() {
        let value = map.next_value().unwrap();
        read.push((key.deserialize_string(), i64_of(value.deserialize_i64(fli))));
    }
    read
}

fn error_of<C: FliContext>(visit: Result<Visit<'_, '_, C>, Error>) -> Error {
    match visit {
        Ok(_) => panic!("expected an error"),
        Err(error) => error,
    }
}

#[test]
fn scalars_round_trip() {
    with_frame(|fli, frame| {
        for value in [true, false] {
            let term = written(fli, frame, &Value::Bool(value));
            assert!(matches!(get(frame, term).deserialize_bool(fli), Ok(Visit::Bool(v)) if v == value));
        }
        let term = written(fli, frame, &Value::I8(42));
        assert_eq!(i64_of(get(frame, term).deserialize_i64(fli)), 42);
        for value in [i64::MIN, i64::MAX] {
            let term = written(fli, frame, &Value::I64(value));
            assert_eq!(i64_of(get(frame, term).deserialize_i64(fli)), value);
        }
        let term = written(fli, frame, &Value::U64(u64::MAX));
        assert!(matches!(get(frame, term).deserialize_u64(fli), Ok(Visit::U64(u64::MAX))));
        let term = written(fli, frame, &Value::Float(1.5));
        assert!(
            matches!(get(frame, term).deserialize_float(fli, None), Ok(Visit::Float(b)) if f64::from_bits(b) == 1.5)
        );
        let term = written(fli, frame, &Value::Char('q'));
        assert_eq!(text_of(get(frame, term).deserialize_char(fli)), "q");
        let term = written(fli, frame, &Value::Text("hello"));
        assert_eq!(text_of(get(frame, term).deserialize_string(fli)), "hello");
    });
}

#[test]
fn strings_serialize_as_prolog_strings_and_read_atoms_too() {
    with_frame(|fli, frame| {
        let term = written(fli, frame, &Value::Text("hello"));
        assert_eq!(term.kind(fli), TermKind::String);

        let atom = frame.term(fli).unwrap();
        atom.put_atom_text(fli, "world").unwrap();
        assert_eq!(text_of(get(frame, atom).deserialize_string(fli)), "world");
    });
}

#[test]
fn booleans_read_back_from_atoms() {
    with_frame(|fli, frame| {
        let term = frame.term(fli).unwrap();
        term.put_atom_text(fli, "true").unwrap();
        assert!(matches!(get(frame, term).deserialize_bool(fli), Ok(Visit::Bool(true))));
    });
}

#[test]
fn sequences_and_tuples_round_trip_as_lists() {
    with_frame(|fli, frame| {
        let empty = written(fli, frame, &Value::Sequence(Vec::new()));
        assert_eq!(integers(fli, frame, empty), Vec::<i64>::new());
        assert_eq!(empty.kind(fli), TermKind::Nil);

        let numbers = |values: &[i64]| Value::Sequence(values.iter().map(|v| Value::I64(*v)).collect());
        let term = written(fli, frame, &numbers(&[1, 2, 3]));
        assert_eq!(integers(fli, frame, term), [1, 2, 3]);
        let term = written(fli, frame, &numbers(&[7, 8, 9]));
        assert_eq!(integers(fli, frame, term), [7, 8, 9]);

        let term = written(
            fli,
            frame,
            &Value::Sequence(vec![Value::I64(1), Value::Text("two"), Value::Bool(true)]),
        );
        match get(frame, term).deserialize_seq(fli) {
            Ok(Visit::Sequence(mut items)) => {
                assert_eq!(items.size_hint(), 3);
                assert_eq!(i64_of(items.next_element().unwrap().deserialize_i64(fli)), 1);
                assert_eq!(text_of(items.next_element().unwrap().deserialize_string(fli)), "two");
                assert!(matches!(
                    items.next_element().unwrap().deserialize_bool(fli),
                    Ok(Visit::Bool(true))
                ));
                assert!(items.next_element().is_none());
            }
            _ => panic!("expected a sequence"),
        }

        let nested = written(
            fli,
            frame,
            &Value::Sequence(vec![numbers(&[1]), numbers(&[2, 3])]),
        );
        match get(frame, nested).deserialize_seq(fli) {
            Ok(Visit::Sequence(mut items)) => {
                let first = items.next_element().unwrap().term;
                assert_eq!(integers(fli, frame, first), [1]);
                let second = items.next_element().unwrap().term;
                assert_eq!(integers(fli, frame, second), [2, 3]);
            }
            _ => panic!("expected a sequence"),
        }
    });
}

#[test]
fn bytes_round_trip_as_integer_lists() {
    with_frame(|fli, frame| {
        let term = written(fli, frame, &Value::Bytes(vec![0, 127, 255]));
        assert!(
            matches!(get(frame, term).deserialize_bytes(fli), Ok(Visit::Bytes(b)) if b == [0, 127, 255])
        );

        let term = frame.term(fli).unwrap();
        put_text(fli, term, "[1, 300]").unwrap();
        let error = error_of(get(frame, term).deserialize_bytes(fli));
        assert!(matches!(error, Error::ByteRange { value: 300 }));
    });
}

fn point(x: i64, y: i64) -> Value {
    Value::Struct("Point", vec![("x", Value::I64(x)), ("y", Value::I64(y))])
}

/// Reads a dict of signed integers with the given tag.
fn tagged<C: FliContext>(
    fli: &mut Fli,
    ctx: &C,
    term: Term<'_>,
    name: &str,
) -> Result<Vec<(String, i64)>, Error> {
    match TermDeserializer::new(ctx, term).deserialize_struct(fli, name) {
        Ok(Visit::Entries(map)) => Ok(fields(fli, map)),
        Ok(_) => panic!("expected entries"),
        Err(error) => Err(error),
    }
}

#[test]
fn structs_round_trip_as_tagged_dicts() {
    with_frame(|fli, frame| {
        let term = written(fli, frame, &point(1, -2));
        assert_eq!(
            tagged(fli, frame, term, "Point").unwrap(),
            [("x".to_owned(), 1), ("y".to_owned(), -2)]
        );
        assert_eq!(term.kind(fli), TermKind::Dict);
        let rendered = render(fli, term);
        assert!(rendered.contains("Point"), "missing tag in: {rendered}");

        let wrapper = written(
            fli,
            frame,
            &Value::Struct(
                "Wrapper",
                vec![
                    ("origin", point(3, 4)),
                    ("labels", Value::Sequence(vec![Value::Text("a"), Value::Text("b")])),
                ],
            ),
        );
        match get(frame, wrapper).deserialize_struct(fli, "Wrapper") {
            Ok(Visit::Entries(mut map)) => {
                assert_eq!(map.size_hint(), 2);
                assert_eq!(map.next_key().unwrap().unwrap().deserialize_string(), "labels");
                let labels = map.next_value().unwrap();
                match labels.deserialize_seq(fli) {
                    Ok(Visit::Sequence(mut items)) => {
                        assert_eq!(
                            text_of(items.next_element().unwrap().deserialize_string(fli)),
                            "a"
                        );
                        assert_eq!(
                            text_of(items.next_element().unwrap().deserialize_string(fli)),
                            "b"
                        );
                    }
                    _ => panic!("expected a sequence"),
                }
                assert_eq!(map.next_key().unwrap().unwrap().deserialize_string(), "origin");
                let origin = map.next_value().unwrap().term;
                assert_eq!(
                    tagged(fli, frame, origin, "Point").unwrap(),
                    [("x".to_owned(), 3), ("y".to_owned(), 4)]
                );
                assert!(map.next_key().unwrap().is_none());
            }
            _ => panic!("expected entries"),
        }
    });
}

#[test]
fn struct_deserialization_requires_the_matching_tag() {
    with_frame(|fli, frame| {
        let term = frame.term(fli).unwrap();
        put_text(fli, term, "wrong{x: 1, y: 2}").unwrap();
        let error = tagged(fli, frame, term, "Point").unwrap_err();
        assert!(matches!(
            &error,
            Error::DictTag { expected, actual: Some(actual) }
                if expected == "Point" && actual == "wrong"
        ));
    });
}

#[test]
fn optional_fields_are_omitted_when_absent() {
    with_frame(|fli, frame| {
        let term = written(
            fli,
            frame,
            &Value::Struct(
                "MaybePoint",
                vec![
                    ("x", Value::Present(Box::new(Value::I64(1)))),
                    ("y", Value::Absent),
                ],
            ),
        );
        assert_eq!(term.dict_entries(frame, fli).unwrap().len(), 1);
        match get(frame, term).deserialize_struct(fli, "MaybePoint") {
            Ok(Visit::Entries(mut map)) => {
                assert_eq!(map.next_key().unwrap().unwrap().deserialize_string(), "x");
                match map.next_value().unwrap().deserialize_option() {
                    Ok(Visit::Present(inner)) => {
                        assert_eq!(i64_of(inner.deserialize_i64(fli)), 1);
                    }
                    _ => panic!("expected a present value"),
                }
                assert!(map.next_key().unwrap().is_none());
            }
            _ => panic!("expected entries"),
        }

        // A unit-struct field is likewise always omitted.
        let with_marker = written(
            fli,
            frame,
            &Value::Struct(
                "HasMarker",
                vec![("marker", Value::UnitStruct), ("n", Value::I64(7))],
            ),
        );
        assert_eq!(with_marker.dict_entries(frame, fli).unwrap().len(), 1);
    });
}

#[test]
fn options_and_units_are_rejected_outside_dict_entries() {
    with_frame(|fli, frame| {
        assert!(matches!(
            write_error(fli, frame, &Value::Absent),
            Error::OptionOutsideDictEntry
        ));
        assert!(matches!(
            write_error(fli, frame, &Value::Present(Box::new(Value::I64(1)))),
            Error::OptionOutsideDictEntry
        ));
        assert!(matches!(
            write_error(fli, frame, &Value::Unit),
            Error::OptionOutsideDictEntry
        ));

        let term = frame.term(fli).unwrap();
        term.put_i64(fli, 1).unwrap();
        assert!(matches!(
            error_of(get(frame, term).deserialize_option()),
            Error::OptionOutsideDictEntry
        ));
    });
}

#[test]
fn enum_variants_round_trip_in_all_four_shapes() {
    with_frame(|fli, frame| {
        let unit = written(fli, frame, &Value::UnitVariant("Empty"));
        assert_eq!(unit.kind(fli), TermKind::Atom);
        match get(frame, unit).deserialize_enum(fli) {
            Ok(Visit::Variant(access)) => {
                assert_eq!(access.variant(), "Empty");
                assert!(access.unit_variant().is_ok());
            }
            _ => panic!("expected a variant"),
        }

        let zero = written(fli, frame, &Value::TupleStruct("Zero", 0, Vec::new()));
        match get(frame, zero).deserialize_enum(fli) {
            Ok(Visit::Variant(access)) => {
                assert_eq!(access.variant(), "Zero");
                assert_eq!(access.tuple_variant(fli, 0).unwrap().size_hint(), 0);
            }
            _ => panic!("expected a variant"),
        }

        let circle = written(
            fli,
            frame,
            &Value::NewtypeVariant("Circle", Box::new(Value::Float(2.5))),
        );
        match get(frame, circle).deserialize_enum(fli) {
            Ok(Visit::Variant(access)) => {
                assert_eq!(access.variant(), "Circle");
                let inner = access.newtype_variant(fli).unwrap();
                assert!(
                    matches!(inner.deserialize_float(fli, None), Ok(Visit::Float(b)) if f64::from_bits(b) == 2.5)
                );
            }
            _ => panic!("expected a variant"),
        }

        let compound = written(
            fli,
            frame,
            &Value::TupleStruct("Rect", 2, vec![Value::I64(3), Value::I64(4)]),
        );
        assert_eq!(compound.kind(fli), TermKind::Compound);
        assert_eq!(render(fli, compound), "'Rect'(3,4)");
        match get(frame, compound).deserialize_enum(fli) {
            Ok(Visit::Variant(access)) => {
                assert_eq!(access.variant(), "Rect");
                let mut items = access.tuple_variant(fli, 2).unwrap();
                assert_eq!(i64_of(items.next_element().unwrap().deserialize_i64(fli)), 3);
                assert_eq!(i64_of(items.next_element().unwrap().deserialize_i64(fli)), 4);
            }
            _ => panic!("expected a variant"),
        }

        let label = written(
            fli,
            frame,
            &Value::Struct("Label", vec![("text", Value::Text("hi")), ("size", Value::I64(12))]),
        );
        match get(frame, label).deserialize_enum(fli) {
            Ok(Visit::Variant(access)) => {
                assert_eq!(access.variant(), "Label");
                let mut map = access.struct_variant(fli).unwrap();
                assert_eq!(map.next_key().unwrap().unwrap().deserialize_string(), "size");
                assert_eq!(i64_of(map.next_value().unwrap().deserialize_i64(fli)), 12);
                assert_eq!(map.next_key().unwrap().unwrap().deserialize_string(), "text");
                assert_eq!(text_of(map.next_value().unwrap().deserialize_string(fli)), "hi");
            }
            _ => panic!("expected a variant"),
        }
    });
}

#[test]
fn variants_of_another_shape_are_rejected() {
    with_frame(|fli, frame| {
        let unit = written(fli, frame, &Value::UnitVariant("Empty"));
        let access = |fli: &mut Fli, term| match get(frame, term).deserialize_enum(fli) {
            Ok(Visit::Variant(access)) => access,
            _ => panic!("expected a variant"),
        };
        assert!(matches!(
            access(fli, unit).newtype_variant(fli),
            Err(Error::Type { expected: "newtype variant" })
        ));
        assert!(matches!(
            access(fli, unit).tuple_variant(fli, 2),
            Err(Error::Type { expected: "tuple variant" })
        ));
        assert!(matches!(
            access(fli, unit).struct_variant(fli),
            Err(Error::Type { expected: "struct variant" })
        ));
        let dict = written(fli, frame, &point(1, 2));
        assert!(matches!(
            access(fli, dict).unit_variant(),
            Err(Error::Type { expected: "unit variant" })
        ));
        let number = written(fli, frame, &Value::I64(1));
        assert!(matches!(
            error_of(get(frame, number).deserialize_enum(fli)),
            Error::Type { expected: "enum" }
        ));
        let untagged = frame.term(fli).unwrap();
        put_text(fli, untagged, "_{a: 1}").unwrap();
        assert!(matches!(
            error_of(get(frame, untagged).deserialize_enum(fli)),
            Error::DictTag { actual: None, .. }
        ));
    });
}

#[test]
fn tuple_structs_round_trip_as_compounds() {
    with_frame(|fli, frame| {
        let pair = written(
            fli,
            frame,
            &Value::TupleStruct("Pair", 2, vec![Value::I64(5), Value::Text("five")]),
        );
        match get(frame, pair).deserialize_tuple_struct(fli, "Pair", 2) {
            Ok(Visit::Sequence(mut items)) => {
                assert_eq!(i64_of(items.next_element().unwrap().deserialize_i64(fli)), 5);
                assert_eq!(
                    text_of(items.next_element().unwrap().deserialize_string(fli)),
                    "five"
                );
            }
            _ => panic!("expected a sequence"),
        }

        // A zero-field tuple struct is an atom, like a unit variant.
        let empty = written(fli, frame, &Value::TupleStruct("Nothing", 0, Vec::new()));
        assert_eq!(empty.kind(fli), TermKind::Atom);
        match get(frame, empty).deserialize_tuple_struct(fli, "Nothing", 0) {
            Ok(Visit::Sequence(items)) => assert_eq!(items.size_hint(), 0),
            _ => panic!("expected a sequence"),
        }

        let term = frame.term(fli).unwrap();
        put_text(fli, term, "other(1, \"x\")").unwrap();
        let error = error_of(get(frame, term).deserialize_tuple_struct(fli, "Pair", 2));
        assert!(matches!(
            &error,
            Error::Functor { expected_name, actual_name, .. }
                if expected_name == "Pair" && actual_name == "other"
        ));
    });
}

#[test]
fn maps_round_trip_with_scalar_keys() {
    with_frame(|fli, frame| {
        let by_name = written(
            fli,
            frame,
            &Value::Entries(vec![
                (Value::Text("a"), Value::I64(1)),
                (Value::Text("b"), Value::I64(2)),
            ]),
        );
        match get(frame, by_name).deserialize_map(fli) {
            Ok(Visit::Entries(map)) => {
                assert_eq!(fields(fli, map), [("a".to_owned(), 1), ("b".to_owned(), 2)]);
            }
            _ => panic!("expected entries"),
        }

        let by_index = written(
            fli,
            frame,
            &Value::Entries(vec![
                (Value::I64(1), Value::Text("one")),
                (Value::I64(2), Value::Text("two")),
            ]),
        );
        match get(frame, by_index).deserialize_map(fli) {
            Ok(Visit::Entries(mut map)) => {
                for (number, name) in [(1, "one"), (2, "two")] {
                    let key = map.next_key().unwrap().unwrap();
                    assert_eq!(
                        key.deserialize_signed("i64", i64::MIN, i64::MAX).unwrap(),
                        number
                    );
                    assert_eq!(text_of(map.next_value().unwrap().deserialize_string(fli)), name);
                }
            }
            _ => panic!("expected entries"),
        }

        let by_flag = written(
            fli,
            frame,
            &Value::Entries(vec![
                (Value::Bool(true), Value::I64(1)),
                (Value::Bool(false), Value::I64(0)),
            ]),
        );
        match get(frame, by_flag).deserialize_map(fli) {
            Ok(Visit::Entries(mut map)) => {
                for flag in [false, true] {
                    let key = map.next_key().unwrap().unwrap();
                    assert_eq!(key.deserialize_bool().unwrap(), flag);
                    assert_eq!(i64_of(map.next_value().unwrap().deserialize_i64(fli)), flag as i64);
                }
            }
            _ => panic!("expected entries"),
        }

        // Non-scalar keys are unsupported.
        let by_pair = Value::Entries(vec![(
            Value::Sequence(vec![Value::I64(1), Value::I64(2)]),
            Value::I64(3),
        )]);
        assert!(matches!(write_error(fli, frame, &by_pair), Error::Message(_)));
    });
}

#[test]
fn self_describing_deserialization_supports_untagged_and_internally_tagged_enums() {
    with_frame(|fli, frame| {
        let any = |fli: &mut Fli, text: &str| {
            let term = frame.term(fli).unwrap();
            put_text(fli, term, text).unwrap();
            get(frame, term).deserialize_any(fli)
        };
        assert!(matches!(any(fli, "42"), Ok(Visit::I64(42))));
        assert!(matches!(any(fli, "\"hello\""), Ok(Visit::Text(text)) if text == "hello"));
        match any(fli, "[1, 2, 3]") {
            Ok(Visit::Sequence(mut items)) => {
                for expected in [1, 2, 3] {
                    let item = items.next_element().unwrap();
                    assert!(matches!(item.deserialize_any(fli), Ok(Visit::I64(v)) if v == expected));
                }
                assert!(items.next_element().is_none());
            }
            _ => panic!("expected a sequence"),
        }

        match any(fli, "_{kind: 'Leaf', value: 7}") {
            Ok(Visit::Entries(mut map)) => {
                assert_eq!(map.next_key().unwrap().unwrap().deserialize_string(), "kind");
                assert!(matches!(
                    map.next_value().unwrap().deserialize_any(fli),
                    Ok(Visit::Text(text)) if text == "Leaf"
                ));
                assert_eq!(map.next_key().unwrap().unwrap().deserialize_string(), "value");
                assert!(matches!(
                    map.next_value().unwrap().deserialize_any(fli),
                    Ok(Visit::I64(7))
                ));
            }
            _ => panic!("expected entries"),
        }
        match any(fli, "_{kind: 'Branch', left: 1, right: 2}") {
            Ok(Visit::Entries(map)) => assert_eq!(map.size_hint(), 3),
            _ => panic!("expected entries"),
        }
    });
}

#[test]
fn every_kind_of_term_is_described() {
    with_frame(|fli, frame| {
        let any = |fli: &mut Fli, text: &str| {
            let term = frame.term(fli).unwrap();
            put_text(fli, term, text).unwrap();
            get(frame, term).deserialize_any(fli)
        };
        assert!(matches!(any(fli, "_"), Ok(Visit::Unit)));
        assert!(matches!(any(fli, "true"), Ok(Visit::Bool(true))));
        assert!(matches!(any(fli, "false"), Ok(Visit::Bool(false))));
        assert!(matches!(any(fli, "on"), Ok(Visit::Text(text)) if text == "on"));
        assert!(matches!(any(fli, "18446744073709551615"), Ok(Visit::U64(u64::MAX))));
        assert!(matches!(
            any(fli, "18446744073709551616"),
            Err(Error::Term(TermError::TypeMismatch { .. }))
        ));
        assert!(matches!(
            any(fli, "1r3"),
            Err(Error::UnsupportedTerm { kind: TermKind::Rational })
        ));
        match any(fli, "f(1)") {
            Ok(Visit::Compound(mut inner)) => {
                assert!(matches!(
                    inner.next_value(fli),
                    Err(Error::MapValueOrder("requested"))
                ));
                assert_eq!(inner.next_key().unwrap().as_deref(), Some("f"));
                assert!(matches!(inner.next_key(), Err(Error::MapKeyOrder("requested"))));
                match inner.next_value(fli) {
                    Ok(CompoundValue::Single(value)) => {
                        assert_eq!(i64_of(value.deserialize_i64(fli)), 1);
                    }
                    _ => panic!("expected a single argument"),
                }
                assert!(inner.next_key().unwrap().is_none());
            }
            _ => panic!("expected a compound"),
        }
        match any(fli, "f(1, 2)") {
            Ok(Visit::Compound(mut inner)) => {
                inner.next_key().unwrap();
                match inner.next_value(fli) {
                    Ok(CompoundValue::Several(items)) => assert_eq!(items.size_hint(), 2),
                    _ => panic!("expected several arguments"),
                }
            }
            _ => panic!("expected a compound"),
        }
    });
}

#[test]
fn query_arguments_fill_and_are_read_from_a_block() {
    with_frame(|fli, frame| {
        let args = frame.terms(fli, 2).unwrap();
        let serializer = ArgsSerializer { ctx: frame, args: &args };
        let mut tuple = serializer.serialize_tuple(2).unwrap();
        for value in [2, 3] {
            let slot = tuple.element().unwrap();
            assert!(slot.serialize_i64(fli, value).unwrap());
            tuple.push();
        }
        assert!(tuple.element().is_none());
        assert!(tuple.end().is_ok());
        let mut read = args_sequence(frame, &args);
        assert_eq!(i64_of(read.next_element().unwrap().deserialize_i64(fli)), 2);
        assert_eq!(i64_of(read.next_element().unwrap().deserialize_i64(fli)), 3);
        assert!(read.next_element().is_none());

        // A tuple of the wrong arity is rejected up front.
        let serializer = ArgsSerializer { ctx: frame, args: &args };
        assert!(matches!(
            serializer.serialize_tuple(3),
            Err(Error::ArityMismatch { expected: 2, actual: 3, .. })
        ));
        let serializer = ArgsSerializer { ctx: frame, args: &args };
        assert!(matches!(
            serializer.serialize_unit(),
            Err(Error::ArityMismatch { expected: 2, actual: 0, .. })
        ));
        let serializer = ArgsSerializer { ctx: frame, args: &args };
        assert!(matches!(
            serializer.serialize_tuple(2).unwrap().end(),
            Err(Error::ArityMismatch { expected: 2, actual: 0, .. })
        ));
        assert!(matches!(
            ArgsSerializer::<Frame<'_>>::expects_tuple(),
            Error::Message(_)
        ));
        let none = frame.terms(fli, 0).unwrap();
        assert!(ArgsSerializer { ctx: frame, args: &none }.serialize_unit().is_ok());
    });
}

#[test]
fn serializer_contract_violations_surface_as_errors() {
    with_frame(|fli, frame| {
        let duplicate_keys = Value::Entries(vec![
            (Value::Text("k"), Value::I64(1)),
            (Value::Text("k"), Value::I64(2)),
        ]);
        assert!(matches!(
            write_error(fli, frame, &duplicate_keys),
            Error::Term(TermError::Exception(_))
        ));
        assert!(matches!(
            write_error(fli, frame, &Value::TupleStruct("under", 2, vec![Value::I64(1)])),
            Error::ArityMismatch { expected: 2, actual: 1, .. }
        ));
    });
}

#[test]
fn keys_and_values_come_in_turn() {
    with_frame(|fli, frame| {
        let term = frame.term(fli).unwrap();
        let mut dict = TermSerializer::new(frame, term).serialize_map();
        assert!(matches!(dict.serialize_value(), Err(Error::MapValueOrder("serialized"))));
        dict.serialize_key("a".to_owned()).unwrap();
        assert!(matches!(
            dict.serialize_key("b".to_owned()),
            Err(Error::MapKeyOrder("serialized"))
        ));
        assert!(matches!(dict.end(fli), Err(Error::MapKeyWithoutValue)));

        let written = written(fli, frame, &point(1, 2));
        match get(frame, written).deserialize_map(fli) {
            Ok(Visit::Entries(mut map)) => {
                assert!(matches!(map.next_value(), Err(Error::MapValueOrder("requested"))));
                assert!(map.next_key().unwrap().is_some());
                assert!(matches!(map.next_key(), Err(Error::MapKeyOrder("requested"))));
                assert!(map.next_value().is_ok());
                assert!(map.next_key().unwrap().is_some());
            }
            _ => panic!("expected entries"),
        }
    });
}

#[test]
fn dict_keys_are_read_as_what_they_look_like() {
    let key = |text: &str| DictKeyDeserializer { key: text.to_owned() };
    assert!(matches!(key("true").deserialize_any(), KeyVisit::Bool(true)));
    assert!(matches!(key("-5").deserialize_any(), KeyVisit::I64(-5)));
    assert!(matches!(
        key("18446744073709551615").deserialize_any(),
        KeyVisit::U64(u64::MAX)
    ));
    assert!(matches!(key("x").deserialize_any(), KeyVisit::Text(text) if text == "x"));
    assert_eq!(key("7").deserialize_unsigned("u8", 255).unwrap(), 7);
    assert_eq!(
        key("a\"b").deserialize_signed("i64", i64::MIN, i64::MAX),
        Err(Error::Message("dict key \"a\\\"b\" is not a i64".to_owned()))
    );
    assert_eq!(
        key("300").deserialize_unsigned("u8", 255),
        Err(Error::Message("dict key \"300\" is not a u8".to_owned()))
    );
    assert_eq!(
        key("yes").deserialize_bool(),
        Err(Error::Message("dict key \"yes\" is not a boolean".to_owned()))
    );
}
