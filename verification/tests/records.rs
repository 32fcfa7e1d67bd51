use std::collections::HashSet;
use std::hash::{Hash, Hasher};

use splint::codec::records::{
    external_from_term, external_to_term, record_from_term, record_to_term,
};
use splint::data::{KeyData, TermData};
use splint::engine::EngineStatus;
use splint::exception::Verdict;
use splint::runtime::RuntimeState;
use splint::term::Unification;
use splint::{
    AttachedEngine, Engine, ExternalRecord, Fli, FliContext, Frame, ListShape, PrologException,
    Record, RecordError, Runtime, Term, TermCodecError, TermError,
};

fn runtime() -> Runtime {
    let mut state = RuntimeState::Uninitialized;
    Runtime::initialize(
        &mut state,
        &vec![b"splint-test".to_vec(), b"-q".to_vec()],
        |_| true,
    )
    .expect("runtime initialize failed")
}

/// Runs `body` with a fresh engine attached.
fn with_engine<R>(body: impl for<'a> FnOnce(&mut Fli, &'a AttachedEngine<'a>) -> R) -> R {
    let runtime = runtime();
    let mut fli = Fli::new();
    let mut engine = Engine::new(&runtime, true).expect("engine create failed");
    engine
        .with_attached(&mut fli, 1, EngineStatus::Current, body)
        .expect("attach failed")
}

/// Runs `body` in a frame of a fresh engine.
fn with_frame<R>(body: impl for<'a> FnOnce(&mut Fli, &'a Frame<'a>) -> R) -> R {
    with_engine(|fli, ctx| ctx.with_frame(fli, body).unwrap())
}

/// Reads the syntax of terms, as far as the tests below need it.
struct Reader<'a> {
    text: &'a [u8],
    at: usize,
    names: Vec<(String, usize)>,
}

impl Reader<'_> {
    fn peek(&mut self) -> u8 {
        while self.at < self.text.len() && self.text[self.at] == b' ' {
            self.at += 1;
        }
        if self.at < self.text.len() {
            self.text[self.at]
        } else {
            0
        }
    }

    fn take(&mut self, wanted: u8) -> Option<()> {
        if self.peek() == wanted {
            self.at += 1;
            Some(())
        } else {
            None
        }
    }

    fn word(&mut self) -> String {
        let start = self.at;
        while self.at < self.text.len()
            && (self.text[self.at].is_ascii_alphanumeric() || self.text[self.at] == b'_')
        {
            self.at += 1;
        }
        String::from_utf8(self.text[start..self.at].to_vec()).unwrap()
    }

    fn quoted(&mut self, quote: u8) -> Option<String> {
        let start = self.at;
        while self.at < self.text.len() && self.text[self.at] != quote {
            self.at += 1;
        }
        let inner = String::from_utf8(self.text[start..self.at].to_vec()).unwrap();
        self.take(quote)?;
        Some(inner)
    }

    fn variable(&mut self, fli: &mut Fli, name: String) -> TermData {
        if name != "_" {
            for (known, id) in &self.names {
                if *known == name {
                    return TermData::Var(*id);
                }
            }
        }
        let id = fli.new_var();
        self.names.push((name, id));
        TermData::Var(id)
    }

    fn items(&mut self, fli: &mut Fli, end: u8) -> Option<Vec<TermData>> {
        let mut items = vec![self.term(fli)?];
        while self.take(b',').is_some() {
            items.push(self.term(fli)?);
        }
        self.take(end)?;
        Some(items)
    }

    fn entries(&mut self, fli: &mut Fli) -> Option<Vec<(KeyData, TermData)>> {
        let mut entries = Vec::new();
        if self.take(b'}').is_some() {
            return Some(entries);
        }
        loop {
            self.peek();
            let key = self.word();
            self.take(b':')?;
            let value = self.term(fli)?;
            entries.push(match key.parse::<i64>() {
                Ok(number) => (KeyData::Int(number), value),
                Err(_) => (KeyData::Atom(key), value),
            });
            if self.take(b'}').is_some() {
                return Some(entries);
            }
            self.take(b',')?;
        }
    }

    fn primary(&mut self, fli: &mut Fli) -> Option<TermData> {
        let first = self.peek();
        let atom = match first {
            b'"' => {
                self.at += 1;
                return Some(TermData::String(self.quoted(b'"')?));
            }
            b'[' => {
                self.at += 1;
                if self.take(b']').is_some() {
                    return Some(TermData::Nil);
                }
                let mut items = vec![self.term(fli)?];
                while self.take(b',').is_some() {
                    items.push(self.term(fli)?);
                }
                let mut list = if self.take(b'|').is_some() {
                    self.term(fli)?
                } else {
                    TermData::Nil
                };
                self.take(b']')?;
                while let Some(item) = items.pop() {
                    list = TermData::Pair(Box::new(item), Box::new(list));
                }
                return Some(list);
            }
            b'\'' => {
                self.at += 1;
                TermData::Atom(self.quoted(b'\'')?)
            }
            b'-' | b'0'..=b'9' => {
                let negative = self.take(b'-').is_some();
                let digits = self.word();
                if digits.contains('r') {
                    return Some(TermData::Rational(digits));
                }
                let value: i128 = digits.parse().ok()?;
                return Some(TermData::Integer(if negative { -value } else { value }));
            }
            b'_' | b'A'..=b'Z' => {
                let name = self.word();
                self.variable(fli, name)
            }
            b'a'..=b'z' => TermData::Atom(self.word()),
            _ => return None,
        };
        let open = if self.at < self.text.len() {
            self.text[self.at]
        } else {
            0
        };
        match (atom, open) {
            (TermData::Atom(name), b'(') => {
                self.at += 1;
                Some(TermData::Compound(name, self.items(fli, b')')?))
            }
            (tag, b'{') => {
                self.at += 1;
                Some(TermData::Dict(Box::new(tag), self.entries(fli)?))
            }
            (other, _) => Some(other),
        }
    }

    fn term(&mut self, fli: &mut Fli) -> Option<TermData> {
        let left = self.primary(fli)?;
        if self.take(b'+').is_some() {
            let right = self.term(fli)?;
            return Some(TermData::Compound("+".to_owned(), vec![left, right]));
        }
        Some(left)
    }
}

/// Parses a text into `term`, raising a syntax error where it is malformed.
fn put_text(fli: &mut Fli, term: Term<'_>, text: &str) -> Result<(), TermError> {
    let mut reader = Reader {
        text: text.as_bytes(),
        at: 0,
        names: Vec::new(),
    };
    let parsed = reader.term(fli);
    match parsed {
        Some(data) if reader.peek() == 0 => term.put_term_from_text(fli, data),
        _ => {
            fli.answer(Verdict::Raise(PrologException(
                "error(syntax_error(cannot_start_term),_)".to_owned(),
            )));
            term.put_term_from_text(fli, TermData::Nil)
        }
    }
}

/// Writes terms the way `writeq/1` does, as far as the tests below need it.
fn show(fli: &Fli, data: &TermData) -> String {
    let atom = |name: &String| {
        let plain = name.starts_with(|c: char| c.is_ascii_lowercase())
            && name.chars().all(|c| c.is_ascii_alphanumeric() || c == '_');
        if plain || name == "#" {
            name.clone()
        } else {
            format!("'{name}'")
        }
    };
    match fli.resolved(data).0 {
        TermData::Var(id) => format!("_{id}"),
        TermData::Atom(name) => atom(name),
        TermData::Integer(value) => value.to_string(),
        TermData::BigInteger(digits) => digits.clone(),
        TermData::Rational(text) | TermData::Float(_, text) | TermData::Blob(text) => text.clone(),
        TermData::String(text) => format!("{text:?}"),
        TermData::Nil => "[]".to_owned(),
        TermData::Pair(head, tail) => format!("[{}|{}]", show(fli, head), show(fli, tail)),
        TermData::Compound(name, args) => {
            let shown: Vec<String> = args.iter().map(|arg| show(fli, arg)).collect();
            format!("{}({})", atom(name), shown.join(","))
        }
        TermData::Dict(tag, entries) => {
            let shown: Vec<String> = entries
                .iter()
                .map(|(key, value)| {
                    let key = match key {
                        KeyData::Atom(name) => atom(name),
                        KeyData::Int(number) => number.to_string(),
                    };
                    format!("{key}:{}", show(fli, value))
                })
                .collect();
            format!("{}{{{}}}", show(fli, tag), shown.join(","))
        }
    }
}

/// Renders a term.
fn render(fli: &mut Fli, term: Term<'_>) -> String {
    let text = show(fli, fli.held(term.as_raw()));
    term.write_to_string(fli, Some(text)).unwrap()
}

/// Unifies two terms, collecting the bindings.
fn unify_data(
    fli: &Fli,
    bindings: &mut Vec<(usize, TermData)>,
    a: &TermData,
    b: &TermData,
) -> bool {
    let follow = |data: &TermData, bindings: &Vec<(usize, TermData)>| -> TermData {
        let mut now = fli.resolved(data).0.copy();
        while let TermData::Var(id) = now {
            match bindings.iter().find(|(bound, _)| *bound == id) {
                Some((_, value)) => now = fli.resolved(value).0.copy(),
                None => break,
            }
        }
        now
    };
    let left = follow(a, bindings);
    let right = follow(b, bindings);
    match (&left, &right) {
        (TermData::Var(x), TermData::Var(y)) if x == y => true,
        (TermData::Var(x), _) => {
            bindings.push((*x, right.copy()));
            true
        }
        (_, TermData::Var(y)) => {
            bindings.push((*y, left.copy()));
            true
        }
        (TermData::Pair(h1, t1), TermData::Pair(h2, t2)) => {
            unify_data(fli, bindings, h1, h2) && unify_data(fli, bindings, t1, t2)
        }
        (TermData::Compound(n1, a1), TermData::Compound(n2, a2)) => {
            n1 == n2
                && a1.len() == a2.len()
                && a1.iter().zip(a2.iter()).all(|(x, y)| unify_data(fli, bindings, x, y))
        }
        (x, y) => format!("{x:?}") == format!("{y:?}"),
    }
}

/// Unifies two terms.
fn unify(fli: &mut Fli, a: Term<'_>, b: Term<'_>) -> Result<bool, TermError> {
    let mut bindings = Vec::new();
    let unified = unify_data(
        fli,
        &mut bindings,
        fli.held(a.as_raw()),
        fli.held(b.as_raw()),
    );
    a.unify(fli, b, Unification { unified, bindings })
}

#[test]
fn record_survives_its_frame() {
    with_engine(|fli, ctx| {
        let record = ctx
            .with_frame(fli, |fli, frame| {
                let term = frame.term(fli).unwrap();
                put_text(fli, term, "foo(bar, 42)").unwrap();
                term.record(fli, 1).unwrap()
            })
            .unwrap();

        // The originating frame is gone; the recorded value is intact.
        ctx.with_frame(fli, |fli, frame| {
            let recalled = record.recall(frame, fli).unwrap();
            assert_eq!(render(fli, recalled), "foo(bar,42)");
        })
        .unwrap();
    });
}

#[test]
fn record_recalls_into_an_existing_term() {
    with_engine(|fli, ctx| {
        let record = ctx
            .with_frame(fli, |fli, frame| {
                let term = frame.term(fli).unwrap();
                term.put_i64(fli, 123).unwrap();
                term.record(fli, 1).unwrap()
            })
            .unwrap();

        ctx.with_frame(fli, |fli, frame| {
            // A pre-existing slot: recall overwrites it in place.
            let slot = frame.term(fli).unwrap();
            assert!(slot.is_variable(fli));
            record.recall_into(fli, slot).unwrap();
            assert_eq!(slot.get_i64(fli).unwrap(), 123);
        })
        .unwrap();
    });
}

#[test]
fn record_is_engine_independent() {
    // Record on one engine...
    let record: Record = with_frame(|fli, frame| {
        let term = frame.term(fli).unwrap();
        term.put_i64(fli, 99).unwrap();
        term.record(fli, 1).unwrap()
    });

    // ...and recall it on a different engine created later.
    with_frame(|fli, frame| {
        let recalled = record.recall(frame, fli).unwrap();
        assert_eq!(recalled.get_i64(fli).unwrap(), 99);
    });
}

#[test]
fn record_drops_without_an_engine_attached() {
    let record: Record = with_frame(|fli, frame| {
        let term = frame.term(fli).unwrap();
        term.put_i64(fli, 7).unwrap();
        term.record(fli, 1).unwrap()
    });
    drop(record);
}

#[test]
fn record_identity_tracks_clones_not_value() {
    let (a, b) = with_frame(|fli, frame| {
        let mut make = |handle: u64| {
            let term = frame.term(fli).unwrap();
            put_text(fli, term, "same(term)").unwrap();
            term.record(fli, handle).unwrap()
        };
        // Two independent recordings of an identical term.
        (make(1), make(2))
    });

    // A clone shares identity with its source...
    let a_clone = a.clone();
    assert!(a.ptr_eq(&a_clone));

    // ...but independent recordings of the same term are distinct identities.
    assert!(!a.ptr_eq(&b));
}

/// Wraps a record and delegates comparison and hashing to its identity.
struct ByIdentity(Record);

impl PartialEq for ByIdentity {
    fn eq(&self, other: &Self) -> bool {
        self.0.ptr_eq(&other.0)
    }
}

impl Eq for ByIdentity {}

impl Hash for ByIdentity {
    fn hash<H: Hasher>(&self, state: &mut H) {
        self.0.ptr_token().hash(state);
    }
}

#[test]
fn record_identity_backs_an_external_hash_impl() {
    let (a, b) = with_frame(|fli, frame| {
        let mut make = |handle: u64| {
            let term = frame.term(fli).unwrap();
            term.put_i64(fli, 1).unwrap();
            term.record(fli, handle).unwrap()
        };
        (make(1), make(2))
    });

    let mut set = HashSet::new();
    set.insert(ByIdentity(a.clone()));
    // A clone of `a` is already present (same identity); `b` is not.
    assert!(!set.insert(ByIdentity(a)));
    assert!(set.insert(ByIdentity(b)));
    assert_eq!(set.len(), 2);
}

#[test]
fn record_is_debug_printable() {
    let record: Record = with_frame(|fli, frame| {
        let term = frame.term(fli).unwrap();
        term.put_i64(fli, 1).unwrap();
        term.record(fli, 1).unwrap()
    });
    // Debug works without an engine attached (the record is opaque here).
    assert!(format!("{record:?}").contains("Record"));
}

#[test]
fn recall_keeps_sharing_and_renames_variables() {
    with_frame(|fli, frame| {
        let source = frame.term(fli).unwrap();
        put_text(fli, source, "foo(X, X)").unwrap();
        let record = source.record(fli, 1).unwrap();

        let recalled = record.recall(frame, fli).unwrap();
        let first = recalled.get_arg(frame, fli, 0).unwrap();
        let second = recalled.get_arg(frame, fli, 1).unwrap();
        let nine = frame.term(fli).unwrap();
        nine.put_i64(fli, 9).unwrap();
        assert!(unify(fli, first, nine).unwrap());
        assert_eq!(second.get_i64(fli).unwrap(), 9, "variable sharing was lost");

        // The recorded term's own variables were left alone.
        assert!(source.get_arg(frame, fli, 0).unwrap().is_variable(fli));
    });
}

#[test]
fn recall_keeps_bindings_and_cycles() {
    with_frame(|fli, frame| {
        let a = frame.term(fli).unwrap();
        a.put_atom_text(fli, "a").unwrap();
        let cyclic = frame.term(fli).unwrap();
        let tail = frame.term(fli).unwrap();
        cyclic.cons_list(fli, a, tail).unwrap();
        assert!(unify(fli, tail, cyclic).unwrap());
        let record = cyclic.record(fli, 1).unwrap();
        let recalled = record.recall(frame, fli).unwrap();
        assert_eq!(recalled.list_shape(fli), ListShape::Cyclic);
    });
}

#[test]
fn recording_reports_refusals_and_exceptions() {
    with_frame(|fli, frame| {
        let term = frame.term(fli).unwrap();
        fli.answer(Verdict::Refuse);
        assert!(matches!(term.record(fli, 1), Err(RecordError::Failed)));
        fli.answer(Verdict::Raise(PrologException("no room".to_owned())));
        assert!(matches!(
            term.record(fli, 1),
            Err(RecordError::Exception(e)) if e.0 == "no room"
        ));
        let record = term.record(fli, 1).unwrap();
        fli.answer(Verdict::Refuse);
        assert_eq!(record.recall_into(fli, term), Err(RecordError::Failed));
        fli.answer(Verdict::Raise(PrologException("no room".to_owned())));
        assert!(matches!(
            record.recall(frame, fli),
            Err(RecordError::Exception(e)) if e.0 == "no room"
        ));
        assert!(matches!(
            record_from_term(fli, term, 3),
            Ok(record) if record.ptr_token() == 3
        ));
        fli.answer(Verdict::Refuse);
        assert!(matches!(
            record_to_term(&record, fli, term),
            Err(TermCodecError::Record(RecordError::Failed))
        ));
    });
}

#[test]
fn external_records_are_bytes_compared_by_value() {
    with_frame(|fli, frame| {
        let term = frame.term(fli).unwrap();
        put_text(fli, term, "kept(1)").unwrap();
        let record = term.record_external(fli, vec![1, 2, 3]).unwrap();
        assert_eq!(record.as_bytes(), [1, 2, 3]);
        let copy = ExternalRecord::from_bytes(record.as_bytes().to_vec());
        assert_eq!(copy, record);
        assert_ne!(ExternalRecord::from_bytes(vec![1, 2]), record);

        // What the engine makes of the bytes is what is recalled.
        let decoded = TermData::Compound("kept".to_owned(), vec![TermData::Integer(1)]);
        let recalled = copy.recall(frame, fli, decoded.copy()).unwrap();
        assert_eq!(render(fli, recalled), "kept(1)");
        let plain = copy.to_record(frame, fli, decoded.copy(), 8).unwrap();
        assert_eq!(plain.ptr_token(), 8);
        let again = plain.recall(frame, fli).unwrap();
        assert_eq!(render(fli, again), "kept(1)");

        let slot = frame.term(fli).unwrap();
        external_to_term(&copy, fli, slot, decoded).unwrap();
        assert_eq!(render(fli, slot), "kept(1)");
        let bytes = external_from_term(fli, slot, vec![9]).unwrap();
        assert_eq!(bytes.as_bytes(), [9]);

        fli.answer(Verdict::Refuse);
        assert_eq!(
            copy.recall_into(fli, term, TermData::Nil),
            Err(RecordError::Failed)
        );
        fli.answer(Verdict::Raise(PrologException("cannot record".to_owned())));
        assert!(matches!(
            external_from_term(fli, term, Vec::new()),
            Err(TermCodecError::Record(RecordError::Exception(e))) if e.0 == "cannot record"
        ));
    });
}
