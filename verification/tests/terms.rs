use std::collections::HashMap;

use splint::data::{KeyData, TermData};
use splint::engine::EngineStatus;
use splint::exception::Verdict;
use splint::runtime::RuntimeState;
use splint::scope::{is_closable, is_innermost, Activation};
use splint::term::Unification;
use splint::{
    Atom, AttachedEngine, DictKey, Engine, Fli, FliContext, Frame, FrameError, Functor,
    HandleError, ListShape, Module, Predicate, PrologException, Runtime, ScopedCallError, Term,
    TermError, TermKind,
};

fn runtime() -> Runtime {
    let mut state = RuntimeState::Uninitialized;
    Runtime::initialize(
        &mut state,
        &vec![b"splint-test".to_vec(), b"-q".to_vec()],
        |_| true,
    )
    .expect("runtime initialize failed")
}

/// Where a context is the innermost one.
fn place<C: FliContext>(ctx: &C) -> Activation {
    ctx.activation()
}

/// Runs `body` with a fresh engine attached.
fn with_engine<R>(body: impl for<'a> FnOnce(&mut Fli, &'a AttachedEngine<'a>) -> R) -> R {
    let runtime = runtime();
    let mut fli = Fli::new();
    let mut engine = Engine::new(&runtime, true).expect("engine create failed");
    engine
        .with_attached(&mut fli, 1, EngineStatus::Current, body)
        .expect("attach failed")
}

/// Runs `body` in a frame of a fresh engine.
fn with_frame<R>(body: impl for<'a> FnOnce(&mut Fli, &'a Frame<'a>) -> R) -> R {
    with_engine(|fli, ctx| ctx.with_frame(fli, body).unwrap())
}

/// Reads the syntax of terms, as far as the tests below need it.
struct Reader<'a> {
    text: &'a [u8],
    at: usize,
    names: Vec<(String, usize)>,
}

impl Reader<'_> {
    fn peek(&mut self) -> u8 {
        while self.at < self.text.len() && self.text[self.at] == b' ' {
            self.at += 1;
        }
        if self.at < self.text.len() {
            self.text[self.at]
        } else {
            0
        }
    }

    fn take(&mut self, wanted: u8) -> Option<()> {
        if self.peek() == wanted {
            self.at += 1;
            Some(())
        } else {
            None
        }
    }

    fn word(&mut self) -> String {
        let start = self.at;
        while self.at < self.text.len()
            && (self.text[self.at].is_ascii_alphanumeric() || self.text[self.at] == b'_')
        {
            self.at += 1;
        }
        String::from_utf8(self.text[start..self.at].to_vec()).unwrap()
    }

    fn quoted(&mut self, quote: u8) -> Option<String> {
        let start = self.at;
        while self.at < self.text.len() && self.text[self.at] != quote {
            self.at += 1;
        }
        let inner = String::from_utf8(self.text[start..self.at].to_vec()).unwrap();
        self.take(quote)?;
        Some(inner)
    }

    fn variable(&mut self, fli: &mut Fli, name: String) -> TermData {
        if name != "_" {
            for (known, id) in &self.names {
                if *known == name {
                    return TermData::Var(*id);
                }
            }
        }
        let id = fli.new_var();
        self.names.push((name, id));
        TermData::Var(id)
    }

    fn items(&mut self, fli: &mut Fli, end: u8) -> Option<Vec<TermData>> {
        let mut items = vec![self.term(fli)?];
        while self.take(b',').is_some() {
            items.push(self.term(fli)?);
        }
        self.take(end)?;
        Some(items)
    }

    fn entries(&mut self, fli: &mut Fli) -> Option<Vec<(KeyData, TermData)>> {
        let mut entries = Vec::new();
        if self.take(b'}').is_some() {
            return Some(entries);
        }
        loop {
            self.peek();
            let key = self.word();
            self.take(b':')?;
            let value = self.term(fli)?;
            entries.push(match key.parse::<i64>() {
                Ok(number) => (KeyData::Int(number), value),
                Err(_) => (KeyData::Atom(key), value),
            });
            if self.take(b'}').is_some() {
                return Some(entries);
            }
            self.take(b',')?;
        }
    }

    fn primary(&mut self, fli: &mut Fli) -> Option<TermData> {
        let first = self.peek();
        let atom = match first {
            b'"' => {
                self.at += 1;
                return Some(TermData::String(self.quoted(b'"')?));
            }
            b'[' => {
                self.at += 1;
                if self.take(b']').is_some() {
                    return Some(TermData::Nil);
                }
                let mut items = vec![self.term(fli)?];
                while self.take(b',').is_some() {
                    items.push(self.term(fli)?);
                }
                let mut list = if self.take(b'|').is_some() {
                    self.term(fli)?
                } else {
                    TermData::Nil
                };
                self.take(b']')?;
                while let Some(item) = items.pop() {
                    list = TermData::Pair(Box::new(item), Box::new(list));
                }
                return Some(list);
            }
            b'\'' => {
                self.at += 1;
                TermData::Atom(self.quoted(b'\'')?)
            }
            b'-' | b'0'..=b'9' => {
                let negative = self.take(b'-').is_some();
                let digits = self.word();
                if digits.contains('r') {
                    return Some(TermData::Rational(digits));
                }
                let value: i128 = digits.parse().ok()?;
                return Some(TermData::Integer(if negative { -value } else { value }));
            }
            b'_' | b'A'..=b'Z' => {
                let name = self.word();
                self.variable(fli, name)
            }
            b'a'..=b'z' => TermData::Atom(self.word()),
            _ => return None,
        };
        let open = if self.at < self.text.len() {
            self.text[self.at]
        } else {
            0
        };
        match (atom, open) {
            (TermData::Atom(name), b'(') => {
                self.at += 1;
                Some(TermData::Compound(name, self.items(fli, b')')?))
            }
            (tag, b'{') => {
                self.at += 1;
                Some(TermData::Dict(Box::new(tag), self.entries(fli)?))
            }
            (other, _) => Some(other),
        }
    }

    fn term(&mut self, fli: &mut Fli) -> Option<TermData> {
        let left = self.primary(fli)?;
        if self.take(b'+').is_some() {
            let right = self.term(fli)?;
            return Some(TermData::Compound("+".to_owned(), vec![left, right]));
        }
        Some(left)
    }
}

/// Parses a text into `term`, raising a syntax error where it is malformed.
fn put_text(fli: &mut Fli, term: Term<'_>, text: &str) -> Result<(), TermError> {
    let mut reader = Reader {
        text: text.as_bytes(),
        at: 0,
        names: Vec::new(),
    };
    let parsed = reader.term(fli);
    match parsed {
        Some(data) if reader.peek() == 0 => term.put_term_from_text(fli, data),
        _ => {
            fli.answer(Verdict::Raise(PrologException(
                "error(syntax_error(cannot_start_term),_)".to_owned(),
            )));
            term.put_term_from_text(fli, TermData::Nil)
        }
    }
}

/// Writes terms the way `writeq/1` does, as far as the tests below need it.
fn show(fli: &Fli, data: &TermData) -> String {
    let atom = |name: &String| {
        let plain = name.starts_with(|c: char| c.is_ascii_lowercase())
            && name.chars().all(|c| c.is_ascii_alphanumeric() || c == '_');
        if plain || name == "#" {
            name.clone()
        } else {
            format!("'{name}'")
        }
    };
    match fli.resolved(data).0 {
        TermData::Var(id) => format!("_{id}"),
        TermData::Atom(name) => atom(name),
        TermData::Integer(value) => value.to_string(),
        TermData::BigInteger(digits) => digits.clone(),
        TermData::Rational(text) | TermData::Float(_, text) | TermData::Blob(text) => text.clone(),
        TermData::String(text) => format!("{text:?}"),
        TermData::Nil => "[]".to_owned(),
        TermData::Pair(head, tail) => format!("[{}|{}]", show(fli, head), show(fli, tail)),
        TermData::Compound(name, args) => {
            let shown: Vec<String> = args.iter().map(|arg| show(fli, arg)).collect();
            format!("{}({})", atom(name), shown.join(","))
        }
        TermData::Dict(tag, entries) => {
            let shown: Vec<String> = entries
                .iter()
                .map(|(key, value)| {
                    let key = match key {
                        KeyData::Atom(name) => atom(name),
                        KeyData::Int(number) => number.to_string(),
                    };
                    format!("{key}:{}", show(fli, value))
                })
                .collect();
            format!("{}{{{}}}", show(fli, tag), shown.join(","))
        }
    }
}

/// Renders a term.
fn render(fli: &mut Fli, term: Term<'_>) -> String {
    let text = show(fli, fli.held(term.as_raw()));
    term.write_to_string(fli, Some(text)).unwrap()
}

/// Unifies two terms, collecting the bindings.
fn unify_data(
    fli: &Fli,
    bindings: &mut Vec<(usize, TermData)>,
    a: &TermData,
    b: &TermData,
) -> bool {
    let follow = |data: &TermData, bindings: &Vec<(usize, TermData)>| -> TermData {
        let mut now = fli.resolved(data).0.copy();
        while let TermData::Var(id) = now {
            match bindings.iter().find(|(bound, _)| *bound == id) {
                Some((_, value)) => now = fli.resolved(value).0.copy(),
                None => break,
            }
        }
        now
    };
    let left = follow(a, bindings);
    let right = follow(b, bindings);
    match (&left, &right) {
        (TermData::Var(x), TermData::Var(y)) if x == y => true,
        (TermData::Var(x), _) => {
            bindings.push((*x, right.copy()));
            true
        }
        (_, TermData::Var(y)) => {
            bindings.push((*y, left.copy()));
            true
        }
        (TermData::Pair(h1, t1), TermData::Pair(h2, t2)) => {
            unify_data(fli, bindings, h1, h2) && unify_data(fli, bindings, t1, t2)
        }
        (TermData::Compound(n1, a1), TermData::Compound(n2, a2)) => {
            n1 == n2
                && a1.len() == a2.len()
                && a1.iter().zip(a2.iter()).all(|(x, y)| unify_data(fli, bindings, x, y))
        }
        (x, y) => format!("{x:?}") == format!("{y:?}"),
    }
}

/// Unifies two terms.
fn unify(fli: &mut Fli, a: Term<'_>, b: Term<'_>) -> Result<bool, TermError> {
    let mut bindings = Vec::new();
    let unified = unify_data(
        fli,
        &mut bindings,
        fli.held(a.as_raw()),
        fli.held(b.as_raw()),
    );
    a.unify(fli, b, Unification { unified, bindings })
}

#[test]
fn atoms_compare_by_value() {
    with_frame(|fli, frame| {
        let a = Atom::new(frame, "point");
        let same = Atom::new(frame, "point");
        let different = Atom::new(frame, "line");
        assert_eq!(a, same);
        assert_ne!(a, different);

        // Equality holds across an atom read back out of a term, too.
        let term = frame.term(fli).unwrap();
        term.put_atom(fli, &a).unwrap();
        assert_eq!(term.get_atom(fli).unwrap(), a);
    });
}

#[test]
fn atoms_work_as_hash_map_keys() {
    with_frame(|_, frame| {
        let mut counts: HashMap<Atom, u32> = HashMap::new();
        for text in ["x", "y", "x", "x", "y"] {
            *counts.entry(Atom::new(frame, text)).or_insert(0) += 1;
        }
        assert_eq!(counts.get(&Atom::new(frame, "x")), Some(&3));
        assert_eq!(counts.get(&Atom::new(frame, "y")), Some(&2));
        assert_eq!(counts.get(&Atom::new(frame, "z")), None);
    });
}

#[test]
fn atom_debug_shows_text() {
    with_frame(|_, frame| {
        let atom = Atom::new(frame, "flurble");
        assert_eq!(format!("{atom:?}"), "Atom(\"flurble\")");
    });
}

#[test]
fn functor_exposes_its_name_and_arity() {
    with_frame(|fli, frame| {
        let functor = Functor::from_name(frame, fli, "foo", 2).unwrap();
        assert_eq!(functor.name(), Atom::new(frame, "foo"));
        assert_eq!(functor.arity(), 2);
    });
}

#[test]
fn module_exposes_its_name() {
    with_frame(|_, frame| {
        let module = Module::from_name(frame, "user");
        assert_eq!(module.name(), Atom::new(frame, "user"));
    });
}

#[test]
fn predicate_exposes_name_arity_and_module() {
    with_frame(|fli, frame| {
        let module = Module::from_name(frame, "user");
        let functor =
            Functor::from_name(frame, fli, "splint_handles_test_predicate", 2).unwrap();
        let predicate = Predicate::new(frame, fli, &functor, &module).unwrap();

        assert_eq!(
            predicate.name(),
            Atom::new(frame, "splint_handles_test_predicate")
        );
        assert_eq!(predicate.arity(), 2);
        assert_eq!(predicate.module(&module).name(), Atom::new(frame, "user"));
        assert_eq!(predicate.lookup_module(), Some(module));
    });
}

#[test]
fn predicate_rejects_arities_outside_the_c_api_range() {
    with_engine(|fli, ctx| {
        assert!(matches!(
            Predicate::from_name(ctx, fli, "p", usize::MAX, None),
            Err(HandleError::PredicateArityOutOfRange { arity: usize::MAX })
        ));
    });
}

#[test]
fn global_handles_are_send_and_sync() {
    fn assert_send_sync<T: Send + Sync>() {}

    assert_send_sync::<Atom>();
    assert_send_sync::<Functor>();
    assert_send_sync::<Module>();
    assert_send_sync::<Predicate>();
    assert_send_sync::<DictKey>();
}

#[test]
fn handles_report_refusals_exceptions_and_interior_nuls() {
    with_engine(|fli, ctx| {
        fli.answer(Verdict::Raise(PrologException("out of space".to_owned())));
        assert_eq!(
            Functor::from_name(ctx, fli, "f", 1),
            Err(HandleError::Exception(PrologException("out of space".to_owned())))
        );
        fli.answer(Verdict::Refuse);
        assert!(Functor::from_name(ctx, fli, "f", 1).is_err());
        assert!(matches!(
            Predicate::from_name(ctx, fli, "a\0b", 1, None),
            Err(HandleError::InteriorNul { position: 1 })
        ));
        let succ = Predicate::from_name(ctx, fli, "succ", 2, None).unwrap();
        // The engine defines it in `system`, whatever it is looked up through.
        let system = Module::from_name(ctx, "system");
        assert_eq!(succ.module(&system).name().text(), "system");
        assert!(succ.lookup_module().is_none());
        let listed = Predicate::from_name(ctx, fli, "append", 3, Some("lists")).unwrap();
        assert_eq!(listed.lookup_module().unwrap().name().text(), "lists");
    });
}

#[test]
fn list_shape_classifies_proper_and_empty() {
    with_frame(|fli, frame| {
        let proper = frame.term(fli).unwrap();
        put_text(fli, proper, "[a, b, c]").unwrap();
        assert_eq!(proper.list_shape(fli), ListShape::Proper { len: 3 });

        let empty = frame.term(fli).unwrap();
        empty.put_nil(fli).unwrap();
        assert_eq!(empty.list_shape(fli), ListShape::Proper { len: 0 });
    });
}

#[test]
fn list_shape_classifies_partial_improper_cyclic_and_non_list() {
    with_frame(|fli, frame| {
        // Partial: [a | _], tail left unbound.
        let a = frame.term(fli).unwrap();
        a.put_atom_text(fli, "a").unwrap();
        let partial = frame.term(fli).unwrap();
        let open_tail = frame.term(fli).unwrap();
        partial.cons_list(fli, a, open_tail).unwrap();
        assert_eq!(partial.list_shape(fli), ListShape::Partial);

        // Improper: [a | b], tail a bound atom.
        let b = frame.term(fli).unwrap();
        b.put_atom_text(fli, "b").unwrap();
        let improper = frame.term(fli).unwrap();
        improper.cons_list(fli, a, b).unwrap();
        assert_eq!(improper.list_shape(fli), ListShape::Improper);

        // Cyclic: X = [a | X].
        let cyclic = frame.term(fli).unwrap();
        let self_tail = frame.term(fli).unwrap();
        cyclic.cons_list(fli, a, self_tail).unwrap();
        assert!(unify(fli, self_tail, cyclic).unwrap());
        assert_eq!(cyclic.list_shape(fli), ListShape::Cyclic);

        // Not a list at all.
        let atom = frame.term(fli).unwrap();
        atom.put_atom_text(fli, "foo").unwrap();
        assert_eq!(atom.list_shape(fli), ListShape::NotAList);
    });
}

#[test]
fn collect_list_gathers_proper_elements() {
    with_frame(|fli, frame| {
        let list = frame.term(fli).unwrap();
        put_text(fli, list, "[1, 2, 3]").unwrap();
        let elements = list.collect_list(frame, fli).unwrap();
        let values: Vec<i64> = elements
            .iter()
            .map(|term| term.get_i64(fli).unwrap())
            .collect();
        assert_eq!(values, [1, 2, 3]);

        let empty = frame.term(fli).unwrap();
        empty.put_nil(fli).unwrap();
        assert!(empty.collect_list(frame, fli).unwrap().is_empty());
    });
}

#[test]
fn collect_list_rejects_non_proper_lists_without_looping() {
    with_frame(|fli, frame| {
        let a = frame.term(fli).unwrap();
        a.put_atom_text(fli, "a").unwrap();

        // Cyclic: collect_list must terminate (not spin) and report the shape.
        let cyclic = frame.term(fli).unwrap();
        let self_tail = frame.term(fli).unwrap();
        cyclic.cons_list(fli, a, self_tail).unwrap();
        assert!(unify(fli, self_tail, cyclic).unwrap());
        assert!(matches!(
            cyclic.collect_list(frame, fli),
            Err(TermError::NotAProperList(ListShape::Cyclic))
        ));

        // Improper: [a | b].
        let b = frame.term(fli).unwrap();
        b.put_atom_text(fli, "b").unwrap();
        let improper = frame.term(fli).unwrap();
        improper.cons_list(fli, a, b).unwrap();
        assert!(matches!(
            improper.collect_list(frame, fli),
            Err(TermError::NotAProperList(ListShape::Improper))
        ));
    });
}

#[test]
fn dict_construction_and_key_access() {
    with_frame(|fli, frame| {
        let tag = Atom::new(frame, "point");
        let x = Atom::new(frame, "x");
        let y = Atom::new(frame, "y");

        let values = frame.terms(fli, 2).unwrap();
        values.get(0).unwrap().put_i64(fli, 1).unwrap();
        values.get(1).unwrap().put_i64(fli, 2).unwrap();

        let dict = frame.term(fli).unwrap();
        dict.put_dict(fli, &tag, &[&x, &y], &values).unwrap();
        assert_eq!(dict.kind(fli), TermKind::Dict);

        assert_eq!(dict.get_dict(frame, fli, &x).unwrap().get_i64(fli).unwrap(), 1);
        assert_eq!(dict.get_dict(frame, fli, &y).unwrap().get_i64(fli).unwrap(), 2);

        let rendered = render(fli, dict);
        assert!(
            rendered.contains("point") && rendered.contains("x:1") && rendered.contains("y:2"),
            "unexpected dict rendering: {rendered}"
        );
    });
}

#[test]
fn dict_entries_are_enumerated_sorted() {
    with_frame(|fli, frame| {
        let tag = Atom::new(frame, "point");
        let x = Atom::new(frame, "x");
        let y = Atom::new(frame, "y");
        let values = frame.terms(fli, 2).unwrap();
        values.get(0).unwrap().put_i64(fli, 10).unwrap();
        values.get(1).unwrap().put_i64(fli, 20).unwrap();
        let dict = frame.term(fli).unwrap();
        // Pass keys out of order to prove the enumeration is sorted, not
        // insertion-ordered.
        dict.put_dict(fli, &tag, &[&y, &x], &values).unwrap();

        let entries = dict.dict_entries(frame, fli).unwrap();
        let seen: Vec<(String, i64)> = entries
            .iter()
            .map(|(key, value)| {
                let name = match key {
                    DictKey::Atom(atom) => atom.text(),
                    DictKey::Int(_) => panic!("expected atom keys"),
                };
                (name, value.get_i64(fli).unwrap())
            })
            .collect();
        assert_eq!(seen, [("x".to_owned(), 20), ("y".to_owned(), 10)]);

        // Integer keys round-trip as DictKey::Int.
        let int_dict = frame.term(fli).unwrap();
        put_text(fli, int_dict, "_{1: a, 2: b}").unwrap();
        let int_entries = int_dict.dict_entries(frame, fli).unwrap();
        let int_keys: Vec<i64> = int_entries
            .iter()
            .map(|(key, _)| match key {
                DictKey::Int(value) => *value,
                DictKey::Atom(_) => panic!("expected integer keys"),
            })
            .collect();
        assert_eq!(int_keys, [1, 2]);
        assert_eq!(int_entries[0].1.get_text(fli).unwrap(), "a");
    });
}

#[test]
fn dict_tag_reads_atom_and_variable_tags() {
    with_frame(|fli, frame| {
        let tag = Atom::new(frame, "point");
        let x = Atom::new(frame, "x");
        let values = frame.terms(fli, 1).unwrap();
        values.get(0).unwrap().put_i64(fli, 1).unwrap();
        let dict = frame.term(fli).unwrap();
        dict.put_dict(fli, &tag, &[&x], &values).unwrap();
        assert_eq!(
            dict.dict_tag(frame, fli).unwrap().map(|atom| atom.text()),
            Some("point".to_owned())
        );

        // A parsed dict with an anonymous tag has a variable tag.
        let var_tagged = frame.term(fli).unwrap();
        put_text(fli, var_tagged, "_{a: 1}").unwrap();
        assert!(var_tagged.dict_tag(frame, fli).unwrap().is_none());
    });
}

#[test]
fn dict_error_paths() {
    with_frame(|fli, frame| {
        let tag = Atom::new(frame, "point");
        let x = Atom::new(frame, "x");

        // More keys than values.
        let values = frame.terms(fli, 1).unwrap();
        assert!(matches!(
            frame.term(fli).unwrap().put_dict(fli, &tag, &[&x, &x], &values),
            Err(TermError::DictLengthMismatch { keys: 2, values: 1 })
        ));

        // Dict operations on a non-dict are a type mismatch.
        let not_a_dict = frame.term(fli).unwrap();
        not_a_dict.put_i64(fli, 3).unwrap();
        assert!(matches!(
            not_a_dict.get_dict(frame, fli, &x),
            Err(TermError::TypeMismatch { .. })
        ));
        assert!(matches!(
            not_a_dict.dict_entries(frame, fli),
            Err(TermError::TypeMismatch { .. })
        ));
        assert!(matches!(
            not_a_dict.dict_tag(frame, fli),
            Err(TermError::TypeMismatch { .. })
        ));
    });
}

#[test]
fn dict_refuses_a_repeated_key_and_misses_an_absent_one() {
    with_frame(|fli, frame| {
        let tag = Atom::new(frame, "t");
        let k = Atom::new(frame, "k");
        let values = frame.terms(fli, 2).unwrap();
        let dict = frame.term(fli).unwrap();
        assert_eq!(
            dict.put_dict(fli, &tag, &[&k, &k], &values),
            Err(TermError::Exception(PrologException(
                "error(duplicate_key(k),_)".to_owned()
            )))
        );
        assert!(dict.is_variable(fli));

        put_text(fli, dict, "t{b: 2, a: 1}").unwrap();
        let absent = Atom::new(frame, "c");
        assert!(matches!(
            dict.get_dict(frame, fli, &absent),
            Err(TermError::TypeMismatch { expected: "a dict containing the key" })
        ));
    });
}

#[test]
fn scalar_roundtrips() {
    with_frame(|fli, frame| {
        let t = frame.term(fli).unwrap();
        assert!(t.is_variable(fli));
        assert_eq!(t.kind(fli), TermKind::Variable);

        t.put_i64(fli, -42).unwrap();
        assert_eq!(t.get_i64(fli).unwrap(), -42);
        assert_eq!(t.kind(fli), TermKind::Integer);

        t.put_u64(fli, u64::MAX).unwrap();
        assert_eq!(t.get_u64(fli).unwrap(), u64::MAX);

        t.put_float(fli, 2.5f64.to_bits(), "2.5").unwrap();
        assert_eq!(f64::from_bits(t.get_float(fli, None).unwrap()), 2.5);
        assert_eq!(t.kind(fli), TermKind::Float);
        t.put_i64(fli, 3).unwrap();
        assert_eq!(t.get_float(fli, Some(3f64.to_bits())), Ok(3f64.to_bits()));
        assert_eq!(
            t.get_float(fli, None),
            Err(TermError::TypeMismatch { expected: "a float" })
        );

        t.put_bool(fli, true).unwrap();
        assert!(t.get_bool(fli).unwrap());

        t.put_atom_text(fli, "hello world").unwrap();
        assert_eq!(t.get_text(fli).unwrap(), "hello world");
        assert_eq!(t.kind(fli), TermKind::Atom);

        t.put_string(fli, "a prolog string").unwrap();
        assert_eq!(t.get_text(fli).unwrap(), "a prolog string");
        assert_eq!(t.kind(fli), TermKind::String);

        t.put_nil(fli).unwrap();
        assert!(t.is_nil(fli));
        assert_eq!(t.kind(fli), TermKind::Nil);

        t.put_variable(fli).unwrap();
        assert!(t.is_variable(fli));
    });
}

#[test]
fn integers_outside_the_range_are_mismatches() {
    with_frame(|fli, frame| {
        let t = frame.term(fli).unwrap();
        t.put_u64(fli, u64::MAX).unwrap();
        assert_eq!(
            t.get_i64(fli),
            Err(TermError::TypeMismatch { expected: "an integer fitting i64" })
        );
        assert_eq!(t.get_text(fli).unwrap(), "18446744073709551615");
        t.put_i64(fli, i64::MIN).unwrap();
        assert_eq!(
            t.get_u64(fli),
            Err(TermError::TypeMismatch { expected: "an integer fitting u64" })
        );
        assert_eq!(t.get_text(fli).unwrap(), "-9223372036854775808");
    });
}

#[test]
fn atoms_and_put_term_copy() {
    with_frame(|fli, frame| {
        let atom = Atom::new(frame, "flurble");
        assert_eq!(atom.text(), "flurble");
        let cloned = atom.clone();

        let t = frame.term(fli).unwrap();
        t.put_atom(fli, &cloned).unwrap();
        assert_eq!(t.get_atom(fli).unwrap().text(), "flurble");

        let copy = frame.term(fli).unwrap();
        copy.put_term(fli, t).unwrap();
        assert_eq!(copy.get_text(fli).unwrap(), "flurble");
    });
}

#[test]
fn compound_construction_and_decomposition() {
    with_frame(|fli, frame| {
        let functor = Functor::from_name(frame, fli, "foo", 3).unwrap();
        let args = frame.terms(fli, 3).unwrap();
        for (index, term) in args.iter().iter().enumerate() {
            term.put_i64(fli, index as i64 + 1).unwrap();
        }

        let t = frame.term(fli).unwrap();
        t.cons_functor(fli, &functor, &args).unwrap();
        assert_eq!(t.kind(fli), TermKind::Compound);

        let (name, arity) = t.name_arity(fli).unwrap();
        assert_eq!(name.text(), "foo");
        assert_eq!(arity, 3);
        assert_eq!(t.get_arg(frame, fli, 1).unwrap().get_i64(fli).unwrap(), 2);
        assert_eq!(render(fli, t), "foo(1,2,3)");

        let wrong_args = frame.terms(fli, 2).unwrap();
        assert!(matches!(
            t.cons_functor(fli, &functor, &wrong_args),
            Err(TermError::ArityMismatch {
                expected: 3,
                actual: 2
            })
        ));
    });
}

#[test]
fn compound_arguments_reject_an_unrepresentable_index() {
    with_frame(|fli, frame| {
        let term = frame.term(fli).unwrap();
        put_text(fli, term, "f(x)").unwrap();

        assert!(matches!(
            term.get_arg(frame, fli, usize::MAX),
            Err(TermError::ArgumentIndexOutOfRange { index: usize::MAX })
        ));
    });
}

#[test]
fn get_functor_yields_a_reusable_handle() {
    with_frame(|fli, frame| {
        let source = frame.term(fli).unwrap();
        put_text(fli, source, "foo(1, 2, 3)").unwrap();

        let functor = source.get_functor(fli).unwrap();
        assert_eq!(functor.arity(), 3);

        // The handle rebuilds an equivalent compound.
        let args = frame.terms(fli, 3).unwrap();
        for (index, term) in args.iter().iter().enumerate() {
            term.put_i64(fli, index as i64 + 4).unwrap();
        }
        let rebuilt = frame.term(fli).unwrap();
        rebuilt.cons_functor(fli, &functor, &args).unwrap();
        assert_eq!(render(fli, rebuilt), "foo(4,5,6)");

        // An atom is its own arity-0 functor.
        let atom = frame.term(fli).unwrap();
        atom.put_atom_text(fli, "bar").unwrap();
        assert_eq!(atom.get_functor(fli).unwrap().arity(), 0);

        // A non-callable term (an integer) has no functor.
        let number = frame.term(fli).unwrap();
        number.put_i64(fli, 7).unwrap();
        assert!(matches!(
            number.get_functor(fli),
            Err(TermError::TypeMismatch { .. })
        ));
    });
}

#[test]
fn list_construction_and_traversal() {
    with_frame(|fli, frame| {
        // Build [1, 2, 3] back to front.
        let mut tail = frame.term(fli).unwrap();
        tail.put_nil(fli).unwrap();
        for value in [3, 2, 1] {
            let head = frame.term(fli).unwrap();
            head.put_i64(fli, value).unwrap();
            let cell = frame.term(fli).unwrap();
            cell.cons_list(fli, head, tail).unwrap();
            tail = cell;
        }
        assert_eq!(tail.kind(fli), TermKind::ListPair);

        let mut seen = Vec::new();
        let mut cursor = tail;
        while !cursor.is_nil(fli) {
            let (head, rest) = cursor.get_list(frame, fli).unwrap();
            seen.push(head.get_i64(fli).unwrap());
            cursor = rest;
        }
        assert_eq!(seen, [1, 2, 3]);
    });
}

#[test]
fn parse_from_text() {
    with_frame(|fli, frame| {
        let t = frame.term(fli).unwrap();
        put_text(fli, t, "foo(bar, 1+2)").unwrap();
        let (name, arity) = t.name_arity(fli).unwrap();
        assert_eq!(name.text(), "foo");
        assert_eq!(arity, 2);

        let malformed = frame.term(fli).unwrap();
        let error = put_text(fli, malformed, "foo(").unwrap_err();
        assert!(
            matches!(error, TermError::Exception(_)),
            "syntax error should surface as an exception, got: {error:?}"
        );

        // The exception was cleared: the engine remains usable.
        let ok = frame.term(fli).unwrap();
        ok.put_i64(fli, 1).unwrap();
        assert_eq!(ok.get_i64(fli).unwrap(), 1);
    });
}

#[test]
fn type_mismatch_is_not_an_exception() {
    with_frame(|fli, frame| {
        let t = frame.term(fli).unwrap();
        t.put_atom_text(fli, "not_a_number").unwrap();
        assert!(matches!(t.get_i64(fli), Err(TermError::TypeMismatch { .. })));
        // get_text on a compound is also a type mismatch...
        put_text(fli, t, "f(x)").unwrap();
        assert!(matches!(t.get_text(fli), Err(TermError::TypeMismatch { .. })));
        // ...but write_to_string renders it.
        assert_eq!(render(fli, t), "f(x)");
    });
}

#[test]
fn unification_and_frame_data_lifetimes() {
    with_frame(|fli, outer| {
        // unify: variable-atom succeeds, distinct integers fail cleanly.
        let one = outer.term(fli).unwrap();
        one.put_i64(fli, 1).unwrap();
        let two = outer.term(fli).unwrap();
        two.put_i64(fli, 2).unwrap();
        assert!(!unify(fli, one, two).unwrap());

        // A binding made inside a closed frame survives.
        let kept = outer.term(fli).unwrap();
        outer
            .with_frame(fli, |fli, inner| {
                let value = inner.term(fli).unwrap();
                value.put_atom_text(fli, "kept").unwrap();
                assert!(unify(fli, kept, value).unwrap());
            })
            .unwrap();
        assert_eq!(kept.get_text(fli).unwrap(), "kept");

        // A binding made inside a discarded frame is undone.
        let lost = outer.term(fli).unwrap();
        let error = outer
            .try_with_frame(fli, |fli, inner| {
                let value = inner.term(fli).unwrap();
                value.put_atom_text(fli, "lost").unwrap();
                assert!(unify(fli, lost, value).unwrap());
                Err::<(), _>("discard")
            })
            .unwrap_err();
        assert!(matches!(error, ScopedCallError::Body("discard")));
        assert!(lost.is_variable(fli));
    });
}

#[test]
fn frames_commit_success_and_roll_back_failure() {
    with_engine(|fli, ctx| {
        let kept = ctx.term(fli).unwrap();
        ctx.with_frame(fli, |fli, frame| {
            let value = frame.term(fli).unwrap();
            value.put_atom_text(fli, "kept").unwrap();
            assert!(unify(fli, kept, value).unwrap());
        })
        .unwrap();
        assert_eq!(kept.get_text(fli).unwrap(), "kept");

        let failed = ctx.term(fli).unwrap();
        let error = ctx
            .try_with_frame(fli, |fli, frame| {
                let value = frame.term(fli).unwrap();
                value.put_atom_text(fli, "failed").unwrap();
                assert!(unify(fli, failed, value).unwrap());
                Err::<(), _>("body failed")
            })
            .unwrap_err();
        assert!(matches!(error, ScopedCallError::Body("body failed")));
        assert!(failed.is_variable(fli));

        // A frame that is let go of is discarded.
        let dropped = ctx.term(fli).unwrap();
        let frame = ctx.frame(fli).unwrap();
        let value = frame.term(fli).unwrap();
        value.put_atom_text(fli, "dropped").unwrap();
        assert!(unify(fli, dropped, value).unwrap());
        assert!(frame.abandon(fli));
        assert!(dropped.is_variable(fli));
    });
}

#[test]
fn frames_report_why_they_were_not_opened() {
    with_engine(|fli, ctx| {
        fli.answer(Verdict::Refuse);
        assert_eq!(ctx.with_frame(fli, |_, _| ()), Err(FrameError::OpenFailed));
        fli.answer(Verdict::Raise(PrologException("no room".to_owned())));
        assert_eq!(
            ctx.with_frame(fli, |_, _| ()),
            Err(FrameError::Exception(PrologException("no room".to_owned())))
        );
        assert_eq!(ctx.with_frame(fli, |_, _| 5), Ok(5));
    });
}

#[test]
fn rewind_frees_references_and_bindings() {
    with_engine(|fli, ctx| {
        let mut frame = ctx.frame(fli).unwrap();
        let t = frame.term(fli).unwrap();
        t.put_i64(fli, 7).unwrap();
        assert_eq!(t.get_i64(fli).unwrap(), 7);
        frame.rewind(fli);
        let fresh = frame.term(fli).unwrap();
        assert!(fresh.is_variable(fli));
        frame.close(fli);
    });
}

#[test]
fn only_the_innermost_context_allocates_and_closes() {
    with_engine(|fli, ctx| {
        let outer = ctx.frame(fli).unwrap();
        assert!(!is_innermost(fli, place(ctx)));
        assert!(is_innermost(fli, place(&outer)));
        let depth = place(ctx).depth;
        assert!(is_closable(fli, 1, depth));
        let inner = outer.frame(fli).unwrap();
        assert!(!is_closable(fli, 1, depth));
        assert!(!is_innermost(fli, place(&outer)));
        inner.close(fli);
        assert!(is_innermost(fli, place(&outer)));
        outer.close(fli);
        assert!(is_innermost(fli, place(ctx)));
    });
}

#[test]
fn an_abandoned_outer_frame_stays_open() {
    with_engine(|fli, ctx| {
        let outer = ctx.frame(fli).unwrap();
        let witness_depth = fli.activation().depth;
        let inner = outer.frame(fli).unwrap();
        let inner_place = place(&inner);
        drop(inner);
        assert!(!outer.abandon(fli));
        assert_eq!(fli.activation().depth, witness_depth + 1);
        assert_eq!(inner_place.depth, witness_depth + 1);
    });
}

#[test]
fn term_list_get_returns_none_out_of_bounds() {
    with_frame(|fli, frame| {
        let args = frame.terms(fli, 2).unwrap();
        assert!(args.get(0).is_some());
        assert!(args.get(1).is_some());
        assert!(args.get(2).is_none());
    });
}

/// A variable that is bound to one that was bound before stands for what that
/// one stands for.
#[test]
fn bindings_are_followed_to_their_end() {
    with_frame(|fli, frame| {
        let x = frame.term(fli).unwrap();
        let y = frame.term(fli).unwrap();
        let (x_id, y_id) = match (fli.value(x.as_raw()), fli.value(y.as_raw())) {
            (TermData::Var(a), TermData::Var(b)) => (*a, *b),
            _ => panic!("fresh terms are variables"),
        };
        let bindings = vec![
            (y_id, TermData::Integer(5)),
            (x_id, TermData::Var(y_id)),
            (y_id, TermData::Integer(6)),
        ];
        assert!(x
            .unify(fli, y, Unification { unified: true, bindings })
            .unwrap());
        assert_eq!(x.get_i64(fli).unwrap(), 5);
        assert_eq!(y.get_i64(fli).unwrap(), 5);
    });
}

/// Reading a tag allocates the two arguments of the call that it takes.
#[test]
fn reading_a_dict_tag_allocates_its_arguments() {
    with_frame(|fli, frame| {
        let dict = frame.term(fli).unwrap();
        let tag = Atom::new(frame, "point");
        let values = frame.terms(fli, 0).unwrap();
        dict.put_dict(fli, &tag, &[], &values).unwrap();
        let before = fli.refs_len();
        assert_eq!(dict.dict_tag(frame, fli).unwrap(), Some(tag));
        assert_eq!(fli.refs_len(), before + 2);
        assert!(matches!(fli.value(before), TermData::Dict(_, _)));
        assert!(matches!(fli.value(before + 1), TermData::Atom(name) if name == "point"));

        fli.answer(Verdict::Raise(PrologException("late".to_owned())));
        assert_eq!(
            dict.dict_tag(frame, fli),
            Err(TermError::Exception(PrologException("late".to_owned())))
        );
        let number = frame.term(fli).unwrap();
        number.put_i64(fli, 1).unwrap();
        let before = fli.refs_len();
        assert!(matches!(
            number.dict_tag(frame, fli),
            Err(TermError::TypeMismatch { expected: "a dict" })
        ));
        assert_eq!(fli.refs_len(), before);
    });
}
