use splint::codec::records::record_from_term;
use splint::data::{KeyData, TermData};
use splint::engine::EngineStatus;
use splint::exception::Verdict;
use splint::exchange::{Status, Step};
use splint::format::de::{args_sequence, Visit};
use splint::format::ser::ArgsSerializer;
use splint::format::Error;
use splint::query::{QueryFlags, Solver};
use splint::runtime::RuntimeState;
use splint::{
    from_terms, input, input_as, output, to_terms, ArgumentError, AttachedEngine, CallError,
    ContextArgs, Engine, Fli, FliContext, Frame, FromTerm, Functor, Module, Predicate,
    PrologException, Query, QueryError, QueryOptions, Record, Runtime, ScopedCallError, Term, TermCodecError, TermError, TermList,
};

fn runtime() -> Runtime {
    let mut state = RuntimeState::Uninitialized;
    Runtime::initialize(
        &mut state,
        &vec![b"splint-test".to_vec(), b"-q".to_vec()],
        |_| true,
    )
    .expect("runtime initialize failed")
}

/// Runs `body` with a fresh engine attached.
fn with_engine<R>(body: impl for<'a> FnOnce(&mut Fli, &'a AttachedEngine<'a>) -> R) -> R {
    let runtime = runtime();
    let mut fli = Fli::new();
    let mut engine = Engine::new(&runtime, true).expect("engine create failed");
    engine
        .with_attached(&mut fli, 1, EngineStatus::Current, body)
        .expect("attach failed")
}

/// Runs `body` in a frame of a fresh engine.
fn with_frame<R>(body: impl for<'a> FnOnce(&mut Fli, &'a Frame<'a>) -> R) -> R {
    with_engine(|fli, ctx| ctx.with_frame(fli, body).unwrap())
}

/// Reads the syntax of terms, as far as the tests below need it.
struct Reader<'a> {
    text: &'a [u8],
    at: usize,
    names: Vec<(String, usize)>,
}

impl Reader<'_> {
    fn peek(&mut self) -> u8 {
        while self.at < self.text.len() && self.text[self.at] == b' ' {
            self.at += 1;
        }
        if self.at < self.text.len() {
            self.text[self.at]
        } else {
            0
        }
    }

    fn take(&mut self, wanted: u8) -> Option<()> {
        if self.peek() == wanted {
            self.at += 1;
            Some(())
        } else {
            None
        }
    }

    fn word(&mut self) -> String {
        let start = self.at;
        while self.at < self.text.len()
            && (self.text[self.at].is_ascii_alphanumeric() || self.text[self.at] == b'_')
        {
            self.at += 1;
        }
        String::from_utf8(self.text[start..self.at].to_vec()).unwrap()
    }

    fn quoted(&mut self, quote: u8) -> Option<String> {
        let start = self.at;
        while self.at < self.text.len() && self.text[self.at] != quote {
            self.at += 1;
        }
        let inner = String::from_utf8(self.text[start..self.at].to_vec()).unwrap();
        self.take(quote)?;
        Some(inner)
    }

    fn variable(&mut self, fli: &mut Fli, name: String) -> TermData {
        if name != "_" {
            for (known, id) in &self.names {
                if *known == name {
                    return TermData::Var(*id);
                }
            }
        }
        let id = fli.new_var();
        self.names.push((name, id));
        TermData::Var(id)
    }

    fn items(&mut self, fli: &mut Fli, end: u8) -> Option<Vec<TermData>> {
        let mut items = vec![self.term(fli)?];
        while self.take(b',').is_some() {
            items.push(self.term(fli)?);
        }
        self.take(end)?;
        Some(items)
    }

    fn entries(&mut self, fli: &mut Fli) -> Option<Vec<(KeyData, TermData)>> {
        let mut entries = Vec::new();
        if self.take(b'}').is_some() {
            return Some(entries);
        }
        loop {
            self.peek();
            let key = self.word();
            self.take(b':')?;
            let value = self.term(fli)?;
            entries.push(match key.parse::<i64>() {
                Ok(number) => (KeyData::Int(number), value),
                Err(_) => (KeyData::Atom(key), value),
            });
            if self.take(b'}').is_some() {
                return Some(entries);
            }
            self.take(b',')?;
        }
    }

    fn primary(&mut self, fli: &mut Fli) -> Option<TermData> {
        let first = self.peek();
        let atom = match first {
            b'"' => {
                self.at += 1;
                return Some(TermData::String(self.quoted(b'"')?));
            }
            b'[' => {
                self.at += 1;
                if self.take(b']').is_some() {
                    return Some(TermData::Nil);
                }
                let mut items = vec![self.term(fli)?];
                while self.take(b',').is_some() {
                    items.push(self.term(fli)?);
                }
                let mut list = if self.take(b'|').is_some() {
                    self.term(fli)?
                } else {
                    TermData::Nil
                };
                self.take(b']')?;
                while let Some(item) = items.pop() {
                    list = TermData::Pair(Box::new(item), Box::new(list));
                }
                return Some(list);
            }
            b'\'' => {
                self.at += 1;
                TermData::Atom(self.quoted(b'\'')?)
            }
            b'-' | b'0'..=b'9' => {
                let negative = self.take(b'-').is_some();
                let digits = self.word();
                if digits.contains('r') {
                    return Some(TermData::Rational(digits));
                }
                let value: i128 = digits.parse().ok()?;
                return Some(TermData::Integer(if negative { -value } else { value }));
            }
            b'_' | b'A'..=b'Z' => {
                let name = self.word();
                self.variable(fli, name)
            }
            b'a'..=b'z' => TermData::Atom(self.word()),
            _ => return None,
        };
        let open = if self.at < self.text.len() {
            self.text[self.at]
        } else {
            0
        };
        match (atom, open) {
            (TermData::Atom(name), b'(') => {
                self.at += 1;
                Some(TermData::Compound(name, self.items(fli, b')')?))
            }
            (tag, b'{') => {
                self.at += 1;
                Some(TermData::Dict(Box::new(tag), self.entries(fli)?))
            }
            (other, _) => Some(other),
        }
    }

    fn term(&mut self, fli: &mut Fli) -> Option<TermData> {
        let left = self.primary(fli)?;
        if self.take(b'+').is_some() {
            let right = self.term(fli)?;
            return Some(TermData::Compound("+".to_owned(), vec![left, right]));
        }
        Some(left)
    }
}

/// Parses a text into `term`, raising a syntax error where it is malformed.
fn put_text(fli: &mut Fli, term: Term<'_>, text: &str) -> Result<(), TermError> {
    let mut reader = Reader {
        text: text.as_bytes(),
        at: 0,
        names: Vec::new(),
    };
    let parsed = reader.term(fli);
    match parsed {
        Some(data) if reader.peek() == 0 => term.put_term_from_text(fli, data),
        _ => {
            fli.answer(Verdict::Raise(PrologException(
                "error(syntax_error(cannot_start_term),_)".to_owned(),
            )));
            term.put_term_from_text(fli, TermData::Nil)
        }
    }
}

/// Writes terms the way `writeq/1` does, as far as the tests below need it.
fn show(fli: &Fli, data: &TermData) -> String {
    let atom = |name: &String| {
        let plain = name.starts_with(|c: char| c.is_ascii_lowercase())
            && name.chars().all(|c| c.is_ascii_alphanumeric() || c == '_');
        if plain || name == "#" {
            name.clone()
        } else {
            format!("'{name}'")
        }
    };
    match fli.resolved(data).0 {
        TermData::Var(id) => format!("_{id}"),
        TermData::Atom(name) => atom(name),
        TermData::Integer(value) => value.to_string(),
        TermData::BigInteger(digits) => digits.clone(),
        TermData::Rational(text) | TermData::Float(_, text) | TermData::Blob(text) => text.clone(),
        TermData::String(text) => format!("{text:?}"),
        TermData::Nil => "[]".to_owned(),
        TermData::Pair(head, tail) => format!("[{}|{}]", show(fli, head), show(fli, tail)),
        TermData::Compound(name, args) => {
            let shown: Vec<String> = args.iter().map(|arg| show(fli, arg)).collect();
            format!("{}({})", atom(name), shown.join(","))
        }
        TermData::Dict(tag, entries) => {
            let shown: Vec<String> = entries
                .iter()
                .map(|(key, value)| {
                    let key = match key {
                        KeyData::Atom(name) => atom(name),
                        KeyData::Int(number) => number.to_string(),
                    };
                    format!("{key}:{}", show(fli, value))
                })
                .collect();
            format!("{}{{{}}}", show(fli, tag), shown.join(","))
        }
    }
}

/// Unifies two terms, collecting the bindings.
fn unify_data(
    fli: &Fli,
    bindings: &mut Vec<(usize, TermData)>,
    a: &TermData,
    b: &TermData,
) -> bool {
    let follow = |data: &TermData, bindings: &Vec<(usize, TermData)>| -> TermData {
        let mut now = fli.resolved(data).0.copy();
        while let TermData::Var(id) = now {
            match bindings.iter().find(|(bound, _)| *bound == id) {
                Some((_, value)) => now = fli.resolved(value).0.copy(),
                None => break,
            }
        }
        now
    };
    let left = follow(a, bindings);
    let right = follow(b, bindings);
    match (&left, &right) {
        (TermData::Var(x), TermData::Var(y)) if x == y => true,
        (TermData::Var(x), _) => {
            bindings.push((*x, right.copy()));
            true
        }
        (_, TermData::Var(y)) => {
            bindings.push((*y, left.copy()));
            true
        }
        (TermData::Pair(h1, t1), TermData::Pair(h2, t2)) => {
            unify_data(fli, bindings, h1, h2) && unify_data(fli, bindings, t1, t2)
        }
        (TermData::Compound(n1, a1), TermData::Compound(n2, a2)) => {
            n1 == n2
                && a1.len() == a2.len()
                && a1.iter().zip(a2.iter()).all(|(x, y)| unify_data(fli, bindings, x, y))
        }
        (x, y) => format!("{x:?}") == format!("{y:?}"),
    }
}

/// Knows a few built-in predicates.
struct Facts {
    found: Vec<Vec<(usize, TermData)>>,
    next: usize,
    thrown: Option<PrologException>,
}

impl Facts {
    fn new() -> Facts {
        Facts {
            found: Vec::new(),
            next: 0,
            thrown: None,
        }
    }

    /// The solutions that make each argument one of the given values.
    fn offer(&mut self, fli: &Fli, args: &TermList<'_>, rows: Vec<Vec<TermData>>) {
        let start = args.as_raw();
        for row in rows {
            let mut bindings = Vec::new();
            let fits = row.iter().enumerate().all(|(index, value)| {
                unify_data(fli, &mut bindings, fli.held(start + index), value)
            });
            if fits {
                self.found.push(bindings);
            }
        }
    }
}

fn integer(data: &TermData) -> Option<i128> {
    match data {
        TermData::Integer(value) => Some(*value),
        _ => None,
    }
}

impl Solver for Facts {
    fn open(
        &mut self,
        fli: &Fli,
        predicate: &Predicate,
        args: &TermList<'_>,
        _flags: QueryFlags,
    ) -> Verdict {
        self.found = Vec::new();
        self.next = 0;
        self.thrown = None;
        let value = |index: usize| fli.value(args.as_raw() + index).copy();
        match predicate.name().text().as_str() {
            "true" => self.found.push(Vec::new()),
            "succ" => {
                if let Some(low) = integer(&value(0)) {
                    self.offer(
                        fli,
                        args,
                        vec![vec![TermData::Integer(low), TermData::Integer(low + 1)]],
                    );
                }
            }
            "between" => {
                if let (Some(low), Some(high)) = (integer(&value(0)), integer(&value(1))) {
                    let rows = (low..=high)
                        .map(|each| {
                            vec![
                                TermData::Integer(low),
                                TermData::Integer(high),
                                TermData::Integer(each),
                            ]
                        })
                        .collect();
                    self.offer(fli, args, rows);
                }
            }
            "member" => {
                let list = value(1);
                let mut rows = Vec::new();
                let mut rest = list.copy();
                while let TermData::Pair(head, tail) = rest {
                    rows.push(vec![*head, list.copy()]);
                    rest = fli.resolved(&tail).0.copy();
                }
                self.offer(fli, args, rows);
            }
            "string_length" => {
                if let TermData::String(text) = value(0) {
                    let length = text.chars().count() as i128;
                    self.offer(
                        fli,
                        args,
                        vec![vec![TermData::String(text), TermData::Integer(length)]],
                    );
                }
            }
            "nonvar" => {
                if !matches!(value(0), TermData::Var(_)) {
                    self.found.push(Vec::new());
                }
            }
            "throw" => self.thrown = Some(PrologException(show(fli, fli.held(args.as_raw())))),
            _ => {}
        }
        Verdict::Grant
    }

    fn next(&mut self, _fli: &Fli) -> Step {
        if let Some(exception) = self.thrown.take() {
            return Step {
                status: Status::Exception {
                    code: -1,
                    exception: Some(exception),
                },
                bindings: Vec::new(),
                vars: 0,
            };
        }
        if self.next >= self.found.len() {
            return Step {
                status: Status::False,
                bindings: Vec::new(),
                vars: 0,
            };
        }
        let bindings = std::mem::take(&mut self.found[self.next]);
        self.next += 1;
        let status = if self.next == self.found.len() {
            Status::Last
        } else {
            Status::True
        };
        Step {
            status,
            bindings,
            vars: 0,
        }
    }

    fn cut(&mut self, _fli: &Fli) -> Verdict {
        Verdict::Grant
    }

    fn close(&mut self, _fli: &Fli) -> Verdict {
        Verdict::Grant
    }
}

fn predicate(ctx: &impl FliContext, fli: &mut Fli, name: &str, arity: usize) -> Predicate {
    Predicate::from_name(ctx, fli, name, arity, None).unwrap()
}

#[test]
fn deterministic_query_binds_output() {
    with_frame(|fli, frame| {
        let mut facts = Facts::new();
        let succ = predicate(frame, fli, "succ", 2);
        let args = frame.terms(fli, 2).unwrap();
        args.get(0).unwrap().put_i64(fli, 1).unwrap();

        let found = Query::once(
            frame,
            fli,
            &mut facts,
            &succ,
            &args,
            QueryOptions::default(),
            |_, _| (),
        )
        .unwrap()
        .is_some();
        assert!(found);
        assert_eq!(args.get(1).unwrap().get_i64(fli).unwrap(), 2);
    });
}

#[test]
fn query_once_commits_a_solution_and_reports_no_solution() {
    with_frame(|fli, frame| {
        let mut facts = Facts::new();
        let succ = predicate(frame, fli, "succ", 2);
        let args = frame.terms(fli, 2).unwrap();
        args.get(0).unwrap().put_i64(fli, 8).unwrap();

        let value = Query::once(
            frame,
            fli,
            &mut facts,
            &succ,
            &args,
            QueryOptions::default(),
            |fli, _| args.get(1).unwrap().get_i64(fli).unwrap(),
        )
        .unwrap();
        assert_eq!(value, Some(9));
        assert_eq!(args.get(1).unwrap().get_i64(fli).unwrap(), 9);

        let fail = predicate(frame, fli, "fail", 0);
        let no_args = frame.terms(fli, 0).unwrap();
        let value = Query::once(
            frame,
            fli,
            &mut facts,
            &fail,
            &no_args,
            QueryOptions::default(),
            |_, _| 1,
        )
        .unwrap();
        assert_eq!(value, None);
    });
}

#[test]
fn try_once_rolls_back_a_body_error() {
    with_frame(|fli, frame| {
        let mut facts = Facts::new();
        let succ = predicate(frame, fli, "succ", 2);
        let args = frame.terms(fli, 2).unwrap();
        args.get(0).unwrap().put_i64(fli, 8).unwrap();

        let error = Query::try_once(
            frame,
            fli,
            &mut facts,
            &succ,
            &args,
            QueryOptions::default(),
            |_, _| Err::<(), _>("reject solution"),
        )
        .unwrap_err();
        assert!(matches!(error, ScopedCallError::Body("reject solution")));
        assert!(args.get(1).unwrap().is_variable(fli));
    });
}

#[test]
fn nondeterministic_query_enumerates_solutions() {
    with_frame(|fli, frame| {
        let mut facts = Facts::new();
        let member = predicate(frame, fli, "member", 2);
        let args = frame.terms(fli, 2).unwrap();
        put_text(fli, args.get(1).unwrap(), "[a, b, c]").unwrap();

        let mut seen = Vec::new();
        let mut solutions = Query::solutions(
            frame,
            fli,
            &mut facts,
            &member,
            &args,
            QueryOptions::default(),
        )
        .unwrap();
        while let Some(found) = solutions.next(fli, &mut facts, |fli, _| {
            args.get(0).unwrap().get_text(fli).unwrap()
        }) {
            seen.push(found.unwrap());
        }
        assert_eq!(seen, ["a", "b", "c"]);
    });
}

#[test]
fn solution_iterator_maps_owned_values_and_closes_on_exhaustion() {
    with_frame(|fli, frame| {
        let mut facts = Facts::new();
        let member = predicate(frame, fli, "member", 2);
        let args = frame.terms(fli, 2).unwrap();
        put_text(fli, args.get(1).unwrap(), "[f(1), f(2), f(3)]").unwrap();

        let mut values = Vec::new();
        let mut solutions = Query::solutions(
            frame,
            fli,
            &mut facts,
            &member,
            &args,
            QueryOptions::default(),
        )
        .unwrap();
        while let Some(found) = solutions.next(fli, &mut facts, |fli, solution| {
            args.get(0)
                .unwrap()
                .get_arg(solution, fli, 0)
                .unwrap()
                .get_i64(fli)
                .unwrap()
        }) {
            values.push(found.unwrap());
        }
        assert_eq!(values, [1, 2, 3]);
        assert!(args.get(0).unwrap().is_variable(fli));
        // The query was closed, so the frame is the innermost scope again.
        assert!(frame.term(fli).is_ok());
    });
}

#[test]
fn solution_iterator_rolls_back_on_drop_and_can_cut_explicitly() {
    with_frame(|fli, frame| {
        let mut facts = Facts::new();
        let member = predicate(frame, fli, "member", 2);

        let rolled_back = frame.terms(fli, 2).unwrap();
        put_text(fli, rolled_back.get(1).unwrap(), "[a, b]").unwrap();
        let mut solutions = Query::solutions(
            frame,
            fli,
            &mut facts,
            &member,
            &rolled_back,
            QueryOptions::default(),
        )
        .unwrap();
        assert!(solutions.next(fli, &mut facts, |_, _| ()).unwrap().is_ok());
        solutions.close(fli, &mut facts).unwrap();
        assert!(rolled_back.get(0).unwrap().is_variable(fli));

        let kept = frame.terms(fli, 2).unwrap();
        put_text(fli, kept.get(1).unwrap(), "[a, b]").unwrap();
        let mut solutions = Query::solutions(
            frame,
            fli,
            &mut facts,
            &member,
            &kept,
            QueryOptions::default(),
        )
        .unwrap();
        assert!(solutions.next(fli, &mut facts, |_, _| ()).unwrap().is_ok());
        solutions.cut(fli, &mut facts).unwrap();
        assert_eq!(kept.get(0).unwrap().get_text(fli).unwrap(), "a");
    });
}

#[test]
fn try_solution_iterator_rolls_back_mapper_errors() {
    with_frame(|fli, frame| {
        let mut facts = Facts::new();
        let member = predicate(frame, fli, "member", 2);
        let args = frame.terms(fli, 2).unwrap();
        put_text(fli, args.get(1).unwrap(), "[a, b]").unwrap();

        let mut solutions = Query::try_solutions(
            frame,
            fli,
            &mut facts,
            &member,
            &args,
            QueryOptions::default(),
        )
        .unwrap();
        let error = solutions
            .next(fli, &mut facts, |_, _| Err::<(), _>("reject solution"))
            .unwrap()
            .unwrap_err();
        assert!(matches!(error, ScopedCallError::Body("reject solution")));
        assert!(solutions
            .next(fli, &mut facts, |_, _| Err::<(), _>("reject solution"))
            .is_none());
        assert!(args.get(0).unwrap().is_variable(fli));
    });
}

#[test]
fn query_is_a_scope_for_solution_inspection() {
    with_frame(|fli, frame| {
        let mut facts = Facts::new();
        let member = predicate(frame, fli, "member", 2);
        let args = frame.terms(fli, 2).unwrap();
        put_text(fli, args.get(1).unwrap(), "[f(1), f(2)]").unwrap();

        let mut seen = Vec::new();
        let mut solutions = Query::solutions(
            frame,
            fli,
            &mut facts,
            &member,
            &args,
            QueryOptions::default(),
        )
        .unwrap();
        while let Some(found) = solutions.next(fli, &mut facts, |fli, solution| {
            // Scratch references for decomposing the solution come from the
            // query itself, the innermost scope while it is open.
            let arg = args.get(0).unwrap().get_arg(solution, fli, 0).unwrap();
            arg.get_i64(fli).unwrap()
        }) {
            seen.push(found.unwrap());
        }
        assert_eq!(seen, [1, 2]);
    });
}

#[test]
fn cut_keeps_bindings_close_discards_them() {
    with_frame(|fli, frame| {
        let mut facts = Facts::new();
        let succ = predicate(frame, fli, "succ", 2);

        let cut_args = frame.terms(fli, 2).unwrap();
        cut_args.get(0).unwrap().put_i64(fli, 4).unwrap();
        assert!(Query::once(
            frame,
            fli,
            &mut facts,
            &succ,
            &cut_args,
            QueryOptions::default(),
            |_, _| ()
        )
        .unwrap()
        .is_some());
        assert_eq!(cut_args.get(1).unwrap().get_i64(fli).unwrap(), 5);

        let close_args = frame.terms(fli, 2).unwrap();
        close_args.get(0).unwrap().put_i64(fli, 4).unwrap();
        let mut solutions = Query::solutions(
            frame,
            fli,
            &mut facts,
            &succ,
            &close_args,
            QueryOptions::default(),
        )
        .unwrap();
        assert!(solutions.next(fli, &mut facts, |_, _| ()).unwrap().is_ok());
        solutions.close(fli, &mut facts).unwrap();
        assert!(close_args.get(1).unwrap().is_variable(fli));
    });
}

#[test]
fn thrown_exception_is_captured_and_cleared() {
    with_frame(|fli, frame| {
        let mut facts = Facts::new();
        let throw = predicate(frame, fli, "throw", 1);
        let args = frame.terms(fli, 1).unwrap();
        put_text(fli, args.get(0).unwrap(), "my_error(42)").unwrap();

        let error = Query::once(
            frame,
            fli,
            &mut facts,
            &throw,
            &args,
            QueryOptions::default(),
            |_, _| (),
        )
        .unwrap_err();
        match &error {
            QueryError::Exception(exception) => {
                assert!(
                    exception.0.contains("my_error(42)"),
                    "exception text should contain the thrown term, got: {}",
                    exception.0,
                );
            }
            other => panic!("expected an exception, got: {other:?}"),
        }

        // The exception was cleared: the engine remains usable.
        let t = frame.term(fli).unwrap();
        t.put_i64(fli, 1).unwrap();
        assert_eq!(t.get_i64(fli).unwrap(), 1);
    });
}

#[test]
fn predicate_via_functor_and_module() {
    with_frame(|fli, frame| {
        let mut facts = Facts::new();
        let module = Module::from_name(frame, "user");
        let functor = Functor::from_name(frame, fli, "succ", 2).unwrap();
        let succ = Predicate::new(frame, fli, &functor, &module).unwrap();

        let args = frame.terms(fli, 2).unwrap();
        args.get(0).unwrap().put_i64(fli, 7).unwrap();
        assert!(Query::once(
            frame,
            fli,
            &mut facts,
            &succ,
            &args,
            QueryOptions::default(),
            |_, _| ()
        )
        .unwrap()
        .is_some());
        assert_eq!(args.get(1).unwrap().get_i64(fli).unwrap(), 8);
    });
}

#[test]
fn query_arity_mismatch_is_rejected() {
    with_frame(|fli, frame| {
        let mut facts = Facts::new();
        let succ = predicate(frame, fli, "succ", 2);
        let args = frame.terms(fli, 1).unwrap();
        assert!(matches!(
            Query::once(
                frame,
                fli,
                &mut facts,
                &succ,
                &args,
                QueryOptions::default(),
                |_, _| ()
            ),
            Err(QueryError::ArityMismatch {
                expected: 2,
                actual: 1
            })
        ));
    });
}

/// Answers every exchange as it is told to.
struct Script {
    open: Verdict,
    steps: Vec<Status>,
    end: Verdict,
    ended: Vec<bool>,
}

impl Script {
    fn new(open: Verdict, steps: Vec<Status>, end: Verdict) -> Script {
        Script {
            open,
            steps,
            end,
            ended: Vec::new(),
        }
    }
}

impl Solver for Script {
    fn open(
        &mut self,
        _fli: &Fli,
        _predicate: &Predicate,
        _args: &TermList<'_>,
        flags: QueryFlags,
    ) -> Verdict {
        assert!(flags.ext_status && flags.catch_exception);
        self.open.clone()
    }

    fn next(&mut self, _fli: &Fli) -> Step {
        Step {
            status: self.steps.remove(0),
            bindings: Vec::new(),
            vars: 0,
        }
    }

    fn cut(&mut self, _fli: &Fli) -> Verdict {
        self.ended.push(true);
        self.end.clone()
    }

    fn close(&mut self, _fli: &Fli) -> Verdict {
        self.ended.push(false);
        self.end.clone()
    }
}

fn raise(text: &str) -> Verdict {
    Verdict::Raise(PrologException(text.to_owned()))
}

#[test]
fn queries_report_every_failure_of_the_engine() {
    with_frame(|fli, frame| {
        let goal = predicate(frame, fli, "goal", 0);
        let args = frame.terms(fli, 0).unwrap();
        let mut options = QueryOptions::default();
        options.nodebug = true;

        let mut refused = Script::new(Verdict::Refuse, Vec::new(), Verdict::Grant);
        assert!(matches!(
            Query::once(frame, fli, &mut refused, &goal, &args, options, |_, _| ()),
            Err(QueryError::OpenFailed)
        ));
        assert!(refused.ended.is_empty());

        let mut raising = Script::new(raise("at open"), Vec::new(), Verdict::Grant);
        assert!(matches!(
            Query::once(frame, fli, &mut raising, &goal, &args, options, |_, _| ()),
            Err(QueryError::Exception(e)) if e.0 == "at open"
        ));

        let mut odd = Script::new(Verdict::Grant, vec![Status::Other(77)], Verdict::Grant);
        assert!(matches!(
            Query::once(frame, fli, &mut odd, &goal, &args, options, |_, _| ()),
            Err(QueryError::Unknown(77))
        ));
        assert_eq!(odd.ended, [false]);

        let mut lost = Script::new(
            Verdict::Grant,
            vec![Status::Exception {
                code: -1,
                exception: None,
            }],
            Verdict::Grant,
        );
        assert!(matches!(
            Query::once(frame, fli, &mut lost, &goal, &args, options, |_, _| ()),
            Err(QueryError::Unknown(-1))
        ));

        let mut twice = Script::new(Verdict::Grant, vec![Status::Other(5)], raise("at close"));
        match Query::once(frame, fli, &mut twice, &goal, &args, options, |_, _| ()) {
            Err(QueryError::OperationAndCleanup { operation, cleanup }) => {
                assert!(matches!(*operation, QueryError::Unknown(5)));
                assert!(matches!(*cleanup, QueryError::Exception(e) if e.0 == "at close"));
            }
            other => panic!("expected both errors, got: {other:?}"),
        }

        let mut kept = Script::new(Verdict::Grant, vec![Status::Last], Verdict::Grant);
        assert!(matches!(
            Query::once(frame, fli, &mut kept, &goal, &args, options, |_, _| 3),
            Ok(Some(3))
        ));
        assert_eq!(kept.ended, [true]);
    });
}

#[test]
fn a_body_error_is_kept_when_closing_fails_too() {
    with_frame(|fli, frame| {
        let goal = predicate(frame, fli, "goal", 0);
        let args = frame.terms(fli, 0).unwrap();
        let mut script = Script::new(Verdict::Grant, vec![Status::True], raise("at close"));
        let error = Query::try_once(
            frame,
            fli,
            &mut script,
            &goal,
            &args,
            QueryOptions::default(),
            |_, _| Err::<(), _>("body"),
        )
        .unwrap_err();
        assert!(matches!(
            error,
            ScopedCallError::BodyAndCleanup {
                body: "body",
                cleanup: QueryError::Exception(_)
            }
        ));
        assert_eq!(script.ended, [false]);
    });
}

#[test]
fn an_exhausted_query_asks_the_engine_no_further() {
    with_frame(|fli, frame| {
        let goal = predicate(frame, fli, "goal", 0);
        let args = frame.terms(fli, 0).unwrap();
        let mut script = Script::new(Verdict::Grant, vec![Status::Last], Verdict::Grant);
        let mut solutions = Query::solutions(
            frame,
            fli,
            &mut script,
            &goal,
            &args,
            QueryOptions::default(),
        )
        .unwrap();
        assert!(solutions.next(fli, &mut script, |_, _| ()).unwrap().is_ok());
        // The script holds no second step: asking for one would panic.
        assert!(solutions.next(fli, &mut script, |_, _| ()).is_none());
        assert!(solutions.next(fli, &mut script, |_, _| ()).is_none());
        assert_eq!(script.ended, [false]);
        solutions.cut(fli, &mut script).unwrap();
        assert_eq!(script.ended, [false]);
    });
}

/// Binds the only argument to a list of two new variables.
struct Pairs;

impl Solver for Pairs {
    fn open(
        &mut self,
        _fli: &Fli,
        _predicate: &Predicate,
        _args: &TermList<'_>,
        _flags: QueryFlags,
    ) -> Verdict {
        Verdict::Grant
    }

    fn next(&mut self, fli: &Fli) -> Step {
        let next = fli.var_count();
        let pair = TermData::Pair(
            Box::new(TermData::Var(next)),
            Box::new(TermData::Pair(
                Box::new(TermData::Var(next + 1)),
                Box::new(TermData::Nil),
            )),
        );
        Step {
            status: Status::Last,
            bindings: vec![(0, pair)],
            vars: 2,
        }
    }

    fn cut(&mut self, _fli: &Fli) -> Verdict {
        Verdict::Grant
    }

    fn close(&mut self, _fli: &Fli) -> Verdict {
        Verdict::Grant
    }
}

#[test]
fn solutions_can_bring_new_variables() {
    with_frame(|fli, frame| {
        let goal = predicate(frame, fli, "length", 1);
        let args = frame.terms(fli, 1).unwrap();
        let list = args.get(0).unwrap();
        Query::once(
            frame,
            fli,
            &mut Pairs,
            &goal,
            &args,
            QueryOptions::default(),
            |_, _| (),
        )
        .unwrap();
        let items = list.collect_list(frame, fli).unwrap();
        assert_eq!(items.len(), 2);
        assert!(items[0].is_variable(fli) && items[1].is_variable(fli));
        // Variables made later are others.
        let other = frame.term(fli).unwrap();
        assert_ne!(
            format!("{:?}", fli.held(other.as_raw())),
            format!("{:?}", fli.held(items[0].as_raw()))
        );
    });
}

#[test]
fn bare_terms_form_prepared_argument_blocks_without_decoding() {
    with_frame(|fli, frame| {
        let mut facts = Facts::new();
        let nonvar = predicate(frame, fli, "nonvar", 1);
        let value = frame.term(fli).unwrap();
        put_text(fli, value, "hello(world)").unwrap();

        let args = frame.args(fli, (value,)).unwrap();
        assert_eq!(
            Query::once_with(frame, fli, &mut facts, &nonvar, args, QueryOptions::default())
                .unwrap(),
            Some(((),))
        );

        let functor = value.get_functor(fli).unwrap();
        assert_eq!(functor.name().text(), "hello");
        assert_eq!(functor.arity(), 1);
    });
}

#[test]
fn bare_terms_keep_bindings_across_prepared_solutions() {
    with_frame(|fli, frame| {
        let mut facts = Facts::new();
        let between = predicate(frame, fli, "between", 3);
        let low = frame.term(fli).unwrap();
        low.put_i64(fli, 1).unwrap();
        let high = frame.term(fli).unwrap();
        high.put_i64(fli, 3).unwrap();
        let value = frame.term(fli).unwrap();

        let args = frame.args(fli, (low, high, value)).unwrap();
        let mut solutions = Query::solutions_with(
            frame,
            fli,
            &mut facts,
            &between,
            args,
            QueryOptions::default(),
        )
        .unwrap();

        assert_eq!(solutions.next(fli, &mut facts).unwrap().unwrap(), ((), (), ()));
        assert_eq!(value.get_i64(fli).unwrap(), 1);
        assert_eq!(solutions.next(fli, &mut facts).unwrap().unwrap(), ((), (), ()));
        assert_eq!(value.get_i64(fli).unwrap(), 2);
        solutions.cut(fli, &mut facts).unwrap();
        assert_eq!(value.get_i64(fli).unwrap(), 2);
    });
}

#[test]
fn typed_once_encodes_inputs_and_decodes_all_final_arguments() {
    with_frame(|fli, frame| {
        let mut facts = Facts::new();
        let succ = predicate(frame, fli, "succ", 2);
        let args = frame.args(fli, (input(41_i64), output::<i64>())).unwrap();

        let result =
            Query::once_with(frame, fli, &mut facts, &succ, args, QueryOptions::default()).unwrap();
        assert_eq!(result, Some((41, 42)));
    });
}

#[test]
fn input_as_accepts_borrowed_input_and_decodes_an_owned_value() {
    with_frame(|fli, frame| {
        let mut facts = Facts::new();
        let string_length = predicate(frame, fli, "string_length", 2);
        let args = frame.args(fli, (input_as::<String, _>("world"), output::<i64>()),
        )
        .unwrap();

        let result = Query::once_with(
            frame,
            fli,
            &mut facts,
            &string_length,
            args,
            QueryOptions::default(),
        )
        .unwrap();
        assert_eq!(result, Some(("world".to_owned(), 5)));
    });
}

#[test]
fn typed_calls_support_zero_arity_and_no_solution() {
    with_frame(|fli, frame| {
        let mut facts = Facts::new();
        let true_predicate = predicate(frame, fli, "true", 0);
        let args = frame.args(fli, ()).unwrap();
        assert_eq!(
            Query::once_with(
                frame,
                fli,
                &mut facts,
                &true_predicate,
                args,
                QueryOptions::default()
            )
            .unwrap(),
            Some(())
        );

        let succ = predicate(frame, fli, "succ", 2);
        let args = frame.args(fli, (input(1_i64), input(3_i64))).unwrap();
        assert_eq!(
            Query::once_with(frame, fli, &mut facts, &succ, args, QueryOptions::default()).unwrap(),
            None
        );
    });
}

#[test]
fn typed_calls_report_argument_query_and_result_errors() {
    with_frame(|fli, frame| {
        let mut facts = Facts::new();
        let argument_error = match frame.args(fli, (input(None::<i64>),)) {
            Ok(_) => panic!("None outside a dict should not encode"),
            Err(error) => error,
        };
        assert!(matches!(argument_error, CallError::Arguments(_)));

        let succ = predicate(frame, fli, "succ", 2);
        let args = frame.args(fli, (input(1_i64),)).unwrap();
        assert!(matches!(
            Query::once_with(frame, fli, &mut facts, &succ, args, QueryOptions::default()),
            Err(CallError::Query(QueryError::ArityMismatch {
                expected: 2,
                actual: 1
            }))
        ));

        let member = predicate(frame, fli, "member", 2);
        let args = frame.args(fli, (
                output::<i64>(),
                input_as::<Vec<String>, _>(vec!["not an integer"]),
            ),
        )
        .unwrap();
        assert!(matches!(
            Query::once_with(frame, fli, &mut facts, &member, args, QueryOptions::default()),
            Err(CallError::ResultDecoding(_))
        ));
    });
}

#[test]
fn terms_preserve_bindings_across_committed_calls() {
    with_frame(|fli, frame| {
        let mut facts = Facts::new();
        let succ = predicate(frame, fli, "succ", 2);
        let middle = frame.term(fli).unwrap();

        let first_args = frame.args(fli, (input(1_i64), middle.as_arg::<i64>())).unwrap();
        assert_eq!(
            Query::once_with(
                frame,
                fli,
                &mut facts,
                &succ,
                first_args,
                QueryOptions::default()
            )
            .unwrap(),
            Some((1, 2))
        );
        assert_eq!(middle.get_i64(fli).unwrap(), 2);

        let second_args =
            frame.args(fli, (middle.as_arg::<i64>(), output::<i64>())).unwrap();
        assert_eq!(
            Query::once_with(
                frame,
                fli,
                &mut facts,
                &succ,
                second_args,
                QueryOptions::default()
            )
            .unwrap(),
            Some((2, 3))
        );
    });
}

#[test]
fn typed_solution_iterators_decode_and_can_keep_a_binding() {
    with_frame(|fli, frame| {
        let mut facts = Facts::new();
        let member = predicate(frame, fli, "member", 2);
        let value = frame.term(fli).unwrap();
        let args = frame.args(fli, (value.as_arg::<i64>(), input(vec![1_i64, 2, 3])),
        )
        .unwrap();
        let mut solutions = Query::solutions_with(
            frame,
            fli,
            &mut facts,
            &member,
            args,
            QueryOptions::default(),
        )
        .unwrap();

        assert_eq!(
            solutions.next(fli, &mut facts).unwrap().unwrap(),
            (1, vec![1, 2, 3])
        );
        solutions.cut(fli, &mut facts).unwrap();
        assert_eq!(value.get_i64(fli).unwrap(), 1);
    });
}

#[test]
fn typed_once_callbacks_can_nest_a_call() {
    with_frame(|fli, frame| {
        let mut facts = Facts::new();
        let succ = predicate(frame, fli, "succ", 2);
        let middle = frame.term(fli).unwrap();
        let outer_args = frame.args(fli, (input(1_i64), middle.as_arg::<i64>())).unwrap();

        let nested = Query::try_once_with(
            frame,
            fli,
            &mut facts,
            &succ,
            outer_args,
            QueryOptions::default(),
            |fli, query, (_, current)| {
                assert_eq!(current, 2);
                let inner_args =
                    query.args(fli, (middle.as_arg::<i64>(), output::<i64>()))?;
                Query::once_with(
                    query,
                    fli,
                    &mut Facts::new(),
                    &succ,
                    inner_args,
                    QueryOptions::default(),
                )
            },
        )
        .unwrap();

        assert_eq!(nested, Some(Some((2, 3))));
    });
}

#[test]
fn typed_solution_callbacks_can_nest_calls_for_each_solution() {
    with_frame(|fli, frame| {
        let mut facts = Facts::new();
        let between = predicate(frame, fli, "between", 3);
        let succ = predicate(frame, fli, "succ", 2);
        let value = frame.term(fli).unwrap();
        let outer_args = frame.args(fli, (input(1_i64), input(3_i64), value.as_arg::<i64>()),
        )
        .unwrap();

        let mut results = Vec::new();
        let mut solutions = Query::try_solutions_with(
            frame,
            fli,
            &mut facts,
            &between,
            outer_args,
            QueryOptions::default(),
        )
        .unwrap();
        while let Some(result) = solutions.try_next(fli, &mut facts, |fli, query, (_, _, current)| {
            assert_eq!(value.get_i64(fli).unwrap(), current);
            let inner_args = query.args(fli, (value.as_arg::<i64>(), output::<i64>()))?;
            Query::once_with(
                query,
                fli,
                &mut Facts::new(),
                &succ,
                inner_args,
                QueryOptions::default(),
            )
        }) {
            results.push(result.unwrap());
        }

        assert_eq!(results, [Some((1, 2)), Some((2, 3)), Some((3, 4))]);
    });
}

#[test]
fn typed_argument_tuples_support_sixteen_positions() {
    with_frame(|fli, frame| {
        let mut facts = Facts::new();
        let true_predicate = predicate(frame, fli, "true", 0);
        let args = frame.args(fli, (
                output::<i64>(),
                output::<i64>(),
                output::<i64>(),
                output::<i64>(),
                output::<i64>(),
                output::<i64>(),
                output::<i64>(),
                output::<i64>(),
                output::<i64>(),
                output::<i64>(),
                output::<i64>(),
                output::<i64>(),
                output::<i64>(),
                output::<i64>(),
                output::<i64>(),
                output::<i64>(),
            ),
        )
        .unwrap();

        assert!(matches!(
            Query::once_with(
                frame,
                fli,
                &mut facts,
                &true_predicate,
                args,
                QueryOptions::default()
            ),
            Err(CallError::Query(QueryError::ArityMismatch {
                expected: 0,
                actual: 16
            }))
        ));
    });
}

#[test]
fn scoped_cleanup_failures_preserve_the_call_error() {
    let error = CallError::from_scoped(ScopedCallError::BodyAndCleanup {
        body: CallError::Arguments(ArgumentError::Term(TermError::TypeMismatch {
            expected: "test value",
        })),
        cleanup: QueryError::OpenFailed,
    });

    assert!(matches!(
        error,
        CallError::CallAndCleanup { call, cleanup: QueryError::OpenFailed }
            if matches!(
                *call,
                CallError::Arguments(ArgumentError::Term(TermError::TypeMismatch {
                    expected: "test value"
                }))
            )
    ));
}

#[test]
fn term_lists_use_the_new_tuple_traits() {
    with_frame(|fli, frame| {
        let mut facts = Facts::new();
        let succ = predicate(frame, fli, "succ", 2);
        let args = frame.terms(fli, 2).unwrap();
        to_terms(frame, fli, &args, &(2_i64, 3_i64)).unwrap();
        Query::once(
            frame,
            fli,
            &mut facts,
            &succ,
            &args,
            QueryOptions::default(),
            |_, _| (),
        )
        .unwrap();
        assert_eq!(
            from_terms::<_, (i64, i64)>(frame, fli, &args).unwrap(),
            (2, 3)
        );

        let short = frame.terms(fli, 1).unwrap();
        assert!(matches!(
            to_terms(frame, fli, &short, &(1_i64, 2_i64)).unwrap_err(),
            TermCodecError::ArityMismatch { .. }
        ));
    });
}

/// Fills a block with a tuple of integers.
fn fill(
    fli: &mut Fli,
    frame: &Frame<'_>,
    args: &TermList<'_>,
    values: &[i64],
) -> Result<(), Error> {
    let mut tuple = ArgsSerializer { ctx: frame, args }.serialize_tuple(values.len())?;
    for value in values {
        let slot = tuple.element().unwrap();
        assert!(slot.serialize_i64(fli, *value)?);
        tuple.push();
    }
    tuple.end()
}

#[test]
fn query_arguments_round_trip_through_to_terms_and_from_terms() {
    with_frame(|fli, frame| {
        let mut facts = Facts::new();

        // Seed both arguments of succ/2 and confirm the goal holds.
        let succ = predicate(frame, fli, "succ", 2);
        let args = frame.terms(fli, 2).unwrap();
        fill(fli, frame, &args, &[2, 3]).unwrap();
        let holds = Query::once(
            frame,
            fli,
            &mut facts,
            &succ,
            &args,
            QueryOptions::default(),
            |_, _| (),
        )
        .unwrap();
        assert!(holds.is_some());

        // A tuple of the wrong arity is rejected up front.
        assert!(matches!(
            fill(fli, frame, &args, &[1, 2, 3]),
            Err(Error::ArityMismatch { .. })
        ));

        // Decode each solution of between/3, leaving the output unbound.
        let between = predicate(frame, fli, "between", 3);
        let range = frame.terms(fli, 3).unwrap();
        range.get(0).unwrap().put_i64(fli, 1).unwrap();
        range.get(1).unwrap().put_i64(fli, 3).unwrap();
        let mut solutions = Query::try_solutions(
            frame,
            fli,
            &mut facts,
            &between,
            &range,
            QueryOptions::default(),
        )
        .unwrap();
        let mut triples = Vec::new();
        while let Some(triple) = solutions.next(fli, &mut facts, |fli, query| {
            let mut read = args_sequence(query, &range);
            let mut triple = Vec::new();
            while let Some(element) = read.next_element() {
                match element.deserialize_i64(fli)? {
                    Visit::I64(value) => triple.push(value),
                    _ => panic!("expected a signed integer"),
                }
            }
            Ok::<_, Error>((triple[0], triple[1], triple[2]))
        }) {
            triples.push(triple.unwrap_or_else(|_| panic!("a solution failed")));
        }
        assert_eq!(triples, [(1, 3, 1), (1, 3, 2), (1, 3, 3)]);
    });
}

/// Keeps what it was asked to open, and finds nothing.
struct Asked {
    goals: Vec<(String, usize, usize, bool)>,
}

impl Solver for Asked {
    fn open(
        &mut self,
        _fli: &Fli,
        predicate: &Predicate,
        args: &TermList<'_>,
        flags: QueryFlags,
    ) -> Verdict {
        self.goals.push((
            predicate.name().text(),
            args.as_raw(),
            args.len(),
            flags.nodebug,
        ));
        Verdict::Grant
    }

    fn next(&mut self, _fli: &Fli) -> Step {
        Step {
            status: Status::False,
            bindings: Vec::new(),
            vars: 0,
        }
    }

    fn cut(&mut self, _fli: &Fli) -> Verdict {
        Verdict::Grant
    }

    fn close(&mut self, _fli: &Fli) -> Verdict {
        Verdict::Grant
    }
}

#[test]
fn the_engine_is_asked_for_the_goal_with_its_options() {
    with_frame(|fli, frame| {
        let mut asked = Asked { goals: Vec::new() };
        let goal = predicate(frame, fli, "goal", 2);
        let _unused = frame.term(fli).unwrap();
        let args = frame.terms(fli, 2).unwrap();
        let mut options = QueryOptions::default();
        for nodebug in [false, true] {
            options.nodebug = nodebug;
            let found = Query::once(frame, fli, &mut asked, &goal, &args, options, |_, _| ());
            assert!(matches!(found, Ok(None)));
        }
        let first = args.as_raw();
        assert_eq!(
            asked.goals,
            [
                ("goal".to_owned(), first, 2, false),
                ("goal".to_owned(), first, 2, true)
            ]
        );
    });
}

/// A record that the stand-in for the engine knows by the number 1.
struct Kept(Record);

impl FromTerm for Kept {
    fn from_term<Ctx: FliContext>(
        _ctx: &Ctx,
        fli: &mut Fli,
        term: Term<'_>,
    ) -> Result<Self, TermCodecError> {
        record_from_term(fli, term, 1).map(Kept)
    }

    fn __from_field<Ctx: FliContext>(
        ctx: &Ctx,
        fli: &mut Fli,
        term: Option<Term<'_>>,
        name: &str,
    ) -> Result<Self, TermCodecError> {
        match term {
            Some(present) => Self::from_term(ctx, fli, present),
            None => Err(TermCodecError::MissingField { field: name.to_owned() }),
        }
    }
}

#[test]
fn typed_outputs_can_be_records() {
    with_frame(|fli, frame| {
        let mut facts = Facts::new();
        let member = predicate(frame, fli, "member", 2);
        let args = frame
            .args(fli, (output::<Kept>(), input(vec![7_i64, 8, 9])))
            .unwrap();

        let (record, values) = Query::once_with(
            frame,
            fli,
            &mut facts,
            &member,
            args,
            QueryOptions::default(),
        )
        .unwrap()
        .unwrap();
        assert_eq!(values, [7, 8, 9]);
        let recalled = record.0.recall(frame, fli).unwrap();
        assert_eq!(recalled.get_i64(fli).unwrap(), 7);
    });
}
