use hado::sequencer::{desugar, Binder, Emitted, Family, Sequence, Step, Terminal};

fn dup_sequence() -> Sequence<String> {
    Sequence {
        steps: vec![
            Step::Bind {
                name: "a".to_string(),
                expr: "[0, 1, 2]".to_string(),
            },
            Step::Bind {
                name: "b".to_string(),
                expr: "[a, a]".to_string(),
            },
        ],
        terminal: Terminal::RetAnnotated {
            family: Family::List,
            value: "b".to_string(),
        },
    }
}

#[test]
fn desugars_to_nested_bind_calls() {
    let out = desugar(dup_sequence());
    let expected = Emitted::BindCall {
        expr: "[0, 1, 2]".to_string(),
        binder: Binder::Named {
            name: "a".to_string(),
        },
        body: Box::new(Emitted::BindCall {
            expr: "[a, a]".to_string(),
            binder: Binder::Named {
                name: "b".to_string(),
            },
            body: Box::new(Emitted::LiftAnnotated {
                family: Family::List,
                value: "b".to_string(),
            }),
        }),
    };
    assert_eq!(out, expected);
}

#[test]
fn degenerate_sequence_is_its_terminal() {
    let bare = Sequence {
        steps: Vec::<Step<String>>::new(),
        terminal: Terminal::Bare {
            expr: "Some(3)".to_string(),
        },
    };
    assert_eq!(
        desugar(bare),
        Emitted::Tail {
            expr: "Some(3)".to_string()
        }
    );
    let plain_ret = Sequence {
        steps: Vec::<Step<String>>::new(),
        terminal: Terminal::Ret {
            value: "x + y".to_string(),
        },
    };
    assert_eq!(
        desugar(plain_ret),
        Emitted::Lift {
            value: "x + y".to_string()
        }
    );
}

#[test]
fn ignored_bind_desugars_to_bind_with_unused_name() {
    let with_ignore = Sequence {
        steps: vec![Step::BindIgnore {
            expr: "[0, 1, 2]".to_string(),
        }],
        terminal: Terminal::RetAnnotated {
            family: Family::List,
            value: "7".to_string(),
        },
    };
    let rest = Sequence {
        steps: Vec::<Step<String>>::new(),
        terminal: Terminal::RetAnnotated {
            family: Family::List,
            value: "7".to_string(),
        },
    };
    let expected = Emitted::BindCall {
        expr: "[0, 1, 2]".to_string(),
        binder: Binder::Ignored,
        body: Box::new(desugar(rest)),
    };
    assert_eq!(desugar(with_ignore), expected);
}

#[test]
fn ordinary_statement_becomes_a_block_before_the_rest() {
    let s = Sequence {
        steps: vec![
            Step::Bind {
                name: "a".to_string(),
                expr: "[0, 1, 2]".to_string(),
            },
            Step::Stmt {
                stmt: "print(a)".to_string(),
            },
            Step::Bind {
                name: "b".to_string(),
                expr: "[a, a]".to_string(),
            },
        ],
        terminal: Terminal::RetAnnotated {
            family: Family::List,
            value: "b".to_string(),
        },
    };
    let expected = Emitted::BindCall {
        expr: "[0, 1, 2]".to_string(),
        binder: Binder::Named {
            name: "a".to_string(),
        },
        body: Box::new(Emitted::Block {
            stmt: "print(a)".to_string(),
            body: Box::new(Emitted::BindCall {
                expr: "[a, a]".to_string(),
                binder: Binder::Named {
                    name: "b".to_string(),
                },
                body: Box::new(Emitted::LiftAnnotated {
                    family: Family::List,
                    value: "b".to_string(),
                }),
            }),
        }),
    };
    assert_eq!(desugar(s), expected);
}

#[test]
fn mutable_bind_keeps_its_own_binder_form() {
    let s = Sequence {
        steps: vec![Step::BindMut {
            name: "file".to_string(),
            expr: "create()".to_string(),
        }],
        terminal: Terminal::Bare {
            expr: "write(file)".to_string(),
        },
    };
    let expected = Emitted::BindCall {
        expr: "create()".to_string(),
        binder: Binder::NamedMut {
            name: "file".to_string(),
        },
        body: Box::new(Emitted::Tail {
            expr: "write(file)".to_string(),
        }),
    };
    assert_eq!(desugar(s), expected);
}
