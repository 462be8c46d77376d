use docfmt::ast::Arg;
use docfmt::ast::ArgNames;
use docfmt::ast::BinOp;
use docfmt::ast::CallArg;
use docfmt::ast::Clause;
use docfmt::ast::ClauseGuard;
use docfmt::ast::Expr;
use docfmt::ast::ExternalFnArg;
use docfmt::ast::Module;
use docfmt::ast::Pattern;
use docfmt::ast::PatternCallArg;
use docfmt::ast::RecordConstructor;
use docfmt::ast::Statement;
use docfmt::ast::TypeAst;
use docfmt::ast::UnqualifiedImport;
use docfmt::doc::break_;
use docfmt::doc::delim;
use docfmt::doc::force_break;
use docfmt::doc::text;
use docfmt::layout::render;
use docfmt::render::pretty_module;
use docfmt::render::wrap_args;

fn s(x: &str) -> String {
    x.to_string()
}

fn var(name: &str) -> Expr {
    Expr::Var { name: s(name) }
}

fn named_arg(name: &str) -> Arg {
    Arg { names: ArgNames::Named { name: s(name) }, annotation: None }
}

fn module_of(statements: Vec<Statement>) -> Module {
    Module { statements }
}

fn plain_fn(public: bool, name: &str, args: Vec<Arg>, body: Expr) -> Statement {
    Statement::Fn { public, name: s(name), args, body, return_annotation: None }
}

#[test]
fn single_import_formats_to_one_line() {
    let m = module_of(vec![Statement::Import {
        module: vec![s("gleam"), s("io")],
        unqualified: vec![],
        as_name: None,
    }]);
    assert_eq!(pretty_module(&m), "import gleam/io\n");
}

#[test]
fn public_function_body_on_indented_line() {
    let body = Expr::BinOp {
        name: BinOp::AddInt,
        left: Box::new(var("x")),
        right: Box::new(var("y")),
    };
    let m = module_of(vec![plain_fn(
        true,
        "add",
        vec![named_arg("x"), named_arg("y")],
        body,
    )]);
    assert_eq!(pretty_module(&m), "pub fn add(x, y) {\n  x + y\n}\n");
}

#[test]
fn long_call_breaks_with_trailing_comma() {
    let a = "a".repeat(40);
    let b = "b".repeat(40);
    let body = Expr::Call {
        fun: Box::new(var("callfn")),
        args: vec![
            CallArg { label: None, value: var(&a) },
            CallArg { label: None, value: var(&b) },
        ],
    };
    let m = module_of(vec![plain_fn(false, "go", vec![], body)]);
    let expected = format!("fn go() {{\n  callfn(\n    {},\n    {},\n  )\n}}\n", a, b);
    assert_eq!(pretty_module(&m), expected);
}

#[test]
fn pipe_chain_always_renders_on_three_lines() {
    let body = Expr::Pipe {
        left: Box::new(Expr::Pipe {
            left: Box::new(var("a")),
            right: Box::new(var("b")),
        }),
        right: Box::new(var("c")),
    };
    let m = module_of(vec![plain_fn(false, "f", vec![], body)]);
    assert_eq!(pretty_module(&m), "fn f() {\n  a\n  |> b\n  |> c\n}\n");
}

#[test]
fn sequence_always_breaks() {
    let body = Expr::Sequence { first: Box::new(var("a")), rest: Box::new(var("b")) };
    let m = module_of(vec![plain_fn(false, "f", vec![], body)]);
    assert_eq!(pretty_module(&m), "fn f() {\n  a\n  b\n}\n");
}

#[test]
fn let_binding_chains_top_to_bottom() {
    let body = Expr::Let {
        pattern: Pattern::Var { name: s("x") },
        value: Box::new(Expr::Int { value: s("1") }),
        rest: Box::new(var("x")),
    };
    let m = module_of(vec![plain_fn(false, "f", vec![], body)]);
    assert_eq!(pretty_module(&m), "fn f() {\n  let x = 1\n  x\n}\n");
}

#[test]
fn imports_join_with_single_newline() {
    let m = module_of(vec![
        Statement::Import { module: vec![s("one")], unqualified: vec![], as_name: None },
        Statement::Import { module: vec![s("two")], unqualified: vec![], as_name: None },
    ]);
    assert_eq!(pretty_module(&m), "import one\nimport two\n");
}

#[test]
fn declarations_join_with_blank_line() {
    let m = module_of(vec![
        plain_fn(false, "a", vec![], Expr::Int { value: s("1") }),
        plain_fn(false, "b", vec![], Expr::Int { value: s("2") }),
    ]);
    assert_eq!(pretty_module(&m), "fn a() {\n  1\n}\n\nfn b() {\n  2\n}\n");
}

#[test]
fn import_and_declaration_separated_by_one_blank_line() {
    let m = module_of(vec![
        Statement::Import { module: vec![s("one")], unqualified: vec![], as_name: None },
        plain_fn(false, "f", vec![], Expr::Int { value: s("1") }),
    ]);
    assert_eq!(pretty_module(&m), "import one\n\nfn f() {\n  1\n}\n");
}

#[test]
fn import_with_unqualified_names_and_alias() {
    let m = module_of(vec![Statement::Import {
        module: vec![s("one"), s("two")],
        unqualified: vec![
            UnqualifiedImport { name: s("a"), as_name: None },
            UnqualifiedImport { name: s("b"), as_name: Some(s("c")) },
        ],
        as_name: Some(s("d")),
    }]);
    assert_eq!(pretty_module(&m), "import one/two.{a, b as c} as d\n");
}

#[test]
fn case_clause_with_guard() {
    let body = Expr::Case {
        subjects: vec![var("x")],
        clauses: vec![Clause {
            patterns: vec![Pattern::Var { name: s("p") }],
            guard: Some(ClauseGuard::Var { name: s("g") }),
            body: var("e"),
        }],
    };
    let m = module_of(vec![plain_fn(false, "f", vec![], body)]);
    assert_eq!(
        pretty_module(&m),
        "fn f() {\n  case x {\n    p if g -> e\n  }\n}\n"
    );
}

#[test]
fn case_with_two_subjects_and_patterns() {
    let body = Expr::Case {
        subjects: vec![var("x"), var("y")],
        clauses: vec![Clause {
            patterns: vec![Pattern::Var { name: s("a") }, Pattern::Var { name: s("b") }],
            guard: None,
            body: var("c"),
        }],
    };
    let m = module_of(vec![plain_fn(false, "f", vec![], body)]);
    assert_eq!(
        pretty_module(&m),
        "fn f() {\n  case x, y {\n    a, b -> c\n  }\n}\n"
    );
}

#[test]
fn patterns_render_structurally() {
    let body = Expr::Case {
        subjects: vec![var("x")],
        clauses: vec![
            Clause {
                patterns: vec![Pattern::Cons {
                    head: Box::new(Pattern::Var { name: s("h") }),
                    tail: Box::new(Pattern::Var { name: s("t") }),
                }],
                guard: None,
                body: var("h"),
            },
            Clause {
                patterns: vec![Pattern::Constructor {
                    module: Some(s("opt")),
                    name: s("Just"),
                    args: vec![PatternCallArg {
                        label: None,
                        value: Pattern::Var { name: s("v") },
                    }],
                }],
                guard: None,
                body: var("v"),
            },
            Clause {
                patterns: vec![Pattern::Tuple {
                    elems: vec![Pattern::Discard, Pattern::Str { value: s("s") }],
                }],
                guard: None,
                body: var("z"),
            },
        ],
    };
    let m = module_of(vec![plain_fn(false, "f", vec![], body)]);
    assert_eq!(
        pretty_module(&m),
        "fn f() {\n  case x {\n    [h|t] -> h\n    opt.Just(v) -> v\n    tuple(_, \"s\") -> z\n  }\n}\n"
    );
}

#[test]
fn custom_type_constructors_each_on_own_line() {
    let m = module_of(vec![Statement::CustomType {
        public: true,
        name: s("Maybe"),
        args: vec![s("a")],
        constructors: vec![
            RecordConstructor {
                name: s("Just"),
                args: vec![(None, TypeAst::Var { name: s("a") })],
            },
            RecordConstructor { name: s("Nothing"), args: vec![] },
        ],
    }]);
    assert_eq!(
        pretty_module(&m),
        "pub type Maybe(a) {\n  Just(a)\n  Nothing\n}\n"
    );
}

#[test]
fn type_alias_value_on_indented_line() {
    let m = module_of(vec![Statement::TypeAlias {
        public: true,
        alias: s("Names"),
        args: vec![],
        resolved_type: TypeAst::Constructor {
            name: s("List"),
            args: vec![TypeAst::Constructor { name: s("String"), args: vec![] }],
        },
    }]);
    assert_eq!(pretty_module(&m), "pub type Names =\n  List(String)\n");
}

#[test]
fn external_fn_with_foreign_references() {
    let m = module_of(vec![Statement::ExternalFn {
        public: true,
        name: s("go"),
        args: vec![ExternalFnArg {
            label: None,
            typ: TypeAst::Constructor { name: s("Int"), args: vec![] },
        }],
        retrn: TypeAst::Constructor { name: s("Float"), args: vec![] },
        module: s("m"),
        fun: s("f"),
    }]);
    assert_eq!(
        pretty_module(&m),
        "pub external fn go(Int) -> Float =\n  \"m\" \"f\"\n"
    );
}

#[test]
fn external_type_with_generics() {
    let m = module_of(vec![Statement::ExternalType {
        public: true,
        name: s("Map"),
        args: vec![s("k"), s("v")],
    }]);
    assert_eq!(pretty_module(&m), "pub external type Map(k, v)\n");
}

#[test]
fn fn_type_annotations_render() {
    let m = module_of(vec![Statement::Fn {
        public: false,
        name: s("f"),
        args: vec![Arg {
            names: ArgNames::Named { name: s("x") },
            annotation: Some(TypeAst::Constructor { name: s("Int"), args: vec![] }),
        }],
        body: var("x"),
        return_annotation: Some(TypeAst::Constructor { name: s("Int"), args: vec![] }),
    }]);
    assert_eq!(pretty_module(&m), "fn f(x: Int) -> Int {\n  x\n}\n");
}

#[test]
fn expressions_render_structurally() {
    let body = Expr::Sequence {
        first: Box::new(Expr::Cons {
            head: Box::new(Expr::Int { value: s("1") }),
            tail: Box::new(Expr::Nil),
        }),
        rest: Box::new(Expr::Sequence {
            first: Box::new(Expr::FieldAccess {
                container: Box::new(var("r")),
                label: s("name"),
            }),
            rest: Box::new(Expr::Sequence {
                first: Box::new(Expr::TupleIndex {
                    tuple: Box::new(var("t")),
                    index: 12,
                }),
                rest: Box::new(Expr::Sequence {
                    first: Box::new(Expr::Str { value: s("hi") }),
                    rest: Box::new(Expr::Todo),
                }),
            }),
        }),
    };
    let m = module_of(vec![plain_fn(false, "f", vec![], body)]);
    assert_eq!(
        pretty_module(&m),
        "fn f() {\n  [1|[]]\n  r.name\n  t.12\n  \"hi\"\n  todo\n}\n"
    );
}

#[test]
fn tuple_index_renders_large_decimal() {
    let body = Expr::TupleIndex { tuple: Box::new(var("t")), index: 1234567890 };
    let m = module_of(vec![plain_fn(false, "f", vec![], body)]);
    assert_eq!(pretty_module(&m), "fn f() {\n  t.1234567890\n}\n");
}

#[test]
fn tuple_expression_uses_wrap_args() {
    let body = Expr::Tuple {
        elems: vec![Expr::Int { value: s("1") }, Expr::Float { value: s("2.5") }],
    };
    let m = module_of(vec![plain_fn(false, "f", vec![], body)]);
    assert_eq!(pretty_module(&m), "fn f() {\n  tuple(1, 2.5)\n}\n");
}

#[test]
fn labelled_call_arguments() {
    let body = Expr::Call {
        fun: Box::new(var("f")),
        args: vec![CallArg { label: Some(s("to")), value: var("x") }],
    };
    let m = module_of(vec![plain_fn(false, "g", vec![], body)]);
    assert_eq!(pretty_module(&m), "fn g() {\n  f(to: x)\n}\n");
}

#[test]
fn formatting_is_deterministic() {
    let m = module_of(vec![plain_fn(
        true,
        "add",
        vec![named_arg("x"), named_arg("y")],
        Expr::BinOp {
            name: BinOp::AddInt,
            left: Box::new(var("x")),
            right: Box::new(var("y")),
        },
    )]);
    assert_eq!(pretty_module(&m), pretty_module(&m));
}

#[test]
fn empty_wrap_args_renders_exactly_parens() {
    assert_eq!(render(wrap_args(vec![]), 80), "()");
}

#[test]
fn wrap_args_flat_when_it_fits() {
    let d = wrap_args(vec![text("a"), text("b")]);
    assert_eq!(render(d, 80), "(a, b)");
}

#[test]
fn wrap_args_breaks_with_trailing_comma_when_narrow() {
    let d = wrap_args(vec![text("a"), text("b")]);
    assert_eq!(render(d, 3), "(\n  a,\n  b,\n)");
}

#[test]
fn group_breaks_only_when_too_wide() {
    let flat = text("ab").append(delim(",")).append(text("cd")).group();
    assert_eq!(render(flat, 80), "ab, cd");
    let broken = text("ab").append(delim(",")).append(text("cd")).group();
    assert_eq!(render(broken, 4), "ab,\ncd");
}

#[test]
fn force_break_overrides_fitting() {
    let d = text("ab").append(delim(",")).append(text("cd")).append(force_break()).group();
    assert_eq!(render(d, 80), "ab,\ncd");
}

#[test]
fn break_text_depends_on_mode() {
    let d = text("a").append(break_("<", ">")).append(text("b")).group();
    assert_eq!(render(d, 80), "a>b");
    let e = text("a").append(break_("<", ">")).append(text("b")).append(force_break()).group();
    assert_eq!(render(e, 80), "a<\nb");
}

#[test]
fn anonymous_fn_renders_verbatim() {
    let body = Expr::Fn { args: vec![named_arg("a")], body: Box::new(var("b")) };
    let m = module_of(vec![plain_fn(false, "f", vec![], body)]);
    assert_eq!(pretty_module(&m), "fn f() {\n  fn((a)) {\nb\n}\n}\n");
}

#[test]
fn binary_operator_table() {
    let ops = vec![
        (BinOp::And, "a && b"),
        (BinOp::Or, "a || b"),
        (BinOp::LtEqFloat, "a <=. b"),
        (BinOp::ModuloInt, "a % b"),
        (BinOp::NotEq, "a != b"),
        (BinOp::MultFloat, "a *. b"),
    ];
    for (op, expected) in ops {
        let body = Expr::BinOp {
            name: op,
            left: Box::new(var("a")),
            right: Box::new(var("b")),
        };
        let m = module_of(vec![plain_fn(false, "f", vec![], body)]);
        assert_eq!(pretty_module(&m), format!("fn f() {{\n  {}\n}}\n", expected));
    }
}

#[test]
fn group_breaks_because_of_what_follows_on_the_line() {
    let tail = "z".repeat(76);
    let d = text("aa")
        .append(delim(","))
        .append(text("bb"))
        .group()
        .append(text(&tail));
    assert_eq!(render(d, 80), format!("aa,\nbb{}", tail));
}

#[test]
fn nest_current_indents_to_current_column() {
    let d = text("ab").append(docfmt::doc::line().append(text("c")).nest_current());
    assert_eq!(render(d, 80), "ab\n  c");
}
