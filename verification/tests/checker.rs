use typecheck::{validate_program, BinOp, CmpOp, Declaration, Expr, Type, TypeError};

fn lit(s: &str) -> Expr {
    Expr::Literal(s.to_string())
}

fn ident(s: &str) -> Expr {
    Expr::Identifier(s.to_string())
}

fn call(name: &str, args: Vec<Expr>) -> Expr {
    Expr::Call(name.to_string(), args)
}

fn decl(name: &str, params: &[&str], returns: &[&str], body: Vec<Expr>) -> Declaration {
    Declaration {
        name: name.to_string(),
        params: params.iter().map(|p| p.to_string()).collect(),
        returns: returns.iter().map(|r| r.to_string()).collect(),
        body,
    }
}

/// Infer one expression under an empty declaration table.
fn infer(e: &Expr) -> Result<Type, TypeError> {
    Type::of(e, &[])
}

#[test]
fn literal_identifier_global_are_float() {
    assert_eq!(infer(&lit("1.0")), Ok(Type::Float));
    assert_eq!(infer(&ident("x")), Ok(Type::Float));
    assert_eq!(
        infer(&Expr::GlobalDataAddr("g".to_string())),
        Ok(Type::Float)
    );
}

#[test]
fn bool_literal_is_bool() {
    assert_eq!(infer(&Expr::Bool(true)), Ok(Type::Bool));
}

#[test]
fn binop_of_equal_types_keeps_the_type() {
    let e = Expr::Binop(BinOp::Add, Box::new(lit("1.0")), Box::new(ident("x")));
    assert_eq!(infer(&e), Ok(Type::Float));
}

#[test]
fn binop_mismatch_reports_operand_types() {
    let e = Expr::Binop(BinOp::Add, Box::new(lit("1.0")), Box::new(Expr::Bool(true)));
    assert_eq!(
        infer(&e),
        Err(TypeError::TypeMismatch {
            expected: Type::Float,
            actual: Type::Bool,
        })
    );
}

#[test]
fn compare_operands_need_not_match() {
    let e = Expr::Compare(CmpOp::Eq, Box::new(lit("1.0")), Box::new(Expr::Bool(true)));
    assert_eq!(infer(&e), Ok(Type::Bool));
}

#[test]
fn compare_propagates_inner_error() {
    let bad = Expr::Binop(BinOp::Mul, Box::new(lit("2.0")), Box::new(Expr::Bool(false)));
    let e = Expr::Compare(CmpOp::Lt, Box::new(bad), Box::new(lit("3.0")));
    assert_eq!(
        infer(&e),
        Err(TypeError::TypeMismatch {
            expected: Type::Float,
            actual: Type::Bool,
        })
    );
}

#[test]
fn if_then_condition_must_be_bool() {
    let e = Expr::IfThen(Box::new(lit("1.0")), vec![]);
    assert_eq!(
        infer(&e),
        Err(TypeError::TypeMismatch {
            expected: Type::Bool,
            actual: Type::Float,
        })
    );
}

#[test]
fn if_then_is_void_and_checks_its_body() {
    let ok = Expr::IfThen(Box::new(Expr::Bool(true)), vec![lit("1.0")]);
    assert_eq!(infer(&ok), Ok(Type::Void));

    let bad_body = Expr::Binop(BinOp::Add, Box::new(lit("1.0")), Box::new(Expr::Bool(true)));
    let bad = Expr::IfThen(Box::new(Expr::Bool(true)), vec![bad_body]);
    assert!(matches!(infer(&bad), Err(TypeError::TypeMismatch { .. })));
}

#[test]
fn if_else_takes_the_common_branch_type() {
    let e = Expr::IfElse(
        Box::new(Expr::Bool(true)),
        vec![Expr::Bool(false)],
        vec![Expr::Bool(true)],
    );
    assert_eq!(infer(&e), Ok(Type::Bool));
}

#[test]
fn if_else_empty_branches_are_void() {
    let both = Expr::IfElse(Box::new(Expr::Bool(true)), vec![], vec![]);
    assert_eq!(infer(&both), Ok(Type::Void));

    let one = Expr::IfElse(Box::new(Expr::Bool(true)), vec![], vec![lit("1.0")]);
    assert_eq!(
        infer(&one),
        Err(TypeError::TypeMismatch {
            expected: Type::Void,
            actual: Type::Float,
        })
    );
}

#[test]
fn if_else_condition_error_comes_before_branch_errors() {
    let bad = Expr::Binop(BinOp::Sub, Box::new(lit("1.0")), Box::new(Expr::Bool(true)));
    let e = Expr::IfElse(
        Box::new(call("missing", vec![])),
        vec![bad],
        vec![Expr::Bool(false)],
    );
    assert_eq!(
        infer(&e),
        Err(TypeError::UnknownFunction("missing".to_string()))
    );
}

#[test]
fn assign_of_several_values_is_their_tuple() {
    let e = Expr::Assign(
        vec!["x".to_string(), "y".to_string()],
        vec![lit("1.0"), Expr::Bool(true)],
    );
    assert_eq!(
        infer(&e),
        Ok(Type::Tuple(vec![Type::Float, Type::Bool]))
    );
}

#[test]
fn assign_arity_mismatch_reports_raw_counts() {
    let e = Expr::Assign(vec!["x".to_string()], vec![lit("1.0"), lit("2.0")]);
    assert_eq!(
        infer(&e),
        Err(TypeError::TupleLengthMismatch {
            expected: 2,
            actual: 1,
        })
    );
}

#[test]
fn assign_op_takes_the_value_type() {
    let e = Expr::AssignOp(BinOp::Add, "x".to_string(), Box::new(Expr::Bool(true)));
    assert_eq!(infer(&e), Ok(Type::Bool));
}

#[test]
fn while_loop_condition_is_not_checked_here() {
    // The loop condition is not required to be boolean by this layer,
    // unlike the conditionals.
    let e = Expr::WhileLoop(Box::new(lit("1.0")), vec![lit("2.0")]);
    assert_eq!(infer(&e), Ok(Type::Void));
}

#[test]
fn while_loop_body_error_propagates() {
    let bad = Expr::Binop(BinOp::Div, Box::new(lit("1.0")), Box::new(Expr::Bool(true)));
    let e = Expr::WhileLoop(Box::new(Expr::Bool(true)), vec![bad]);
    assert!(matches!(infer(&e), Err(TypeError::TypeMismatch { .. })));
}

#[test]
fn block_takes_the_last_type_or_void() {
    let e = Expr::Block(vec![lit("1.0"), Expr::Bool(true)]);
    assert_eq!(infer(&e), Ok(Type::Bool));
    assert_eq!(infer(&Expr::Block(vec![])), Ok(Type::Void));
}

#[test]
fn block_inner_error_propagates() {
    let bad = Expr::Binop(BinOp::Add, Box::new(lit("1.0")), Box::new(Expr::Bool(true)));
    let e = Expr::Block(vec![bad, lit("2.0")]);
    assert!(matches!(infer(&e), Err(TypeError::TypeMismatch { .. })));
}

#[test]
fn parentheses_are_transparent() {
    let e = Expr::Parentheses(Box::new(Expr::Bool(true)));
    assert_eq!(infer(&e), Ok(Type::Bool));
}

#[test]
fn call_result_follows_the_return_slot_count() {
    let env = vec![
        decl("none", &[], &[], vec![]),
        decl("one", &[], &["r"], vec![]),
        decl("three", &[], &["a", "b", "c"], vec![]),
    ];
    assert_eq!(Type::of(&call("none", vec![]), &env), Ok(Type::Void));
    assert_eq!(Type::of(&call("one", vec![]), &env), Ok(Type::Float));
    assert_eq!(
        Type::of(&call("three", vec![]), &env),
        Ok(Type::Tuple(vec![Type::Float, Type::Float, Type::Float]))
    );
}

#[test]
fn call_arity_mismatch_reports_both_counts() {
    let env = vec![decl("g", &["a", "b"], &["r"], vec![])];
    assert_eq!(
        Type::of(&call("g", vec![lit("1.0")]), &env),
        Err(TypeError::TupleLengthMismatch {
            expected: 2,
            actual: 1,
        })
    );
}

#[test]
fn call_arity_is_checked_before_arguments() {
    let env = vec![decl("g", &["a", "b"], &["r"], vec![])];
    let bad = Expr::Binop(BinOp::Add, Box::new(lit("1.0")), Box::new(Expr::Bool(true)));
    assert_eq!(
        Type::of(&call("g", vec![bad]), &env),
        Err(TypeError::TupleLengthMismatch {
            expected: 2,
            actual: 1,
        })
    );
}

#[test]
fn call_argument_error_propagates() {
    let env = vec![decl("g", &["a"], &["r"], vec![])];
    let bad = Expr::Binop(BinOp::Add, Box::new(lit("1.0")), Box::new(Expr::Bool(true)));
    assert_eq!(
        Type::of(&call("g", vec![bad]), &env),
        Err(TypeError::TypeMismatch {
            expected: Type::Float,
            actual: Type::Bool,
        })
    );
}

#[test]
fn call_first_declaration_wins_between_duplicates() {
    let env = vec![
        decl("h", &["a"], &[], vec![]),
        decl("h", &[], &["r"], vec![]),
    ];
    // The first `h` takes one argument; the second would take none.
    assert_eq!(Type::of(&call("h", vec![lit("1.0")]), &env), Ok(Type::Void));
    assert_eq!(
        Type::of(&call("h", vec![]), &env),
        Err(TypeError::TupleLengthMismatch {
            expected: 1,
            actual: 0,
        })
    );
}

#[test]
fn tuple_size_counts_assignable_slots() {
    assert_eq!(Type::Void.tuple_size(), 0);
    assert_eq!(Type::Bool.tuple_size(), 1);
    assert_eq!(Type::Float.tuple_size(), 1);
    assert_eq!(Type::Tuple(vec![]).tuple_size(), 0);
    assert_eq!(Type::Tuple(vec![Type::Float, Type::Bool]).tuple_size(), 2);
}

#[test]
fn to_text_renders_each_shape() {
    assert_eq!(Type::Void.to_text(), "void");
    assert_eq!(Type::Bool.to_text(), "bool");
    assert_eq!(Type::Float.to_text(), "float");
    assert_eq!(Type::Tuple(vec![]).to_text(), "()");
    assert_eq!(
        Type::Tuple(vec![Type::Float, Type::Bool]).to_text(),
        "(float, bool, )"
    );
    assert_eq!(
        Type::Tuple(vec![Type::Tuple(vec![Type::Float])]).to_text(),
        "((float, ), )"
    );
}

#[test]
fn scenario_literal_body_checks() {
    let program = vec![decl("f", &[], &["r"], vec![lit("1.0")])];
    let out = validate_program(program);
    assert_eq!(out, Ok(vec![decl("f", &[], &["r"], vec![lit("1.0")])]));
    assert_eq!(infer(&lit("1.0")), Ok(Type::Float));
}

#[test]
fn scenario_if_else_branch_mismatch() {
    let body = Expr::IfElse(
        Box::new(Expr::Bool(true)),
        vec![lit("1.0")],
        vec![Expr::Bool(false)],
    );
    let program = vec![decl("f", &[], &["r"], vec![body])];
    assert_eq!(
        validate_program(program),
        Err(TypeError::TypeMismatch {
            expected: Type::Float,
            actual: Type::Bool,
        })
    );
}

#[test]
fn scenario_multi_assign_from_call() {
    let pair = decl("pair", &[], &["a", "b"], vec![]);
    let assign = Expr::Assign(
        vec!["x".to_string(), "y".to_string()],
        vec![call("pair", vec![])],
    );
    let env = vec![pair];
    assert_eq!(
        Type::of(&assign, &env),
        Ok(Type::Tuple(vec![Type::Tuple(vec![
            Type::Float,
            Type::Float,
        ])]))
    );

    // With a single target the arity does not match; the error reports
    // the raw counts of values and targets, not the resolved arity.
    let narrow = Expr::Assign(vec!["x".to_string()], vec![call("pair", vec![])]);
    assert_eq!(
        Type::of(&narrow, &env),
        Err(TypeError::TupleLengthMismatch {
            expected: 1,
            actual: 1,
        })
    );
}

#[test]
fn scenario_unknown_function() {
    let e = call("missing", vec![lit("1.0")]);
    assert_eq!(
        infer(&e),
        Err(TypeError::UnknownFunction("missing".to_string()))
    );
}

#[test]
fn first_error_wins_across_declarations() {
    let first_bad = decl("a", &[], &[], vec![call("missing_a", vec![])]);
    let second_bad = decl("b", &[], &[], vec![call("missing_b", vec![])]);
    assert_eq!(
        validate_program(vec![first_bad, second_bad]),
        Err(TypeError::UnknownFunction("missing_a".to_string()))
    );
}

#[test]
fn idempotent_on_valid_program() {
    let build = || {
        vec![
            decl("pair", &[], &["a", "b"], vec![lit("1.0"), lit("2.0")]),
            decl(
                "f",
                &["p"],
                &["r"],
                vec![
                    Expr::IfThen(Box::new(Expr::Bool(true)), vec![ident("p")]),
                    call("pair", vec![]),
                ],
            ),
        ]
    };
    let once = validate_program(build()).expect("first run accepts");
    assert_eq!(once, build());
    let twice = validate_program(once).expect("second run accepts");
    assert_eq!(twice, build());
}
