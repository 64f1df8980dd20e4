use anx::ast::{BinOp, Decl, Expr, IncDecOp, Program, Stmt, Type, UnOp};
use anx::lexer::lex;
use anx::parser::{parse, ParseError};

fn parse_source(source: &str) -> Result<Program, ParseError> {
    parse(lex(source).expect("source should lex cleanly"))
}

fn parse_one_decl(source: &str) -> Decl {
    let mut program = parse_source(source).expect("source should parse cleanly");
    assert_eq!(program.decls.len(), 1, "expected exactly one declaration");
    program.decls.remove(0)
}

#[test]
fn parses_var_decl_with_initializer() {
    let decl = parse_one_decl("int x = 5;");
    match decl {
        Decl::Var(v) => {
            assert_eq!(v.ty, Type::Int);
            assert_eq!(v.name, "x");
            assert_eq!(
                v.init,
                Some(Expr::IntLiteral {
                    id: v.init.as_ref().unwrap().id(),
                    value: 5,
                    line: 1
                })
            );
        }
        other => panic!("expected VarDecl, got {other:?}"),
    }
}

#[test]
fn parses_array_literal_decl() {
    let decl = parse_one_decl("int[] nums = [1, 2, 3, 4, 5];");
    match decl {
        Decl::Var(v) => {
            assert_eq!(v.ty, Type::Array(Box::new(Type::Int)));
            match v.init {
                Some(Expr::ArrayLiteral { elements, .. }) => {
                    assert_eq!(elements.len(), 5);
                }
                other => panic!("expected ArrayLiteral, got {other:?}"),
            }
        }
        other => panic!("expected VarDecl, got {other:?}"),
    }
}

#[test]
fn parses_array_creation_with_runtime_size() {
    let decl = parse_one_decl("int[] scratch = new int[n];");
    match decl {
        Decl::Var(v) => match v.init {
            Some(Expr::ArrayCreation { elem_ty, size, .. }) => {
                assert_eq!(elem_ty, Type::Int);
                assert!(matches!(*size, Expr::Ident { .. }));
            }
            other => panic!("expected ArrayCreation, got {other:?}"),
        },
        other => panic!("expected VarDecl, got {other:?}"),
    }
}

#[test]
fn parses_function_with_recursion() {
    let decl = parse_one_decl(
        r#"
        int fib(int n) {
            if (n <= 1) return n;
            return fib(n - 1) + fib(n - 2);
        }
        "#,
    );
    match decl {
        Decl::Func(f) => {
            assert_eq!(f.name, "fib");
            assert_eq!(f.params.len(), 1);
            assert_eq!(f.params[0].ty, Type::Int);
            assert_eq!(f.return_ty, Type::Int);
            assert_eq!(f.body.stmts.len(), 2);
        }
        other => panic!("expected FuncDecl, got {other:?}"),
    }
}

#[test]
fn parses_if_else_if_else_chain() {
    let decl = parse_one_decl(
        r#"
        void main() {
            if (x > 0) {
                print("positive");
            } else if (x == 0) {
                print("zero");
            } else {
                print("negative");
            }
        }
        "#,
    );
    let Decl::Func(f) = decl else {
        panic!("expected FuncDecl")
    };
    assert_eq!(f.body.stmts.len(), 1);
    let Stmt::If(outer) = &f.body.stmts[0] else {
        panic!("expected If statement")
    };
    // the "else if" is itself an If statement nested in the else branch
    assert!(matches!(
        outer.else_branch.as_deref(),
        Some(Stmt::If(_))
    ));
}

#[test]
fn parses_while_loop() {
    let decl = parse_one_decl("void main() { while (x > 0) { x = x - 1; } }");
    let Decl::Func(f) = decl else {
        panic!("expected FuncDecl")
    };
    assert!(matches!(f.body.stmts[0], Stmt::While(_)));
}

#[test]
fn parses_for_loop() {
    let decl = parse_one_decl(
        "void main() { for (int i = 0; i < nums.length; i = i + 1) { print(nums[i]); } }",
    );
    let Decl::Func(f) = decl else {
        panic!("expected FuncDecl")
    };
    let Stmt::For(for_stmt) = &f.body.stmts[0] else {
        panic!("expected For statement")
    };
    assert!(matches!(*for_stmt.init, Stmt::VarDecl(_)));
    assert!(matches!(for_stmt.cond, Expr::Binary { op: BinOp::Lt, .. }));
    assert!(matches!(
        for_stmt.update,
        Expr::Assign { .. }
    ));
}

#[test]
fn parses_array_index_assignment_as_lvalue() {
    // Required for in-place sorting algorithms (bubble/insertion/merge/quicksort) —
    // the informal grammar sketch only shows IDENTIFIER as an assignment target,
    // but arr[j] = tmp; must also be a valid assignment, so the parser accepts any
    // postfix expression on the left of `=` and defers lvalue-validity to sema.
    let decl = parse_one_decl("void main() { arr[j] = tmp; }");
    let Decl::Func(f) = decl else {
        panic!("expected FuncDecl")
    };
    let Stmt::Expr(Expr::Assign { target, .. }) = &f.body.stmts[0] else {
        panic!("expected assignment expression statement")
    };
    assert!(matches!(**target, Expr::Index { .. }));
}

#[test]
fn assignment_is_right_associative() {
    let decl = parse_one_decl("void main() { x = y = 5; }");
    let Decl::Func(f) = decl else {
        panic!("expected FuncDecl")
    };
    let Stmt::Expr(Expr::Assign { value, .. }) = &f.body.stmts[0] else {
        panic!("expected assignment expression statement")
    };
    assert!(matches!(**value, Expr::Assign { .. }));
}

#[test]
fn parses_field_access() {
    let decl = parse_one_decl("void main() { print(arr.length); }");
    let Decl::Func(f) = decl else {
        panic!("expected FuncDecl")
    };
    let Stmt::Expr(Expr::Call { args, .. }) = &f.body.stmts[0] else {
        panic!("expected call expression statement")
    };
    assert!(matches!(args[0], Expr::FieldAccess { .. }));
}

#[test]
fn index_binds_tighter_than_comparison() {
    // arr[mid] == target must parse as Binary(Index, ==, Ident), not
    // Index(Binary(...)) — confirms postfix precedence is above equality.
    let decl = parse_one_decl("void main() { if (arr[mid] == target) return mid; }");
    let Decl::Func(f) = decl else {
        panic!("expected FuncDecl")
    };
    let Stmt::If(if_stmt) = &f.body.stmts[0] else {
        panic!("expected If statement")
    };
    let Expr::Binary { op, left, .. } = &if_stmt.cond else {
        panic!("expected Binary condition")
    };
    assert_eq!(*op, BinOp::Eq);
    assert!(matches!(**left, Expr::Index { .. }));
}

#[test]
fn parses_ternary_expression() {
    let decl = parse_one_decl("void main() { int max = a > b ? a : b; }");
    let Decl::Func(f) = decl else {
        panic!("expected FuncDecl")
    };
    let Stmt::VarDecl(vd) = &f.body.stmts[0] else {
        panic!("expected VarDecl")
    };
    let Some(Expr::Ternary { cond, .. }) = &vd.init else {
        panic!("expected Ternary init, got {:?}", vd.init)
    };
    assert!(matches!(**cond, Expr::Binary { op: BinOp::Gt, .. }));
}

#[test]
fn ternary_is_right_associative_and_binds_looser_than_assignment() {
    // a ? b : c ? d : e  must parse as  a ? b : (c ? d : e)
    let decl = parse_one_decl("void main() { int x = a ? b : c ? d : e; }");
    let Decl::Func(f) = decl else {
        panic!("expected FuncDecl")
    };
    let Stmt::VarDecl(vd) = &f.body.stmts[0] else {
        panic!("expected VarDecl")
    };
    let Some(Expr::Ternary { else_branch, .. }) = &vd.init else {
        panic!("expected Ternary init")
    };
    assert!(matches!(**else_branch, Expr::Ternary { .. }));
}

#[test]
fn parses_compound_assignment_operators() {
    let cases: &[(&str, BinOp)] = &[
        ("x += 1;", BinOp::Add),
        ("x -= 1;", BinOp::Sub),
        ("x *= 1;", BinOp::Mul),
        ("x /= 1;", BinOp::Div),
        ("x %= 1;", BinOp::Mod),
        ("x &= 1;", BinOp::BitAnd),
        ("x |= 1;", BinOp::BitOr),
        ("x ^= 1;", BinOp::BitXor),
        ("x <<= 1;", BinOp::Shl),
        ("x >>= 1;", BinOp::Shr),
    ];
    for (src, expected_op) in cases {
        let decl = parse_one_decl(&format!("void main() {{ {src} }}"));
        let Decl::Func(f) = decl else {
            panic!("expected FuncDecl")
        };
        let Stmt::Expr(Expr::CompoundAssign { op, target, .. }) = &f.body.stmts[0] else {
            panic!("expected CompoundAssign statement for {src}")
        };
        assert_eq!(op, expected_op, "wrong op for {src}");
        assert!(matches!(**target, Expr::Ident { .. }));
    }
}

#[test]
fn compound_assignment_works_on_array_index_target() {
    // The exact double-evaluation hazard case from the Operators Plan.
    let decl = parse_one_decl("void main() { arr[f()] += 1; }");
    let Decl::Func(f) = decl else {
        panic!("expected FuncDecl")
    };
    let Stmt::Expr(Expr::CompoundAssign { target, .. }) = &f.body.stmts[0] else {
        panic!("expected CompoundAssign statement")
    };
    assert!(matches!(**target, Expr::Index { .. }));
}

#[test]
fn parses_bitwise_and_shift_binary_operators() {
    let cases: &[(&str, BinOp)] = &[
        ("a & b", BinOp::BitAnd),
        ("a | b", BinOp::BitOr),
        ("a ^ b", BinOp::BitXor),
        ("a << b", BinOp::Shl),
        ("a >> b", BinOp::Shr),
    ];
    for (src, expected_op) in cases {
        let decl = parse_one_decl(&format!("void main() {{ print({src}); }}"));
        let Decl::Func(f) = decl else {
            panic!("expected FuncDecl")
        };
        let Stmt::Expr(Expr::Call { args, .. }) = &f.body.stmts[0] else {
            panic!("expected call statement")
        };
        assert!(
            matches!(&args[0], Expr::Binary { op, .. } if op == expected_op),
            "wrong op for {src}: {:?}",
            args[0]
        );
    }
}

#[test]
fn parses_unary_bitwise_not() {
    let decl = parse_one_decl("void main() { print(~a); }");
    let Decl::Func(f) = decl else {
        panic!("expected FuncDecl")
    };
    let Stmt::Expr(Expr::Call { args, .. }) = &f.body.stmts[0] else {
        panic!("expected call statement")
    };
    assert!(matches!(
        &args[0],
        Expr::Unary { op: UnOp::BitNot, .. }
    ));
}

#[test]
fn parses_unsigned_right_shift() {
    let decl = parse_one_decl("void main() { print(a >>> b); }");
    let Decl::Func(f) = decl else {
        panic!("expected FuncDecl")
    };
    let Stmt::Expr(Expr::Call { args, .. }) = &f.body.stmts[0] else {
        panic!("expected call statement")
    };
    assert!(matches!(
        &args[0],
        Expr::Binary { op: BinOp::UShr, .. }
    ));
}

#[test]
fn parses_unsigned_right_shift_compound_assign() {
    let decl = parse_one_decl("void main() { x >>>= 1; }");
    let Decl::Func(f) = decl else {
        panic!("expected FuncDecl")
    };
    let Stmt::Expr(Expr::CompoundAssign { op, .. }) = &f.body.stmts[0] else {
        panic!("expected CompoundAssign statement")
    };
    assert_eq!(*op, BinOp::UShr);
}

#[test]
fn parses_prefix_increment_and_decrement() {
    let decl = parse_one_decl("void main() { print(++x); print(--y); }");
    let Decl::Func(f) = decl else {
        panic!("expected FuncDecl")
    };
    let Stmt::Expr(Expr::Call { args: args1, .. }) = &f.body.stmts[0] else {
        panic!("expected call statement")
    };
    assert!(matches!(
        &args1[0],
        Expr::IncDec { op: IncDecOp::Inc, is_prefix: true, .. }
    ));
    let Stmt::Expr(Expr::Call { args: args2, .. }) = &f.body.stmts[1] else {
        panic!("expected call statement")
    };
    assert!(matches!(
        &args2[0],
        Expr::IncDec { op: IncDecOp::Dec, is_prefix: true, .. }
    ));
}

#[test]
fn parses_postfix_increment_and_decrement() {
    let decl = parse_one_decl("void main() { print(x++); print(y--); }");
    let Decl::Func(f) = decl else {
        panic!("expected FuncDecl")
    };
    let Stmt::Expr(Expr::Call { args: args1, .. }) = &f.body.stmts[0] else {
        panic!("expected call statement")
    };
    assert!(matches!(
        &args1[0],
        Expr::IncDec { op: IncDecOp::Inc, is_prefix: false, .. }
    ));
    let Stmt::Expr(Expr::Call { args: args2, .. }) = &f.body.stmts[1] else {
        panic!("expected call statement")
    };
    assert!(matches!(
        &args2[0],
        Expr::IncDec { op: IncDecOp::Dec, is_prefix: false, .. }
    ));
}

#[test]
fn postfix_increment_applies_to_full_index_chain() {
    // arr[i]++ must target the Index expression, not just `arr`.
    let decl = parse_one_decl("void main() { arr[i]++; }");
    let Decl::Func(f) = decl else {
        panic!("expected FuncDecl")
    };
    let Stmt::Expr(Expr::IncDec { target, is_prefix, .. }) = &f.body.stmts[0] else {
        panic!("expected IncDec statement")
    };
    assert!(!is_prefix);
    assert!(matches!(**target, Expr::Index { .. }));
}

#[test]
fn postfix_increment_does_not_chain() {
    // x++++ is not two decrements/increments — the second `++` has
    // nothing valid to attach to as a postfix op after the first, so it
    // should fail to parse (not silently accept it).
    assert!(parse_source("void main() { x++++; }").is_err());
}

#[test]
fn bitwise_and_binds_tighter_than_bitwise_or() {
    // a | b & c must parse as a | (b & c)
    let decl = parse_one_decl("void main() { print(a | b & c); }");
    let Decl::Func(f) = decl else {
        panic!("expected FuncDecl")
    };
    let Stmt::Expr(Expr::Call { args, .. }) = &f.body.stmts[0] else {
        panic!("expected call statement")
    };
    let Expr::Binary { op, right, .. } = &args[0] else {
        panic!("expected top-level Binary")
    };
    assert_eq!(*op, BinOp::BitOr);
    assert!(matches!(**right, Expr::Binary { op: BinOp::BitAnd, .. }));
}

#[test]
fn shift_binds_looser_than_additive_but_tighter_than_comparison() {
    // a << b + c must parse as a << (b + c)
    let decl = parse_one_decl("void main() { print(a << b + c); }");
    let Decl::Func(f) = decl else {
        panic!("expected FuncDecl")
    };
    let Stmt::Expr(Expr::Call { args, .. }) = &f.body.stmts[0] else {
        panic!("expected call statement")
    };
    let Expr::Binary { op, right, .. } = &args[0] else {
        panic!("expected top-level Binary")
    };
    assert_eq!(*op, BinOp::Shl);
    assert!(matches!(**right, Expr::Binary { op: BinOp::Add, .. }));

    // a < b << c must parse as a < (b << c) — shift binds tighter than comparison
    let decl2 = parse_one_decl("void main() { print(a < b << c); }");
    let Decl::Func(f2) = decl2 else {
        panic!("expected FuncDecl")
    };
    let Stmt::Expr(Expr::Call { args: args2, .. }) = &f2.body.stmts[0] else {
        panic!("expected call statement")
    };
    let Expr::Binary { op: op2, right: right2, .. } = &args2[0] else {
        panic!("expected top-level Binary")
    };
    assert_eq!(*op2, BinOp::Lt);
    assert!(matches!(**right2, Expr::Binary { op: BinOp::Shl, .. }));
}

#[test]
fn errors_on_missing_semicolon() {
    assert!(parse_source("int x = 5").is_err());
}

#[test]
fn errors_report_line_number() {
    let err = parse_source("int x = 5\nint y = 10;").unwrap_err();
    match err {
        ParseError::UnexpectedToken { line, .. } => assert_eq!(line, 2),
    }
}

#[test]
fn parses_variables_and_primitives_sample() {
    parse_source(
        r#"
        int x = 5;
        float pi = 3.14;
        bool found = false;
        string name = "arxcy";
        "#,
    )
    .expect("variables & primitives sample should parse cleanly");
}

#[test]
fn parses_arrays_sample() {
    parse_source(
        r#"
        int[] nums = [1, 2, 3, 4, 5];
        void main() { print(nums[0]); }
        "#,
    )
    .expect("arrays sample should parse cleanly");
}

#[test]
fn parses_functions_and_recursion_sample() {
    parse_source(
        r#"
        int add(int a, int b) {
            return a + b;
        }

        int fib(int n) {
            if (n <= 1) return n;
            return fib(n - 1) + fib(n - 2);
        }
        "#,
    )
    .expect("functions & recursion sample should parse cleanly");
}

#[test]
fn parses_control_flow_sample() {
    parse_source(
        r#"
        void main() {
            if (x > 0) {
                print("positive");
            } else if (x == 0) {
                print("zero");
            } else {
                print("negative");
            }

            for (int i = 0; i < nums.length; i = i + 1) {
                print(nums[i]);
            }

            while (x > 0) {
                x = x - 1;
            }
        }
        "#,
    )
    .expect("control flow sample should parse cleanly");
}

#[test]
fn parses_binary_search_worked_example() {
    let program = parse_source(
        r#"
        int binarySearch(int[] arr, int target) {
            int lo = 0;
            int hi = arr.length - 1;
            while (lo <= hi) {
                int mid = lo + (hi - lo) / 2;
                if (arr[mid] == target) return mid;
                else if (arr[mid] < target) lo = mid + 1;
                else hi = mid - 1;
            }
            return -1;
        }
        "#,
    )
    .expect("binary search worked example should parse cleanly");
    assert_eq!(program.decls.len(), 1);
    let Decl::Func(f) = &program.decls[0] else {
        panic!("expected FuncDecl")
    };
    assert_eq!(f.name, "binarySearch");
    assert_eq!(f.params.len(), 2);
}

fn expr_ids(e: &Expr, out: &mut Vec<u32>) {
    match e {
        Expr::Binary { left, right, .. } => {
            expr_ids(left, out);
            expr_ids(right, out);
        }
        Expr::Assign { target, value, .. } | Expr::CompoundAssign { target, value, .. } => {
            expr_ids(target, out);
            expr_ids(value, out);
        }
        Expr::Unary { operand, .. } => expr_ids(operand, out),
        Expr::IncDec { target, .. } => expr_ids(target, out),
        Expr::Ternary { cond, then_branch, else_branch, .. } => {
            expr_ids(cond, out);
            expr_ids(then_branch, out);
            expr_ids(else_branch, out);
        }
        Expr::Call { args, .. } => args.iter().for_each(|a| expr_ids(a, out)),
        Expr::ArrayLiteral { elements, .. } => elements.iter().for_each(|a| expr_ids(a, out)),
        Expr::Index { array, index, .. } => {
            expr_ids(array, out);
            expr_ids(index, out);
        }
        Expr::FieldAccess { object, .. } => expr_ids(object, out),
        Expr::ArrayCreation { size, .. } => expr_ids(size, out),
        _ => {}
    }
    out.push(e.id());
}

fn stmt_ids(s: &Stmt, out: &mut Vec<u32>) {
    match s {
        Stmt::Expr(e) => expr_ids(e, out),
        Stmt::VarDecl(vd) => {
            if let Some(init) = &vd.init {
                expr_ids(init, out);
            }
            out.push(vd.id);
        }
        Stmt::If(i) => {
            expr_ids(&i.cond, out);
            stmt_ids(&i.then_branch, out);
            if let Some(eb) = &i.else_branch {
                stmt_ids(eb, out);
            }
            out.push(i.id);
        }
        Stmt::While(w) => {
            expr_ids(&w.cond, out);
            stmt_ids(&w.body, out);
            out.push(w.id);
        }
        Stmt::For(f) => {
            stmt_ids(&f.init, out);
            expr_ids(&f.cond, out);
            expr_ids(&f.update, out);
            stmt_ids(&f.body, out);
            out.push(f.id);
        }
        Stmt::Return(r) => {
            if let Some(v) = &r.value {
                expr_ids(v, out);
            }
            out.push(r.id);
        }
        Stmt::Block(b) => b.stmts.iter().for_each(|s| stmt_ids(s, out)),
    }
}

#[test]
fn every_node_gets_an_id_of_its_own() {
    let program = parse_source(
        "int g = 2 * 3;\n\
         int f(int n) { if (n < 2) { return n; } else { return f(n - 1) + f(n - 2); } }\n\
         void main() {\n\
           int[] a = new int[3];\n\
           for (int i = 0; i < a.length; i++) { a[i] = i > 1 ? -i : ++g; }\n\
           while (false) { print([1, 2][0]); }\n\
           string s = \"x\"; s += \"y\";\n\
         }",
    )
    .unwrap();
    let mut ids = Vec::new();
    for decl in &program.decls {
        match decl {
            Decl::Var(vd) => {
                if let Some(init) = &vd.init {
                    expr_ids(init, &mut ids);
                }
                ids.push(vd.id);
            }
            Decl::Func(f) => {
                f.body.stmts.iter().for_each(|s| stmt_ids(s, &mut ids));
                ids.push(f.id);
            }
        }
    }
    let mut sorted = ids.clone();
    sorted.sort();
    sorted.dedup();
    assert_eq!(sorted.len(), ids.len());
}
