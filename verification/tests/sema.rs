use anx::lexer::lex;
use anx::parser::parse;
use anx::sema::{analyze, SemaError, SemaResult};

fn check(source: &str) -> Result<SemaResult, Vec<SemaError>> {
    let tokens = lex(source).expect("source should lex cleanly");
    let program = parse(tokens).expect("source should parse cleanly");
    analyze(&program)
}

fn expect_ok(source: &str) {
    if let Err(errors) = check(source) {
        panic!("expected no sema errors, got: {errors:?}");
    }
}

fn expect_errors(source: &str) -> Vec<SemaError> {
    check(source).expect_err("expected sema errors")
}

#[test]
fn valid_var_decl_and_main() {
    expect_ok("void main() { int x = 5; }");
}

#[test]
fn valid_recursive_function() {
    expect_ok(
        r#"
        int fib(int n) {
            if (n <= 1) return n;
            return fib(n - 1) + fib(n - 2);
        }
        void main() { print(fib(10)); }
        "#,
    );
}

#[test]
fn valid_array_literal_index_and_length() {
    expect_ok(
        r#"
        void main() {
            int[] nums = [1, 2, 3];
            print(nums[0]);
            print(nums.length);
        }
        "#,
    );
}

#[test]
fn valid_array_creation_with_runtime_size() {
    expect_ok(
        r#"
        void main() {
            int n = 5;
            int[] scratch = new int[n];
            scratch[0] = 1;
        }
        "#,
    );
}

#[test]
fn valid_for_and_while_loops() {
    expect_ok(
        r#"
        void main() {
            int[] nums = [1, 2, 3];
            for (int i = 0; i < nums.length; i = i + 1) {
                print(nums[i]);
            }
            int x = 3;
            while (x > 0) {
                x = x - 1;
            }
        }
        "#,
    );
}

#[test]
fn errors_on_undeclared_identifier() {
    let errors = expect_errors("void main() { print(y); }");
    assert!(matches!(errors[0], SemaError::UndeclaredIdentifier { .. }));
}

#[test]
fn errors_on_type_mismatch_in_var_decl() {
    let errors = expect_errors("void main() { int x = true; }");
    assert!(errors
        .iter()
        .any(|e| matches!(e, SemaError::TypeMismatch { .. })));
}

#[test]
fn errors_on_call_arity_mismatch() {
    let errors = expect_errors(
        r#"
        int add(int a, int b) { return a + b; }
        void main() { print(add(1)); }
        "#,
    );
    assert!(errors
        .iter()
        .any(|e| matches!(e, SemaError::ArityMismatch { .. })));
}

#[test]
fn errors_on_call_argument_type_mismatch() {
    let errors = expect_errors(
        r#"
        int add(int a, int b) { return a + b; }
        void main() { print(add(1, true)); }
        "#,
    );
    assert!(errors
        .iter()
        .any(|e| matches!(e, SemaError::TypeMismatch { .. })));
}

#[test]
fn errors_on_non_bool_if_condition() {
    let errors = expect_errors("void main() { if (5) { } }");
    assert!(errors
        .iter()
        .any(|e| matches!(e, SemaError::NonBoolCondition { .. })));
}

#[test]
fn errors_on_non_int_array_index() {
    let errors = expect_errors(
        r#"
        void main() {
            int[] nums = [1, 2, 3];
            bool b = true;
            print(nums[b]);
        }
        "#,
    );
    assert!(errors
        .iter()
        .any(|e| matches!(e, SemaError::TypeMismatch { .. })));
}

#[test]
fn errors_on_indexing_non_array() {
    let errors = expect_errors(
        r#"
        void main() {
            int x = 5;
            print(x[0]);
        }
        "#,
    );
    assert!(errors
        .iter()
        .any(|e| matches!(e, SemaError::NotIndexable { .. })));
}

#[test]
fn errors_on_missing_main() {
    let errors = expect_errors("int add(int a, int b) { return a + b; }");
    assert!(errors.iter().any(|e| matches!(e, SemaError::MissingMain)));
}

#[test]
fn errors_on_duplicate_declaration_in_same_scope() {
    let errors = expect_errors("void main() { int x = 1; int x = 2; }");
    assert!(errors
        .iter()
        .any(|e| matches!(e, SemaError::DuplicateDeclaration { .. })));
}

#[test]
fn errors_on_missing_return_in_non_void_function() {
    let errors = expect_errors(
        r#"
        int add(int a, int b) { }
        void main() { }
        "#,
    );
    assert!(errors
        .iter()
        .any(|e| matches!(e, SemaError::MissingReturn { .. })));
}

#[test]
fn errors_on_invalid_assignment_target() {
    let errors = expect_errors("void main() { int x = 1; 5 = x; }");
    assert!(errors
        .iter()
        .any(|e| matches!(e, SemaError::InvalidAssignTarget { .. })));
}

#[test]
fn errors_on_assigning_to_array_length() {
    // .length is computed, not stored — there's nothing to assign to.
    let errors = expect_errors(
        r#"
        void main() {
            int[] nums = [1, 2, 3];
            nums.length = 5;
        }
        "#,
    );
    assert!(errors
        .iter()
        .any(|e| matches!(e, SemaError::InvalidAssignTarget { .. })));
}

#[test]
fn errors_on_unknown_field_access() {
    let errors = expect_errors(
        r#"
        void main() {
            int x = 5;
            print(x.length);
        }
        "#,
    );
    assert!(errors
        .iter()
        .any(|e| matches!(e, SemaError::UnknownField { .. })));
}

#[test]
fn errors_collect_more_than_one_at_once() {
    // Sema must not stop at the first error, per the plan's "collect all
    // errors per pass" requirement — unlike the lexer/parser.
    let errors = expect_errors(
        r#"
        void main() {
            print(undeclared_one);
            print(undeclared_two);
        }
        "#,
    );
    assert_eq!(errors.len(), 2);
}

#[test]
fn variable_scoping_is_block_local() {
    let errors = expect_errors(
        r#"
        void main() {
            if (true) {
                int x = 1;
            }
            print(x);
        }
        "#,
    );
    assert!(errors
        .iter()
        .any(|e| matches!(e, SemaError::UndeclaredIdentifier { .. })));
}

// ---- P1 Phase 9 (Operators): ternary, compound assignment, bitwise, shift ----

#[test]
fn valid_ternary_expression() {
    expect_ok("void main() { int x = true ? 1 : 2; }");
}

#[test]
fn errors_on_non_bool_ternary_condition() {
    let errors = expect_errors("void main() { int x = 1 ? 1 : 2; }");
    assert!(errors
        .iter()
        .any(|e| matches!(e, SemaError::NonBoolCondition { .. })));
}

#[test]
fn errors_on_ternary_branch_type_mismatch() {
    let errors = expect_errors(r#"void main() { int x = true ? 1 : "a"; }"#);
    assert!(errors
        .iter()
        .any(|e| matches!(e, SemaError::TypeMismatch { .. })));
}

#[test]
fn errors_on_void_typed_ternary_branch() {
    // print() returns Void — a phi node can't be void-typed, so this
    // must be rejected here rather than discovered by codegen.
    let errors = expect_errors("void main() { true ? print(1) : print(2); }");
    assert!(errors
        .iter()
        .any(|e| matches!(e, SemaError::TypeMismatch { .. })));
}

#[test]
fn valid_compound_assignment_on_variable_and_array_index() {
    expect_ok(
        r#"
        void main() {
            int x = 1;
            x += 2;
            x -= 1;
            x *= 3;
            x /= 2;
            x %= 2;
            int[] arr = [1, 2, 3];
            arr[0] += 10;
        }
        "#,
    );
}

#[test]
fn valid_bitwise_compound_assignment() {
    expect_ok(
        r#"
        void main() {
            int x = 5;
            x &= 3;
            x |= 8;
            x ^= 1;
            x <<= 2;
            x >>= 1;
        }
        "#,
    );
}

#[test]
fn errors_on_compound_assign_type_mismatch() {
    let errors = expect_errors(r#"void main() { int x = 1; x += "a"; }"#);
    assert!(errors
        .iter()
        .any(|e| matches!(e, SemaError::TypeMismatch { .. })));
}

#[test]
fn errors_on_compound_assign_to_invalid_target() {
    let errors = expect_errors("void main() { 5 += 1; }");
    assert!(errors
        .iter()
        .any(|e| matches!(e, SemaError::InvalidAssignTarget { .. })));
}

#[test]
fn valid_bitwise_and_shift_binary_ops() {
    expect_ok(
        r#"
        void main() {
            int a = 5 & 3;
            int b = 5 | 3;
            int c = 5 ^ 3;
            int d = ~5;
            int e = 1 << 4;
            int f = 16 >> 2;
            print(a);
            print(b);
            print(c);
            print(d);
            print(e);
            print(f);
        }
        "#,
    );
}

#[test]
fn errors_on_bitwise_op_with_non_int_operand() {
    let errors = expect_errors("void main() { bool b = true; int x = b & 1; }");
    assert!(errors
        .iter()
        .any(|e| matches!(e, SemaError::TypeMismatch { .. })));
}

#[test]
fn errors_on_bitwise_not_on_non_int() {
    let errors = expect_errors("void main() { bool b = true; int x = ~b; }");
    assert!(errors
        .iter()
        .any(|e| matches!(e, SemaError::TypeMismatch { .. })));
}

#[test]
fn valid_unsigned_right_shift() {
    expect_ok("void main() { int x = -1 >>> 1; print(x); }");
}

#[test]
fn valid_unsigned_right_shift_compound_assign() {
    expect_ok("void main() { int x = -1; x >>>= 1; print(x); }");
}

#[test]
fn valid_prefix_and_postfix_inc_dec_on_variable() {
    expect_ok(
        r#"
        void main() {
            int x = 5;
            print(++x);
            print(x++);
            print(--x);
            print(x--);
        }
        "#,
    );
}

#[test]
fn valid_inc_dec_on_array_index_and_float() {
    expect_ok(
        r#"
        void main() {
            int[] arr = [1, 2, 3];
            arr[0]++;
            ++arr[1];
            float f = 1.5;
            f++;
        }
        "#,
    );
}

#[test]
fn errors_on_inc_dec_on_invalid_target() {
    let errors = expect_errors("void main() { 5++; }");
    assert!(errors
        .iter()
        .any(|e| matches!(e, SemaError::InvalidAssignTarget { .. })));
}

#[test]
fn errors_on_inc_dec_on_non_numeric_type() {
    let errors = expect_errors("void main() { bool b = true; b++; }");
    assert!(errors
        .iter()
        .any(|e| matches!(e, SemaError::TypeMismatch { .. })));
}

// ---- P2 (Strings) ----

#[test]
fn valid_string_builtins_and_operators() {
    expect_ok(
        r#"
        void main() {
            string s = "hello";
            int n = length(s);
            string c = charAt(s, 0);
            string sub = substring(s, 1, 3);
            string cat = s + " world";
            bool eq = s == "hello";
            bool neq = s != "world";
            print(n);
            print(c);
            print(sub);
            print(cat);
            print(eq);
            print(neq);
        }
        "#,
    );
}

#[test]
fn valid_string_length_field_access() {
    expect_ok(
        r#"
        void main() {
            string s = "hello";
            print(s.length);
        }
        "#,
    );
}

#[test]
fn errors_on_length_arity_mismatch() {
    let errors = expect_errors(r#"void main() { print(length("a", "b")); }"#);
    assert!(errors
        .iter()
        .any(|e| matches!(e, SemaError::ArityMismatch { .. })));
}

#[test]
fn errors_on_length_arg_type_mismatch() {
    let errors = expect_errors("void main() { print(length(5)); }");
    assert!(errors
        .iter()
        .any(|e| matches!(e, SemaError::TypeMismatch { .. })));
}

#[test]
fn errors_on_char_at_arg_type_mismatch() {
    let errors = expect_errors(r#"void main() { print(charAt("hi", "x")); }"#);
    assert!(errors
        .iter()
        .any(|e| matches!(e, SemaError::TypeMismatch { .. })));
}

#[test]
fn errors_on_substring_arity_mismatch() {
    let errors = expect_errors(r#"void main() { print(substring("hi", 0)); }"#);
    assert!(errors
        .iter()
        .any(|e| matches!(e, SemaError::ArityMismatch { .. })));
}

#[test]
fn errors_on_string_plus_int() {
    let errors = expect_errors(r#"void main() { string s = "a" + 1; }"#);
    assert!(errors
        .iter()
        .any(|e| matches!(e, SemaError::TypeMismatch { .. })));
}

#[test]
fn errors_on_string_int_equality_mismatch() {
    let errors = expect_errors(r#"void main() { bool b = "a" == 1; }"#);
    assert!(errors
        .iter()
        .any(|e| matches!(e, SemaError::TypeMismatch { .. })));
}
