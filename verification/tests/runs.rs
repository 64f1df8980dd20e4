use anx::ast::BinOp;
use anx::interp::value::{FloatAnswer, FloatOrder, FloatQuery};
use anx::interp::{interpret, interpret_with_budget, Halt, RuntimeError};
use anx::lexer::lex;
use anx::parser::parse;

fn doubles(q: FloatQuery) -> FloatAnswer {
    match q {
        FloatQuery::Parse(text) => FloatAnswer::Bits(text.parse::<f64>().unwrap().to_bits()),
        FloatQuery::Arith(op, a, b) => {
            let (x, y) = (f64::from_bits(a), f64::from_bits(b));
            let r = match op {
                BinOp::Add => x + y,
                BinOp::Sub => x - y,
                BinOp::Mul => x * y,
                BinOp::Div => x / y,
                BinOp::Mod => x % y,
                _ => unreachable!(),
            };
            FloatAnswer::Bits(r.to_bits())
        }
        FloatQuery::Negate(a) => FloatAnswer::Bits((-f64::from_bits(a)).to_bits()),
        FloatQuery::Compare(a, b) => {
            let (x, y) = (f64::from_bits(a), f64::from_bits(b));
            FloatAnswer::Order(if x < y {
                FloatOrder::Less
            } else if x > y {
                FloatOrder::Greater
            } else if x == y {
                FloatOrder::Equal
            } else {
                FloatOrder::Unordered
            })
        }
        FloatQuery::Format(a) => FloatAnswer::Text(f64::from_bits(a).to_string()),
    }
}

fn program(source: &str) -> anx::ast::Program {
    let program = parse(lex(source).expect("should lex")).expect("should parse");
    anx::sema::analyze(&program).expect("should type-check");
    program
}

fn output_of(source: &str) -> Vec<String> {
    let run = interpret(&program(source), &doubles, &|_: &str| {});
    assert_eq!(run.result, Ok(()));
    run.output
}

#[test]
fn float_arithmetic_goes_through_the_float_unit() {
    let out = output_of(
        r#"
        void main() {
            float x = 1.5;
            x++;
            print(x);
            print(x / 2.0);
            print(-x);
            print(x * 2.0 - 1.0);
            print(x > 1.0);
            print(x == 2.5);
        }
        "#,
    );
    assert_eq!(out, vec!["2.5", "1.25", "-2.5", "4", "true", "true"]);
}

#[test]
fn float_remainder_follows_the_dividend() {
    let out = output_of(
        r#"
        void main() {
            print(5.5 % 2.0);
            print(-5.5 % 2.0);
            float x = 7.25;
            x %= 2.0;
            print(x);
        }
        "#,
    );
    assert_eq!(out, vec!["1.5", "-1.5", "1.25"]);
}

#[test]
fn int_arithmetic_wraps_around() {
    let out = output_of(
        r#"
        void main() {
            int big = 9223372036854775807;
            print(big + 1);
            int small = -big - 1;
            print(small / -1);
            print(small % -1);
            print(-small);
            print(big * 2);
        }
        "#,
    );
    assert_eq!(
        out,
        vec![
            "-9223372036854775808",
            "-9223372036854775808",
            "0",
            "-9223372036854775808",
            "-2"
        ]
    );
}

#[test]
fn shifts_take_their_amount_modulo_64() {
    let out = output_of("void main() { print(1 << 65); print(-8 >> 1); print(-1 >>> 60); }");
    assert_eq!(out, vec!["2", "-4", "15"]);
}

#[test]
fn arrays_compare_equal_by_contents() {
    let out = output_of(
        r#"
        void main() {
            int[] a = [1, 2];
            int[] b = [1, 2];
            int[] c = [1, 3];
            print(a == b);
            print(a != c);
            int[] d = [1];
            print(a == d);
        }
        "#,
    );
    assert_eq!(out, vec!["true", "true", "false"]);
}

#[test]
fn arrays_are_shared_not_copied() {
    let out = output_of(
        r#"
        void set(int[] xs, int i, int v) { xs[i] = v; }
        void main() {
            int[] a = [1, 2];
            int[] b = a;
            b[0] = 9;
            print(a[0]);
            set(b, 1, 7);
            print(a[1]);
        }
        "#,
    );
    assert_eq!(out, vec!["9", "7"]);
}

#[test]
fn string_builtins_work_on_bytes() {
    let out = output_of(
        r#"
        void main() {
            string s = "héllo";
            print(length(s));
            print(s.length);
            print(charAt(s, 0));
            print(substring(s, 0, 1));
            print(substring(s, 3, 6));
        }
        "#,
    );
    assert_eq!(out, vec!["6", "6", "h", "h", "llo"]);
}

#[test]
fn substring_that_splits_a_character_is_repaired() {
    // The second byte of "é" on its own is no valid UTF-8.
    let out = output_of(r#"void main() { print(substring("é", 1, 2)); print(charAt("é", 0)); }"#);
    assert_eq!(out, vec!["\u{FFFD}", "\u{C3}"]);
}

#[test]
fn step_budget_stops_an_endless_loop() {
    let p = program("void main() { print(1); while (true) { } }");
    let run = interpret_with_budget(&p, &doubles, &|_: &str| {}, 10);
    assert_eq!(run.output, vec!["1"]);
    assert_eq!(run.result, Err(Halt::StepLimit));
}

#[test]
fn output_before_a_runtime_error_is_kept() {
    let run = interpret(
        &program("void main() { print(1); int[] a = [1]; print(a[1]); print(2); }"),
        &doubles,
        &|_: &str| {},
    );
    assert_eq!(run.output, vec!["1"]);
    assert_eq!(
        run.result,
        Err(Halt::Runtime(RuntimeError::IndexOutOfBounds { index: 1, length: 1 }))
    );
}

#[test]
fn globals_are_initialized_in_order_and_shared_with_functions() {
    let out = output_of(
        r#"
        int counter = 10;
        int[] log = new int[2];
        void bump() { counter++; }
        void main() {
            bump();
            bump();
            print(counter);
            print(log[1]);
        }
        "#,
    );
    assert_eq!(out, vec!["12", "0"]);
}

#[test]
fn default_values_of_each_type() {
    let out = output_of(
        r#"
        void main() {
            int i;
            float f;
            bool b;
            string s;
            int[] a;
            print(i);
            print(f);
            print(b);
            print(s);
            print(a.length);
        }
        "#,
    );
    assert_eq!(out, vec!["0", "0", "false", "", "0"]);
}

#[test]
fn void_function_returns_nothing_and_recursion_works() {
    let out = output_of(
        r#"
        int fact(int n) { if (n <= 1) return 1; return n * fact(n - 1); }
        void show(int n) { print(n); return; }
        void main() { show(fact(10)); }
        "#,
    );
    assert_eq!(out, vec!["3628800"]);
}

#[test]
fn a_larger_budget_changes_nothing_for_a_run_that_finishes() {
    let p = program(
        r#"
        int fib(int n) { if (n < 2) return n; return fib(n - 1) + fib(n - 2); }
        void main() { for (int i = 0; i < 10; i++) { print(fib(i)); } }
        "#,
    );
    let small = interpret_with_budget(&p, &doubles, &|_: &str| {}, 1000);
    let large = interpret(&p, &doubles, &|_: &str| {});
    assert_eq!(small.result, Ok(()));
    assert_eq!(small.output, large.output);
    assert_eq!(small.output.last().map(|s| s.as_str()), Some("34"));
    let tiny = interpret_with_budget(&p, &doubles, &|_: &str| {}, 3);
    assert_eq!(tiny.result, Err(Halt::StepLimit));
}

#[test]
fn writing_a_cell_leaves_the_other_cells() {
    let out = output_of(
        r#"
        void main() {
            int[] a = [1, 2, 3];
            int[] b = [4, 5, 6];
            a[1] = 20;
            print(a[0]);
            print(a[1]);
            print(a[2]);
            print(b[1]);
        }
        "#,
    );
    assert_eq!(out, vec!["1", "20", "3", "5"]);
}

#[test]
fn calls_and_blocks_keep_their_variables_to_themselves() {
    let out = output_of(
        r#"
        int shadow(int x) { x = x + 100; int y = 7; return x; }
        void main() {
            int x = 1;
            int y = 2;
            print(shadow(x));
            print(x);
            print(y);
            {
                int x = 50;
                print(x);
            }
            print(x);
        }
        "#,
    );
    assert_eq!(out, vec!["101", "1", "2", "50", "1"]);
}

#[test]
fn printed_lines_reach_the_sink_as_they_are_written() {
    let seen = std::cell::RefCell::new(Vec::new());
    let p = program("void main() { print(1); print(\"two\"); int[] a = [1]; print(a[3]); }");
    let run = interpret(&p, &doubles, &|line: &str| seen.borrow_mut().push(line.to_string()));
    assert_eq!(seen.into_inner(), vec!["1", "two"]);
    assert_eq!(run.output, vec!["1", "two"]);
    assert!(matches!(run.result, Err(Halt::Runtime(RuntimeError::IndexOutOfBounds { .. }))));
}

#[test]
fn integer_division_truncates_toward_zero() {
    let out = output_of(
        r#"
        void main() {
            print(-7 / 2);
            print(-7 % 2);
            print(7 / -2);
            print(7 % -2);
            print(-7 / -2);
            print(-7 % -2);
        }
        "#,
    );
    assert_eq!(out, vec!["-3", "-1", "-3", "1", "3", "-1"]);
}

#[test]
fn remainder_by_zero_ends_the_run() {
    let run = interpret(
        &program("void main() { int x = 5; int y = 0; print(x % y); }"),
        &doubles,
        &|_: &str| {},
    );
    assert_eq!(run.result, Err(Halt::Runtime(RuntimeError::DivisionByZero)));
    assert!(run.output.is_empty());
}
