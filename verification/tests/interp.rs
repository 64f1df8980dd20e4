use anx::ast::BinOp;
use anx::interp::value::{FloatAnswer, FloatOrder, FloatQuery};
use anx::interp::{interpret, Halt, RuntimeError};
use anx::lexer::lex;
use anx::parser::parse;

/// IEEE-754 double arithmetic, as the interpreter asks for it.
fn float_unit(q: FloatQuery) -> FloatAnswer {
    match q {
        FloatQuery::Parse(text) => FloatAnswer::Bits(text.parse::<f64>().unwrap().to_bits()),
        FloatQuery::Arith(op, a, b) => {
            let (x, y) = (f64::from_bits(a), f64::from_bits(b));
            let r = match op {
                BinOp::Add => x + y,
                BinOp::Sub => x - y,
                BinOp::Mul => x * y,
                BinOp::Div => x / y,
                BinOp::Mod => x % y,
                _ => unreachable!("the interpreter asks only for + - * / %"),
            };
            FloatAnswer::Bits(r.to_bits())
        }
        FloatQuery::Negate(a) => FloatAnswer::Bits((-f64::from_bits(a)).to_bits()),
        FloatQuery::Compare(a, b) => {
            let (x, y) = (f64::from_bits(a), f64::from_bits(b));
            FloatAnswer::Order(if x < y {
                FloatOrder::Less
            } else if x > y {
                FloatOrder::Greater
            } else if x == y {
                FloatOrder::Equal
            } else {
                FloatOrder::Unordered
            })
        }
        FloatQuery::Format(a) => FloatAnswer::Text(f64::from_bits(a).to_string()),
    }
}

fn run_captured(source: &str) -> Vec<String> {
    let tokens = lex(source).expect("should lex");
    let program = parse(tokens).expect("should parse");
    anx::sema::analyze(&program).expect("should type-check");
    let run = interpret(&program, &float_unit, &|_: &str| {});
    run.result.expect("should run without a runtime error");
    run.output
}

fn run_expect_runtime_error(source: &str) -> RuntimeError {
    let tokens = lex(source).expect("should lex");
    let program = parse(tokens).expect("should parse");
    anx::sema::analyze(&program).expect("should type-check");
    match interpret(&program, &float_unit, &|_: &str| {}).result {
        Err(Halt::Runtime(e)) => e,
        other => panic!("expected a runtime error, got {other:?}"),
    }
}

#[test]
fn evaluates_arithmetic() {
    let out = run_captured("void main() { print(2 + 3 * 4); }");
    assert_eq!(out, vec!["14"]);
}

#[test]
fn evaluates_comparisons_and_equality() {
    let out = run_captured(
        r#"
        void main() {
            print(3 < 5);
            print(3 == 3);
            print(3 != 5);
        }
        "#,
    );
    assert_eq!(out, vec!["true", "true", "true"]);
}

#[test]
fn short_circuits_and() {
    let out = run_captured(
        r#"
        bool sideEffect() { print("called"); return true; }
        void main() {
            if (false && sideEffect()) { }
            print("done");
        }
        "#,
    );
    assert_eq!(out, vec!["done"]);
}

#[test]
fn short_circuits_or() {
    let out = run_captured(
        r#"
        bool sideEffect() { print("called"); return true; }
        void main() {
            if (true || sideEffect()) { }
            print("done");
        }
        "#,
    );
    assert_eq!(out, vec!["done"]);
}

#[test]
fn evaluates_if_else_if_else() {
    let out = run_captured(
        r#"
        void main() {
            int x = 0;
            if (x > 0) { print("positive"); }
            else if (x == 0) { print("zero"); }
            else { print("negative"); }
        }
        "#,
    );
    assert_eq!(out, vec!["zero"]);
}

#[test]
fn evaluates_while_loop() {
    let out = run_captured(
        r#"
        void main() {
            int x = 3;
            while (x > 0) {
                print(x);
                x = x - 1;
            }
        }
        "#,
    );
    assert_eq!(out, vec!["3", "2", "1"]);
}

#[test]
fn evaluates_for_loop() {
    let out = run_captured(
        r#"
        void main() {
            int[] nums = [10, 20, 30];
            for (int i = 0; i < nums.length; i = i + 1) {
                print(nums[i]);
            }
        }
        "#,
    );
    assert_eq!(out, vec!["10", "20", "30"]);
}

#[test]
fn evaluates_recursion() {
    let out = run_captured(
        r#"
        int fib(int n) {
            if (n <= 1) return n;
            return fib(n - 1) + fib(n - 2);
        }
        void main() { print(fib(10)); }
        "#,
    );
    assert_eq!(out, vec!["55"]);
}

#[test]
fn arrays_are_reference_semantics_across_calls() {
    let out = run_captured(
        r#"
        void increment(int[] arr) {
            arr[0] = arr[0] + 1;
        }
        void main() {
            int[] nums = [5];
            increment(nums);
            print(nums[0]);
        }
        "#,
    );
    assert_eq!(out, vec!["6"]);
}

#[test]
fn array_creation_default_initializes_to_zero() {
    let out = run_captured(
        r#"
        void main() {
            int[] arr = new int[3];
            print(arr[0]);
            print(arr[1]);
            print(arr[2]);
        }
        "#,
    );
    assert_eq!(out, vec!["0", "0", "0"]);
}

#[test]
fn errors_on_array_index_out_of_bounds() {
    let err = run_expect_runtime_error(
        r#"
        void main() {
            int[] arr = [1, 2, 3];
            print(arr[5]);
        }
        "#,
    );
    assert!(matches!(err, RuntimeError::IndexOutOfBounds { .. }));
}

#[test]
fn errors_on_division_by_zero() {
    let err = run_expect_runtime_error(
        r#"
        void main() {
            int x = 5;
            int y = 0;
            print(x / y);
        }
        "#,
    );
    assert_eq!(err, RuntimeError::DivisionByZero);
}

#[test]
fn errors_on_modulo_by_zero() {
    let err = run_expect_runtime_error(
        r#"
        void main() {
            int x = 5;
            int y = 0;
            print(x % y);
        }
        "#,
    );
    assert_eq!(err, RuntimeError::DivisionByZero);
}

#[test]
fn errors_on_negative_array_creation_size() {
    let err = run_expect_runtime_error(
        r#"
        void main() {
            int n = -1;
            int[] arr = new int[n];
        }
        "#,
    );
    assert!(matches!(err, RuntimeError::NegativeArraySize { .. }));
}

// ---- P1 Phase 9 (Operators) ----

#[test]
fn evaluates_ternary() {
    let out = run_captured(
        r#"
        void main() {
            int a = 5;
            int b = 3;
            print(a > b ? a : b);
            print(a > b ? b : a);
        }
        "#,
    );
    assert_eq!(out, vec!["5", "3"]);
}

#[test]
fn ternary_only_evaluates_the_taken_branch() {
    let out = run_captured(
        r#"
        int loud(int v) { print("called"); return v; }
        void main() {
            int x = true ? 1 : loud(99);
            print(x);
        }
        "#,
    );
    assert_eq!(out, vec!["1"]);
}

#[test]
fn evaluates_bitwise_and_shift_operators() {
    let out = run_captured(
        r#"
        void main() {
            print(5 & 3);
            print(5 | 2);
            print(5 ^ 1);
            print(~5);
            print(1 << 4);
            print(16 >> 2);
        }
        "#,
    );
    assert_eq!(out, vec!["1", "7", "4", "-6", "16", "4"]);
}

#[test]
fn evaluates_compound_assignment_on_variable() {
    let out = run_captured(
        r#"
        void main() {
            int x = 10;
            x += 5;
            print(x);
            x -= 3;
            print(x);
            x *= 2;
            print(x);
            x /= 4;
            print(x);
            x %= 4;
            print(x);
            x &= 3;
            print(x);
            x |= 8;
            print(x);
            x ^= 1;
            print(x);
            x <<= 2;
            print(x);
            x >>= 1;
            print(x);
        }
        "#,
    );
    assert_eq!(
        out,
        vec!["15", "12", "24", "6", "2", "2", "10", "11", "44", "22"]
    );
}

#[test]
fn compound_assignment_evaluates_array_index_expression_exactly_once() {
    // The exact hazard the Operators Plan calls out: naive desugaring
    // to `arr[f()] = arr[f()] + 1` would call f() twice.
    let out = run_captured(
        r#"
        int calls = 0;
        int nextIndex() {
            calls = calls + 1;
            return 0;
        }
        void main() {
            int[] arr = [10];
            arr[nextIndex()] += 5;
            print(arr[0]);
            print(calls);
        }
        "#,
    );
    assert_eq!(out, vec!["15", "1"]);
}

#[test]
fn compound_assignment_returns_the_new_value() {
    let out = run_captured(
        r#"
        void main() {
            int x = 1;
            print(x += 4);
        }
        "#,
    );
    assert_eq!(out, vec!["5"]);
}

#[test]
fn evaluates_unsigned_right_shift() {
    // -1 as i64 is all-1-bits; >>> 1 zero-fills the top bit instead of
    // sign-extending, giving i64::MAX. `>>` on the same input stays -1.
    let out = run_captured(
        r#"
        void main() {
            int x = -1;
            print(x >>> 1);
            print(x >> 1);
        }
        "#,
    );
    assert_eq!(out, vec![(i64::MAX).to_string(), "-1".to_string()]);
}

#[test]
fn evaluates_prefix_increment_and_decrement() {
    let out = run_captured(
        r#"
        void main() {
            int x = 5;
            print(++x);
            print(x);
            print(--x);
            print(x);
        }
        "#,
    );
    assert_eq!(out, vec!["6", "6", "5", "5"]);
}

#[test]
fn evaluates_postfix_increment_and_decrement() {
    let out = run_captured(
        r#"
        void main() {
            int x = 5;
            print(x++);
            print(x);
            print(x--);
            print(x);
        }
        "#,
    );
    assert_eq!(out, vec!["5", "6", "6", "5"]);
}

#[test]
fn increment_on_array_index_evaluates_index_once() {
    // Same double-evaluation hazard as compound assignment.
    let out = run_captured(
        r#"
        int calls = 0;
        int nextIndex(int[] counter) {
            counter[0] = counter[0] + 1;
            return 0;
        }
        void main() {
            int[] arr = [10];
            int[] counter = [0];
            arr[nextIndex(counter)]++;
            print(arr[0]);
            print(counter[0]);
        }
        "#,
    );
    assert_eq!(out, vec!["11", "1"]);
}

#[test]
fn increment_works_in_for_loop_update() {
    let out = run_captured(
        r#"
        void main() {
            for (int i = 0; i < 3; i++) {
                print(i);
            }
        }
        "#,
    );
    assert_eq!(out, vec!["0", "1", "2"]);
}

// ---- P2 (Strings) ----

#[test]
fn evaluates_string_length_charat_substring() {
    let out = run_captured(
        r#"
        void main() {
            string s = "hello";
            print(length(s));
            print(s.length);
            print(charAt(s, 1));
            print(substring(s, 1, 4));
        }
        "#,
    );
    assert_eq!(out, vec!["5", "5", "e", "ell"]);
}

#[test]
fn evaluates_string_concat_and_equality() {
    let out = run_captured(
        r#"
        void main() {
            string a = "foo";
            string b = "bar";
            print(a + b);
            print(a == "foo");
            print(a != b);
            print(a + b == "foobar");
        }
        "#,
    );
    assert_eq!(out, vec!["foobar", "true", "true", "true"]);
}

#[test]
fn errors_on_char_at_out_of_bounds() {
    let err = run_expect_runtime_error(
        r#"
        void main() {
            string s = "hi";
            print(charAt(s, 5));
        }
        "#,
    );
    assert!(matches!(err, RuntimeError::StringIndexOutOfBounds { .. }));
}

#[test]
fn errors_on_substring_out_of_bounds() {
    let err = run_expect_runtime_error(
        r#"
        void main() {
            string s = "hi";
            print(substring(s, 0, 5));
        }
        "#,
    );
    assert!(matches!(err, RuntimeError::StringIndexOutOfBounds { .. }));
}

#[test]
fn solves_is_palindrome_via_charat_loop() {
    let out = run_captured(
        r#"
        bool isPalindrome(string s) {
            int i = 0;
            int j = length(s) - 1;
            while (i < j) {
                if (charAt(s, i) != charAt(s, j)) return false;
                i = i + 1;
                j = j - 1;
            }
            return true;
        }
        void main() {
            print(isPalindrome("racecar"));
            print(isPalindrome("hello"));
        }
        "#,
    );
    assert_eq!(out, vec!["true", "false"]);
}

#[test]
fn solves_build_reversed_string_via_concat_loop() {
    let out = run_captured(
        r#"
        string reverse(string s) {
            string result = "";
            int i = length(s) - 1;
            while (i >= 0) {
                result = result + charAt(s, i);
                i = i - 1;
            }
            return result;
        }
        void main() {
            print(reverse("hello"));
        }
        "#,
    );
    assert_eq!(out, vec!["olleh"]);
}

#[test]
fn solves_valid_anagram_via_letter_counting() {
    let out = run_captured(
        r#"
        int countChar(string s, string c) {
            int count = 0;
            int i = 0;
            while (i < length(s)) {
                if (charAt(s, i) == c) count = count + 1;
                i = i + 1;
            }
            return count;
        }
        bool isAnagram(string a, string b) {
            if (length(a) != length(b)) return false;
            string alphabet = "abcdefghijklmnopqrstuvwxyz";
            int k = 0;
            while (k < length(alphabet)) {
                string c = charAt(alphabet, k);
                if (countChar(a, c) != countChar(b, c)) return false;
                k = k + 1;
            }
            return true;
        }
        void main() {
            print(isAnagram("cat", "act"));
            print(isAnagram("cat", "dog"));
        }
        "#,
    );
    assert_eq!(out, vec!["true", "false"]);
}
