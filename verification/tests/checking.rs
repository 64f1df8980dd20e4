use anx::ast::{Decl, Expr, Stmt, Type};
use anx::lexer::lex;
use anx::parser::parse;
use anx::sema::symtab::{FuncSig, SymbolTable};
use anx::sema::{analyze, SemaError};

fn check(source: &str) -> Result<anx::sema::SemaResult, Vec<SemaError>> {
    analyze(&parse(lex(source).unwrap()).unwrap())
}

#[test]
fn records_the_type_of_each_checked_expression() {
    let program = parse(lex("void main() { int x = 1 + 2; print(x); }").unwrap()).unwrap();
    let result = analyze(&program).unwrap();
    let Decl::Func(f) = &program.decls[0] else { panic!("expected a function") };
    let Stmt::VarDecl(vd) = &f.body.stmts[0] else { panic!("expected a declaration") };
    let init = vd.init.as_ref().unwrap();
    assert_eq!(result.types.get(&init.id()), Some(&Type::Int));
    let Stmt::Expr(Expr::Call { args, .. }) = &f.body.stmts[1] else { panic!("expected a call") };
    let x_ref = &args[0];
    assert_eq!(result.types.get(&x_ref.id()), Some(&Type::Int));
    // `x` is the first symbol declared.
    assert_eq!(result.var_refs.get(&x_ref.id()), Some(&0));
}

#[test]
fn error_texts_name_the_types() {
    let errors = check("void main() { int[] a = [true]; }").unwrap_err();
    assert_eq!(
        errors,
        vec![SemaError::TypeMismatch {
            expected: "Int".to_string(),
            found: "Bool".to_string(),
            line: 1
        }]
    );
    let errors = check("void main() { int x = 1; x = [1]; }").unwrap_err();
    assert_eq!(
        errors,
        vec![SemaError::TypeMismatch {
            expected: "Int".to_string(),
            found: "array literal".to_string(),
            line: 1
        }]
    );
    let errors = check("void main() { bool b = true & 1; }").unwrap_err();
    assert_eq!(
        errors,
        vec![SemaError::TypeMismatch {
            expected: "Int".to_string(),
            found: "Bool/Int".to_string(),
            line: 1
        }]
    );
    let errors = check("void main() { int[] a = [1]; print(a.size); }").unwrap_err();
    assert_eq!(
        errors,
        vec![SemaError::UnknownField {
            name: "Array(Int)".to_string(),
            field: "size".to_string(),
            line: 1
        }]
    );
}

#[test]
fn errors_come_in_source_order() {
    let errors = check(
        "void main() {\n print(a);\n nope();\n return 1;\n}\nint f() { }\nvoid main() { }",
    )
    .unwrap_err();
    assert_eq!(
        errors,
        vec![
            SemaError::DuplicateDeclaration { name: "main".to_string(), line: 7 },
            SemaError::UndeclaredIdentifier { name: "a".to_string(), line: 2 },
            SemaError::UndeclaredFunction { name: "nope".to_string(), line: 3 },
            SemaError::TypeMismatch {
                expected: "Void".to_string(),
                found: "a value".to_string(),
                line: 4
            },
            SemaError::MissingReturn { line: 6 },
        ]
    );
}

#[test]
fn builtins_cannot_be_redeclared() {
    let errors = check("int length(string s) { return 0; } void main() { }").unwrap_err();
    assert_eq!(
        errors,
        vec![SemaError::DuplicateDeclaration { name: "length".to_string(), line: 1 }]
    );
}

#[test]
fn main_must_be_void_without_parameters() {
    let errors = check("int main() { return 0; }").unwrap_err();
    assert_eq!(errors, vec![SemaError::MissingMain]);
}

#[test]
fn symbol_table_scopes_and_functions() {
    let mut t = SymbolTable::new();
    let a = t.declare_var("x", Type::Int);
    t.push_scope();
    assert!(!t.is_declared_in_current_scope("x"));
    let b = t.declare_var("x", Type::Bool);
    assert_eq!(t.resolve_var("x").unwrap().ty, Type::Bool);
    assert_eq!(t.resolve_var("x").unwrap().id, b);
    t.pop_scope();
    assert_eq!(t.resolve_var("x").unwrap().ty, Type::Int);
    assert_eq!(t.resolve_var("x").unwrap().id, a);
    assert_eq!((a, b), (0, 1));
    assert!(t.resolve_var("y").is_none());
    t.declare_func("f".to_string(), FuncSig { params: vec![Type::Str], return_ty: Type::Void });
    assert_eq!(t.resolve_func("f").unwrap().params, vec![Type::Str]);
    assert!(t.resolve_func("g").is_none());
}

#[test]
fn symbol_ids_count_up_across_scopes() {
    let mut t = SymbolTable::new();
    let mut ids = vec![t.declare_var("a", Type::Int)];
    t.push_scope();
    ids.push(t.declare_var("a", Type::Int));
    t.push_scope();
    ids.push(t.declare_var("b", Type::Str));
    t.pop_scope();
    ids.push(t.declare_var("b", Type::Bool));
    t.pop_scope();
    ids.push(t.declare_var("a", Type::Float));
    assert_eq!(ids, vec![0, 1, 2, 3, 4]);
}

#[test]
fn closing_a_scope_restores_the_outer_names() {
    let mut t = SymbolTable::new();
    let a = t.declare_var("a", Type::Int);
    t.push_scope();
    t.declare_var("a", Type::Str);
    t.declare_var("c", Type::Bool);
    t.push_scope();
    t.declare_var("d", Type::Int);
    t.pop_scope();
    t.declare_func("g".to_string(), FuncSig { params: vec![], return_ty: Type::Void });
    t.pop_scope();
    assert_eq!(t.resolve_var("a").unwrap().id, a);
    assert_eq!(t.resolve_var("a").unwrap().ty, Type::Int);
    assert!(t.resolve_var("c").is_none());
    assert!(t.resolve_var("d").is_none());
    assert!(t.is_declared_in_current_scope("a"));
    assert!(!t.is_declared_in_current_scope("c"));
}

#[test]
fn operators_take_no_mixed_operands() {
    let errors = check(
        "void main() { int a = 1 + 2.0; bool b = 1 < 2.0; int c = 1 & true; bool d = 1 == 1.0; bool e = 1 && true; string s = \"a\" - \"b\"; }",
    )
    .unwrap_err();
    assert_eq!(errors.len(), 6);
    assert!(errors
        .iter()
        .all(|e| matches!(e, SemaError::TypeMismatch { line: 1, .. })));
    assert!(check("void main() { string s = \"a\" + \"b\"; float f = 1.5 % 2.0; bool b = 2.0 >= 1.0; }").is_ok());
}

#[test]
fn main_is_judged_by_its_first_declaration() {
    assert_eq!(
        check("void main(int x) { } void main() { }").unwrap_err(),
        vec![
            SemaError::DuplicateDeclaration { name: "main".to_string(), line: 1 },
            SemaError::MissingMain
        ]
    );
    assert!(check("int add(int a, int b) { return a + b; }")
        .unwrap_err()
        .contains(&SemaError::MissingMain));
}

#[test]
fn a_value_function_must_return_on_every_path() {
    assert!(check("int f(bool c) { if (c) { return 1; } else { return 2; } } void main() { }").is_ok());
    assert!(check("int f() { { return 1; } } void main() { }").is_ok());
    assert_eq!(
        check("int f(bool c) {\n if (c) { return 1; } } void main() { }").unwrap_err(),
        vec![SemaError::MissingReturn { line: 1 }]
    );
    assert_eq!(
        check("int f(bool c) {\n while (c) { return 1; } } void main() { }").unwrap_err(),
        vec![SemaError::MissingReturn { line: 1 }]
    );
}
