use decafc::env::{EnvStack, EnvType, MethodSig};
use decafc::errors::SemanticCheckError;
use decafc::ir::{ReturnType, Type, VarDecl0};

fn decl(name: &str, t: Type, len: Option<i32>) -> VarDecl0 {
    VarDecl0 { type_: t, id: name.to_string(), arr_len: len }
}

#[test]
fn inner_scope_shadows_and_pop_restores() {
    let mut e = EnvStack::new();
    e.push(EnvType::Global);
    let outer = e.add_var(decl("x", Type::Int, None)).unwrap();
    e.push(EnvType::If(0));
    let inner = e.add_var(decl("x", Type::Bool, None)).unwrap();
    assert_ne!(outer, inner);
    assert_eq!(e.get_var_decl(&"x".to_string()), Some(inner));
    e.pop();
    assert_eq!(e.get_var_decl(&"x".to_string()), Some(outer));
    assert_eq!(e.get_var_decl(&"y".to_string()), None);
}

#[test]
fn same_scope_duplicate_and_bad_length() {
    let mut e = EnvStack::new();
    e.push(EnvType::Global);
    assert!(e.add_var(decl("x", Type::Int, None)).is_ok());
    assert_eq!(e.add_var(decl("x", Type::Int, None)), Err(SemanticCheckError::DuplicatedVar("x".to_string())));
    assert_eq!(e.add_var(decl("a", Type::Int, Some(0))), Err(SemanticCheckError::ArrayLenShouldPositive("a".to_string())));
    assert!(e.add_var(decl("b", Type::Int, Some(1))).is_ok());
}

#[test]
fn loops_are_found_through_branches() {
    let mut e = EnvStack::new();
    e.push(EnvType::Global);
    e.push(EnvType::Method(0, ReturnType::Void));
    assert_eq!(e.get_cur_scope_loop(), None);
    e.push(EnvType::While(4));
    e.push(EnvType::For(7));
    e.push(EnvType::If(9));
    assert_eq!(e.get_cur_scope_loop(), Some(EnvType::For(7)));
    assert_eq!(e.get_cur_scope_for(), Some(7));
    assert_eq!(e.get_cur_scope_while(), Some(4));
    assert_eq!(e.get_cur_scope_method_decl(), Some((0, ReturnType::Void)));
    e.pop();
    e.pop();
    assert_eq!(e.get_cur_scope_loop(), Some(EnvType::While(4)));
    assert_eq!(e.get_cur_scope_for(), None);
}

#[test]
fn methods_live_in_one_namespace() {
    let mut e = EnvStack::new();
    let sig = |n: &str| MethodSig { name: n.to_string(), return_type: ReturnType::Type(Type::Int), arg_types: vec![Type::Bool] };
    assert_eq!(e.add_method(sig("f")), Ok(()));
    assert_eq!(e.add_method(sig("g")), Ok(()));
    assert_eq!(e.add_method(sig("f")), Err(SemanticCheckError::DuplicatedMethod("f".to_string())));
    assert_eq!(e.get_method_decl(&"g".to_string()), Some(1));
    assert_eq!(e.get_method_decl(&"h".to_string()), None);
    assert_eq!(e.get_cur_scope_method_decl(), None);
}
