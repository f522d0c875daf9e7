use treewalk::enums::{Env, Expr, Statement, Token};
use treewalk::table::Table;
use treewalk::text::{chars_of, int_to_string, string_of};
use treewalk::value::Value;

#[test]
fn integers_are_written_in_decimal() {
    assert_eq!(int_to_string(0), "0");
    assert_eq!(int_to_string(7), "7");
    assert_eq!(int_to_string(10), "10");
    assert_eq!(int_to_string(-1), "-1");
    assert_eq!(int_to_string(1234567890), "1234567890");
    assert_eq!(int_to_string(i32::MAX), "2147483647");
    assert_eq!(int_to_string(i32::MIN), "-2147483648");
    assert_eq!(int_to_string(-100), "-100");
}

#[test]
fn values_are_written_as_text() {
    assert_eq!(Value::Int(-42).to_string(), "-42");
    assert_eq!(Value::String("a b".to_string()).to_string(), "a b");
    assert_eq!(Value::Bool(true).to_string(), "true");
    assert_eq!(Value::Bool(false).to_string(), "false");
    assert_eq!(Value::Unit.to_string(), "");
}

#[test]
fn characters_are_collected_and_put_back() {
    let chars = chars_of("héllo");
    assert_eq!(chars, vec!['h', 'é', 'l', 'l', 'o']);
    assert_eq!(string_of(&chars, 1, 4), "éll");
    assert_eq!(string_of(&chars, 2, 2), "");
    assert_eq!(string_of(&chars, 0, 5), "héllo");
}

#[test]
fn clones_are_equal() {
    let v = Value::String("x".to_string());
    assert_eq!(v.clone(), v);
    let t = Token::IDENT("abc".to_string());
    assert_eq!(t.clone(), t);
    assert_eq!(Token::NUMBER(3).clone(), Token::NUMBER(3));
    let e = Expr::FunctionCall {
        id: "f".to_string(),
        args: vec![Expr::Number(1), Expr::Str("s".to_string()), Expr::Var("v".to_string())],
    };
    assert_eq!(e.clone(), e);
    let st = Statement::FunctionDefine {
        id: "f".to_string(),
        arg: vec!["a".to_string(), "b".to_string()],
        st: Box::new(Statement::If {
            condition: Box::new(e.clone()),
            then: Box::new(Statement::Assign { id: "x".to_string(), e: Box::new(e.clone()) }),
            els: Box::new(Statement::CompoundStatement {
                st1: Box::new(Statement::Return { expr: Box::new(Expr::Number(1)) }),
                st2: Box::new(Statement::FunctionCall { expr: e }),
            }),
        }),
    };
    assert_eq!(st.clone(), st);
}

#[test]
fn tokens_compare_by_kind_and_payload() {
    assert!(Token::PLUS.same(&Token::PLUS));
    assert!(!Token::PLUS.same(&Token::MINUS));
    assert!(Token::NUMBER(1).same(&Token::NUMBER(1)));
    assert!(!Token::NUMBER(1).same(&Token::NUMBER(2)));
    assert!(Token::IDENT("a".to_string()).same(&Token::IDENT("a".to_string())));
    assert!(!Token::IDENT("a".to_string()).same(&Token::IDENT("b".to_string())));
    assert!(!Token::IDENT("a".to_string()).same(&Token::STR("a".to_string())));
}

#[test]
fn a_table_keeps_the_last_value_of_each_name() {
    let mut t: Table<Value> = Table::new();
    assert_eq!(t.get("x"), None);
    assert!(!t.contains_key("x"));
    t.insert("x".to_string(), Value::Int(1));
    t.insert("y".to_string(), Value::Int(2));
    t.insert("x".to_string(), Value::Int(3));
    assert_eq!(t.get("x"), Some(&Value::Int(3)));
    assert_eq!(t.get("y"), Some(&Value::Int(2)));
    assert_eq!(t.get("z"), None);
    assert!(t.contains_key("y"));
    assert_eq!(t.names(), vec!["x".to_string(), "y".to_string()]);
    let e = Env::new();
    assert!(e.names().is_empty());
}
