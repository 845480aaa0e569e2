use std::sync::Arc;

use binary_options_tools::uni::error::UniError;
use binary_options_tools::uni::validator::Validator as UniValidator;
use binary_options_tools::validator::Validator;

#[test]
fn regex_validator_matches_anywhere() {
    let v = Validator::regex("upd.*Deals".to_string()).unwrap();
    assert!(v.call(r#"42["updateOpenedDeals",[]]"#));
    assert!(!v.call("ping"));
}

#[test]
fn invalid_regex_is_refused() {
    assert!(Validator::regex("(unclosed".to_string()).is_err());
    match UniValidator::regex("(unclosed".to_string()) {
        Err(UniError::Validator(m)) => assert!(m.starts_with("Invalid regex pattern: ")),
        _ => panic!("expected a validator error"),
    }
}

#[test]
fn text_validators() {
    assert!(Validator::starts_with("42[".to_string()).call("42[\"x\"]"));
    assert!(!Validator::starts_with("451-".to_string()).call("42[\"x\"]"));
    assert!(Validator::ends_with("]".to_string()).call("42[\"x\"]"));
    assert!(!Validator::ends_with("}".to_string()).call("42[\"x\"]"));
    assert!(Validator::contains("\"x\"".to_string()).call("42[\"x\"]"));
    assert!(!Validator::contains("y".to_string()).call("42[\"x\"]"));
    assert!(Validator::AcceptAll.call(""));
}

#[test]
fn combinations() {
    let both = Validator::all(vec![
        Validator::starts_with("42".to_string()),
        Validator::contains("auth".to_string()),
    ]);
    assert!(both.call("42[\"auth\"]"));
    assert!(!both.call("42[\"ping\"]"));
    let either = Validator::any(vec![
        Validator::starts_with("451-".to_string()),
        Validator::contains("auth".to_string()),
    ]);
    assert!(either.call("42[\"auth\"]"));
    assert!(either.call("451-[\"x\"]"));
    assert!(!either.call("42[\"x\"]"));
    assert!(Validator::all(vec![]).call("anything"));
    assert!(!Validator::any(vec![]).call("anything"));
    let not = Validator::negate(Validator::contains("x".to_string()));
    assert!(not.call("abc"));
    assert!(!not.call("xyz"));
}

#[test]
fn de_morgan_on_examples() {
    for m in ["ab", "a", "b", ""] {
        let left = Validator::negate(Validator::all(vec![
            Validator::contains("a".to_string()),
            Validator::contains("b".to_string()),
        ]));
        let right = Validator::any(vec![
            Validator::negate(Validator::contains("a".to_string())),
            Validator::negate(Validator::contains("b".to_string())),
        ]);
        assert_eq!(left.call(m), right.call(m));
    }
}

#[test]
fn double_negation_on_examples() {
    let v = Validator::starts_with("4".to_string());
    let vv = Validator::negate(Validator::negate(v.copy()));
    for m in ["42", "x", ""] {
        assert_eq!(v.call(m), vv.call(m));
    }
}

#[test]
fn binding_layer_validators() {
    let v = UniValidator::starts_with("42".to_string());
    assert!(v.check("42[]".to_string()));
    let n = UniValidator::ne(Arc::clone(&v));
    assert!(!n.check("42[]".to_string()));
    let all = UniValidator::all(vec![UniValidator::contains("a".to_string()), UniValidator::ends_with("z".to_string())]);
    assert!(all.check("abcz".to_string()));
    assert!(!all.check("abc".to_string()));
    let any = UniValidator::any(vec![UniValidator::regex("^x".to_string()).unwrap(), UniValidator::new()]);
    assert!(any.check("anything".to_string()));
    let wrapped = UniValidator::from_inner(Validator::contains("q".to_string()));
    assert!(wrapped.inner().call("aqa"));
    assert!(UniValidator::default().check(String::new()));
}
