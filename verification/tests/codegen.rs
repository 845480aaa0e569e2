use binary_options_tools::codegen::lightweight_module::{
    pattern_rule, plan_module, struct_name_from, CallArg, HandlerParam, LightweightModuleArgs, RuleSource, StateType,
};
use binary_options_tools::codegen::rule::{
    parse_rule, rule_item, rule_to_code, Delim, DslNode, MatcherCall, RuleError, RuleExpr, RuleToken, TextArg,
};

/// Splits a rule attribute into tokens: identifiers, string literals,
/// numbers, brackets and punctuation (joined when followed by punctuation).
fn lex(src: &str) -> Vec<RuleToken> {
    let chars: Vec<char> = src.chars().collect();
    let mut out = Vec::new();
    let mut i: usize = 0;
    while i < chars.len() {
        let c = chars[i];
        if c.is_whitespace() {
            i += 1;
        } else if c.is_alphabetic() || c == '_' {
            let start = i;
            while i < chars.len() && (chars[i].is_alphanumeric() || chars[i] == '_') {
                i += 1;
            }
            out.push(RuleToken::Ident(chars[start..i].iter().collect()));
        } else if c.is_ascii_digit() {
            let start = i;
            while i < chars.len() && chars[i].is_ascii_alphanumeric() {
                i += 1;
            }
            out.push(RuleToken::Lit(chars[start..i].iter().collect()));
        } else if c == '"' {
            let start = i;
            i += 1;
            while chars[i] != '"' {
                if chars[i] == '\\' {
                    i += 1;
                }
                i += 1;
            }
            i += 1;
            out.push(RuleToken::Str(chars[start..i].iter().collect()));
        } else if "([{".contains(c) {
            out.push(RuleToken::Open(match c { '(' => Delim::Paren, '[' => Delim::Bracket, _ => Delim::Brace }));
            i += 1;
        } else if ")]}".contains(c) {
            out.push(RuleToken::Close(match c { ')' => Delim::Paren, ']' => Delim::Bracket, _ => Delim::Brace }));
            i += 1;
        } else {
            let joint = i + 1 < chars.len() && !chars[i + 1].is_whitespace() && !chars[i + 1].is_alphanumeric()
                && !"()[]{}\"_".contains(chars[i + 1]);
            out.push(RuleToken::Punct(c, joint));
            i += 1;
        }
    }
    out
}

fn code(src: &str) -> String {
    let ts = lex(src);
    let r = parse_rule(&ts).unwrap();
    rule_to_code(&ts, &r)
}

const B: &str = "::binary_options_tools_core::rules::RuleBuilder::";

#[test]
fn struct_and_function_rules() {
    assert_eq!(code("MyRule"), "::std::boxed::Box::new(MyRule::new())");
    assert_eq!(code("fn = make_rule"), "::std::boxed::Box::new(make_rule ())");
    assert_eq!(code("fn = rules::make"), "::std::boxed::Box::new(rules :: make ())");
}

#[test]
fn single_matcher() {
    assert_eq!(code(r#"{ starts_with("42") }"#), format!("::std::boxed::Box::new({B}text_starts_with(\"42\").build())"));
    assert_eq!(code("{ any() }"), format!("::std::boxed::Box::new({B}any().build())"));
    assert_eq!(code("{ contains(PREFIX) }"), format!("::std::boxed::Box::new({B}text_contains(PREFIX).build())"));
}

#[test]
fn precedence_of_operators() {
    let ts = lex(r#"{ !a() & b() | c() -> d() }"#.replace("a()", "any()").replace("b()", "never()").replace("c()", "any()").replace("d()", "never()").as_str());
    match parse_rule(&ts).unwrap() {
        RuleExpr::Dsl(DslNode::Then(left, right)) => {
            match *left {
                DslNode::Or(ors) => {
                    assert_eq!(ors.len(), 2);
                    match &ors[0] {
                        DslNode::And(ands) => {
                            assert_eq!(ands.len(), 2);
                            assert!(matches!(&ands[0], DslNode::Not(_)));
                        },
                        other => panic!("unexpected {:?}", other),
                    }
                },
                other => panic!("unexpected {:?}", other),
            }
            assert!(matches!(*right, DslNode::MethodChain(_)));
        },
        other => panic!("unexpected {:?}", other),
    }
}

#[test]
fn combinators_generate_builder_calls() {
    assert_eq!(
        code(r#"{ starts_with("A") | ends_with("Z") }"#),
        format!("::std::boxed::Box::new({B}text_starts_with(\"A\").or({B}text_ends_with(\"Z\").build()).build())")
    );
    assert_eq!(
        code(r#"{ starts_with("42") & !contains("error") }"#),
        format!("::std::boxed::Box::new({B}text_starts_with(\"42\").and({B}text_contains(\"error\").not().build()).build())")
    );
    assert_eq!(
        code(r#"{ exact("a") -> regex("b+") }"#),
        format!("::std::boxed::Box::new({B}text_exact(\"a\").then({B}text_regex(\"b+\").build()).build())")
    );
}

#[test]
fn parentheses_group() {
    assert_eq!(
        code("{ (any() | never()) & any() }"),
        format!("::std::boxed::Box::new({B}any().or({B}never().build()).and({B}any().build()).build())")
    );
}

#[test]
fn chained_methods_and_expressions() {
    assert_eq!(
        code(r#"{ contains("{").lstrip_until("{").wait(1) }"#),
        format!("::std::boxed::Box::new({B}text_contains(\"{{\").lstrip_until(\"{{\" ,).wait(1 ,).build())")
    );
    assert_eq!(
        code("{ binary_starts_with([1, 2]) }"),
        format!("::std::boxed::Box::new({B}binary_starts_with([ 1 , 2 ] ).build())")
    );
    assert_eq!(code("{ message_type(Text) }"), format!("::std::boxed::Box::new({B}message_type(Text).build())"));
    assert_eq!(code("{ json_schema(MyStruct) }"), format!("::std::boxed::Box::new({B}json_schema::<MyStruct >().build())"));
    assert_eq!(code("{ any().reset() }"), format!("::std::boxed::Box::new({B}any().reset().build())"));
}

#[test]
fn parsed_matchers_point_into_the_tokens() {
    let ts = lex(r#"{ starts_with("42") }"#);
    match parse_rule(&ts).unwrap() {
        RuleExpr::Dsl(DslNode::MethodChain(c)) => {
            assert_eq!(c.base, MatcherCall::StartsWith(TextArg::Literal(3)));
            assert!(c.methods.is_empty());
        },
        other => panic!("unexpected {:?}", other),
    }
}

fn error(src: &str) -> (RuleError, String) {
    let ts = lex(src);
    let e = parse_rule(&ts).unwrap_err();
    let m = e.message(&ts);
    (e, m)
}

#[test]
fn rule_refusals() {
    assert_eq!(error("{ unknown() }").1, "Unknown matcher 'unknown'");
    assert_eq!(error("{ any(1) }").1, "Matcher 'any' does not take any arguments");
    assert_eq!(error("{ starts_with }").1, "Expected parenthesis after matcher 'starts_with'");
    assert_eq!(error("{ \"x\" }").1, "Expected an ident for matcher!");
    assert_eq!(error("{ any().wait }").1, "Expected parenthesis after ident 'wait'");
    assert_eq!(error("{ any(). }").1, "Expected ident!");
    assert_eq!(error("\"lit\"").1, "Expected either a struct ident, a function reference (fn = ...), or a DSL expression!");
    assert!(matches!(error("A B").0, RuleError::UnexpectedToken(1)));
    assert!(matches!(error("{ any() } extra").0, RuleError::UnexpectedToken(_)));
    assert!(matches!(error("{ starts_with(1) }").0, RuleError::ExpectedText(_)));
    assert!(matches!(error("{ binary_exact() }").0, RuleError::ExpectedArgument(_)));
    assert!(matches!(error("{ any().wait(,1) }").0, RuleError::UnexpectedToken(_)));
    assert!(matches!(error("{ !!any() }").0, RuleError::ExpectedMatcherIdent(_)));
    assert!(matches!(error("fn").0, RuleError::ExpectedPath(_)));
    assert_eq!(error("{ message_type(1) }").1, "expected identifier");
    assert!(matches!(error("{ any(").0, RuleError::Unbalanced(_)));
    assert_eq!(error("{ any(").1, "unbalanced delimiters");
}

#[test]
fn rule_item_wraps_the_rule() {
    let item = rule_item("pub", "TradeRule", "X");
    assert!(item.starts_with("pub struct TradeRule { inner: Box<dyn ::binary_options_tools_core::traits::Rule + Send + Sync> }"));
    assert!(item.contains("impl TradeRule { pub fn new() -> Self { Self { inner: X, } } }"));
    assert!(item.ends_with("fn reset(&self) { self.inner.reset() } }"));
}

#[test]
fn module_names_from_handlers() {
    assert_eq!(struct_name_from("handle_balance"), "Balance");
    assert_eq!(struct_name_from("handle_handle_x"), "X");
    assert_eq!(struct_name_from("assets"), "Assets");
    assert_eq!(struct_name_from("handle_"), "");
}

#[test]
fn module_plans() {
    let args = LightweightModuleArgs::<u8, u8, u8> { name: None, rule_pattern: Some("451-[".to_string()), rule_fn: None, rule_builder: None, state_type: None };
    let params = vec![
        HandlerParam::Named("msg".to_string()),
        HandlerParam::Named("state".to_string()),
        HandlerParam::Other,
        HandlerParam::Named("sender".to_string()),
    ];
    let plan = plan_module(args, "handle_balance", &params);
    assert_eq!(plan.struct_name, "Balance");
    assert!(plan.needs_state && plan.needs_sender && !plan.needs_runner_cmd);
    assert!(matches!(plan.state_type, StateType::Default));
    assert!(matches!(plan.rule, RuleSource::Pattern(ref p) if p == "451-["));
    assert_eq!(plan.call_args, vec![CallArg::Message, CallArg::Field("state".to_string()), CallArg::Field("sender".to_string())]);

    let args = LightweightModuleArgs::<u8, u8, u8> { name: Some("Custom".to_string()), rule_pattern: Some("x".to_string()), rule_fn: Some(1), rule_builder: Some(2), state_type: Some(3) };
    let plan = plan_module(args, "handle_x", &vec![HandlerParam::Named("runner_cmd".to_string())]);
    assert_eq!(plan.struct_name, "Custom");
    assert!(plan.needs_runner_cmd);
    assert!(matches!(plan.rule, RuleSource::Builder(2)));
    assert!(matches!(plan.state_type, StateType::Given(3)));
    let args = LightweightModuleArgs::<u8, u8, u8> { name: None, rule_pattern: None, rule_fn: Some(1), rule_builder: None, state_type: None };
    assert!(matches!(plan_module(args, "h", &vec![]).rule, RuleSource::Function(1)));
    let args = LightweightModuleArgs::<u8, u8, u8> { name: None, rule_pattern: None, rule_fn: None, rule_builder: None, state_type: None };
    assert!(matches!(plan_module(args, "h", &vec![]).rule, RuleSource::AnyMessage));
}

#[test]
fn pattern_makes_a_two_step_rule() {
    assert_eq!(pattern_rule(r#"451-["updateStream","#), r#"Box::new(TwoStepRule::new("451-[\"updateStream\","))"#);
    assert_eq!(pattern_rule("a\\b\n"), r#"Box::new(TwoStepRule::new("a\\b\n"))"#);
}

#[test]
fn embedded_rust_syntax_is_checked() {
    assert!(matches!(error("{ binary_exact(1 +) }").0, RuleError::ExpectedExpression(_)));
    assert_eq!(error("{ binary_exact(1 +) }").1, "expected an expression");
    assert!(matches!(error("{ json_schema(1) }").0, RuleError::ExpectedType(_)));
    assert!(matches!(error("{ custom(5) }").0, RuleError::ExpectedClosure(_)));
    assert!(matches!(error("{ any().wait(1 +) }").0, RuleError::ExpectedExpression(_)));
    assert!(matches!(error("fn = 1").0, RuleError::ExpectedPath(2)));
    assert!(parse_rule(&lex("{ custom(|m| m.is_text()) }")).is_ok());
    assert!(parse_rule(&lex("{ json_schema(Vec<u8>) }")).is_ok());
    assert!(parse_rule(&lex("fn = a::b")).is_ok());
}
