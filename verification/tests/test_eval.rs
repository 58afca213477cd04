use smalltalk_compiler::float::Float;
use smalltalk_compiler::integer::Integer;
use smalltalk_compiler::object::{BoundOp, Object, OpKind, Payload, Rendered};
use smalltalk_compiler::repl::{is_exit_command, Diagnostic, Repl};

fn eval_text(line: &str) -> Option<String> {
    let mut repl = Repl::new();
    let out = repl.process_line(line);
    assert!(out.diagnostics.is_empty(), "unexpected diagnostics");
    out.result.map(|o| match o.render() {
        Rendered::Text(s) => s,
        Rendered::FloatBits(b) => format!("{:.10}", f64::from_bits(b)),
        Rendered::Opaque(c) => format!("<{}>", c),
    })
}

#[test]
fn integer_arithmetic_each_operator() {
    assert_eq!(eval_text("7 + 35"), Some("42".to_string()));
    assert_eq!(eval_text("7 - 35"), Some("-28".to_string()));
    assert_eq!(eval_text("7 * 6"), Some("42".to_string()));
}

#[test]
fn promotion_to_float() {
    assert_eq!(eval_text("3 + 0.5"), Some("3.5000000000".to_string()));
    assert_eq!(eval_text("2.0 * 3"), Some("6.0000000000".to_string()));
    assert_eq!(eval_text("5.5 - 1.25"), Some("4.2500000000".to_string()));
    assert_eq!(eval_text("1.5 + 2.25"), Some("3.7500000000".to_string()));
}

#[test]
fn float_literal_parses_to_ieee_bits() {
    let mut repl = Repl::new();
    let out = repl.process_line("0.5");
    let obj = out.result.expect("a result");
    match obj.render() {
        Rendered::FloatBits(b) => assert_eq!(b, 0.5f64.to_bits()),
        _ => panic!("expected float bits"),
    }
}

#[test]
fn left_to_right_no_precedence() {
    assert_eq!(eval_text("2 + 3 * 4"), Some("20".to_string()));
}

#[test]
fn leading_unary_minus() {
    assert_eq!(eval_text("-5 + 3"), Some("-2".to_string()));
}

#[test]
fn double_minus_folds_to_addition() {
    assert_eq!(eval_text("5 - - 3"), Some("8".to_string()));
}

#[test]
fn radix_literal_value() {
    assert_eq!(eval_text("16rFF"), Some("255".to_string()));
    assert_eq!(eval_text("2r1010"), Some("10".to_string()));
    assert_eq!(eval_text("16rA000 - 0"), Some("40960".to_string()));
}

#[test]
fn radix_letter_digits_up_to_base_36() {
    assert_eq!(eval_text("36rZZ"), Some("1295".to_string()));
    assert_eq!(eval_text("36rz"), Some("35".to_string()));
}

#[test]
fn radix_letter_digit_beyond_base() {
    let mut repl = Repl::new();
    let out = repl.process_line("16rGG");
    assert!(out.result.is_none());
    assert_eq!(out.diagnostics.len(), 1);
    match &out.diagnostics[0] {
        Diagnostic::InvalidDigits { text, base } => {
            assert_eq!(text, "GG");
            assert_eq!(*base, 16);
        }
        other => panic!("expected invalid digits, got {:?}", other),
    }
}

#[test]
fn radix_splits_at_first_r() {
    let mut repl = Repl::new();
    let out = repl.process_line("1r2r3");
    assert!(out.result.is_none());
    assert_eq!(out.diagnostics.len(), 1);
    assert!(matches!(out.diagnostics[0], Diagnostic::BaseOutOfRange { base: 1 }));
}

#[test]
fn radix_base_out_of_range() {
    let mut repl = Repl::new();
    let out = repl.process_line("37rA");
    assert!(out.result.is_none());
    assert_eq!(out.diagnostics.len(), 1);
    assert!(matches!(out.diagnostics[0], Diagnostic::BaseOutOfRange { base: 37 }));
}

#[test]
fn radix_invalid_digits_for_base() {
    let mut repl = Repl::new();
    let out = repl.process_line("2rF");
    assert!(out.result.is_none());
    assert_eq!(out.diagnostics.len(), 1);
    match &out.diagnostics[0] {
        Diagnostic::InvalidDigits { text, base } => {
            assert_eq!(text, "F");
            assert_eq!(*base, 2);
        }
        other => panic!("expected invalid digits, got {:?}", other),
    }
}

#[test]
fn radix_base_too_large_to_parse() {
    let mut repl = Repl::new();
    let out = repl.process_line("4294967296r1");
    assert!(out.result.is_none());
    assert_eq!(out.diagnostics.len(), 1);
    match &out.diagnostics[0] {
        Diagnostic::InvalidBase { text } => assert_eq!(text, "4294967296"),
        other => panic!("expected invalid base, got {:?}", other),
    }
}

#[test]
fn oversized_integer_literal_reports() {
    let mut repl = Repl::new();
    let out = repl.process_line("99999999999999999999");
    assert!(out.result.is_none());
    assert_eq!(out.diagnostics.len(), 1);
    assert!(matches!(out.diagnostics[0], Diagnostic::IntegerOutOfRange { .. }));
}

#[test]
fn exit_literal_decision() {
    assert!(is_exit_command("exit"));
    assert!(is_exit_command("  exit\t"));
    assert!(!is_exit_command("exit now"));
    assert!(!is_exit_command("quit"));
    assert!(!is_exit_command(""));
    assert!(!is_exit_command("   "));
}

#[test]
fn comments_and_other_tokens_are_inert() {
    assert_eq!(eval_text("2 \"a note\" + 3"), Some("5".to_string()));
    assert_eq!(eval_text("hello"), None);
    assert_eq!(eval_text(""), None);
}

#[test]
fn repeated_operator_rebinds_pending() {
    assert_eq!(eval_text("1 + + 2"), Some("3".to_string()));
    assert_eq!(eval_text("1 2 + + 3"), Some("4".to_string()));
}

#[test]
fn integer_kind_round_trip() {
    let n = Integer::new(41);
    assert_eq!(n.get_self_value(), Some(41));
    assert_eq!(n.obj.get_class(), "integer");
    assert_eq!(n.obj.properties_len(), 3);
    let names = n.obj.property_names();
    assert_eq!(names, vec!["add".to_string(), "sub".to_string(), "mul".to_string()]);
}

#[test]
fn float_kind_round_trip() {
    let bits = 2.75f64.to_bits();
    let f = Float::new(bits);
    assert_eq!(f.get_self_value(), Some(bits));
    assert_eq!(f.obj.get_class(), "float");
    assert_eq!(f.obj.properties_len(), 3);
}

#[test]
fn object_table_and_payload() {
    let mut o = Object::new(None, "thing".to_string());
    assert_eq!(o.get_class(), "thing");
    assert_eq!(o.properties_len(), 0);
    assert!(o.get("add").is_none());
    let bo = BoundOp { op: OpKind::Add, left: Payload::Int(7) };
    o.set("add".to_string(), bo);
    assert_eq!(o.get("add"), Some(bo));
    assert!(o.get("sub").is_none());
    let bo2 = BoundOp { op: OpKind::Mul, left: Payload::Int(9) };
    o.set("add".to_string(), bo2);
    assert_eq!(o.get("add"), Some(bo2));
    assert_eq!(o.properties_len(), 1);
    assert!(o.get_self_value().is_none());
    o.set_self_value(Payload::Int(3), "integer".to_string());
    assert_eq!(o.get_self_value(), Some(Payload::Int(3)));
    assert_eq!(o.get_class(), "integer");
}

#[test]
fn rendering_forms() {
    match Integer::new(i64::MIN).obj.render() {
        Rendered::Text(s) => assert_eq!(s, "-9223372036854775808"),
        _ => panic!("expected text"),
    }
    match Object::new(None, "widget".to_string()).render() {
        Rendered::Text(s) => assert_eq!(s, "nil"),
        _ => panic!("expected nil marker"),
    }
    match Object::new(Some(Payload::Int(1)), "widget".to_string()).render() {
        Rendered::Opaque(c) => assert_eq!(c, "widget"),
        _ => panic!("expected opaque form"),
    }
    match Object::new(Some(Payload::FloatBits(0)), "integer".to_string()).render() {
        Rendered::Text(s) => assert_eq!(s, "Error!"),
        _ => panic!("expected error marker"),
    }
}

#[test]
fn integer_widens_to_float_operand() {
    assert_eq!(eval_text("1 + 0.0"), Some("1.0000000000".to_string()));
    assert_eq!(eval_text("0.0 + 9007199254740993"), Some("9007199254740992.0000000000".to_string()));
}
