use fedigents::calc::{message, CalcError, Expr, Op};

fn value(tree: &Expr<String>) -> f64 {
    match tree {
        Expr::Num(text) => text.parse::<f64>().unwrap(),
        Expr::Neg(operand) => 0.0 - value(operand),
        Expr::Group(inner) => value(inner),
        Expr::Binary(op, left, right) => {
            let (left, right) = (value(left), value(right));
            match op {
                Op::Add => left + right,
                Op::Sub => left - right,
                Op::Mul => left * right,
                Op::Div => left / right,
                Op::Pow => left.powf(right),
            }
        }
    }
}

fn evaluate(expr: &str) -> Result<f64, CalcError<String>> {
    fedigents::calc::evaluate(expr).map(|tree| value(&tree))
}

fn approx(a: f64, b: f64) -> bool {
    (a - b).abs() < 1e-9
}

#[test]
fn literal() {
    assert!(approx(evaluate("42").unwrap(), 42.0));
}

#[test]
fn decimal() {
    assert!(approx(evaluate("3.14").unwrap(), 3.14));
}

#[test]
fn underscore_separator() {
    assert!(approx(evaluate("100_000").unwrap(), 100_000.0));
}

#[test]
fn addition() {
    assert!(approx(evaluate("2 + 3").unwrap(), 5.0));
}

#[test]
fn subtraction() {
    assert!(approx(evaluate("10 - 4").unwrap(), 6.0));
}

#[test]
fn multiplication() {
    assert!(approx(evaluate("6 * 7").unwrap(), 42.0));
}

#[test]
fn division() {
    assert!(approx(evaluate("20 / 4").unwrap(), 5.0));
}

#[test]
fn operator_precedence() {
    // 2 + 3 * 4 = 14, not 20
    assert!(approx(evaluate("2 + 3 * 4").unwrap(), 14.0));
}

#[test]
fn parentheses() {
    assert!(approx(evaluate("(2 + 3) * 4").unwrap(), 20.0));
}

#[test]
fn nested_parentheses() {
    assert!(approx(evaluate("((1 + 2) * (3 + 4))").unwrap(), 21.0));
}

#[test]
fn power_caret() {
    assert!(approx(evaluate("2 ^ 10").unwrap(), 1024.0));
}

#[test]
fn power_double_star() {
    assert!(approx(evaluate("2 ** 10").unwrap(), 1024.0));
}

#[test]
fn power_right_associative() {
    // 2^3^2 = 2^(3^2) = 2^9 = 512, not (2^3)^2 = 64
    assert!(approx(evaluate("2^3^2").unwrap(), 512.0));
}

#[test]
fn power_precedence_over_multiply() {
    // 3 * 2^3 = 3 * 8 = 24
    assert!(approx(evaluate("3 * 2^3").unwrap(), 24.0));
}

#[test]
fn unary_minus_number() {
    assert!(approx(evaluate("-5").unwrap(), -5.0));
}

#[test]
fn unary_minus_in_expression() {
    assert!(approx(evaluate("3 + -2").unwrap(), 1.0));
}

#[test]
fn unary_minus_parenthesized() {
    assert!(approx(evaluate("-(3 + 2)").unwrap(), -5.0));
}

#[test]
fn complex_expression() {
    // 1500 * 0.03 + 20 = 45 + 20 = 65
    assert!(approx(evaluate("1500 * 0.03 + 20").unwrap(), 65.0));
}

#[test]
fn whitespace_variations() {
    assert!(approx(evaluate("  1+2  ").unwrap(), 3.0));
    assert!(approx(evaluate("1\t+\n2").unwrap(), 3.0));
}

#[test]
fn division_produces_float() {
    assert!(approx(evaluate("7 / 2").unwrap(), 3.5));
}

#[test]
fn chained_operations() {
    assert!(approx(evaluate("1 + 2 + 3 + 4").unwrap(), 10.0));
    assert!(approx(evaluate("2 * 3 * 4").unwrap(), 24.0));
}

#[test]
fn mixed_precedence() {
    // 2 + 3 * 4 - 1 = 2 + 12 - 1 = 13
    assert!(approx(evaluate("2 + 3 * 4 - 1").unwrap(), 13.0));
}

#[test]
fn empty_expression_errors() {
    assert!(evaluate("").is_err());
}

#[test]
fn missing_closing_paren_errors() {
    assert!(evaluate("(1 + 2").is_err());
}

#[test]
fn extra_closing_paren_errors() {
    assert!(evaluate("1 + 2)").is_err());
}

#[test]
fn invalid_character_errors() {
    assert!(evaluate("1 + a").is_err());
}

#[test]
fn trailing_operator_errors() {
    assert!(evaluate("1 +").is_err());
}

#[test]
fn sats_to_btc_conversion() {
    // 100_000_000 sats = 1 BTC, at $70000/BTC = $70000
    assert!(approx(
        evaluate("100000000 / 100000000 * 70000").unwrap(),
        70000.0,
    ));
}

fn refusal(expr: &str) -> String {
    match fedigents::calc::evaluate(expr) {
        Ok(_) => panic!("{expr} was accepted"),
        Err(error) => message(&error),
    }
}

#[test]
fn each_fault_has_its_message() {
    assert_eq!(refusal("1.2.3"), "Invalid number: 1.2.3");
    assert_eq!(refusal("-."), "Invalid number: -.");
    assert_eq!(refusal("2 $ 3"), "Unexpected character: $");
    assert_eq!(refusal("1 + 2)"), "Unexpected token at position 3");
    assert_eq!(refusal("* 2"), "Unexpected token at position 0");
    assert_eq!(refusal("1 2"), "Unexpected token at position 1");
    assert_eq!(refusal(""), "Unexpected end of expression");
    assert_eq!(refusal("1 +"), "Unexpected end of expression");
    assert_eq!(refusal("(1 + 2"), "Missing closing parenthesis");
    assert_eq!(refusal("(1 2)"), "Missing closing parenthesis");
}

#[test]
fn numbers_may_start_or_end_in_a_point() {
    assert!(approx(evaluate(".5 + 1.").unwrap(), 1.5));
}

#[test]
fn a_sign_behind_an_operator_turns_the_operand() {
    assert!(approx(evaluate("2 * -(3)").unwrap(), -6.0));
    assert!(approx(evaluate("2 * -(3 + 1)").unwrap(), -8.0));
    assert!(approx(evaluate("2 * - 5").unwrap(), -10.0));
    assert!(approx(evaluate("2 / -(4)").unwrap(), -0.5));
    assert!(approx(evaluate("2 ^ -(1)").unwrap(), 0.5));
    assert!(approx(evaluate("1 - -(3)").unwrap(), 4.0));
    assert!(approx(evaluate("2 * --3").unwrap(), 6.0));
    assert!(approx(evaluate("2 * - -(3)").unwrap(), 6.0));
    assert!(approx(evaluate("10 - -(3) * 2").unwrap(), 16.0));
    assert!(approx(evaluate("2 - -3").unwrap(), 5.0));
}

#[test]
fn a_sign_turns_the_whole_power_behind_it() {
    assert!(approx(evaluate("2 * -(3) ^ 2").unwrap(), -18.0));
    assert!(approx(evaluate("2 ^ -(1) ^ 2 * 8").unwrap(), 4.0));
    assert!(approx(evaluate("-(3) ^ 2").unwrap(), -9.0));
}

#[test]
fn a_sign_that_begins_a_summand_counts_from_zero() {
    assert!(approx(evaluate("-(3 + 2) * 2").unwrap(), -10.0));
    assert!(approx(evaluate("4 * (-(3))").unwrap(), -12.0));
    assert!(approx(evaluate("2 * 3 + -(4) * 5").unwrap(), -14.0));
    assert!(approx(evaluate("- -(3)").unwrap(), 3.0));
}

#[test]
fn a_sign_needs_an_operand() {
    assert_eq!(refusal("2 * -"), "Unexpected end of expression");
    assert_eq!(refusal("2 * -)"), "Unexpected token at position 3");
    assert_eq!(refusal("(2 * -"), "Unexpected end of expression");
}

#[test]
fn parentheses_around_an_expression_keep_its_value() {
    for expr in ["2 + 3", "-4 * (1 - 2)", "2 * -(3)", "-(7)"] {
        assert_eq!(evaluate(&format!("({expr})")).unwrap(), evaluate(expr).unwrap());
    }
}

#[test]
fn two_stars_are_a_caret() {
    assert_eq!(evaluate("2**3**2 * 2").unwrap(), evaluate("2^3^2 * 2").unwrap());
    assert_eq!(refusal("2***3"), refusal("2^*3"));
}

#[test]
fn sums_and_quotients_group_to_the_left() {
    assert!(approx(evaluate("10 - 4 - 3").unwrap(), 3.0));
    assert!(approx(evaluate("24 / 4 / 3").unwrap(), 2.0));
}

#[test]
fn blanks_around_an_expression_do_not_matter() {
    assert_eq!(evaluate(" \t2*3\n ").unwrap(), evaluate("2*3").unwrap());
}
