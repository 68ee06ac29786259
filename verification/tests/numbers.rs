use javars::double::{
    canonical_bits, double_compare, double_to_long, float_compare, is_exact_whole, next_after,
    numeric_eq, Double,
};
use javars::host::decimal::{
    fixed_half_up, format_double, group_digits, is_java_decimal_literal, parse_java_double,
    plain_form, sci_form, sci_notation, step_last_digit, widen_exact, Reading,
};
use javars::host::maths::{
    abs_double, clamp_double, clamp_int, copy_sign, double_ulp, exact_arith, floor_div, floor_mod,
    int_to_radix_string, max_double, min_double, parse_int_radix, pow_rule, round_double,
    round_float, signum_double, Clamped, Exact, WIDTH_INT, WIDTH_LONG,
};
use javars::host::operators::{
    cast, double_to_int, idiv, is_java_number, java_numeric, numeric_hook, text_op, ushr,
    CastAnswer, NumAnswer, NumOp,
};
use javars::host::Host;
use javars::value::{is_truthy, parse_or_zero, plain_text, to_double, to_int, Value};

fn double(f: f64) -> Double {
    Double {
        bits: f.to_bits(),
        plain: format!("{f}"),
        sci: format!("{f:e}"),
        wide: format!("{:.18e}", f.abs()),
        narrow: String::new(),
    }
}

fn bits(f: f64) -> u64 {
    f.to_bits()
}

#[test]
fn doubles_print_as_java_prints_them() {
    let shown = |f: f64| format_double(&double(f));
    assert_eq!(shown(1.0), "1.0");
    assert_eq!(shown(0.1), "0.1");
    assert_eq!(shown(-2.5), "-2.5");
    assert_eq!(shown(1e7), "1.0E7");
    assert_eq!(shown(1234567.0), "1234567.0");
    assert_eq!(shown(1e-3), "0.001");
    assert_eq!(shown(1e-4), "1.0E-4");
    assert_eq!(shown(f64::MAX), "1.7976931348623157E308");
    assert_eq!(shown(f64::from_bits(1)), "4.9E-324");
    assert_eq!(shown(f64::NAN), "NaN");
    assert_eq!(shown(f64::NEG_INFINITY), "-Infinity");
    assert_eq!(shown(-0.0), "-0.0");
}

#[test]
fn digits_laid_out() {
    assert_eq!(plain_form("123", 1), "12.3");
    assert_eq!(plain_form("5", -2), "0.05");
    assert_eq!(sci_form("123", 5), "1.23e5");
    assert_eq!(group_digits("1234567"), "1,234,567");
    assert_eq!(step_last_digit("199", 0, true), ("200".to_string(), 0));
    assert_eq!(step_last_digit("200", 0, false), ("199".to_string(), 0));
    assert_eq!(step_last_digit("999", 0, true), ("100".to_string(), 1));
    assert_eq!(step_last_digit("100", 2, false), ("999".to_string(), 1));
    assert_eq!(step_last_digit("1", 0, false), ("9".to_string(), -1));
    assert_eq!(step_last_digit("101", 2, false), ("100".to_string(), 2));
    assert!(widen_exact("4.940656458412465442e-324").is_some());
}

#[test]
fn rounding_to_places() {
    assert_eq!(fixed_half_up(&double(2.345), 2), "2.35");
    assert_eq!(fixed_half_up(&double(0.125), 2), "0.13");
    assert_eq!(fixed_half_up(&double(9.99), 1), "10.0");
    assert_eq!(fixed_half_up(&double(3.0), 0), "3");
    assert_eq!(sci_notation(&double(12345.678), 2), "1.23e+04");
}

#[test]
fn comparing_doubles_is_total() {
    assert_eq!(double_compare(bits(1.0), bits(2.0)), -1);
    assert_eq!(double_compare(bits(-0.0), bits(0.0)), -1);
    assert_eq!(double_compare(bits(f64::NAN), bits(f64::INFINITY)), 1);
    assert_eq!(double_compare(bits(f64::NAN), bits(f64::NAN)), 0);
    assert_eq!(double_compare(bits(f64::NAN), bits(-f64::NAN)), 0);
    assert_eq!(double_compare(bits(-f64::NAN), bits(1.0)), 1);
    assert_eq!(float_compare(bits(1.0), bits(1.0)), 0);
    assert!(numeric_eq(bits(0.0), bits(-0.0)));
    assert!(!numeric_eq(bits(f64::NAN), bits(f64::NAN)));
    assert_eq!(canonical_bits(bits(-f64::NAN)), 0x7ff8_0000_0000_0000);
}

#[test]
fn doubles_become_longs() {
    assert_eq!(double_to_long(bits(3.99)), 3);
    assert_eq!(double_to_long(bits(-3.99)), -3);
    assert_eq!(double_to_long(bits(1e30)), i64::MAX);
    assert_eq!(double_to_long(bits(-1e30)), i64::MIN);
    assert_eq!(double_to_long(bits(f64::NAN)), 0);
    assert_eq!(double_to_int(bits(1e30)), i32::MAX as i64);
    assert_eq!(double_to_int(bits(-7.5)), -7);
    assert!(is_exact_whole(bits(4.0)));
    assert!(!is_exact_whole(bits(4.5)));
    assert_eq!(next_after(bits(1.0), bits(2.0)), bits(1.0) + 1);
    assert_eq!(next_after(bits(1.0), bits(1.0)), bits(1.0));
}

#[test]
fn doubles_are_rounded_and_signed() {
    assert_eq!(round_double(bits(2.5)), 3);
    assert_eq!(round_double(bits(-2.5)), -2);
    assert_eq!(round_double(bits(0.49999999999999994)), 0);
    assert_eq!(round_float(bits(1e20)), i32::MAX);
    assert_eq!(abs_double(bits(-1.5)), bits(1.5));
    assert_eq!(signum_double(bits(-7.0)), bits(-1.0));
    assert_eq!(copy_sign(bits(3.0), bits(-0.0)), bits(-3.0));
    assert_eq!(max_double(bits(-0.0), bits(0.0)), bits(0.0));
    assert_eq!(min_double(bits(-0.0), bits(0.0)), bits(-0.0));
    assert_eq!(double_ulp(bits(1.0)), bits(f64::EPSILON));
    assert_eq!(pow_rule(bits(5.0), bits(0.0)), Some(bits(1.0)));
    assert_eq!(pow_rule(bits(2.0), bits(3.0)), None);
}

#[test]
fn clamping() {
    assert!(clamp_double(bits(5.0), bits(0.0), bits(1.0)) == Clamped::Bits(bits(1.0)));
    assert!(clamp_double(bits(5.0), bits(2.0), bits(1.0)) == Clamped::Crossed);
    assert!(clamp_double(bits(5.0), bits(f64::NAN), bits(1.0)) == Clamped::MinIsNan);
    assert!(clamp_double(bits(5.0), bits(0.0), bits(f64::NAN)) == Clamped::MaxIsNan);
    assert!(matches!(clamp_int(7, 0, 3), Ok(Value::Int(3))));
    match clamp_int(7, 3, 0) {
        Err(f) => assert_eq!(f.msg, "3 > 0"),
        Ok(_) => panic!("no fault"),
    }
}

#[test]
fn exact_arithmetic_reports_overflow() {
    assert!(matches!(exact_arith(2, 3, WIDTH_INT, Exact::Times), Ok(Value::Int(6))));
    match exact_arith(i32::MAX as i64, 1, WIDTH_INT, Exact::Plus) {
        Err(f) => {
            assert_eq!(f.class, "ArithmeticException");
            assert_eq!(f.msg, "integer overflow");
        }
        Ok(_) => panic!("no fault"),
    }
    match exact_arith(i64::MIN, 1, WIDTH_LONG, Exact::Minus) {
        Err(f) => assert_eq!(f.msg, "long overflow"),
        Ok(_) => panic!("no fault"),
    }
}

#[test]
fn division_rounded_down() {
    assert_eq!(floor_div(-7, 2).ok(), Some(-4));
    assert_eq!(floor_mod(-7, 2).ok(), Some(1));
    assert_eq!(floor_mod(7, -2).ok(), Some(-1));
    match floor_div(1, 0) {
        Err(f) => assert_eq!((f.class.as_str(), f.msg.as_str()), ("ArithmeticException", "/ by zero")),
        Ok(_) => panic!("no fault"),
    }
}

#[test]
fn division_toward_zero() {
    assert_eq!(idiv(7, 2), 3);
    assert_eq!(idiv(-7, 2), -3);
    assert_eq!(idiv(i64::MIN, -1), i64::MIN);
    assert_eq!(idiv(1, 0), 0);
}

#[test]
fn shifts_that_fill_with_zeros() {
    assert_eq!(ushr(-1, 28, 32), 15);
    assert_eq!(ushr(-1, 60, 64), 15);
    assert_eq!(ushr(8, 33, 32), 4);
    assert_eq!(ushr(8, -1, 32), 0);
    assert_eq!(ushr(-8, 0, 64), -8);
}

#[test]
fn numbers_written_and_read_in_a_radix() {
    assert_eq!(int_to_radix_string(-255, 16), "-ff");
    assert_eq!(int_to_radix_string(5, 2), "101");
    assert!(matches!(parse_int_radix("-ff", 16, true), Ok(Value::Int(-255))));
    for n in [0, 1, -1, 12345, i64::MAX, i64::MIN] {
        for radix in [2, 10, 36] {
            let t = int_to_radix_string(n, radix);
            assert!(matches!(parse_int_radix(&t, radix, false), Ok(Value::Int(m)) if m == n));
        }
    }
    match parse_int_radix("12x", 10, true) {
        Err(f) => {
            assert_eq!(f.class, "NumberFormatException");
            assert_eq!(f.msg, "For input string: \"12x\"");
        }
        Ok(_) => panic!("no fault"),
    }
    assert!(parse_int_radix("2147483648", 10, true).is_err());
    assert!(parse_int_radix("", 10, true).is_err());
}

#[test]
fn literals_of_doubles() {
    assert!(is_java_decimal_literal("1.5e-3"));
    assert!(!is_java_decimal_literal("1.5e"));
    assert!(matches!(parse_java_double("  NaN "), Reading::NotANumber));
    assert!(matches!(parse_java_double("-Infinity"), Reading::Infinite { negative: true }));
    assert!(matches!(
        parse_java_double(" -1.5d "),
        Reading::Literal { negative: true, digits } if digits == "1.5"
    ));
    assert!(matches!(parse_java_double("abc"), Reading::Malformed));
}

#[test]
fn the_arithmetic_of_whole_numbers() {
    let run = |op: NumOp, a: i64, b: i64| java_numeric(op, &Value::Int(a), &Value::Int(b));
    assert!(matches!(
        run(NumOp::Mul, i64::MAX, 2),
        Ok(NumAnswer::Value(Value::Int(-2)))
    ));
    assert!(matches!(run(NumOp::Add, 2, 3), Ok(NumAnswer::Value(Value::Int(5)))));
    assert!(matches!(run(NumOp::Mod, -7, 2), Ok(NumAnswer::Value(Value::Int(-1)))));
    assert!(matches!(run(NumOp::Lt, 1, 2), Ok(NumAnswer::Value(Value::Bool(true)))));
    assert!(run(NumOp::Div, 1, 0).is_err());
    assert!(matches!(
        java_numeric(NumOp::Add, &Value::Int(1), &Value::Float(double(0.5))),
        Ok(NumAnswer::Doubles { a, b, .. }) if a == bits(1.0) && b == bits(0.5)
    ));
}

#[test]
fn plus_joins_texts() {
    let h = Host::new();
    let t = Value::Str("x=".to_string());
    assert!(matches!(
        numeric_hook(&h, NumOp::Add, &t, &Value::Int(1)),
        Ok(NumAnswer::Texts)
    ));
    assert!(matches!(
        text_op(NumOp::Add, "x=", "1"),
        Ok(Value::Str(r)) if r == "x=1"
    ));
    assert!(matches!(text_op(NumOp::Eq, "a", "a"), Ok(Value::Bool(true))));
    assert!(is_java_number(&h, &Value::Int(1)));
    assert!(!is_java_number(&h, &t));
}

#[test]
fn casts_narrow_as_java_narrows() {
    let h = Host::new();
    let to = |ty: &str, v: Value| match cast(&h, ty, &v) {
        CastAnswer::Value(Value::Int(n)) => n,
        _ => panic!("no number"),
    };
    assert_eq!(to("byte", Value::Int(200)), -56);
    assert_eq!(to("short", Value::Int(40000)), -25536);
    assert_eq!(to("char", Value::Int(-1)), 65535);
    assert_eq!(to("int", Value::Int(1 << 32)), 0);
    assert_eq!(to("int", Value::Float(double(1e10))), i32::MAX as i64);
    assert_eq!(to("long", Value::Float(double(-2.9))), -2);
    assert!(matches!(
        cast(&h, "double", &Value::Int(3)),
        CastAnswer::Double { narrow: false, .. }
    ));
    assert!(matches!(
        cast(&h, "float", &Value::Int(3)),
        CastAnswer::Double { narrow: true, .. }
    ));
}

#[test]
fn values_read_as_others() {
    assert_eq!(to_int(&Value::Str("12".to_string())), 12);
    assert_eq!(parse_or_zero("x"), 0);
    assert_eq!(to_double(&Value::Str("1.5".to_string())), bits(1.5));
    assert_eq!(to_double(&Value::Int(3)), bits(3.0));
    assert!(is_truthy(&Value::Int(1)));
    assert!(!is_truthy(&Value::Undef));
    assert_eq!(plain_text(&Value::Int(-3)), "-3");
}
