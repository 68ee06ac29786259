use javars::double::Double;
use javars::host::decimal::{fixed_half_up, sci_notation};
use javars::host::format::{
    fmt_arg, java_format, pad, radix_bits, FmtArg,
};
use javars::host::boxes::box_value;
use javars::host::output::format_tags;
use javars::host::render::java_str;
use javars::host::statics::{
    finish_render, sort_array, static_method, FloatTask, StaticAnswer,
};
use javars::host::{heap_alloc, Host, HostObj};
use javars::value::{Fault, Value};

fn s(t: &str) -> Value {
    Value::Str(t.to_string())
}

fn double(f: f64) -> Double {
    Double {
        bits: f.to_bits(),
        plain: format!("{f}"),
        sci: format!("{f:e}"),
        wide: format!("{:.18e}", f.abs()),
        narrow: String::new(),
    }
}

fn call(class: &str, method: &str, args: Vec<Value>) -> Result<StaticAnswer, Fault> {
    static_method(&mut Host::new(), class, method, &args)
}

fn number(class: &str, method: &str, args: Vec<Value>) -> i64 {
    match call(class, method, args) {
        Ok(StaticAnswer::Value(Value::Int(n))) => n,
        _ => panic!("{class}.{method} gave no number"),
    }
}

fn text(class: &str, method: &str, args: Vec<Value>) -> String {
    match call(class, method, args) {
        Ok(StaticAnswer::Value(Value::Str(t))) => t,
        _ => panic!("{class}.{method} gave no text"),
    }
}

#[test]
fn the_magnitude_of_a_boxed_integer_is_an_integer() {
    let mut h = Host::new();
    let five = box_value(&mut h, 0, Value::Int(-5));
    let least = box_value(&mut h, 1, Value::Int(i64::MIN));
    assert!(matches!(
        static_method(&mut h, "Math", "abs", &vec![five]),
        Ok(StaticAnswer::Value(Value::Int(5)))
    ));
    assert!(matches!(
        static_method(&mut h, "Math", "abs", &vec![least]),
        Ok(StaticAnswer::Value(Value::Int(i64::MIN)))
    ));
    let half = Value::Float(double(-0.5));
    let boxed = box_value(&mut h, 6, half);
    assert!(matches!(
        static_method(&mut h, "Math", "abs", &vec![boxed]),
        Ok(StaticAnswer::Bits(b)) if b == 0.5_f64.to_bits()
    ));
}

#[test]
fn infinities_have_one_sign() {
    let low = || (Value::Float(double(f64::NEG_INFINITY)), "double");
    let high = || (Value::Float(double(f64::INFINITY)), "double");
    let none = || (Value::Float(double(f64::NAN)), "double");
    assert_eq!(fine("%f", vec![low()]), "-Infinity");
    assert_eq!(fine("%.2f|%e|%g", vec![low(), low(), low()]), "-Infinity|-Infinity|-Infinity");
    assert_eq!(fine("%f|%+f|%E", vec![high(), high(), high()]), "Infinity|+Infinity|INFINITY");
    assert_eq!(fine("%012f|%,f|%(f", vec![low(), low(), low()]), "   -Infinity|-Infinity|(Infinity)");
    assert_eq!(fine("%f|%+f|%6e|%G", vec![none(), none(), none(), none()]), "NaN|NaN|   NaN|NAN");
    assert_eq!(fixed_half_up(&double(f64::NEG_INFINITY), 2), "Infinity");
    assert_eq!(sci_notation(&double(f64::NEG_INFINITY), 2), "-Infinity");
}

#[test]
fn the_statics_of_math() {
    assert_eq!(number("Math", "abs", vec![Value::Int(-3)]), 3);
    assert_eq!(number("Math", "max", vec![Value::Int(2), Value::Int(7)]), 7);
    assert_eq!(number("Math", "min", vec![Value::Int(2), Value::Int(7)]), 2);
    assert_eq!(number("Math", "floorMod", vec![Value::Int(-7), Value::Int(3)]), 2);
    assert!(matches!(
        call("Math", "sqrt", vec![Value::Float(double(9.0))]),
        Ok(StaticAnswer::Float(FloatTask::Root(b))) if b == 9.0_f64.to_bits()
    ));
    assert!(matches!(
        call("Math", "pow", vec![Value::Float(double(2.0)), Value::Float(double(10.0))]),
        Ok(StaticAnswer::Float(FloatTask::Power(_, _)))
    ));
    assert_eq!(number("Math", "round", vec![Value::Float(double(2.5))]), 3);
}

#[test]
fn hashes_fold_by_the_width_of_the_type() {
    assert_eq!(number("Integer", "hashCode", vec![Value::Int(-1)]), -1);
    assert_eq!(number("Long", "hashCode", vec![Value::Int(-1)]), 0);
    assert_eq!(number("Long", "hashCode", vec![Value::Int(7)]), 7);
    assert_eq!(number("Long", "hashCode", vec![Value::Int(1 << 32)]), 1);
}

#[test]
fn the_statics_of_integer() {
    assert_eq!(number("Integer", "parseInt", vec![s("-12")]), -12);
    assert_eq!(number("Integer", "parseInt", vec![s("ff"), Value::Int(16)]), 255);
    assert_eq!(text("Integer", "toBinaryString", vec![Value::Int(5)]), "101");
    assert_eq!(text("Integer", "toHexString", vec![Value::Int(-1)]), "ffffffff");
    assert_eq!(text("Long", "toHexString", vec![Value::Int(-1)]), "ffffffffffffffff");
    assert_eq!(number("Integer", "compare", vec![Value::Int(1), Value::Int(2)]), -1);
    match call("Integer", "parseInt", vec![s("x")]) {
        Err(f) => assert_eq!(f.msg, "For input string: \"x\""),
        Ok(_) => panic!("no fault"),
    }
    match call("Integer", "parseInt", vec![Value::Undef]) {
        Err(f) => assert_eq!(f.class, "NumberFormatException"),
        Ok(_) => panic!("no fault"),
    }
}

#[test]
fn a_static_that_is_not_modeled() {
    assert!(call("Nobody", "knows", vec![]).is_err());
}

#[test]
fn arrays_are_filled_compared_and_searched() {
    let mut h = Host::new();
    let a = heap_alloc(&mut h, HostObj::Array(vec![Value::Int(3), Value::Int(1), Value::Int(2)]));
    let v = Value::Obj(a);
    match static_method(&mut h, "Arrays", "sort", &vec![v.copy()]) {
        Ok(StaticAnswer::Value(Value::Undef)) => {}
        _ => panic!("no sort"),
    }
    match &h.heap[a as usize] {
        HostObj::Array(items) => {
            assert!(matches!(items[..], [Value::Int(1), Value::Int(2), Value::Int(3)]))
        }
        _ => panic!("no array"),
    }
    match static_method(&mut h, "Arrays", "sort", &vec![Value::Undef]) {
        Err(f) => assert_eq!(f.class, "NullPointerException"),
        Ok(_) => panic!("no fault"),
    }
    match sort_array(&mut h, a) {
        Some(at) => assert_eq!(at, vec![0, 1, 2]),
        None => panic!("not sorted"),
    }
    assert!(sort_array(&mut h, a + 1).is_none());
    match static_method(&mut h, "Arrays", "binarySearch", &vec![v.copy(), Value::Int(3)]) {
        Ok(StaticAnswer::Value(Value::Int(n))) => assert_eq!(n, 2),
        _ => panic!("no place"),
    }
    match static_method(&mut h, "Arrays", "binarySearch", &vec![v.copy(), Value::Int(0)]) {
        Ok(StaticAnswer::Value(Value::Int(n))) => assert_eq!(n, -1),
        _ => panic!("no place"),
    }
    match static_method(&mut h, "Arrays", "toString", &vec![v.copy()]) {
        Ok(StaticAnswer::Render(t)) => {
            let texts: Vec<String> = t
                .parts
                .iter()
                .map(|p| match java_str(&h, p) {
                    Some(x) => x,
                    None => panic!("no text"),
                })
                .collect();
            assert_eq!(finish_render(&t, &texts), "[1, 2, 3]");
        }
        _ => panic!("no text"),
    }
    assert!(static_method(&mut h, "Arrays", "fill", &vec![v.copy(), Value::Int(0)]).is_ok());
    match &h.heap[a as usize] {
        HostObj::Array(items) => assert!(matches!(items[2], Value::Int(0))),
        _ => panic!("no array"),
    }
}

fn formatted(fmt: &str, args: Vec<(Value, &str)>) -> Result<String, Fault> {
    let h = Host::new();
    let tags: Vec<String> = args.iter().map(|a| a.1.to_string()).collect();
    let fs: Vec<FmtArg> = args
        .iter()
        .map(|(v, _)| {
            let d = match v {
                Value::Float(d) => d.copy(),
                Value::Int(n) => double(*n as f64),
                _ => double(0.0),
            };
            match fmt_arg(&h, v, d) {
                Some(a) => a,
                None => panic!("no argument"),
            }
        })
        .collect();
    let texts: Vec<String> = args
        .iter()
        .map(|(v, _)| match java_str(&h, v) {
            Some(t) => t,
            None => panic!("no text"),
        })
        .collect();
    java_format(fmt, &fs, &tags, |i: usize| texts[i].clone(), |_i: usize, p: usize| Some(p))
}

fn fine(fmt: &str, args: Vec<(Value, &str)>) -> String {
    match formatted(fmt, args) {
        Ok(t) => t,
        Err(f) => panic!("{}: {}", f.class, f.msg),
    }
}

fn wrong(fmt: &str, args: Vec<(Value, &str)>) -> String {
    match formatted(fmt, args) {
        Ok(t) => panic!("gave {t}"),
        Err(f) => f.class,
    }
}

#[test]
fn each_directive_is_shown_anew() {
    let asked = std::cell::Cell::new(0);
    let args = match fmt_arg(&Host::new(), &s("x"), double(0.0)) {
        Some(a) => vec![a],
        None => panic!("no argument"),
    };
    let r = java_format(
        "%s-%1$s-%1$S",
        &args,
        &Vec::new(),
        |i: usize| {
            asked.set(asked.get() + 1);
            format!("a{i}{}", asked.get())
        },
        |_i: usize, _p: usize| None,
    );
    match r {
        Ok(t) => assert_eq!(t, "a01-a02-A03"),
        Err(f) => panic!("{}", f.msg),
    }
}

#[test]
fn formatting_as_java_formats() {
    assert_eq!(fine("%d%%", vec![(Value::Int(5), "int")]), "5%");
    assert_eq!(fine("[%5d|%-5d|%05d]", vec![
        (Value::Int(42), "int"),
        (Value::Int(42), "int"),
        (Value::Int(42), "int"),
    ]), "[   42|42   |00042]");
    assert_eq!(fine("%,d", vec![(Value::Int(1234567), "int")]), "1,234,567");
    assert_eq!(fine("%(d %+d", vec![(Value::Int(-3), "int"), (Value::Int(3), "int")]), "(3) +3");
    assert_eq!(fine("%x %X %o", vec![
        (Value::Int(255), "int"),
        (Value::Int(255), "int"),
        (Value::Int(8), "int"),
    ]), "ff FF 10");
    assert_eq!(fine("%x", vec![(Value::Int(-1), "int")]), "ffffffff");
    assert_eq!(fine("%.2f", vec![(Value::Float(double(3.14159)), "double")]), "3.14");
    assert_eq!(fine("%8.3e", vec![(Value::Float(double(12345.678)), "double")]), "1.235e+04");
    assert_eq!(fine("%s %S", vec![(s("ab"), "String"), (s("ab"), "String")]), "ab AB");
    assert_eq!(fine("%.1s", vec![(s("ab"), "String")]), "a");
    assert_eq!(fine("%b %c", vec![(Value::Bool(true), "boolean"), (Value::Int(65), "char")]), "true A");
    assert_eq!(fine("%2$s %1$s", vec![(s("a"), "String"), (s("b"), "String")]), "b a");
    assert_eq!(fine("a%nb", vec![]), "a\nb");
}

#[test]
fn formats_that_java_refuses() {
    assert_eq!(wrong("%d", vec![(s("x"), "String")]), "IllegalFormatConversionException");
    assert_eq!(wrong("%d", vec![]), "MissingFormatArgumentException");
    assert_eq!(wrong("%y", vec![(Value::Int(1), "int")]), "UnknownFormatConversionException");
    assert_eq!(wrong("%-d", vec![(Value::Int(1), "int")]), "MissingFormatWidthException");
    assert_eq!(wrong("%+ d", vec![(Value::Int(1), "int")]), "IllegalFormatFlagsException");
    assert_eq!(
        wrong("%,x", vec![(Value::Int(1), "int")]),
        "FormatFlagsConversionMismatchException"
    );
    assert_eq!(wrong("%.2d", vec![(Value::Int(1), "int")]), "IllegalFormatPrecisionException");
}

#[test]
fn padding_fills_the_width_given() {
    assert_eq!(pad("", "ab", "", Some(4), false, false), "  ab");
    assert_eq!(pad("", "ab", "", Some(4), true, false), "ab  ");
    assert_eq!(pad("-", "7", "", Some(4), false, true), "-007");
    assert_eq!(pad("", "abc", "", Some(2), false, false), "abc");
    assert_eq!(radix_bits(-1, "byte"), 0xff);
    assert_eq!(radix_bits(-1, "long"), u64::MAX);
}

#[test]
fn the_tags_of_a_call() {
    assert_eq!(format_tags(""), Vec::<String>::new());
    assert_eq!(format_tags("int\u{1f}String"), vec!["int", "String"]);
    assert_eq!(format_tags("\u{1f}"), vec!["", ""]);
}
