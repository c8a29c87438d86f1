use decimal::d128;
use simplex::numeric::Numeric;
use std::str::FromStr;

fn dec(text: &str) -> Numeric {
    Numeric::LittleReal(d128::from_str(text).unwrap())
}

fn all_four(a: Numeric, b: Numeric) -> [Numeric; 4] {
    [a.add(b), a.sub(b), a.mul(b), a.div(b, "0.5")]
}

#[test]
fn reading_numbers() {
    assert_eq!(Numeric::from_str("42"), Numeric::LittleInteger(42));
    assert_eq!(Numeric::from_str("-7"), Numeric::LittleInteger(-7));
    assert_eq!(Numeric::from_str("+5"), Numeric::LittleInteger(5));
    assert_eq!(Numeric::from_str("007"), Numeric::LittleInteger(7));
    assert_eq!(
        Numeric::from_str("-9223372036854775808"),
        Numeric::LittleInteger(i64::MIN)
    );
    assert_eq!(
        Numeric::from_str("9223372036854775807"),
        Numeric::LittleInteger(i64::MAX)
    );
    assert_eq!(Numeric::from_str("1.5").to_string(), "1.5");
    assert!(matches!(Numeric::from_str("1.5"), Numeric::LittleReal(_)));
    assert_eq!(Numeric::from_str("1e3").to_string(), "1E+3");
    assert_eq!(Numeric::from_str("Infinity").to_string(), "Infinity");
}

#[test]
fn integers_too_large_become_decimals() {
    let big = Numeric::from_str("9223372036854775808");
    assert!(matches!(big, Numeric::LittleReal(_)));
    assert_eq!(big.to_string(), "9223372036854775808");
    assert_eq!(big.simplify().to_string(), "9223372036854775808");
    assert!(matches!(big.simplify(), Numeric::LittleReal(_)));
}

#[test]
fn what_is_no_number_reads_as_not_a_number() {
    assert!(matches!(Numeric::from_str("abc"), Numeric::NaN));
    assert!(matches!(Numeric::from_str(""), Numeric::NaN));
    assert!(matches!(Numeric::from_str("NaN"), Numeric::NaN));
    assert!(matches!(Numeric::from_str("1 2"), Numeric::NaN));
    assert!(matches!(Numeric::from_str("a\0b"), Numeric::NaN));
    // a signalling NaN has another text, and is a decimal until simplified
    assert!(matches!(Numeric::from_str("sNaN"), Numeric::LittleReal(_)));
    assert!(matches!(Numeric::from_str("sNaN").simplify(), Numeric::NaN));
    assert!(matches!(Numeric::from_str("NaN12").simplify(), Numeric::NaN));
}

#[test]
fn numbers_as_text() {
    assert_eq!(Numeric::LittleInteger(0).to_string(), "0");
    assert_eq!(Numeric::LittleInteger(-12).to_string(), "-12");
    assert_eq!(Numeric::LittleInteger(1000).to_string(), "1000");
    assert_eq!(
        Numeric::LittleInteger(i64::MIN).to_string(),
        "-9223372036854775808"
    );
    assert_eq!(
        Numeric::LittleInteger(i64::MAX).to_string(),
        "9223372036854775807"
    );
    assert_eq!(dec("1.50").to_string(), "1.50");
    assert_eq!(Numeric::NaN.to_string(), "NaN");
    assert_eq!(Numeric::LittleInteger(-12).as_str(), "-12");
    assert_eq!(dec("1.50").as_str(), "1.50");
    assert_eq!(Numeric::NaN.as_str(), "NaN");
}

#[test]
fn simplify_collapses_integer_text() {
    assert_eq!(dec("100").simplify(), Numeric::LittleInteger(100));
    assert_eq!(dec("-3").simplify(), Numeric::LittleInteger(-3));
    assert_eq!(dec("-0").simplify(), Numeric::LittleInteger(0));
    assert!(matches!(dec("1.0").simplify(), Numeric::LittleReal(_)));
    assert_eq!(dec("1.0").simplify().to_string(), "1.0");
    assert!(matches!(dec("1E+3").simplify(), Numeric::LittleReal(_)));
    assert!(matches!(dec("NaN").simplify(), Numeric::NaN));
    assert!(matches!(dec("-NaN").simplify(), Numeric::NaN));
    assert!(matches!(dec("Infinity").simplify(), Numeric::LittleReal(_)));
    assert_eq!(Numeric::LittleInteger(5).simplify(), Numeric::LittleInteger(5));
    assert!(matches!(Numeric::NaN.simplify(), Numeric::NaN));
}

#[test]
fn simplify_twice_is_simplify_once() {
    for text in ["100", "1.0", "NaN", "sNaN", "Infinity", "-0", "1E+3", "0.000"] {
        let once = dec(text).simplify();
        let twice = once.simplify();
        assert_eq!(once.to_string(), twice.to_string());
        assert_eq!(once.head(), twice.head());
    }
    for n in [0, -1, i64::MAX, i64::MIN] {
        let once = dec(&n.to_string()).simplify();
        assert_eq!(once, Numeric::LittleInteger(n));
        assert_eq!(once.simplify(), once);
    }
}

#[test]
fn not_a_number_absorbs() {
    for other in [Numeric::LittleInteger(3), dec("1.5"), Numeric::NaN] {
        for result in all_four(Numeric::NaN, other) {
            assert!(matches!(result, Numeric::NaN));
        }
        for result in all_four(other, Numeric::NaN) {
            assert!(matches!(result, Numeric::NaN));
        }
    }
}

#[test]
fn integers_with_integers() {
    let a = Numeric::LittleInteger(12);
    let b = Numeric::LittleInteger(-5);
    assert_eq!(a.add(b), Numeric::LittleInteger(7));
    assert_eq!(a.sub(b), Numeric::LittleInteger(17));
    assert_eq!(a.mul(b), Numeric::LittleInteger(-60));
}

#[test]
fn integer_arithmetic_wraps_around() {
    let max = Numeric::LittleInteger(i64::MAX);
    let min = Numeric::LittleInteger(i64::MIN);
    let one = Numeric::LittleInteger(1);
    assert_eq!(max.add(one), min);
    assert_eq!(min.sub(one), max);
    assert_eq!(max.mul(Numeric::LittleInteger(2)), Numeric::LittleInteger(-2));
    assert_eq!(min.mul(Numeric::LittleInteger(-1)), min);
}

#[test]
fn decimals_with_decimals() {
    assert_eq!(dec("1.5").add(dec("2.25")).to_string(), "3.75");
    assert_eq!(dec("1.5").sub(dec("2.25")).to_string(), "-0.75");
    assert_eq!(dec("1.5").mul(dec("2.25")).to_string(), "3.375");
    assert_eq!(dec("1.5").div(dec("0.25"), "").to_string(), "6");
    assert_eq!(dec("1.5").div(dec("0.25"), ""), Numeric::LittleInteger(6));
    assert_eq!(dec("1").div(dec("3"), "").to_string(), "0.3333333333333333333333333333333333");
}

#[test]
fn results_are_simplified() {
    assert_eq!(dec("1.5").add(dec("2.5")).to_string(), "4.0");
    assert!(matches!(dec("1.5").add(dec("2.5")), Numeric::LittleReal(_)));
    assert_eq!(dec("1.5").mul(dec("2E+1")), Numeric::LittleInteger(30));
    assert_eq!(dec("12").sub(dec("2")), Numeric::LittleInteger(10));
    assert!(matches!(dec("Infinity").sub(dec("Infinity")), Numeric::NaN));
}

#[test]
fn integers_are_promoted() {
    let two = Numeric::LittleInteger(2);
    assert_eq!(two.add(dec("0.5")).to_string(), "2.5");
    assert_eq!(dec("0.5").add(two).to_string(), "2.5");
    assert_eq!(two.sub(dec("0.5")).to_string(), "1.5");
    assert_eq!(dec("0.5").sub(two).to_string(), "-1.5");
    assert_eq!(two.mul(dec("0.5")).to_string(), "1.0");
    assert_eq!(dec("0.25").mul(two).to_string(), "0.50");
    assert_eq!(two.div(dec("0.5"), "").to_string(), "4");
    assert_eq!(two.div(dec("0.5"), ""), Numeric::LittleInteger(4));
    assert_eq!(dec("0.5").div(two, "").to_string(), "0.25");
    assert_eq!(
        Numeric::LittleInteger(i64::MIN).add(dec("0.5")).to_string(),
        "-9223372036854775807.5"
    );
}

#[test]
fn integers_divide_through_the_binary_quotient() {
    let seven = Numeric::LittleInteger(7);
    let two = Numeric::LittleInteger(2);
    let three = Numeric::LittleInteger(3);
    let six = Numeric::LittleInteger(6);
    let quotient = |a: i64, b: i64| (a as f64 / b as f64).to_string();
    assert_eq!(seven.div(two, &quotient(7, 2)).to_string(), "3.5");
    assert_eq!(six.div(three, &quotient(6, 3)), Numeric::LittleInteger(2));
    assert_eq!(
        two.div(three, &quotient(2, 3)).to_string(),
        "0.6666666666666666"
    );
    let zero = Numeric::LittleInteger(0);
    assert_eq!(seven.div(zero, &quotient(7, 0)).to_string(), "Infinity");
    assert!(matches!(zero.div(zero, &quotient(0, 0)), Numeric::NaN));
    // the text is read only for two integers
    assert_eq!(seven.div(dec("2"), "100").to_string(), "3.5");
}

#[test]
fn division_by_zero_does_not_fail() {
    assert_eq!(dec("1").div(dec("0"), "").to_string(), "Infinity");
    assert_eq!(dec("-1").div(dec("0"), "").to_string(), "-Infinity");
    assert!(matches!(dec("0").div(dec("0"), ""), Numeric::NaN));
}

#[test]
fn capacities_and_heads() {
    assert_eq!(Numeric::LittleInteger(1).capacity(), 64);
    assert_eq!(dec("1").capacity(), 128);
    assert_eq!(Numeric::NaN.capacity(), 8);
    assert_eq!(Numeric::LittleInteger(1).head(), "Simplex`Integer");
    assert_eq!(dec("1").head(), "Simplex`Real");
    assert_eq!(Numeric::NaN.head(), "Simplex`NaN");
    assert_eq!(Numeric::from(9), Numeric::LittleInteger(9));
}
