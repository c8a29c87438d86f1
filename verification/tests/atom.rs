use decimal::d128;
use simplex::atom::{SString, SimplexAtom, Symbol};
use simplex::numeric::Numeric;
use std::str::FromStr;

#[test]
fn test_it_instantiates() {
    let s_atom: SimplexAtom = SimplexAtom::from(32);
    assert_eq!(s_atom, SimplexAtom::SimplexNumeric(Numeric::LittleInteger(32)));
}

#[test]
fn a_number_is_a_number_before_anything_else() {
    let atom = SimplexAtom::from_str("42").unwrap();
    assert_eq!(atom, SimplexAtom::SimplexNumeric(Numeric::LittleInteger(42)));
    assert_eq!(atom.get_int_value(), Some(42));
    assert_eq!(atom.get_head_name(), "Integer");
}

#[test]
fn each_kind_is_recognised() {
    assert_eq!(
        SimplexAtom::from_str("x1"),
        Some(SimplexAtom::SimplexSymbol(Symbol { name: String::from("x1") }))
    );
    assert_eq!(
        SimplexAtom::from_str("\"x1\""),
        Some(SimplexAtom::SimplexString(SString { contents: String::from("x1") }))
    );
    assert_eq!(
        SimplexAtom::from_str("-1.25"),
        Some(SimplexAtom::SimplexNumeric(Numeric::LittleReal(d128::from_str("-1.25").unwrap())))
    );
    assert_eq!(SimplexAtom::from_str("-1.25").unwrap().to_string(), "-1.25");
    assert_eq!(
        SimplexAtom::from_str("Simplex`Atom").unwrap().get_head_name(),
        "Symbol"
    );
}

#[test]
fn text_of_no_kind_gives_nothing() {
    assert_eq!(SimplexAtom::from_str(""), None);
    assert_eq!(SimplexAtom::from_str("two words"), None);
    assert_eq!(SimplexAtom::from_str("\"open"), None);
    assert_eq!(SimplexAtom::from_str("\"a\"b\""), None);
    assert_eq!(SimplexAtom::from_str("1x"), None);
    assert_eq!(SimplexAtom::from_str("a_"), None);
    assert_eq!(SimplexAtom::from_str("+"), None);
}

#[test]
fn conversion_from_text_never_fails() {
    assert_eq!(SimplexAtom::from("x"), SimplexAtom::from_str("x").unwrap());
    assert_eq!(SimplexAtom::from("7"), SimplexAtom::from(7));
    let lost = SimplexAtom::from("two words");
    assert_eq!(lost.to_string(), "NaN");
    assert_eq!(lost.get_head_name(), "Symbol");
    assert!(matches!(lost, SimplexAtom::SimplexNumeric(Numeric::NaN)));
}

#[test]
fn head_names() {
    assert_eq!(SimplexAtom::from("1").get_head_name(), "Integer");
    assert_eq!(SimplexAtom::from("1.5").get_head_name(), "Real");
    assert_eq!(SimplexAtom::from(Numeric::NaN).get_head_name(), "Symbol");
    assert_eq!(SimplexAtom::from("\"s\"").get_head_name(), "String");
    assert_eq!(SimplexAtom::from("s").get_head_name(), "Symbol");
    assert_eq!(SimplexAtom::from("s").get_expression_name(), "Simplex`Atom");
    // a decimal whose text is an integer's is named after what it simplifies to
    let whole = SimplexAtom::from(Numeric::LittleReal(d128::from_str("12").unwrap()));
    assert_eq!(whole.get_head_name(), "Integer");
}

#[test]
fn values_come_out_only_of_the_matching_kind() {
    let i = SimplexAtom::from("12");
    let r = SimplexAtom::from("1.5");
    let t = SimplexAtom::from("\"hi there\"");
    let s = SimplexAtom::from("hi");
    assert_eq!(i.get_int_value(), Some(12));
    assert_eq!(i.get_float_value(), None);
    assert_eq!(i.get_string_value(), None);
    assert_eq!(i.symbol_name(), None);
    assert_eq!(r.get_int_value(), None);
    assert_eq!(r.get_float_value().unwrap().to_string(), "1.5");
    assert_eq!(r.get_string_value(), None);
    assert_eq!(t.get_int_value(), None);
    assert_eq!(t.get_float_value(), None);
    assert_eq!(t.get_string_value(), Some(&String::from("hi there")));
    assert_eq!(s.get_int_value(), None);
    assert_eq!(s.get_float_value(), None);
    assert_eq!(s.get_string_value(), None);
    assert_eq!(s.symbol_name(), Some(&String::from("hi")));
    let whole = SimplexAtom::from(Numeric::LittleReal(d128::from_str("12").unwrap()));
    assert_eq!(whole.get_int_value(), Some(12));
    assert_eq!(whole.get_float_value(), None);
    let none = SimplexAtom::from(Numeric::NaN);
    assert_eq!(none.get_int_value(), None);
    assert_eq!(none.get_float_value(), None);
}

#[test]
fn atoms_are_shown_as_they_are_written() {
    assert_eq!(SimplexAtom::from("\"hi there\"").to_string(), "\"hi there\"");
    assert_eq!(SimplexAtom::from("\"\"").to_string(), "\"\"");
    assert_eq!(SimplexAtom::from("hi").to_string(), "hi");
    assert_eq!(SimplexAtom::from("-0012").to_string(), "-12");
    assert_eq!(SimplexAtom::from("1.50").to_string(), "1.50");
}

#[test]
fn kinds_have_their_own_constructors() {
    assert_eq!(Symbol::from_str("Plus").unwrap().to_string(), "Plus");
    assert_eq!(Symbol::from_str("$x`y9").unwrap().to_string(), "$x`y9");
    assert_eq!(Symbol::from_str("9x"), None);
    assert_eq!(Symbol::from_str(""), None);
    assert_eq!(SString::from_str("\"héllo\"").unwrap().contents, "héllo");
    assert_eq!(SString::from_str("\"héllo\"").unwrap().to_string(), "\"héllo\"");
    assert_eq!(SString::from_str("hello"), None);
    assert_eq!(SString::from_str("\""), None);
}

#[test]
fn equal_values_are_equal_atoms() {
    assert_eq!(SimplexAtom::from("12"), SimplexAtom::from(12));
    assert_eq!(SimplexAtom::from("+12"), SimplexAtom::from("012"));
    assert_ne!(SimplexAtom::from("12"), SimplexAtom::from("\"12\""));
    assert_eq!(SimplexAtom::from("x").clone(), SimplexAtom::from("x"));
}
