//! Atoms, the leaves of every expression: a number, a text literal or a
//! symbol name.

use crate::numeric::{
    numeric_equal, numeric_from_text, numeric_text, simplified, Numeric, NumericView,
};
use crate::parsing::{
    is_numeric_literal, is_string_literal, is_symbol_literal, lemma_integer_literal_is_numeric,
    representable_numeric, representable_string, representable_symbol, string_literal_contents,
};
use crate::text::integer_literal_value;
use decimal::d128;
use vstd::prelude::*;
use vstd::std_specs::cmp::PartialEqSpecImpl;
use vstd::std_specs::convert::FromSpecImpl;
use vstd::string::StringExecFns;

verus! {

/// A symbol: a name that stands for itself.
#[derive(Debug)]
pub struct Symbol {
    pub name: String,
}

/// A text literal, held without its quotes.
#[derive(Debug)]
pub struct SString {
    pub contents: String,
}

/// A leaf value.
#[derive(Debug)]
pub enum SimplexAtom {
    SimplexNumeric(Numeric),
    SimplexString(SString),
    SimplexSymbol(Symbol),
}

/// What an atom is to the contracts.
pub enum AtomView {
    Numeric(NumericView),
    Text(Seq<char>),
    Symbol(Seq<char>),
}

impl View for Symbol {
    type V = Seq<char>;

    open spec fn view(&self) -> Seq<char> {
        self.name@
    }
}

impl View for SString {
    type V = Seq<char>;

    open spec fn view(&self) -> Seq<char> {
        self.contents@
    }
}

impl View for SimplexAtom {
    type V = AtomView;

    open spec fn view(&self) -> AtomView {
        match self {
            SimplexAtom::SimplexNumeric(n) => AtomView::Numeric(n@),
            SimplexAtom::SimplexString(s) => AtomView::Text(s@),
            SimplexAtom::SimplexSymbol(s) => AtomView::Symbol(s@),
        }
    }
}

/// Whether two atoms are equal: of one kind, and equal as numbers, as text
/// or as names.
pub open spec fn atom_equal(a: AtomView, b: AtomView) -> bool {
    match (a, b) {
        (AtomView::Numeric(x), AtomView::Numeric(y)) => numeric_equal(x, y),
        (AtomView::Text(s), AtomView::Text(t)) => s == t,
        (AtomView::Symbol(s), AtomView::Symbol(t)) => s == t,
        _ => false,
    }
}

impl PartialEq for Symbol {
    fn eq(&self, other: &Symbol) -> (r: bool) {
        self.name == other.name
    }
}

impl PartialEqSpecImpl for Symbol {
    open spec fn obeys_eq_spec() -> bool {
        true
    }

    open spec fn eq_spec(&self, other: &Symbol) -> bool {
        self@ == other@
    }
}

impl PartialEq for SString {
    fn eq(&self, other: &SString) -> (r: bool) {
        self.contents == other.contents
    }
}

impl PartialEqSpecImpl for SString {
    open spec fn obeys_eq_spec() -> bool {
        true
    }

    open spec fn eq_spec(&self, other: &SString) -> bool {
        self@ == other@
    }
}

impl PartialEq for SimplexAtom {
    fn eq(&self, other: &SimplexAtom) -> (r: bool) {
        match (self, other) {
            (SimplexAtom::SimplexNumeric(a), SimplexAtom::SimplexNumeric(b)) => *a == *b,
            (SimplexAtom::SimplexString(a), SimplexAtom::SimplexString(b)) => *a == *b,
            (SimplexAtom::SimplexSymbol(a), SimplexAtom::SimplexSymbol(b)) => *a == *b,
            _ => false,
        }
    }
}

impl PartialEqSpecImpl for SimplexAtom {
    open spec fn obeys_eq_spec() -> bool {
        true
    }

    open spec fn eq_spec(&self, other: &SimplexAtom) -> bool {
        atom_equal(self@, other@)
    }
}

/// The atom that text classifies as. The kinds are tried in a fixed order,
/// numbers first, then text literals, then symbols, and the first that
/// matches decides; text of no kind gives nothing.
pub open spec fn classified(s: Seq<char>) -> Option<AtomView> {
    if is_numeric_literal(s) {
        Some(AtomView::Numeric(numeric_from_text(s)))
    } else if is_string_literal(s) {
        Some(AtomView::Text(string_literal_contents(s)))
    } else if is_symbol_literal(s) {
        Some(AtomView::Symbol(s))
    } else {
        None
    }
}

/// The atom built from any text: what the text classifies as, and the
/// not-a-number atom for text of no kind.
pub open spec fn atom_from_text(s: Seq<char>) -> AtomView {
    match classified(s) {
        Some(atom) => atom,
        None => AtomView::Numeric(NumericView::NotANumber),
    }
}

/// The text an atom is shown as: a number's text, a text literal between
/// double quotes, a symbol's name.
pub open spec fn atom_text(a: AtomView) -> Seq<char> {
    match a {
        AtomView::Numeric(n) => numeric_text(n),
        AtomView::Text(t) => seq!['"'] + t + seq!['"'],
        AtomView::Symbol(name) => name,
    }
}

/// The name of an atom's kind. A number is named after its canonical form,
/// and one that is no number shows as a symbol.
pub open spec fn atom_head_name(a: AtomView) -> Seq<char> {
    match a {
        AtomView::Numeric(n) => match simplified(n) {
            NumericView::Integer(_) => "Integer"@,
            NumericView::Real(_) => "Real"@,
            NumericView::NotANumber => "Symbol"@,
        },
        AtomView::Text(_) => "String"@,
        AtomView::Symbol(_) => "Symbol"@,
    }
}

/// Text that can be read as a number classifies as a number, whatever else
/// it could be read as.
pub proof fn lemma_numeric_wins(s: Seq<char>)
    requires
        is_numeric_literal(s),
    ensures
        classified(s) == Some(AtomView::Numeric(numeric_from_text(s))),
{
}

/// Text that is a 64-bit integer literal classifies as that integer, and so
/// never as a symbol or as text.
pub proof fn lemma_integer_text_is_integer_atom(s: Seq<char>, n: int)
    requires
        integer_literal_value(s) == Some(n),
    ensures
        classified(s) == Some(AtomView::Numeric(NumericView::Integer(n))),
{
    lemma_integer_literal_is_numeric(s);
}

/// Every atom that classification gives is of the kind whose recogniser
/// accepted the text, and text that no recogniser accepts gives none.
pub proof fn lemma_classified_kind(s: Seq<char>)
    ensures
        classified(s) is None <==> !is_numeric_literal(s) && !is_string_literal(s)
            && !is_symbol_literal(s),
        classified(s) matches Some(AtomView::Numeric(_)) ==> is_numeric_literal(s),
        classified(s) matches Some(AtomView::Text(_)) ==> is_string_literal(s),
        classified(s) matches Some(AtomView::Symbol(_)) ==> is_symbol_literal(s),
{
}

impl Symbol {
    /// The symbol named `s`, where `s` is a symbol name.
    pub fn from_str(s: &str) -> (r: Option<Symbol>)
        ensures
            match r {
                Some(symbol) => is_symbol_literal(s@) && symbol@ == s@,
                None => !is_symbol_literal(s@),
            },
    {
        if representable_symbol(s) {
            Some(Symbol { name: String::from_str(s) })
        } else {
            None
        }
    }

    /// The symbol's name.
    pub fn to_string(&self) -> (r: String)
        ensures
            r@ == self@,
    {
        self.name.clone()
    }
}

impl Clone for Symbol {
    fn clone(&self) -> (r: Symbol)
        ensures
            r@ == self@,
    {
        Symbol { name: self.name.clone() }
    }
}

impl SString {
    /// The text literal written as `s`, quotes included, where `s` is one.
    pub fn from_str(s: &str) -> (r: Option<SString>)
        ensures
            match r {
                Some(text) => is_string_literal(s@) && text@ == string_literal_contents(s@),
                None => !is_string_literal(s@),
            },
    {
        if representable_string(s) {
            let n = s.unicode_len();
            Some(SString { contents: String::from_str(s.substring_char(1, n - 1)) })
        } else {
            None
        }
    }

    /// The literal as it is written, between double quotes.
    pub fn to_string(&self) -> (r: String)
        ensures
            r@ == atom_text(AtomView::Text(self@)),
    {
        proof {
            reveal_strlit("\"");
        }
        let mut r = String::from_str("\"");
        r.append(self.contents.as_str());
        r.append("\"");
        r
    }
}

impl Clone for SString {
    fn clone(&self) -> (r: SString)
        ensures
            r@ == self@,
    {
        SString { contents: self.contents.clone() }
    }
}

impl Clone for SimplexAtom {
    fn clone(&self) -> (r: SimplexAtom)
        ensures
            r@ == self@,
    {
        match self {
            SimplexAtom::SimplexNumeric(n) => SimplexAtom::SimplexNumeric(*n),
            SimplexAtom::SimplexString(s) => SimplexAtom::SimplexString(s.clone()),
            SimplexAtom::SimplexSymbol(s) => SimplexAtom::SimplexSymbol(s.clone()),
        }
    }
}

/// An atom from any text: the atom that the text classifies as, and the
/// not-a-number atom for text of no kind.
impl<'a> From<&'a str> for SimplexAtom {
    fn from(s: &'a str) -> (r: SimplexAtom)
        ensures
            r@ == atom_from_text(s@),
    {
        match SimplexAtom::from_str(s) {
            Some(atom) => atom,
            None => SimplexAtom::SimplexNumeric(Numeric::NaN),
        }
    }
}

/// What an atom is can be said of its view alone, so the conversion from
/// text has no statement over atoms themselves: its contract stands on
/// `from`.
impl<'a> FromSpecImpl<&'a str> for SimplexAtom {
    open spec fn obeys_from_spec() -> bool {
        false
    }

    open spec fn from_spec(s: &'a str) -> SimplexAtom {
        arbitrary()
    }
}

/// The integer atom of a 64-bit integer.
impl From<i64> for SimplexAtom {
    fn from(n: i64) -> (r: SimplexAtom)
        ensures
            r == SimplexAtom::SimplexNumeric(Numeric::LittleInteger(n)),
    {
        SimplexAtom::SimplexNumeric(Numeric::LittleInteger(n))
    }
}

impl FromSpecImpl<i64> for SimplexAtom {
    open spec fn obeys_from_spec() -> bool {
        true
    }

    open spec fn from_spec(n: i64) -> SimplexAtom {
        SimplexAtom::SimplexNumeric(Numeric::LittleInteger(n))
    }
}

/// The numeric atom of a number.
impl From<Numeric> for SimplexAtom {
    fn from(n: Numeric) -> (r: SimplexAtom)
        ensures
            r == SimplexAtom::SimplexNumeric(n),
    {
        SimplexAtom::SimplexNumeric(n)
    }
}

impl FromSpecImpl<Numeric> for SimplexAtom {
    open spec fn obeys_from_spec() -> bool {
        true
    }

    open spec fn from_spec(n: Numeric) -> SimplexAtom {
        SimplexAtom::SimplexNumeric(n)
    }
}

impl SimplexAtom {
    /// Classifies text as an atom: a number, else a text literal, else a
    /// symbol. Text of no kind gives `None`.
    pub fn from_str(s: &str) -> (r: Option<SimplexAtom>)
        ensures
            match r {
                Some(atom) => classified(s@) == Some(atom@),
                None => classified(s@) is None,
            },
    {
        if representable_numeric(s) {
            Some(SimplexAtom::SimplexNumeric(Numeric::from_str(s)))
        } else {
            match SString::from_str(s) {
                Some(text) => Some(SimplexAtom::SimplexString(text)),
                None => match Symbol::from_str(s) {
                    Some(symbol) => Some(SimplexAtom::SimplexSymbol(symbol)),
                    None => None,
                },
            }
        }
    }

    /// The qualified name of this kind of expression.
    pub fn get_expression_name(&self) -> (name: &'static str)
        ensures
            name@ == "Simplex`Atom"@,
    {
        "Simplex`Atom"
    }

    /// The name of the atom's kind.
    pub fn get_head_name(&self) -> (name: &'static str)
        ensures
            name@ == atom_head_name(self@),
    {
        match self {
            SimplexAtom::SimplexNumeric(num) => match num.simplify() {
                Numeric::LittleInteger(_) => "Integer",
                Numeric::LittleReal(_) => "Real",
                Numeric::NaN => "Symbol",
            },
            SimplexAtom::SimplexString(_) => "String",
            SimplexAtom::SimplexSymbol(_) => "Symbol",
        }
    }

    /// The integer that the atom is, once simplified; nothing for an atom of
    /// another kind.
    pub fn get_int_value(&self) -> (r: Option<i64>)
        ensures
            match r {
                Some(i) => self@ matches AtomView::Numeric(n) && simplified(n)
                    == NumericView::Integer(i as int),
                None => !(self@ matches AtomView::Numeric(n) && simplified(n) is Integer),
            },
    {
        match self {
            SimplexAtom::SimplexNumeric(numeric) => match numeric.simplify() {
                Numeric::LittleInteger(i) => Some(i),
                _ => None,
            },
            SimplexAtom::SimplexString(_) => None,
            SimplexAtom::SimplexSymbol(_) => None,
        }
    }

    /// The decimal that the atom is, once simplified; nothing for an atom of
    /// another kind.
    pub fn get_float_value(&self) -> (r: Option<d128>)
        ensures
            match r {
                Some(value) => *self == SimplexAtom::SimplexNumeric(Numeric::LittleReal(value))
                    && simplified(self@->Numeric_0) == self@->Numeric_0,
                None => !(self@ matches AtomView::Numeric(n) && simplified(n) is Real),
            },
    {
        match self {
            SimplexAtom::SimplexNumeric(numeric) => match numeric.simplify() {
                Numeric::LittleReal(i) => Some(i),
                _ => None,
            },
            SimplexAtom::SimplexString(_) => None,
            SimplexAtom::SimplexSymbol(_) => None,
        }
    }

    /// What a text literal holds; nothing for an atom of another kind.
    pub fn get_string_value(&self) -> (r: Option<&String>)
        ensures
            match r {
                Some(contents) => self@ == AtomView::Text(contents@),
                None => !(self@ is Text),
            },
    {
        match self {
            SimplexAtom::SimplexNumeric(_) => None,
            SimplexAtom::SimplexString(s) => Some(&s.contents),
            SimplexAtom::SimplexSymbol(_) => None,
        }
    }

    /// The text the atom is shown as.
    pub fn to_string(&self) -> (r: String)
        ensures
            r@ == atom_text(self@),
    {
        match self {
            SimplexAtom::SimplexNumeric(n) => n.to_string(),
            SimplexAtom::SimplexString(s) => s.to_string(),
            SimplexAtom::SimplexSymbol(s) => s.to_string(),
        }
    }

    /// The name of the symbol that the atom is; nothing for an atom of
    /// another kind.
    pub fn symbol_name(&self) -> (r: Option<&String>)
        ensures
            match r {
                Some(name) => self@ == AtomView::Symbol(name@),
                None => !(self@ is Symbol),
            },
    {
        match self {
            SimplexAtom::SimplexSymbol(s) => Some(&s.name),
            _ => None,
        }
    }
}

} // verus!
