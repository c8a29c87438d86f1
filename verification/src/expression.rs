//! Expression trees: the closed set of node kinds, what each is to the
//! contracts, and the text each is shown as.

use crate::arithmetic::{Plus, Subtract};
use crate::atom::{atom_equal, atom_from_text, atom_text, AtomView, SimplexAtom};
use crate::function::SimplexFunction;
use crate::list::SimplexList;
use vstd::prelude::*;
use vstd::std_specs::cmp::PartialEqSpecImpl;
use vstd::std_specs::convert::FromSpecImpl;
use vstd::string::StringExecFns;

verus! {

/// A node of an expression tree.
#[derive(Debug)]
pub enum Expression {
    Atomic(SimplexAtom),
    Add(Plus),
    Sub(Subtract),
    List(SimplexList),
    Function(SimplexFunction),
}

/// What an expression is to the contracts: a tree over sequences.
pub enum ExpressionView {
    Atomic(AtomView),
    Add(Seq<ExpressionView>),
    Sub(Seq<ExpressionView>),
    List(ListView),
    Function(FunctionView),
}

/// What a list node is to the contracts: its head and its leaves in order.
pub struct ListView {
    pub head: AtomView,
    pub leaves: Seq<ExpressionView>,
}

/// What a function definition is to the contracts.
pub struct FunctionView {
    pub head: AtomView,
    pub uniq_id: u64,
    pub reflexive: bool,
    pub meta_variables: Seq<AtomView>,
    pub body: ListView,
}

/// The views of a run of expressions, in order.
pub open spec fn leaf_views(leaves: Seq<Expression>) -> Seq<ExpressionView>
    decreases leaves,
{
    Seq::new(
        leaves.len(),
        |i: int|
            if 0 <= i < leaves.len() {
                leaves[i]@
            } else {
                arbitrary()
            },
    )
}

/// The views of a run of atoms, in order.
pub open spec fn atom_views(atoms: Seq<SimplexAtom>) -> Seq<AtomView> {
    Seq::new(atoms.len(), |i: int| atoms[i]@)
}

impl View for Expression {
    type V = ExpressionView;

    open spec fn view(&self) -> ExpressionView
        decreases self,
    {
        match self {
            Expression::Atomic(a) => ExpressionView::Atomic(a@),
            Expression::Add(p) => ExpressionView::Add(leaf_views(p.leaves@)),
            Expression::Sub(s) => ExpressionView::Sub(leaf_views(s.leaves@)),
            Expression::List(l) => ExpressionView::List(
                ListView { head: l.head@, leaves: leaf_views(l.expressions@) },
            ),
            Expression::Function(f) => ExpressionView::Function(
                FunctionView {
                    head: f.head@,
                    uniq_id: f.uniq_id,
                    reflexive: f.reflexive,
                    meta_variables: atom_views(f.meta_variables@),
                    body: ListView {
                        head: f.s_expression.head@,
                        leaves: leaf_views(f.s_expression.expressions@),
                    },
                },
            ),
        }
    }
}

/// Whether two runs of atoms are equal: of one length, and equal atom by
/// atom.
pub open spec fn atoms_equal(a: Seq<AtomView>, b: Seq<AtomView>) -> bool {
    a.len() == b.len() && forall|i: int| 0 <= i < a.len() ==> atom_equal(a[i], b[i])
}

/// Whether two expressions are equal: nodes of one kind, with equal heads
/// and equal leaves in the same order.
pub open spec fn expression_equal(a: ExpressionView, b: ExpressionView) -> bool
    decreases a,
{
    match a {
        ExpressionView::Atomic(x) => b matches ExpressionView::Atomic(y) && atom_equal(x, y),
        ExpressionView::Add(x) => b matches ExpressionView::Add(y) && leaves_equal(x, y),
        ExpressionView::Sub(x) => b matches ExpressionView::Sub(y) && leaves_equal(x, y),
        ExpressionView::List(x) => b matches ExpressionView::List(y) && atom_equal(
            x.head,
            y.head,
        ) && leaves_equal(x.leaves, y.leaves),
        ExpressionView::Function(f) => b matches ExpressionView::Function(g) && atom_equal(
            f.head,
            g.head,
        ) && f.uniq_id == g.uniq_id && f.reflexive == g.reflexive && atoms_equal(
            f.meta_variables,
            g.meta_variables,
        ) && atom_equal(f.body.head, g.body.head) && leaves_equal(f.body.leaves, g.body.leaves),
    }
}

/// Whether two runs of expressions are equal: of one length, and equal
/// expression by expression.
pub open spec fn leaves_equal(a: Seq<ExpressionView>, b: Seq<ExpressionView>) -> bool
    decreases a,
{
    a.len() == b.len() && forall|i: int|
        #![trigger a[i]]
        0 <= i < a.len() ==> expression_equal(a[i], b[i])
}

/// Whether two list nodes are equal.
pub open spec fn list_equal(a: ListView, b: ListView) -> bool {
    atom_equal(a.head, b.head) && leaves_equal(a.leaves, b.leaves)
}

/// Whether two function definitions are equal.
pub open spec fn function_equal(f: FunctionView, g: FunctionView) -> bool {
    atom_equal(f.head, g.head) && f.uniq_id == g.uniq_id && f.reflexive == g.reflexive
        && atoms_equal(f.meta_variables, g.meta_variables) && list_equal(f.body, g.body)
}

/// A head, then its contents between square brackets.
pub open spec fn bracketed(head: Seq<char>, inner: Seq<char>) -> Seq<char> {
    head + "["@ + inner + "]"@
}

/// The text an expression is shown as. An atom shows as its own text, a node
/// as its head and, between square brackets, its leaves.
pub open spec fn expression_text(e: ExpressionView) -> Seq<char>
    decreases e,
{
    match e {
        ExpressionView::Atomic(a) => atom_text(a),
        ExpressionView::Add(leaves) => bracketed("Plus"@, joined_text(leaves)),
        ExpressionView::Sub(leaves) => bracketed("Subtract"@, joined_text(leaves)),
        ExpressionView::List(l) => bracketed(atom_text(l.head), joined_text(l.leaves)),
        ExpressionView::Function(f) => atom_text(f.head) + "["@ + meta_variables_text(
            f.meta_variables,
        ) + "] := "@ + bracketed(atom_text(f.body.head), joined_text(f.body.leaves)),
    }
}

/// The texts of a run of expressions, with a comma and a space between each
/// two.
pub open spec fn joined_text(leaves: Seq<ExpressionView>) -> Seq<char>
    decreases leaves,
{
    if leaves.len() == 0 {
        Seq::empty()
    } else if leaves.len() == 1 {
        expression_text(leaves[0])
    } else {
        joined_text(leaves.drop_last()) + ", "@ + expression_text(leaves.last())
    }
}

/// The text a list node is shown as.
pub open spec fn list_text(l: ListView) -> Seq<char> {
    bracketed(atom_text(l.head), joined_text(l.leaves))
}

/// The parameters of a definition as they are shown: each with the pattern
/// mark `_` behind it, and a comma and a space between each two.
pub open spec fn meta_variables_text(variables: Seq<AtomView>) -> Seq<char>
    decreases variables.len(),
{
    if variables.len() == 0 {
        Seq::empty()
    } else if variables.len() == 1 {
        atom_text(variables[0]) + "_"@
    } else {
        meta_variables_text(variables.drop_last()) + ", "@ + atom_text(variables.last()) + "_"@
    }
}

/// The text a function definition is shown as: head, parameters, and the
/// body behind `:=`.
pub open spec fn function_text(f: FunctionView) -> Seq<char> {
    atom_text(f.head) + "["@ + meta_variables_text(f.meta_variables) + "] := "@ + list_text(f.body)
}

/// What becomes of an atom when `new` takes the place of `symbol`: `new`
/// where the atom is that symbol, the atom itself otherwise. Only a symbol
/// is ever replaced.
pub open spec fn substituted_atom(a: AtomView, symbol: AtomView, new: AtomView) -> AtomView {
    if symbol is Symbol && a == symbol {
        new
    } else {
        a
    }
}

/// What becomes of an expression when `new` takes the place of `symbol`
/// throughout: in every atomic leaf, in the head of every list, and so on
/// down through the leaves of lists and operator nodes. A function
/// definition that stands as a leaf is left as it is.
pub open spec fn substituted(e: ExpressionView, symbol: AtomView, new: AtomView) -> ExpressionView
    decreases e,
{
    match e {
        ExpressionView::Atomic(a) => ExpressionView::Atomic(substituted_atom(a, symbol, new)),
        ExpressionView::Add(leaves) => ExpressionView::Add(
            substituted_leaves(leaves, symbol, new),
        ),
        ExpressionView::Sub(leaves) => ExpressionView::Sub(
            substituted_leaves(leaves, symbol, new),
        ),
        ExpressionView::List(l) => ExpressionView::List(
            ListView {
                head: substituted_atom(l.head, symbol, new),
                leaves: substituted_leaves(l.leaves, symbol, new),
            },
        ),
        ExpressionView::Function(_) => e,
    }
}

/// `substituted`, leaf by leaf.
pub open spec fn substituted_leaves(
    leaves: Seq<ExpressionView>,
    symbol: AtomView,
    new: AtomView,
) -> Seq<ExpressionView>
    decreases leaves,
{
    Seq::new(
        leaves.len(),
        |i: int|
            if 0 <= i < leaves.len() {
                substituted(leaves[i], symbol, new)
            } else {
                arbitrary()
            },
    )
}

/// What becomes of a list node when `new` takes the place of `symbol`
/// throughout.
pub open spec fn substituted_list(l: ListView, symbol: AtomView, new: AtomView) -> ListView {
    ListView {
        head: substituted_atom(l.head, symbol, new),
        leaves: substituted_leaves(l.leaves, symbol, new),
    }
}

/// Whether two runs of atoms are equal.
pub fn same_atoms(a: &Vec<SimplexAtom>, b: &Vec<SimplexAtom>) -> (r: bool)
    ensures
        r == atoms_equal(atom_views(a@), atom_views(b@)),
{
    if a.len() != b.len() {
        return false;
    }
    let mut i: usize = 0;
    while i < a.len()
        invariant
            0 <= i <= a.len(),
            a.len() == b.len(),
            forall|k: int| 0 <= k < i ==> atom_equal(a@[k]@, b@[k]@),
        decreases a.len() - i,
    {
        if !(a[i] == b[i]) {
            assert(!atom_equal(atom_views(a@)[i as int], atom_views(b@)[i as int]));
            return false;
        }
        i += 1;
    }
    true
}

/// Whether two runs of expressions are equal.
pub fn same_leaves(a: &Vec<Expression>, b: &Vec<Expression>) -> (r: bool)
    ensures
        r == leaves_equal(leaf_views(a@), leaf_views(b@)),
    decreases a,
{
    if a.len() != b.len() {
        return false;
    }
    let mut i: usize = 0;
    while i < a.len()
        invariant
            0 <= i <= a.len(),
            a.len() == b.len(),
            forall|k: int| 0 <= k < i ==> expression_equal(a@[k]@, b@[k]@),
        decreases a.len() - i,
    {
        if !(a[i] == b[i]) {
            assert(!leaves_equal(leaf_views(a@), leaf_views(b@))) by {
                assert(!expression_equal(leaf_views(a@)[i as int], leaf_views(b@)[i as int]));
            }
            return false;
        }
        i += 1;
    }
    assert forall|k: int| 0 <= k < leaf_views(a@).len() implies expression_equal(
        #[trigger] leaf_views(a@)[k],
        leaf_views(b@)[k],
    ) by {
        assert(expression_equal(a@[k]@, b@[k]@));
    }
    true
}

impl PartialEq for Expression {
    fn eq(&self, other: &Expression) -> (r: bool)
        decreases self,
    {
        match (self, other) {
            (Expression::Atomic(a), Expression::Atomic(b)) => *a == *b,
            (Expression::Add(a), Expression::Add(b)) => same_leaves(&a.leaves, &b.leaves),
            (Expression::Sub(a), Expression::Sub(b)) => same_leaves(&a.leaves, &b.leaves),
            (Expression::List(a), Expression::List(b)) => a.head == b.head && same_leaves(
                &a.expressions,
                &b.expressions,
            ),
            (Expression::Function(f), Expression::Function(g)) => f.head == g.head && f.uniq_id
                == g.uniq_id && f.reflexive == g.reflexive && same_atoms(
                &f.meta_variables,
                &g.meta_variables,
            ) && f.s_expression.head == g.s_expression.head && same_leaves(
                &f.s_expression.expressions,
                &g.s_expression.expressions,
            ),
            _ => false,
        }
    }
}

impl PartialEqSpecImpl for Expression {
    open spec fn obeys_eq_spec() -> bool {
        true
    }

    open spec fn eq_spec(&self, other: &Expression) -> bool {
        expression_equal(self@, other@)
    }
}

/// A copy of a run of atoms.
pub fn clone_atoms(atoms: &Vec<SimplexAtom>) -> (r: Vec<SimplexAtom>)
    ensures
        atom_views(r@) == atom_views(atoms@),
{
    let mut r: Vec<SimplexAtom> = Vec::new();
    let mut i: usize = 0;
    while i < atoms.len()
        invariant
            0 <= i <= atoms.len(),
            r@.len() == i,
            forall|k: int| 0 <= k < i ==> r@[k]@ == atoms@[k]@,
        decreases atoms.len() - i,
    {
        r.push(atoms[i].clone());
        i += 1;
    }
    r
}

/// A copy of a run of expressions.
pub fn clone_leaves(leaves: &Vec<Expression>) -> (r: Vec<Expression>)
    ensures
        leaf_views(r@) == leaf_views(leaves@),
    decreases leaves,
{
    let mut r: Vec<Expression> = Vec::new();
    let mut i: usize = 0;
    while i < leaves.len()
        invariant
            0 <= i <= leaves.len(),
            r@.len() == i,
            forall|k: int| 0 <= k < i ==> r@[k]@ == leaves@[k]@,
        decreases leaves.len() - i,
    {
        r.push(leaves[i].clone());
        i += 1;
    }
    r
}

impl Clone for Expression {
    fn clone(&self) -> (r: Expression)
        ensures
            r@ == self@,
        decreases self,
    {
        match self {
            Expression::Atomic(a) => Expression::Atomic(a.clone()),
            Expression::Add(p) => Expression::Add(Plus { leaves: clone_leaves(&p.leaves) }),
            Expression::Sub(s) => Expression::Sub(Subtract { leaves: clone_leaves(&s.leaves) }),
            Expression::List(l) => Expression::List(
                SimplexList { head: l.head.clone(), expressions: clone_leaves(&l.expressions) },
            ),
            Expression::Function(f) => Expression::Function(
                SimplexFunction {
                    head: f.head.clone(),
                    uniq_id: f.uniq_id,
                    reflexive: f.reflexive,
                    meta_variables: clone_atoms(&f.meta_variables),
                    s_expression: SimplexList {
                        head: f.s_expression.head.clone(),
                        expressions: clone_leaves(&f.s_expression.expressions),
                    },
                },
            ),
        }
    }
}

/// A head, then `inner` between square brackets.
pub fn bracket(head: &str, inner: &str) -> (r: String)
    ensures
        r@ == bracketed(head@, inner@),
{
    let mut r = String::from_str(head);
    r.append("[");
    r.append(inner);
    r.append("]");
    r
}

/// The texts of a run of expressions, with a comma and a space between each
/// two.
pub fn leaves_to_string(leaves: &Vec<Expression>) -> (r: String)
    ensures
        r@ == joined_text(leaf_views(leaves@)),
    decreases leaves,
{
    let ghost views = leaf_views(leaves@);
    let mut r = String::new();
    let mut i: usize = 0;
    while i < leaves.len()
        invariant
            0 <= i <= leaves.len(),
            views == leaf_views(leaves@),
            r@ == joined_text(views.take(i as int)),
        decreases leaves.len() - i,
    {
        proof {
            assert(views.take(i + 1).drop_last() == views.take(i as int));
        }
        if i > 0 {
            r.append(", ");
        }
        let leaf = leaves[i].to_string();
        r.append(leaf.as_str());
        i += 1;
    }
    proof {
        assert(views.take(leaves.len() as int) == views);
    }
    r
}

/// The atom that stands where `atom` stood once `new` has taken the place
/// of `symbol`.
pub fn replace_atom(atom: &SimplexAtom, symbol: &SimplexAtom, new: &SimplexAtom) -> (r:
    SimplexAtom)
    ensures
        r@ == substituted_atom(atom@, symbol@, new@),
{
    match (atom, symbol) {
        (SimplexAtom::SimplexSymbol(found), SimplexAtom::SimplexSymbol(sought)) => {
            if found.name == sought.name {
                new.clone()
            } else {
                atom.clone()
            }
        },
        _ => atom.clone(),
    }
}

/// The run of expressions that stands where `leaves` stood once `new` has
/// taken the place of `symbol` in each of them.
pub fn replace_in_leaves(leaves: &Vec<Expression>, symbol: &SimplexAtom, new: &SimplexAtom) -> (r:
    Vec<Expression>)
    ensures
        leaf_views(r@) == substituted_leaves(leaf_views(leaves@), symbol@, new@),
    decreases leaves,
{
    let mut r: Vec<Expression> = Vec::new();
    let mut i: usize = 0;
    while i < leaves.len()
        invariant
            0 <= i <= leaves.len(),
            r@.len() == i,
            forall|k: int| 0 <= k < i ==> r@[k]@ == substituted(leaves@[k]@, symbol@, new@),
        decreases leaves.len() - i,
    {
        r.push(leaves[i].replace_symbol(symbol, new));
        i += 1;
    }
    r
}

/// An atomic leaf from any text: the atom that the text classifies as, and
/// the not-a-number atom for text of no kind.
impl<'a> From<&'a str> for Expression {
    fn from(s: &'a str) -> (r: Expression)
        ensures
            r@ == ExpressionView::Atomic(atom_from_text(s@)),
    {
        Expression::Atomic(SimplexAtom::from(s))
    }
}

/// As for atoms, the conversion from text is stated over the view, on
/// `from`.
impl<'a> FromSpecImpl<&'a str> for Expression {
    open spec fn obeys_from_spec() -> bool {
        false
    }

    open spec fn from_spec(s: &'a str) -> Expression {
        arbitrary()
    }
}

/// An atom as a leaf.
impl From<SimplexAtom> for Expression {
    fn from(v: SimplexAtom) -> (r: Expression)
        ensures
            r == Expression::Atomic(v),
    {
        Expression::Atomic(v)
    }
}

impl FromSpecImpl<SimplexAtom> for Expression {
    open spec fn obeys_from_spec() -> bool {
        true
    }

    open spec fn from_spec(v: SimplexAtom) -> Expression {
        Expression::Atomic(v)
    }
}

/// An addition node as an expression.
impl From<Plus> for Expression {
    fn from(v: Plus) -> (r: Expression)
        ensures
            r == Expression::Add(v),
    {
        Expression::Add(v)
    }
}

impl FromSpecImpl<Plus> for Expression {
    open spec fn obeys_from_spec() -> bool {
        true
    }

    open spec fn from_spec(v: Plus) -> Expression {
        Expression::Add(v)
    }
}

/// A subtraction node as an expression.
impl From<Subtract> for Expression {
    fn from(v: Subtract) -> (r: Expression)
        ensures
            r == Expression::Sub(v),
    {
        Expression::Sub(v)
    }
}

impl FromSpecImpl<Subtract> for Expression {
    open spec fn obeys_from_spec() -> bool {
        true
    }

    open spec fn from_spec(v: Subtract) -> Expression {
        Expression::Sub(v)
    }
}

/// A list node as an expression.
impl From<SimplexList> for Expression {
    fn from(v: SimplexList) -> (r: Expression)
        ensures
            r == Expression::List(v),
    {
        Expression::List(v)
    }
}

impl FromSpecImpl<SimplexList> for Expression {
    open spec fn obeys_from_spec() -> bool {
        true
    }

    open spec fn from_spec(v: SimplexList) -> Expression {
        Expression::List(v)
    }
}

/// A function definition as an expression.
impl From<SimplexFunction> for Expression {
    fn from(v: SimplexFunction) -> (r: Expression)
        ensures
            r == Expression::Function(v),
    {
        Expression::Function(v)
    }
}

impl FromSpecImpl<SimplexFunction> for Expression {
    open spec fn obeys_from_spec() -> bool {
        true
    }

    open spec fn from_spec(v: SimplexFunction) -> Expression {
        Expression::Function(v)
    }
}

impl Expression {
    /// The text the expression is shown as.
    pub fn to_string(&self) -> (r: String)
        ensures
            r@ == expression_text(self@),
        decreases self,
    {
        match self {
            Expression::Atomic(a) => a.to_string(),
            Expression::Add(p) => {
                let inner = leaves_to_string(&p.leaves);
                bracket("Plus", inner.as_str())
            },
            Expression::Sub(s) => {
                let inner = leaves_to_string(&s.leaves);
                bracket("Subtract", inner.as_str())
            },
            Expression::List(l) => {
                let head = l.head.to_string();
                let inner = leaves_to_string(&l.expressions);
                bracket(head.as_str(), inner.as_str())
            },
            Expression::Function(f) => {
                let mut r = f.head.to_string();
                r.append("[");
                r.append(f.m_vars_to_string().as_str());
                r.append("] := ");
                let head = f.s_expression.head.to_string();
                let inner = leaves_to_string(&f.s_expression.expressions);
                r.append(bracket(head.as_str(), inner.as_str()).as_str());
                r
            },
        }
    }

    /// A copy of the expression in which `new` has taken the place of
    /// `symbol` throughout. The expression itself is left as it is.
    pub fn replace_symbol(&self, symbol: &SimplexAtom, new: &SimplexAtom) -> (r: Expression)
        ensures
            r@ == substituted(self@, symbol@, new@),
        decreases self,
    {
        match self {
            Expression::Atomic(a) => Expression::Atomic(replace_atom(a, symbol, new)),
            Expression::Add(p) => Expression::Add(
                Plus { leaves: replace_in_leaves(&p.leaves, symbol, new) },
            ),
            Expression::Sub(s) => Expression::Sub(
                Subtract { leaves: replace_in_leaves(&s.leaves, symbol, new) },
            ),
            Expression::List(l) => Expression::List(
                SimplexList {
                    head: replace_atom(&l.head, symbol, new),
                    expressions: replace_in_leaves(&l.expressions, symbol, new),
                },
            ),
            Expression::Function(_) => self.clone(),
        }
    }
}

} // verus!
