//! The operator nodes, addition and subtraction, and the evaluator that
//! folds a node over its leaves to a single atom.
//!
//! Both nodes fold in the same way and differ only in how a number joins the
//! running total. Numbers are absorbed into the total, everything else is
//! kept. A node collapses to its total only where nothing had to be kept.

use crate::atom::{AtomView, SimplexAtom, Symbol};
use crate::expression::{
    bracket, bracketed, clone_leaves, joined_text, leaf_views, leaves_equal, leaves_to_string,
    same_leaves, Expression, ExpressionView,
};
use crate::numeric::{difference, sum, wrap_i64, Numeric, NumericView};
use vstd::arithmetic::div_mod::{lemma_add_mod_noop_right, lemma_mod_sub_multiples_vanish};
use vstd::prelude::*;
use vstd::std_specs::cmp::PartialEqSpecImpl;
use vstd::string::StringExecFns;

verus! {

/// An addition node: the sum of its leaves.
#[derive(Debug)]
pub struct Plus {
    pub leaves: Vec<Expression>,
}

/// A subtraction node: its first leaf less the others.
#[derive(Debug)]
pub struct Subtract {
    pub leaves: Vec<Expression>,
}

impl View for Plus {
    type V = Seq<ExpressionView>;

    open spec fn view(&self) -> Seq<ExpressionView> {
        leaf_views(self.leaves@)
    }
}

impl View for Subtract {
    type V = Seq<ExpressionView>;

    open spec fn view(&self) -> Seq<ExpressionView> {
        leaf_views(self.leaves@)
    }
}

/// The two operators that fold.
#[derive(Debug, PartialEq, Eq, Clone, Copy)]
pub enum Operator {
    Add,
    Subtract,
}

/// What a leaf brings to the fold of its node: a number for the running
/// total, or an expression that the fold has to keep.
pub enum Contribution {
    Absorbed(NumericView),
    Retained(ExpressionView),
}

/// How far a fold has come: the expressions kept so far, the running total,
/// and how many numbers have gone into it.
pub struct Folding {
    pub retained: Seq<ExpressionView>,
    pub total: NumericView,
    pub absorbed: nat,
}

/// The running total once `n` has joined it. Addition adds every number.
/// Subtraction adds the first number that joins, so that the total starts
/// from it, and subtracts each later one.
pub open spec fn combined(op: Operator, first: bool, total: NumericView, n: NumericView)
    -> NumericView {
    match op {
        Operator::Add => sum(total, n),
        Operator::Subtract => if first {
            sum(total, n)
        } else {
            difference(total, n)
        },
    }
}

/// What a nested operator node brings, given what it evaluates to: its
/// number where it collapses to one, the atom where it collapses to another
/// atom, and the node itself, untouched, where it does not collapse.
pub open spec fn nested_contribution(leaf: ExpressionView, value: Option<AtomView>)
    -> Contribution {
    match value {
        Some(AtomView::Numeric(n)) => Contribution::Absorbed(n),
        Some(atom) => Contribution::Retained(ExpressionView::Atomic(atom)),
        None => Contribution::Retained(leaf),
    }
}

/// What a leaf brings to the fold of its node. A numeric atom is absorbed;
/// a nested operator node is evaluated first; every other leaf is kept as
/// it is.
pub open spec fn contribution(leaf: ExpressionView) -> Contribution
    decreases leaf, 0nat,
{
    match leaf {
        ExpressionView::Atomic(AtomView::Numeric(n)) => Contribution::Absorbed(n),
        ExpressionView::Add(leaves) => nested_contribution(
            leaf,
            evaluated(Operator::Add, leaves),
        ),
        ExpressionView::Sub(leaves) => nested_contribution(
            leaf,
            evaluated(Operator::Subtract, leaves),
        ),
        _ => Contribution::Retained(leaf),
    }
}

/// The fold of an operator over leaves, taken in order: the total starts at
/// the integer 0 and nothing is kept.
pub open spec fn folded(op: Operator, leaves: Seq<ExpressionView>) -> Folding
    decreases leaves, 0nat,
{
    if leaves.len() == 0 {
        Folding { retained: Seq::empty(), total: NumericView::Integer(0), absorbed: 0 }
    } else {
        let before = folded(op, leaves.drop_last());
        match contribution(leaves.last()) {
            Contribution::Absorbed(n) => Folding {
                retained: before.retained,
                total: combined(op, before.absorbed == 0, before.total, n),
                absorbed: before.absorbed + 1,
            },
            Contribution::Retained(e) => Folding {
                retained: before.retained.push(e),
                total: before.total,
                absorbed: before.absorbed,
            },
        }
    }
}

/// The leaves of the node that a fold leaves behind: what was kept, then
/// the total as a last leaf.
pub open spec fn folded_leaves(op: Operator, leaves: Seq<ExpressionView>) -> Seq<ExpressionView> {
    folded(op, leaves).retained.push(
        ExpressionView::Atomic(AtomView::Numeric(folded(op, leaves).total)),
    )
}

/// What an operator node evaluates to: its total, where the fold kept
/// nothing; no value otherwise.
pub open spec fn evaluated(op: Operator, leaves: Seq<ExpressionView>) -> Option<AtomView>
    decreases leaves, 1nat,
{
    let folding = folded(op, leaves);
    if folding.retained.len() == 0 {
        Some(AtomView::Numeric(folding.total))
    } else {
        None
    }
}

/// Integers as numeric leaves, in order.
pub open spec fn integer_leaves(values: Seq<int>) -> Seq<ExpressionView> {
    Seq::new(
        values.len(),
        |i: int| ExpressionView::Atomic(AtomView::Numeric(NumericView::Integer(values[i]))),
    )
}

/// The sum of a run of integers.
pub open spec fn sum_of(values: Seq<int>) -> int {
    values.fold_left(0int, |acc: int, v: int| acc + v)
}

/// A fold keeps at least what the fold of any shorter run of the same
/// leaves has kept.
pub proof fn lemma_retained_grows(op: Operator, leaves: Seq<ExpressionView>, k: int)
    requires
        0 <= k <= leaves.len(),
    ensures
        folded(op, leaves.take(k)).retained.len() <= folded(op, leaves).retained.len(),
    decreases leaves.len(),
{
    if k == leaves.len() {
        assert(leaves.take(k) == leaves);
    } else {
        assert(leaves.drop_last().take(k) == leaves.take(k));
        lemma_retained_grows(op, leaves.drop_last(), k);
    }
}

/// A node with a leaf that the fold keeps does not collapse: it evaluates to
/// no value.
pub proof fn lemma_retained_leaf_blocks(op: Operator, leaves: Seq<ExpressionView>, i: int)
    requires
        0 <= i < leaves.len(),
        contribution(leaves[i]) is Retained,
    ensures
        evaluated(op, leaves) is None,
{
    lemma_retained_grows(op, leaves, i + 1);
}

/// A node that mixes numbers with a symbol or a text literal does not
/// collapse, whatever else its leaves are.
pub proof fn lemma_symbolic_leaf_blocks(op: Operator, leaves: Seq<ExpressionView>, i: int)
    requires
        0 <= i < leaves.len(),
        leaves[i] matches ExpressionView::Atomic(atom) && !(atom is Numeric),
    ensures
        evaluated(op, leaves) is None,
{
    lemma_retained_leaf_blocks(op, leaves, i);
}

/// A node collapses exactly where every one of its leaves is absorbed, and
/// what it collapses to is a number.
pub proof fn lemma_evaluated_numeric(op: Operator, leaves: Seq<ExpressionView>)
    ensures
        evaluated(op, leaves) matches Some(atom) ==> atom is Numeric,
        evaluated(op, leaves) is Some <==> forall|i: int|
            0 <= i < leaves.len() ==> #[trigger] contribution(leaves[i]) is Absorbed,
    decreases leaves.len(),
{
    if leaves.len() > 0 {
        let shorter = leaves.drop_last();
        lemma_evaluated_numeric(op, shorter);
        if evaluated(op, leaves) is Some {
            assert forall|i: int| 0 <= i < leaves.len() implies #[trigger] contribution(
                leaves[i],
            ) is Absorbed by {
                if i < leaves.len() - 1 {
                    assert(shorter[i] == leaves[i]);
                }
            }
        }
        if forall|i: int| 0 <= i < leaves.len() ==> #[trigger] contribution(leaves[i]) is Absorbed {
            assert(contribution(leaves[leaves.len() - 1]) is Absorbed);
        }
    }
}

/// Wrapping a partial sum before adding to it changes nothing.
pub proof fn lemma_wrap_absorbs(a: int, b: int)
    ensures
        wrap_i64(wrap_i64(a) + b) == wrap_i64(a + b),
        wrap_i64(wrap_i64(a) - b) == wrap_i64(a - b),
{
    let m: int = 0x1_0000_0000_0000_0000;
    let r = a % m;
    // `wrap_i64(a)` is `r`, or `r` less the modulus; either way it leaves
    // the same remainder as `a`.
    assert((wrap_i64(a) + b) % m == (r + b) % m) by {
        lemma_mod_sub_multiples_vanish(r + b, m);
    }
    assert((wrap_i64(a) - b) % m == (r - b) % m) by {
        lemma_mod_sub_multiples_vanish(r - b, m);
    }
    assert((r + b) % m == (a + b) % m) by {
        lemma_add_mod_noop_right(b, a, m);
    }
    assert((r - b) % m == (a - b) % m) by {
        lemma_add_mod_noop_right(-b, a, m);
    }
}

/// An addition node over integers alone collapses to their sum, wrapped to
/// 64 bits.
pub proof fn lemma_integer_sum(values: Seq<int>)
    ensures
        folded(Operator::Add, integer_leaves(values)).retained.len() == 0,
        folded(Operator::Add, integer_leaves(values)).total == NumericView::Integer(
            wrap_i64(sum_of(values)),
        ),
        evaluated(Operator::Add, integer_leaves(values)) == Some(
            AtomView::Numeric(NumericView::Integer(wrap_i64(sum_of(values)))),
        ),
    decreases values.len(),
{
    let leaves = integer_leaves(values);
    if values.len() == 0 {
        assert(sum_of(values) == 0) by {
            reveal_with_fuel(Seq::fold_left, 1);
        }
    } else {
        let shorter = values.drop_last();
        lemma_integer_sum(shorter);
        assert(leaves.drop_last() == integer_leaves(shorter));
        assert(sum_of(values) == sum_of(shorter) + values.last()) by {
            reveal_with_fuel(Seq::fold_left, 1);
        }
        lemma_wrap_absorbs(sum_of(shorter), values.last());
    }
}

/// Addition over integers does not depend on their order: two addition
/// nodes whose integer leaves are rearrangements of each other evaluate to
/// the same atom.
pub proof fn lemma_integer_addition_commutes(a: Seq<int>, b: Seq<int>)
    requires
        a.to_multiset() == b.to_multiset(),
    ensures
        evaluated(Operator::Add, integer_leaves(a)) == evaluated(
            Operator::Add,
            integer_leaves(b),
        ),
{
    lemma_integer_sum(a);
    lemma_integer_sum(b);
    let f = |acc: int, v: int| acc + v;
    vstd::seq_lib::lemma_fold_left_permutation(a, b, f, 0int);
}

/// A subtraction node over integers alone collapses to the first integer
/// less the sum of the others, wrapped to 64 bits; to 0 where it has no
/// leaf.
pub proof fn lemma_integer_difference(values: Seq<int>)
    ensures
        folded(Operator::Subtract, integer_leaves(values)).retained.len() == 0,
        folded(Operator::Subtract, integer_leaves(values)).absorbed == values.len(),
        folded(Operator::Subtract, integer_leaves(values)).total == NumericView::Integer(
            if values.len() == 0 {
                0
            } else {
                wrap_i64(values[0] - sum_of(values.drop_first()))
            },
        ),
    decreases values.len(),
{
    let leaves = integer_leaves(values);
    if values.len() > 0 {
        let shorter = values.drop_last();
        lemma_integer_difference(shorter);
        assert(leaves.drop_last() == integer_leaves(shorter));
        assert(contribution(leaves.last()) == Contribution::Absorbed(
            NumericView::Integer(values.last()),
        ));
        if values.len() == 1 {
            assert(sum_of(values.drop_first()) == 0) by {
                reveal_with_fuel(Seq::fold_left, 1);
            }
        } else {
            assert(values.drop_first().drop_last() == shorter.drop_first());
            assert(sum_of(values.drop_first()) == sum_of(shorter.drop_first()) + values.last())
                by {
                reveal_with_fuel(Seq::fold_left, 1);
            }
            lemma_wrap_absorbs(shorter[0] - sum_of(shorter.drop_first()), values.last());
        }
    }
}

/// Folds an operator over leaves: the expressions kept, each a copy, and the
/// running total. Nothing of `leaves` is changed.
pub fn fold_leaves(op: Operator, leaves: &Vec<Expression>) -> (r: (Vec<Expression>, Numeric))
    ensures
        leaf_views(r.0@) == folded(op, leaf_views(leaves@)).retained,
        r.1@ == folded(op, leaf_views(leaves@)).total,
    decreases leaves,
{
    let ghost views = leaf_views(leaves@);
    let mut retained: Vec<Expression> = Vec::new();
    let mut n_accumulator = Numeric::LittleInteger(0);
    let mut seeded: bool = false;
    let mut i: usize = 0;
    while i < leaves.len()
        invariant
            0 <= i <= leaves.len(),
            views == leaf_views(leaves@),
            leaf_views(retained@) == folded(op, views.take(i as int)).retained,
            n_accumulator@ == folded(op, views.take(i as int)).total,
            seeded == (folded(op, views.take(i as int)).absorbed > 0),
        decreases leaves.len() - i,
    {
        let ghost next = views.take(i + 1);
        let ghost kept = retained@;
        proof {
            assert(next.drop_last() == views.take(i as int));
        }
        let value: Option<Numeric> = match &leaves[i] {
            Expression::Atomic(SimplexAtom::SimplexNumeric(n)) => Some(*n),
            Expression::Atomic(a) => {
                retained.push(Expression::Atomic(a.clone()));
                None
            },
            Expression::Add(a) => match a.eval() {
                Some(SimplexAtom::SimplexNumeric(n)) => Some(n),
                Some(evaluation) => {
                    retained.push(Expression::Atomic(evaluation));
                    None
                },
                None => {
                    retained.push(Expression::Add(a.clone()));
                    None
                },
            },
            Expression::Sub(a) => match a.eval() {
                Some(SimplexAtom::SimplexNumeric(n)) => Some(n),
                Some(evaluation) => {
                    retained.push(Expression::Atomic(evaluation));
                    None
                },
                None => {
                    retained.push(Expression::Sub(a.clone()));
                    None
                },
            },
            other => {
                retained.push(other.clone());
                None
            },
        };
        match value {
            Some(n) => {
                n_accumulator = match op {
                    Operator::Add => n_accumulator.add(n),
                    Operator::Subtract => if seeded {
                        n_accumulator.sub(n)
                    } else {
                        n_accumulator.add(n)
                    },
                };
                seeded = true;
            },
            None => {
                proof {
                    let e = contribution(next.last())->Retained_0;
                    assert(leaf_views(retained@) =~= leaf_views(kept).push(e));
                }
            },
        }
        i += 1;
    }
    proof {
        assert(views.take(leaves.len() as int) == views);
    }
    (retained, n_accumulator)
}

impl PartialEq for Plus {
    fn eq(&self, other: &Plus) -> (r: bool) {
        same_leaves(&self.leaves, &other.leaves)
    }
}

impl PartialEqSpecImpl for Plus {
    open spec fn obeys_eq_spec() -> bool {
        true
    }

    open spec fn eq_spec(&self, other: &Plus) -> bool {
        leaves_equal(self@, other@)
    }
}

impl Clone for Plus {
    fn clone(&self) -> (r: Plus)
        ensures
            r@ == self@,
    {
        Plus { leaves: clone_leaves(&self.leaves) }
    }
}

impl PartialEq for Subtract {
    fn eq(&self, other: &Subtract) -> (r: bool) {
        same_leaves(&self.leaves, &other.leaves)
    }
}

impl PartialEqSpecImpl for Subtract {
    open spec fn obeys_eq_spec() -> bool {
        true
    }

    open spec fn eq_spec(&self, other: &Subtract) -> bool {
        leaves_equal(self@, other@)
    }
}

impl Clone for Subtract {
    fn clone(&self) -> (r: Subtract)
        ensures
            r@ == self@,
    {
        Subtract { leaves: clone_leaves(&self.leaves) }
    }
}

impl Plus {
    /// An addition node without leaves.
    pub fn new() -> (r: Plus)
        ensures
            r@ == Seq::<ExpressionView>::empty(),
    {
        let r = Plus { leaves: Vec::new() };
        r
    }

    /// The qualified name of this kind of expression.
    pub fn get_expression_type(&self) -> (name: &'static str)
        ensures
            name@ == "Simplex`MExpression"@,
    {
        "Simplex`MExpression"
    }

    /// The name of the node's head.
    pub fn get_head_name(&self) -> (name: &'static str)
        ensures
            name@ == "Plus"@,
    {
        "Plus"
    }

    /// The node's head, the symbol `Plus`.
    pub fn get_head(&self) -> (head: SimplexAtom)
        ensures
            head@ == AtomView::Symbol("Plus"@),
    {
        SimplexAtom::SimplexSymbol(Symbol { name: String::from_str("Plus") })
    }

    /// The text the node is shown as.
    pub fn to_string(&self) -> (r: String)
        ensures
            r@ == bracketed("Plus"@, joined_text(self@)),
    {
        let inner = leaves_to_string(&self.leaves);
        bracket("Plus", inner.as_str())
    }

    /// The node's leaves, in order.
    pub fn get_leaves(&self) -> (leaves: &Vec<Expression>)
        ensures
            *leaves == self.leaves,
    {
        &self.leaves
    }

    /// Appends a leaf.
    pub fn push_leave(&mut self, leave: Expression)
        ensures
            final(self)@ == old(self)@.push(leave@),
    {
        self.leaves.push(leave);
    }

    /// The node that the fold leaves behind: the leaves it had to keep,
    /// then the total as a last leaf.
    pub fn fold(&self) -> (r: Plus)
        ensures
            r@ == folded_leaves(Operator::Add, self@),
        decreases self, 0nat,
    {
        let (retained, total) = fold_leaves(Operator::Add, &self.leaves);
        let mut r = Plus { leaves: retained };
        r.push_leave(Expression::Atomic(SimplexAtom::SimplexNumeric(total)));
        r
    }

    /// Evaluates the node: the sum of its leaves as a numeric atom, where
    /// every leaf is a number or collapses to one; no value otherwise.
    pub fn eval(&self) -> (r: Option<SimplexAtom>)
        ensures
            match r {
                Some(atom) => evaluated(Operator::Add, self@) == Some(atom@),
                None => evaluated(Operator::Add, self@) is None,
            },
        decreases self, 1nat,
    {
        let mut r = self.fold();
        assert(r@.len() == r.leaves@.len());
        if r.leaves.len() == 1 {
            assert(r.leaves@[0]@ == r@[0]);
            match r.leaves.pop() {
                Some(Expression::Atomic(atom)) => Some(atom),
                _ => None,
            }
        } else {
            None
        }
    }
}

impl Subtract {
    /// A subtraction node without leaves.
    pub fn new() -> (r: Subtract)
        ensures
            r@ == Seq::<ExpressionView>::empty(),
    {
        let r = Subtract { leaves: Vec::new() };
        r
    }

    /// The qualified name of this kind of expression.
    pub fn get_expression_type(&self) -> (name: &'static str)
        ensures
            name@ == "Simplex`MExpression"@,
    {
        "Simplex`MExpression"
    }

    /// The name of the node's head.
    pub fn get_head_name(&self) -> (name: &'static str)
        ensures
            name@ == "Subtract"@,
    {
        "Subtract"
    }

    /// The node's head, the symbol `Subtract`.
    pub fn get_head(&self) -> (head: SimplexAtom)
        ensures
            head@ == AtomView::Symbol("Subtract"@),
    {
        SimplexAtom::SimplexSymbol(Symbol { name: String::from_str("Subtract") })
    }

    /// The text the node is shown as.
    pub fn to_string(&self) -> (r: String)
        ensures
            r@ == bracketed("Subtract"@, joined_text(self@)),
    {
        let inner = leaves_to_string(&self.leaves);
        bracket("Subtract", inner.as_str())
    }

    /// The node's leaves, in order.
    pub fn get_leaves(&self) -> (leaves: &Vec<Expression>)
        ensures
            *leaves == self.leaves,
    {
        &self.leaves
    }

    /// Appends a leaf.
    pub fn push_leave(&mut self, leave: Expression)
        ensures
            final(self)@ == old(self)@.push(leave@),
    {
        self.leaves.push(leave);
    }

    /// The node that the fold leaves behind: the leaves it had to keep,
    /// then the total as a last leaf.
    pub fn fold(&self) -> (r: Subtract)
        ensures
            r@ == folded_leaves(Operator::Subtract, self@),
        decreases self, 0nat,
    {
        let (retained, total) = fold_leaves(Operator::Subtract, &self.leaves);
        let mut r = Subtract { leaves: retained };
        r.push_leave(Expression::Atomic(SimplexAtom::SimplexNumeric(total)));
        r
    }

    /// Evaluates the node: its first leaf less the others as a numeric atom,
    /// where every leaf is a number or collapses to one; no value otherwise.
    pub fn eval(&self) -> (r: Option<SimplexAtom>)
        ensures
            match r {
                Some(atom) => evaluated(Operator::Subtract, self@) == Some(atom@),
                None => evaluated(Operator::Subtract, self@) is None,
            },
        decreases self, 1nat,
    {
        let mut r = self.fold();
        assert(r@.len() == r.leaves@.len());
        if r.leaves.len() == 1 {
            assert(r.leaves@[0]@ == r@[0]);
            match r.leaves.pop() {
                Some(Expression::Atomic(atom)) => Some(atom),
                _ => None,
            }
        } else {
            None
        }
    }
}

} // verus!
