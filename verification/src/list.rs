//! List nodes: a head and an ordered run of expressions.

use crate::atom::{atom_from_text, SimplexAtom};
use crate::expression::{
    bracket, clone_leaves, leaf_views, leaves_to_string, list_equal, list_text, replace_atom,
    replace_in_leaves, same_leaves, substituted_list, Expression, ListView,
};
use vstd::prelude::*;
use vstd::std_specs::cmp::PartialEqSpecImpl;

verus! {

/// An ordered run of expressions under a head.
#[derive(Debug)]
pub struct SimplexList {
    pub head: SimplexAtom,
    pub expressions: Vec<Expression>,
}

impl View for SimplexList {
    type V = ListView;

    open spec fn view(&self) -> ListView {
        ListView { head: self.head@, leaves: leaf_views(self.expressions@) }
    }
}

/// What is left of a list once its first leaf is taken away; nothing where
/// the list has no leaf.
pub open spec fn list_rest(l: ListView) -> Option<ListView> {
    if l.leaves.len() == 0 {
        None
    } else {
        Some(ListView { head: l.head, leaves: l.leaves.drop_first() })
    }
}

/// Taking the rest strips exactly one leaf, the first, and keeps the others
/// in order; so a list of `n` leaves has a rest `n` times over, and then
/// none.
pub proof fn lemma_rest_shrinks_by_one(l: ListView)
    ensures
        list_rest(l) is Some <==> l.leaves.len() > 0,
        list_rest(l) matches Some(rest) ==> rest.head == l.head && rest.leaves.len()
            == l.leaves.len() - 1 && forall|i: int|
            0 <= i < rest.leaves.len() ==> rest.leaves[i] == l.leaves[i + 1],
{
}

impl PartialEq for SimplexList {
    fn eq(&self, other: &SimplexList) -> (r: bool) {
        self.head == other.head && same_leaves(&self.expressions, &other.expressions)
    }
}

impl PartialEqSpecImpl for SimplexList {
    open spec fn obeys_eq_spec() -> bool {
        true
    }

    open spec fn eq_spec(&self, other: &SimplexList) -> bool {
        list_equal(self@, other@)
    }
}

impl Clone for SimplexList {
    fn clone(&self) -> (r: SimplexList)
        ensures
            r@ == self@,
    {
        SimplexList { head: self.head.clone(), expressions: clone_leaves(&self.expressions) }
    }
}

impl SimplexList {
    /// An empty list under the head that `head_name` reads as.
    pub fn new(head_name: &str) -> (r: SimplexList)
        ensures
            r@ == (ListView { head: atom_from_text(head_name@), leaves: Seq::empty() }),
    {
        let r = SimplexList { head: SimplexAtom::from(head_name), expressions: Vec::new() };
        assert(leaf_views(r.expressions@) =~= Seq::empty());
        r
    }

    /// The list with `e` as one more leaf at its end.
    pub fn push_expression(self, e: Expression) -> (r: SimplexList)
        ensures
            r@ == (ListView { head: self@.head, leaves: self@.leaves.push(e@) }),
    {
        let mut list = self;
        list.expressions.push(e);
        assert(leaf_views(list.expressions@) =~= leaf_views(self.expressions@).push(e@));
        list
    }

    /// The head of the list.
    pub fn get_head(&self) -> (r: Option<SimplexAtom>)
        ensures
            r matches Some(head) && head@ == self@.head,
    {
        Some(self.head.clone())
    }

    /// The list without its first leaf; nothing where the list has no leaf.
    pub fn get_rest(&self) -> (r: Option<SimplexList>)
        ensures
            match r {
                Some(rest) => list_rest(self@) == Some(rest@),
                None => list_rest(self@) is None,
            },
    {
        let n: usize = self.expressions.len();
        if n == 0 {
            return None;
        }
        let mut rest: Vec<Expression> = Vec::new();
        let mut i: usize = 1;
        while i < n
            invariant
                1 <= i <= n,
                n == self.expressions.len(),
                rest@.len() == i - 1,
                forall|k: int| 0 <= k < i - 1 ==> rest@[k]@ == self.expressions@[k + 1]@,
            decreases n - i,
        {
            rest.push(self.expressions[i].clone());
            i += 1;
        }
        assert(leaf_views(rest@) =~= leaf_views(self.expressions@).drop_first());
        Some(SimplexList { head: self.head.clone(), expressions: rest })
    }

    /// The text the list is shown as: its head, then its leaves between
    /// square brackets.
    pub fn to_string(&self) -> (r: String)
        ensures
            r@ == list_text(self@),
    {
        let head = self.head.to_string();
        let inner = leaves_to_string(&self.expressions);
        bracket(head.as_str(), inner.as_str())
    }

    /// A copy of the list in which `new` has taken the place of `symbol`
    /// throughout, in the head and in the leaves. The list itself is left as
    /// it is.
    pub fn replace_symbol(&self, symbol: &SimplexAtom, new: &SimplexAtom) -> (r: SimplexList)
        ensures
            r@ == substituted_list(self@, symbol@, new@),
    {
        SimplexList {
            head: replace_atom(&self.head, symbol, new),
            expressions: replace_in_leaves(&self.expressions, symbol, new),
        }
    }
}

} // verus!
