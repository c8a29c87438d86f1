//! User-defined functions: a head, pattern parameters and a body in which
//! arguments take the parameters' places.

use crate::atom::{atom_from_text, AtomView, SimplexAtom, Symbol};
use crate::expression::{
    atom_views, clone_atoms, function_equal, function_text, meta_variables_text, same_atoms,
    substituted_list, Expression, FunctionView, ListView,
};
use crate::list::SimplexList;
use crate::parsing::{digits_end, is_symbol_literal};
use crate::text::{nat_text, natural_to_string};
use vstd::prelude::*;
use vstd::std_specs::cmp::PartialEqSpecImpl;
use vstd::string::StringExecFns;

verus! {

/// A function definition.
#[derive(Debug)]
pub struct SimplexFunction {
    pub head: SimplexAtom,
    pub uniq_id: u64,
    pub reflexive: bool,
    pub meta_variables: Vec<SimplexAtom>,
    pub s_expression: SimplexList,
}

impl View for SimplexFunction {
    type V = FunctionView;

    open spec fn view(&self) -> FunctionView {
        FunctionView {
            head: self.head@,
            uniq_id: self.uniq_id,
            reflexive: self.reflexive,
            meta_variables: atom_views(self.meta_variables@),
            body: self.s_expression@,
        }
    }
}

/// The head that a list has where nothing else was asked for: the symbol
/// `List`.
pub open spec fn generic_list_head() -> AtomView {
    AtomView::Symbol("List"@)
}

/// The texts of a run of string slices, in order.
pub open spec fn argument_texts(arguments: Seq<&str>) -> Seq<Seq<char>> {
    Seq::new(arguments.len(), |i: int| arguments[i]@)
}

/// The body once arguments have taken the places of parameters. The last
/// parameter takes the last argument, the one before it the one before, and
/// so on towards the front, one substitution after the other, until either
/// run is out. A parameter that is left without an argument stays in the
/// body.
pub open spec fn applied(body: ListView, variables: Seq<AtomView>, arguments: Seq<Seq<char>>)
    -> ListView
    decreases variables.len(),
{
    if variables.len() == 0 || arguments.len() == 0 {
        body
    } else {
        applied(
            substituted_list(body, variables.last(), atom_from_text(arguments.last())),
            variables.drop_last(),
            arguments.drop_last(),
        )
    }
}

/// The body from which evaluation starts: the stored body, and for a
/// reflexive definition the stored body with the definition's own head in
/// place of the generic list head.
pub open spec fn template(f: FunctionView) -> ListView {
    if f.reflexive {
        substituted_list(f.body, generic_list_head(), f.head)
    } else {
        f.body
    }
}

/// What a definition evaluates to on a run of arguments.
pub open spec fn evaluated_body(f: FunctionView, arguments: Seq<Seq<char>>) -> ListView {
    applied(template(f), f.meta_variables, arguments)
}

/// The text `List` reads as the generic list head.
pub proof fn lemma_list_reads_as_symbol()
    ensures
        atom_from_text("List"@) == generic_list_head(),
{
    reveal_strlit("List");
    assert(digits_end("List"@, 0) == 0);
    assert(is_symbol_literal("List"@));
}

/// A reflexive definition whose body stands under the generic list head
/// evaluates from a body under the definition's own head; a definition that
/// is not reflexive evaluates from its body as it is stored.
pub proof fn lemma_reflexive_template_head(f: FunctionView)
    ensures
        f.reflexive && f.body.head == generic_list_head() ==> template(f).head == f.head,
        !f.reflexive ==> template(f) == f.body,
{
}

/// Where arguments run out before parameters do, the leading parameters
/// are left in the body: only as many of the trailing parameters as there
/// are arguments are ever replaced.
pub proof fn lemma_leading_parameters_unread(
    body: ListView,
    variables: Seq<AtomView>,
    arguments: Seq<Seq<char>>,
    extra: Seq<AtomView>,
)
    requires
        arguments.len() <= variables.len(),
    ensures
        applied(body, extra + variables, arguments) == applied(body, variables, arguments),
    decreases arguments.len(),
{
    if arguments.len() > 0 {
        let longer = extra + variables;
        assert(longer.drop_last() == extra + variables.drop_last());
        lemma_leading_parameters_unread(
            substituted_list(body, variables.last(), atom_from_text(arguments.last())),
            variables.drop_last(),
            arguments.drop_last(),
            extra,
        );
    }
}

/// Evaluation takes arguments from the end: only as many of the trailing
/// arguments as there are parameters are ever read.
pub proof fn lemma_leading_arguments_unread(
    body: ListView,
    variables: Seq<AtomView>,
    arguments: Seq<Seq<char>>,
    extra: Seq<Seq<char>>,
)
    requires
        variables.len() <= arguments.len(),
    ensures
        applied(body, variables, extra + arguments) == applied(body, variables, arguments),
    decreases variables.len(),
{
    if variables.len() > 0 {
        let longer = extra + arguments;
        assert(longer.drop_last() == extra + arguments.drop_last());
        lemma_leading_arguments_unread(
            substituted_list(body, variables.last(), atom_from_text(arguments.last())),
            variables.drop_last(),
            arguments.drop_last(),
            extra,
        );
    }
}

impl PartialEq for SimplexFunction {
    fn eq(&self, other: &SimplexFunction) -> (r: bool) {
        self.head == other.head && self.uniq_id == other.uniq_id && self.reflexive == other.reflexive
            && same_atoms(&self.meta_variables, &other.meta_variables) && self.s_expression
            == other.s_expression
    }
}

impl PartialEqSpecImpl for SimplexFunction {
    open spec fn obeys_eq_spec() -> bool {
        true
    }

    open spec fn eq_spec(&self, other: &SimplexFunction) -> bool {
        function_equal(self@, other@)
    }
}

impl Clone for SimplexFunction {
    fn clone(&self) -> (r: SimplexFunction)
        ensures
            r@ == self@,
    {
        SimplexFunction {
            head: self.head.clone(),
            uniq_id: self.uniq_id,
            reflexive: self.reflexive,
            meta_variables: clone_atoms(&self.meta_variables),
            s_expression: self.s_expression.clone(),
        }
    }
}

impl SimplexFunction {
    /// A definition under the head that `head_name` reads as: no parameter,
    /// an empty body under the generic list head, not reflexive.
    pub fn new(head_name: &str) -> (r: SimplexFunction)
        ensures
            r@ == (FunctionView {
                head: atom_from_text(head_name@),
                uniq_id: 0,
                reflexive: false,
                meta_variables: Seq::empty(),
                body: ListView { head: generic_list_head(), leaves: Seq::empty() },
            }),
    {
        proof {
            lemma_list_reads_as_symbol();
        }
        let r = SimplexFunction {
            head: SimplexAtom::from(head_name),
            uniq_id: 0,
            reflexive: false,
            meta_variables: Vec::new(),
            s_expression: SimplexList::new("List"),
        };
        assert(atom_views(r.meta_variables@) =~= Seq::empty());
        r
    }

    /// The definition with `e` as one more leaf at the end of its body.
    pub fn push_expression(self, e: Expression) -> (r: SimplexFunction)
        ensures
            r@ == (FunctionView {
                body: ListView { head: self@.body.head, leaves: self@.body.leaves.push(e@) },
                ..self@
            }),
    {
        let SimplexFunction { head, uniq_id, reflexive, meta_variables, s_expression } = self;
        SimplexFunction {
            head,
            uniq_id,
            reflexive,
            meta_variables,
            s_expression: s_expression.push_expression(e),
        }
    }

    /// The definition with the atom `e` as one more parameter. Only an
    /// atomic leaf can be a parameter.
    pub fn push_meta_variable(self, e: Expression) -> (r: SimplexFunction)
        requires
            e is Atomic,
        ensures
            r@ == (FunctionView {
                meta_variables: self@.meta_variables.push(e->Atomic_0@),
                ..self@
            }),
    {
        let mut function = self;
        match e {
            Expression::Atomic(atom) => {
                function.meta_variables.push(atom);
                assert(atom_views(function.meta_variables@) =~= atom_views(
                    self.meta_variables@,
                ).push(atom@));
            },
            _ => {},
        }
        function
    }

    /// The definition with its reflexive flag turned over.
    pub fn toggle_reflexive(self) -> (r: SimplexFunction)
        ensures
            r@ == (FunctionView { reflexive: !self@.reflexive, ..self@ }),
    {
        let mut function = self;
        function.reflexive = !function.reflexive;
        function
    }

    /// Evaluates the definition on arguments: a new list, the body with the
    /// arguments in the parameters' places. The definition is left as it is.
    pub fn evaluate(&self, params: &Vec<&str>) -> (r: SimplexList)
        ensures
            r@ == evaluated_body(self@, argument_texts(params@)),
    {
        let ghost variables = atom_views(self.meta_variables@);
        let ghost arguments = argument_texts(params@);
        let mut new_s_expression = self.s_expression.clone();
        if self.reflexive {
            let list_head = SimplexAtom::SimplexSymbol(Symbol { name: String::from_str("List") });
            new_s_expression = new_s_expression.replace_symbol(&list_head, &self.head);
        }
        let mut item_number: usize = self.meta_variables.len();
        let mut remaining: usize = params.len();
        assert(variables.take(item_number as int) == variables);
        assert(arguments.take(remaining as int) == arguments);
        while item_number > 0 && remaining > 0
            invariant
                0 <= item_number <= self.meta_variables.len(),
                0 <= remaining <= params.len(),
                variables == atom_views(self.meta_variables@),
                arguments == argument_texts(params@),
                applied(
                    new_s_expression@,
                    variables.take(item_number as int),
                    arguments.take(remaining as int),
                ) == evaluated_body(self@, arguments),
            decreases item_number,
        {
            let ghost these = variables.take(item_number as int);
            let ghost those = arguments.take(remaining as int);
            item_number -= 1;
            remaining -= 1;
            proof {
                assert(these.drop_last() == variables.take(item_number as int));
                assert(those.drop_last() == arguments.take(remaining as int));
            }
            let thing = SimplexAtom::from(params[remaining]);
            new_s_expression = new_s_expression.replace_symbol(
                &self.meta_variables[item_number],
                &thing,
            );
        }
        new_s_expression
    }

    /// The parameters as they are shown: each with the pattern mark `_`
    /// behind it, and a comma and a space between each two.
    pub fn m_vars_to_string(&self) -> (body: String)
        ensures
            body@ == meta_variables_text(self@.meta_variables),
    {
        let ghost views = atom_views(self.meta_variables@);
        let mut body = String::new();
        let mut entry_number: usize = 0;
        while entry_number < self.meta_variables.len()
            invariant
                0 <= entry_number <= self.meta_variables.len(),
                views == atom_views(self.meta_variables@),
                body@ == meta_variables_text(views.take(entry_number as int)),
            decreases self.meta_variables.len() - entry_number,
        {
            proof {
                assert(views.take(entry_number + 1).drop_last() == views.take(
                    entry_number as int,
                ));
            }
            if entry_number > 0 {
                body.append(", ");
            }
            let entry = self.meta_variables[entry_number].to_string();
            body.append(entry.as_str());
            body.append("_");
            entry_number += 1;
        }
        proof {
            assert(views.take(self.meta_variables.len() as int) == views);
        }
        body
    }

    /// The head of the definition.
    pub fn get_head(&self) -> (r: Option<SimplexAtom>)
        ensures
            r matches Some(head) && head@ == self@.head,
    {
        Some(self.head.clone())
    }

    /// The body of the definition as a list of its own, from which the
    /// leaves can be taken one by one.
    pub fn get_rest(&self) -> (r: Option<SimplexList>)
        ensures
            r matches Some(rest) && rest@ == self@.body,
    {
        Some(self.s_expression.clone())
    }

    /// The text the definition is shown as: head and parameters, then the
    /// body behind `:=`.
    pub fn to_string(&self) -> (r: String)
        ensures
            r@ == function_text(self@),
    {
        let mut r = self.head.to_string();
        r.append("[");
        r.append(self.m_vars_to_string().as_str());
        r.append("] := ");
        r.append(self.s_expression.to_string().as_str());
        r
    }

    /// A copy of the definition. Nothing takes a symbol's place inside a
    /// definition: its parameters are bound to it.
    pub fn replace_symbol(&self, symbol: &SimplexAtom, new: &SimplexAtom) -> (r: SimplexFunction)
        ensures
            r@ == self@,
    {
        self.clone()
    }

    /// The definition's identifier, as text.
    pub fn uniq_id(&self) -> (r: String)
        ensures
            r@ == nat_text(self@.uniq_id as nat),
    {
        natural_to_string(self.uniq_id)
    }

    /// Gives the definition the identifier `id`.
    pub fn set_uniq_id(&mut self, id: u64)
        ensures
            final(self)@ == (FunctionView { uniq_id: id, ..old(self)@ }),
    {
        self.uniq_id = id;
    }
}

} // verus!
