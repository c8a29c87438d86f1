use simplex::expression::Expression;
use simplex::function::SimplexFunction;
use simplex::list::SimplexList;

fn plus_like() -> SimplexFunction {
    SimplexFunction::new("Plus")
        .push_meta_variable(Expression::from("a"))
        .push_meta_variable(Expression::from("b"))
        .push_meta_variable(Expression::from("c"))
        .push_expression(Expression::from("a"))
        .push_expression(Expression::from("x"))
        .push_expression(Expression::from("y"))
        .push_expression(Expression::from("z"))
}

fn reflexive(head: &str) -> SimplexFunction {
    SimplexFunction::new(head)
        .push_meta_variable(Expression::from("a"))
        .push_meta_variable(Expression::from("b"))
        .push_expression(Expression::from("a"))
        .push_expression(Expression::from("b"))
        .toggle_reflexive()
}

#[test]
fn it_gets_rest() {
    let m_exp = SimplexFunction::new("Plus")
        .push_meta_variable(Expression::from("a"))
        .push_meta_variable(Expression::from("b"))
        .push_meta_variable(Expression::from("c"))
        .push_expression(Expression::from("a"))
        .push_expression(Expression::from("x"))
        .push_expression(Expression::from("y"))
        .push_expression(Expression::from("z"));

    assert_eq!(m_exp.get_rest().unwrap().to_string(), "List[a, x, y, z]");
}

#[test]
fn it_gets_rest_recursively_once() {
    let m_exp = SimplexFunction::new("Plus")
        .push_meta_variable(Expression::from("a"))
        .push_meta_variable(Expression::from("b"))
        .push_meta_variable(Expression::from("c"))
        .push_expression(Expression::from("a"))
        .push_expression(Expression::from("x"))
        .push_expression(Expression::from("y"))
        .push_expression(Expression::from("z"));

    let x = m_exp.get_rest().unwrap();
    assert_eq!(x.to_string(), "List[a, x, y, z]");

    let y = x.get_rest().unwrap();
    assert_eq!(y.to_string(), "List[x, y, z]");

    let z = y.get_rest().unwrap();
    assert_eq!(z.to_string(), "List[y, z]");

    let a = z.get_rest().unwrap();
    assert_eq!(a.to_string(), "List[z]");
}

#[test]
fn it_instantiates() {
    let m_exp = SimplexFunction::new("Plus")
        .push_meta_variable(Expression::from("a"))
        .push_meta_variable(Expression::from("b"))
        .push_meta_variable(Expression::from("c"))
        .push_expression(Expression::from("a"))
        .push_expression(Expression::from("x"))
        .push_expression(Expression::from("y"))
        .push_expression(Expression::from("z"));

    assert_eq!(m_exp.to_string(), "Plus[a_, b_, c_] := List[a, x, y, z]");
}

#[test]
fn it_evaluates_a() {
    let m_exp = SimplexFunction::new("Plus")
        .push_meta_variable(Expression::from("a"))
        .push_meta_variable(Expression::from("b"))
        .push_meta_variable(Expression::from("c"))
        .push_expression(Expression::from("a"))
        .push_expression(Expression::from("x"))
        .push_expression(Expression::from("y"))
        .push_expression(Expression::from("z"));

    let new_list = m_exp.evaluate(&vec!["1", "2", "3"]);
    assert_eq!(new_list.to_string(), "List[1, x, y, z]");
}

#[test]
fn it_evaluates_b() {
    let m_exp = SimplexFunction::new("Plus")
        .push_meta_variable(Expression::from("a"))
        .push_meta_variable(Expression::from("b"))
        .push_meta_variable(Expression::from("c"))
        .push_expression(Expression::from("a"))
        .push_expression(Expression::from("b"))
        .push_expression(Expression::from("c"));

    let new_list = m_exp.evaluate(&vec!["1", "2", "3"]);
    assert_eq!(new_list.to_string(), "List[1, 2, 3]");
}

#[test]
fn it_allows_nesting() {
    let _plus = SimplexFunction::new("Plus")
        .push_meta_variable(Expression::from("a"))
        .push_meta_variable(Expression::from("b"))
        .push_expression(Expression::from("a"))
        .push_expression(Expression::from("b"))
        .toggle_reflexive();

    let pow = SimplexFunction::new("Pow")
        .push_meta_variable(Expression::from("a"))
        .push_meta_variable(Expression::from("b"))
        .push_expression(Expression::from("a"))
        .push_expression(Expression::from("b"))
        .toggle_reflexive();

    let _eq = SimplexFunction::new("Equal")
        .push_meta_variable(Expression::from("a"))
        .push_meta_variable(Expression::from("b"))
        .push_expression(Expression::from("a"))
        .push_expression(Expression::from("b"))
        .toggle_reflexive();

    let pythag = SimplexFunction::new("Pythag")
        .push_meta_variable(Expression::from("a"))
        .push_meta_variable(Expression::from("b"))
        .push_expression(Expression::from(
            SimplexFunction::new("Plus")
                .toggle_reflexive()
                .push_meta_variable(Expression::from("a"))
                .push_meta_variable(Expression::from("b"))
                .push_expression(Expression::from(pow.clone().evaluate(&vec!["a", "2"])))
                .push_expression(Expression::from(pow.clone().evaluate(&vec!["b", "2"])))
                .evaluate(&vec!["a", "b"]),
        ))
        .toggle_reflexive();

    assert_eq!(
        pythag.to_string(),
        "Pythag[a_, b_] := List[Plus[Pow[a, 2], Pow[b, 2]]]"
    );
}

#[test]
fn it_evals_nesting() {
    let _plus = SimplexFunction::new("Plus")
        .push_meta_variable(Expression::from("a"))
        .push_meta_variable(Expression::from("b"))
        .push_expression(Expression::from("a"))
        .push_expression(Expression::from("b"))
        .toggle_reflexive();

    let pow = SimplexFunction::new("Pow")
        .push_meta_variable(Expression::from("a"))
        .push_meta_variable(Expression::from("b"))
        .push_expression(Expression::from("a"))
        .push_expression(Expression::from("b"))
        .toggle_reflexive();

    let _eq = SimplexFunction::new("Equal")
        .push_meta_variable(Expression::from("a"))
        .push_meta_variable(Expression::from("b"))
        .push_expression(Expression::from("a"))
        .push_expression(Expression::from("b"))
        .toggle_reflexive();

    let pythag = SimplexFunction::new("Pythag")
        .push_meta_variable(Expression::from("a"))
        .push_meta_variable(Expression::from("b"))
        .push_expression(Expression::from(
            SimplexFunction::new("Plus")
                .toggle_reflexive()
                .push_meta_variable(Expression::from("a"))
                .push_meta_variable(Expression::from("b"))
                .push_expression(Expression::from(pow.clone().evaluate(&vec!["a", "2"])))
                .push_expression(Expression::from(pow.clone().evaluate(&vec!["b", "2"])))
                .evaluate(&vec!["a", "b"]),
        ));

    assert_eq!(
        pythag.evaluate(&vec!["2", "2"]).to_string(),
        "List[Plus[Pow[2, 2], Pow[2, 2]]]"
    );
}

#[test]
fn rest_shrinks_by_one_until_nothing_is_left() {
    let mut list = plus_like().get_rest();
    let mut expected = 4;
    while let Some(current) = list {
        assert_eq!(current.expressions.len(), expected);
        list = current.get_rest();
        if expected == 0 {
            assert!(list.is_none());
            break;
        }
        expected -= 1;
    }
    assert_eq!(expected, 0);
}

#[test]
fn rest_of_an_empty_list_is_nothing() {
    assert!(SimplexList::new("List").get_rest().is_none());
    let one = SimplexList::new("List").push_expression(Expression::from("z"));
    let rest = one.get_rest().unwrap();
    assert_eq!(rest.to_string(), "List[]");
    assert!(rest.get_rest().is_none());
}

#[test]
fn reflexive_definition_shows_its_own_head_when_evaluated() {
    let pow = reflexive("Pow");
    assert_eq!(pow.to_string(), "Pow[a_, b_] := List[a, b]");
    assert_eq!(pow.evaluate(&vec!["x", "3"]).to_string(), "Pow[x, 3]");
    let plain = pow.clone().toggle_reflexive();
    assert_eq!(plain.evaluate(&vec!["x", "3"]).to_string(), "List[x, 3]");
}

#[test]
fn reflexive_rewrite_reaches_nested_generic_lists() {
    let inner = SimplexList::new("List").push_expression(Expression::from("a"));
    let f = SimplexFunction::new("F")
        .push_meta_variable(Expression::from("a"))
        .push_expression(Expression::from(inner))
        .push_expression(Expression::from("List"))
        .toggle_reflexive();
    assert_eq!(f.to_string(), "F[a_] := List[List[a], List]");
    assert_eq!(f.evaluate(&vec!["1"]).to_string(), "F[F[1], F]");
}

#[test]
fn missing_arguments_leave_leading_parameters_in_place() {
    let f = SimplexFunction::new("F")
        .push_meta_variable(Expression::from("a"))
        .push_meta_variable(Expression::from("b"))
        .push_meta_variable(Expression::from("c"))
        .push_expression(Expression::from("a"))
        .push_expression(Expression::from("b"))
        .push_expression(Expression::from("c"));
    assert_eq!(f.evaluate(&vec!["9"]).to_string(), "List[a, b, 9]");
    assert_eq!(f.evaluate(&vec!["8", "9"]).to_string(), "List[a, 8, 9]");
    assert_eq!(f.evaluate(&vec![]).to_string(), "List[a, b, c]");
}

#[test]
fn surplus_arguments_at_the_front_are_not_read() {
    let f = SimplexFunction::new("F")
        .push_meta_variable(Expression::from("a"))
        .push_meta_variable(Expression::from("b"))
        .push_expression(Expression::from("a"))
        .push_expression(Expression::from("b"));
    assert_eq!(f.evaluate(&vec!["7", "8", "9"]).to_string(), "List[8, 9]");
}

#[test]
fn substitutions_follow_one_another() {
    // `b` takes the argument `a` first; then `a` takes `x`, in both places.
    let f = SimplexFunction::new("F")
        .push_meta_variable(Expression::from("a"))
        .push_meta_variable(Expression::from("b"))
        .push_expression(Expression::from("a"))
        .push_expression(Expression::from("b"));
    assert_eq!(f.evaluate(&vec!["x", "a"]).to_string(), "List[x, x]");
}

#[test]
fn argument_of_no_kind_becomes_not_a_number() {
    let f = SimplexFunction::new("F")
        .push_meta_variable(Expression::from("a"))
        .push_expression(Expression::from("a"));
    assert_eq!(f.evaluate(&vec!["two words"]).to_string(), "List[NaN]");
}

#[test]
fn evaluation_leaves_the_definition_as_it_was() {
    let f = plus_like();
    let before = f.to_string();
    let _ = f.evaluate(&vec!["1", "2", "3"]);
    assert_eq!(f.to_string(), before);
}

#[test]
fn text_and_numbers_as_arguments() {
    let f = SimplexFunction::new("F")
        .push_meta_variable(Expression::from("a"))
        .push_meta_variable(Expression::from("b"))
        .push_expression(Expression::from("a"))
        .push_expression(Expression::from("b"));
    assert_eq!(
        f.evaluate(&vec!["\"hi\"", "1.50"]).to_string(),
        "List[\"hi\", 1.50]"
    );
}

#[test]
fn head_and_identifier() {
    let mut f = SimplexFunction::new("Plus");
    assert_eq!(f.get_head().unwrap().to_string(), "Plus");
    assert_eq!(f.uniq_id(), "0");
    f.set_uniq_id(18446744073709551615);
    assert_eq!(f.uniq_id(), "18446744073709551615");
    f.set_uniq_id(407);
    assert_eq!(f.uniq_id(), "407");
    assert_eq!(f.to_string(), "Plus[] := List[]");
    assert_eq!(f.m_vars_to_string(), "");
}

#[test]
fn parameters_are_shown_with_the_pattern_mark() {
    let f = SimplexFunction::new("F").push_meta_variable(Expression::from("a"));
    assert_eq!(f.m_vars_to_string(), "a_");
    let g = f.push_meta_variable(Expression::from("b"));
    assert_eq!(g.m_vars_to_string(), "a_, b_");
}

#[test]
fn toggling_twice_changes_nothing() {
    let f = plus_like();
    assert!(!f.reflexive);
    let g = f.toggle_reflexive();
    assert!(g.reflexive);
    let h = g.toggle_reflexive();
    assert!(!h.reflexive);
}

#[test]
fn nothing_is_replaced_inside_a_definition() {
    let f = plus_like();
    let a = simplex::atom::SimplexAtom::from("a");
    let q = simplex::atom::SimplexAtom::from("q");
    assert_eq!(f.replace_symbol(&a, &q).to_string(), f.to_string());
    let holder = SimplexList::new("List")
        .push_expression(Expression::from("a"))
        .push_expression(Expression::from(f.clone()));
    assert_eq!(
        holder.replace_symbol(&a, &q).to_string(),
        "List[q, Plus[a_, b_, c_] := List[a, x, y, z]]"
    );
}

#[test]
fn only_symbols_are_replaced() {
    let list = SimplexList::new("a")
        .push_expression(Expression::from("a"))
        .push_expression(Expression::from("\"a\""))
        .push_expression(Expression::from("1"));
    let a = simplex::atom::SimplexAtom::from("a");
    let one = simplex::atom::SimplexAtom::from("1");
    let q = simplex::atom::SimplexAtom::from("q");
    assert_eq!(list.replace_symbol(&a, &q).to_string(), "q[q, \"a\", 1]");
    assert_eq!(list.replace_symbol(&one, &q).to_string(), "a[a, \"a\", 1]");
    assert_eq!(list.to_string(), "a[a, \"a\", 1]");
}
