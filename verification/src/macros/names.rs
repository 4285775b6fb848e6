//! The names that a specification uses: every state that an equation or a
//! rule refers to must be declared, as a parameter or as a state variable.

use vstd::prelude::*;
use crate::macros::generate::{list_fields, typed_fields, word};
use crate::macros::model::{
    is_mark, lemma_token_view, Equation, EquationView, Expr, IdentAndType, IdentAndTypeView,
    IdentOrDerivative, Keyword, NeuronDef, NeuronDefView, SynapseDef, SynapseDefView,
};
use crate::macros::tokens::{lemma_group_view, Delimiter, Token, TokenView};

verus! {

/// Whether `name` is the name of one of the fields.
pub open spec fn is_bound(name: Seq<char>, fields: Seq<IdentAndTypeView>) -> bool {
    exists|i: int| 0 <= i < fields.len() && fields[i].name == name
}

/// The state that the tokens refer to at index `at`, if they do: the name
/// in `self . name`, unless a parenthesis follows, which makes it the call
/// of a method.
pub open spec fn reference_at(tokens: Seq<TokenView>, at: int) -> Option<Seq<char>> {
    if 0 <= at && at + 2 < tokens.len() && tokens[at] == word("self"@) && is_mark(
        tokens[at + 1],
        '.',
    ) && tokens[at + 2] is Ident && !(at + 3 < tokens.len() && (tokens[at + 3] matches TokenView::Group(
        delimiter,
        _,
    ) && delimiter == Delimiter::Parenthesis)) {
        Some(tokens[at + 2]->Ident_0)
    } else {
        None
    }
}

/// The first state that the tokens from index `at` on refer to, at any depth
/// of brackets, without its being one of the fields.
pub open spec fn first_unbound(tokens: Seq<TokenView>, at: int, fields: Seq<IdentAndTypeView>) -> Option<
    Seq<char>,
>
    decreases tokens, tokens.len() - at,
{
    if 0 <= at < tokens.len() {
        let inside = match tokens[at] {
            TokenView::Group(_, inner) => first_unbound(inner, 0, fields),
            _ => match reference_at(tokens, at) {
                Some(name) => if is_bound(name, fields) {
                    None
                } else {
                    Some(name)
                },
                None => None,
            },
        };
        match inside {
            Some(name) => Some(name),
            None => first_unbound(tokens, at + 1, fields),
        }
    } else {
        None
    }
}

/// Whether `name` is the name of one of the fields.
pub fn bound(name: &String, fields: &Vec<IdentAndType>) -> (found: bool)
    ensures
        found == is_bound(name@, fields.deep_view()),
{
    let mut at: usize = 0;
    while at < fields.len()
        invariant
            at <= fields.len(),
            forall|i: int| 0 <= i < at ==> fields.deep_view()[i].name != name@,
        decreases fields.len() - at,
    {
        if fields[at].name == *name {
            assert(fields.deep_view()[at as int].name == name@);
            return true;
        }
        at = at + 1;
    }
    false
}

/// Whether the token at index `at` is the word `text`.
fn word_stands_at(tokens: &Vec<Token>, at: usize, text: &str) -> (stands: bool)
    requires
        at < tokens.len(),
    ensures
        stands == (tokens.deep_view()[at as int] == word(text@)),
{
    proof {
        lemma_token_view(tokens, at as int);
    }
    match &tokens[at] {
        Token::Ident(found) => *found == String::from_str(text),
        _ => false,
    }
}

/// The state that the tokens refer to at index `at`, if they do.
pub fn find_reference(tokens: &Vec<Token>, at: usize) -> (found: Option<&String>)
    requires
        at < tokens.len(),
    ensures
        match found {
            Some(name) => reference_at(tokens.deep_view(), at as int) == Some(name@),
            None => reference_at(tokens.deep_view(), at as int).is_none(),
        },
{
    if tokens.len() - at <= 2 {
        return None;
    }
    proof {
        lemma_token_view(tokens, at as int);
        lemma_token_view(tokens, at as int + 1);
        lemma_token_view(tokens, at as int + 2);
    }
    if !word_stands_at(tokens, at, "self") {
        return None;
    }
    let dotted = match &tokens[at + 1] {
        Token::Punct(found, _) => *found == '.',
        _ => false,
    };
    if !dotted {
        return None;
    }
    if tokens.len() - at > 3 {
        proof {
            lemma_token_view(tokens, at as int + 3);
        }
        if let Token::Group(delimiter, inner) = &tokens[at + 3] {
            proof {
                lemma_group_view(*delimiter, *inner);
            }
            if let Delimiter::Parenthesis = delimiter {
                return None;
            }
        }
    }
    match &tokens[at + 2] {
        Token::Ident(name) => Some(name),
        _ => None,
    }
}

/// Finds the first state that the tokens refer to without its being one of
/// the fields.
pub fn find_unbound(tokens: &Vec<Token>, fields: &Vec<IdentAndType>) -> (found: Option<String>)
    ensures
        match found {
            Some(name) => first_unbound(tokens.deep_view(), 0, fields.deep_view()) == Some(name@),
            None => first_unbound(tokens.deep_view(), 0, fields.deep_view()).is_none(),
        },
    decreases tokens,
{
    let ghost all = tokens.deep_view();
    let ghost known = fields.deep_view();
    let mut at: usize = 0;
    while at < tokens.len()
        invariant
            at <= tokens.len(),
            all == tokens.deep_view(),
            known == fields.deep_view(),
            first_unbound(all, 0, known) == first_unbound(all, at as int, known),
        decreases tokens.len() - at,
    {
        proof {
            lemma_token_view(tokens, at as int);
        }
        match &tokens[at] {
            Token::Group(delimiter, inner) => {
                proof {
                    lemma_group_view(*delimiter, *inner);
                }
                if let Some(name) = find_unbound(inner, fields) {
                    return Some(name);
                }
            },
            _ => {
                if let Some(name) = find_reference(tokens, at) {
                    if !bound(name, fields) {
                        return Some(name.clone());
                    }
                }
            },
        }
        at = at + 1;
    }
    None
}

/// A state that is referred to and not declared: its name, the section that
/// refers to it, and the index, among the items of that section, of the
/// equation or the rule that does.
#[derive(Debug, PartialEq, Eq)]
pub struct Unbound {
    pub name: String,
    pub section: Keyword,
    pub index: usize,
}

/// An undeclared state as mathematics.
pub struct UnboundView {
    pub name: Seq<char>,
    pub section: Keyword,
    pub index: int,
}

impl DeepView for Unbound {
    type V = UnboundView;

    open spec fn deep_view(&self) -> UnboundView {
        UnboundView { name: self.name@, section: self.section, index: self.index as int }
    }
}

impl Unbound {
    /// The finding in words: which state is not declared, and which section
    /// refers to it.
    pub fn message(&self) -> (text: String)
        ensures
            text@ == "undeclared state `"@ + self.name@ + "` in `"@ + self.section.spelled() + "`"@,
    {
        let mut text = String::from_str("undeclared state `");
        text.append(self.name.as_str());
        text.append("` in `");
        text.append(self.section.text());
        text.append("`");
        text
    }
}

/// The first of two findings.
pub open spec fn or_else(first: Option<UnboundView>, second: Option<UnboundView>) -> Option<
    UnboundView,
> {
    match first {
        Some(found) => Some(found),
        None => second,
    }
}

/// The undeclared state of an expression, if it has one.
pub open spec fn unbound_in_expr(
    expr: Seq<TokenView>,
    fields: Seq<IdentAndTypeView>,
    section: Keyword,
    index: int,
) -> Option<UnboundView> {
    match first_unbound(expr, 0, fields) {
        Some(name) => Some(UnboundView { name, section, index }),
        None => None,
    }
}

/// The undeclared state of an equation, if it has one: the state that the
/// equation is about, or else the first that its right side refers to.
pub open spec fn unbound_in_equation(
    equation: EquationView,
    fields: Seq<IdentAndTypeView>,
    index: int,
) -> Option<UnboundView> {
    if !is_bound(equation.left_side.name(), fields) {
        Some(UnboundView { name: equation.left_side.name(), section: Keyword::TimeStep, index })
    } else {
        unbound_in_expr(equation.right_side, fields, Keyword::TimeStep, index)
    }
}

/// The first undeclared state of the equations from index `at` on.
pub open spec fn unbound_in_equations(
    equations: Seq<EquationView>,
    at: int,
    fields: Seq<IdentAndTypeView>,
) -> Option<UnboundView>
    decreases equations.len() - at,
{
    if 0 <= at < equations.len() {
        or_else(
            unbound_in_equation(equations[at], fields, at),
            unbound_in_equations(equations, at + 1, fields),
        )
    } else {
        None
    }
}

/// The first undeclared state of the rules from index `at` on.
pub open spec fn unbound_in_exprs(
    exprs: Seq<Seq<TokenView>>,
    at: int,
    fields: Seq<IdentAndTypeView>,
    section: Keyword,
) -> Option<UnboundView>
    decreases exprs.len() - at,
{
    if 0 <= at < exprs.len() {
        or_else(
            unbound_in_expr(exprs[at], fields, section, at),
            unbound_in_exprs(exprs, at + 1, fields, section),
        )
    } else {
        None
    }
}

/// The first undeclared state of the specification of a neuron: of its
/// equations, its spike condition, its output and its reset, in this order.
pub open spec fn neuron_unbound(def: NeuronDefView) -> Option<UnboundView> {
    let fields = typed_fields(def.param_list, def.initialize_list);
    or_else(
        unbound_in_equations(def.time_step, 0, fields),
        or_else(
            unbound_in_expr(def.spike_when, fields, Keyword::SpikeWhen, 0),
            or_else(
                unbound_in_expr(def.voltage_getter, fields, Keyword::GetVoltage, 0),
                unbound_in_exprs(def.reset, 0, fields, Keyword::Reset),
            ),
        ),
    )
}

/// The first undeclared state of the specification of a synapse: of its
/// equations, its weight and its two rules, in this order.
pub open spec fn synapse_unbound(def: SynapseDefView) -> Option<UnboundView> {
    let fields = typed_fields(def.param_list, def.initialize_list);
    or_else(
        unbound_in_equations(def.time_step, 0, fields),
        or_else(
            unbound_in_expr(def.weight_getter, fields, Keyword::WeightGetter, 0),
            or_else(
                unbound_in_exprs(def.pre_synapse_spike, 0, fields, Keyword::OnPre),
                unbound_in_exprs(def.post_synapse_spike, 0, fields, Keyword::OnPost),
            ),
        ),
    )
}

/// What a search has found, as mathematics.
pub open spec fn seen(found: Option<Unbound>) -> Option<UnboundView> {
    match found {
        Some(found) => Some(found.deep_view()),
        None => None,
    }
}

/// Looks for an undeclared state in an expression.
pub fn check_expr(expr: &Expr, fields: &Vec<IdentAndType>, section: Keyword, index: usize) -> (found:
    Option<Unbound>)
    ensures
        seen(found) == unbound_in_expr(expr.deep_view(), fields.deep_view(), section, index as int),
{
    match find_unbound(&expr.tokens, fields) {
        Some(name) => Some(Unbound { name, section, index }),
        None => None,
    }
}

/// Looks for an undeclared state in the equations of a time step.
pub fn check_equations(equations: &Vec<Equation>, fields: &Vec<IdentAndType>) -> (found: Option<
    Unbound,
>)
    ensures
        seen(found) == unbound_in_equations(equations.deep_view(), 0, fields.deep_view()),
{
    let ghost all = equations.deep_view();
    let ghost known = fields.deep_view();
    let mut at: usize = 0;
    while at < equations.len()
        invariant
            at <= equations.len(),
            all == equations.deep_view(),
            known == fields.deep_view(),
            unbound_in_equations(all, 0, known) == unbound_in_equations(all, at as int, known),
        decreases equations.len() - at,
    {
        let name = match &equations[at].left_side {
            IdentOrDerivative::Ident(name) => name,
            IdentOrDerivative::Derivative(name) => name,
        };
        assert(name@ == all[at as int].left_side.name());
        if !bound(name, fields) {
            return Some(Unbound { name: name.clone(), section: Keyword::TimeStep, index: at });
        }
        if let Some(found) = check_expr(&equations[at].right_side, fields, Keyword::TimeStep, at) {
            return Some(found);
        }
        at = at + 1;
    }
    None
}

/// Looks for an undeclared state in the rules of a section.
pub fn check_exprs(exprs: &Vec<Expr>, fields: &Vec<IdentAndType>, section: Keyword) -> (found:
    Option<Unbound>)
    ensures
        seen(found) == unbound_in_exprs(exprs.deep_view(), 0, fields.deep_view(), section),
{
    let ghost all = exprs.deep_view();
    let ghost known = fields.deep_view();
    let mut at: usize = 0;
    while at < exprs.len()
        invariant
            at <= exprs.len(),
            all == exprs.deep_view(),
            known == fields.deep_view(),
            unbound_in_exprs(all, 0, known, section) == unbound_in_exprs(
                all,
                at as int,
                known,
                section,
            ),
        decreases exprs.len() - at,
    {
        if let Some(found) = check_expr(&exprs[at], fields, section, at) {
            return Some(found);
        }
        at = at + 1;
    }
    None
}

impl NeuronDef {
    /// Looks for a state that the specification refers to and does not
    /// declare.
    pub fn unbound(&self) -> (found: Option<Unbound>)
        ensures
            seen(found) == neuron_unbound(self.deep_view()),
    {
        let fields = list_fields(&self.param_list, &self.initialize_list);
        if let Some(found) = check_equations(&self.time_step, &fields) {
            return Some(found);
        }
        if let Some(found) = check_expr(&self.spike_when, &fields, Keyword::SpikeWhen, 0) {
            return Some(found);
        }
        if let Some(found) = check_expr(&self.voltage_getter, &fields, Keyword::GetVoltage, 0) {
            return Some(found);
        }
        check_exprs(&self.reset, &fields, Keyword::Reset)
    }
}

impl SynapseDef {
    /// Looks for a state that the specification refers to and does not
    /// declare.
    pub fn unbound(&self) -> (found: Option<Unbound>)
        ensures
            seen(found) == synapse_unbound(self.deep_view()),
    {
        let fields = list_fields(&self.param_list, &self.initialize_list);
        if let Some(found) = check_equations(&self.time_step, &fields) {
            return Some(found);
        }
        if let Some(found) = check_expr(&self.weight_getter, &fields, Keyword::WeightGetter, 0) {
            return Some(found);
        }
        if let Some(found) = check_exprs(&self.pre_synapse_spike, &fields, Keyword::OnPre) {
            return Some(found);
        }
        check_exprs(&self.post_synapse_spike, &fields, Keyword::OnPost)
    }
}

} // verus!
