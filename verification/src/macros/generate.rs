//! The pieces of a generated unit, written as tokens.

use vstd::prelude::*;
use crate::macros::model::{
    Equation, EquationView, Expr, IdentAndType, IdentAndTypeView, IdentAndValue, IdentAndValueView,
    IdentOrDerivative, IdentOrDerivativeView, NeuronDef, NeuronDefView, SynapseDef, SynapseDefView,
    Type,
};
use crate::macros::tokens::{copy_range, lemma_group_view, Delimiter, Token, TokenView};

verus! {

/// The word `text` as a token.
pub open spec fn word(text: Seq<char>) -> TokenView {
    TokenView::Ident(text)
}

/// The punctuation mark `mark` as a token after which there is a gap.
pub open spec fn mark(mark: char) -> TokenView {
    TokenView::Punct(mark, false)
}

/// The punctuation mark `mark` as a token that the next follows at once.
pub open spec fn joint(mark: char) -> TokenView {
    TokenView::Punct(mark, true)
}

/// The tokens `inner` in parentheses.
pub open spec fn parenthesized(inner: Seq<TokenView>) -> TokenView {
    TokenView::Group(Delimiter::Parenthesis, inner)
}

/// The tokens `inner` in braces.
pub open spec fn braced(inner: Seq<TokenView>) -> TokenView {
    TokenView::Group(Delimiter::Brace, inner)
}

/// Adds a word.
pub fn push_word(tokens: &mut Vec<Token>, text: &str)
    ensures
        final(tokens).deep_view() == old(tokens).deep_view().push(word(text@)),
{
    let ghost before = tokens.deep_view();
    tokens.push(Token::Ident(String::from_str(text)));
    assert(tokens.deep_view() =~= before.push(word(text@)));
}

/// Adds a punctuation mark.
pub fn push_mark(tokens: &mut Vec<Token>, mark: char, joint: bool)
    ensures
        final(tokens).deep_view() == old(tokens).deep_view().push(TokenView::Punct(mark, joint)),
{
    let ghost before = tokens.deep_view();
    tokens.push(Token::Punct(mark, joint));
    assert(tokens.deep_view() =~= before.push(TokenView::Punct(mark, joint)));
}

/// Adds a group.
pub fn push_group(tokens: &mut Vec<Token>, delimiter: Delimiter, inner: Vec<Token>)
    ensures
        final(tokens).deep_view() == old(tokens).deep_view().push(
            TokenView::Group(delimiter, inner.deep_view()),
        ),
{
    let ghost before = tokens.deep_view();
    proof {
        lemma_group_view(delimiter, inner);
    }
    tokens.push(Token::Group(delimiter, inner));
    assert(tokens.deep_view() =~= before.push(TokenView::Group(delimiter, inner.deep_view())));
}

/// Adds a copy of `more`.
pub fn push_all(tokens: &mut Vec<Token>, more: &Vec<Token>)
    ensures
        final(tokens).deep_view() == old(tokens).deep_view() + more.deep_view(),
{
    let ghost before = tokens.deep_view();
    let mut copy = copy_range(more, 0, more.len());
    assert(more.deep_view().subrange(0, more.len() as int) =~= more.deep_view());
    tokens.append(&mut copy);
    assert(tokens.deep_view() =~= before + more.deep_view());
}

/// What can be written as tokens.
pub trait ToTokens: DeepView {
    /// The tokens that stand for a tree.
    spec fn written(tree: <Self as DeepView>::V) -> Seq<TokenView>;

    /// Writes the tokens behind those that are there.
    fn to_tokens(&self, tokens: &mut Vec<Token>)
        ensures
            final(tokens).deep_view() == old(tokens).deep_view() + Self::written(self.deep_view()),
    ;
}

impl ToTokens for Type {
    /// A type is written as it was read.
    open spec fn written(tree: Seq<TokenView>) -> Seq<TokenView> {
        tree
    }

    fn to_tokens(&self, tokens: &mut Vec<Token>) {
        push_all(tokens, &self.tokens);
    }
}

impl ToTokens for Expr {
    /// An expression is written as it was read.
    open spec fn written(tree: Seq<TokenView>) -> Seq<TokenView> {
        tree
    }

    fn to_tokens(&self, tokens: &mut Vec<Token>) {
        push_all(tokens, &self.tokens);
    }
}

impl ToTokens for IdentAndType {
    /// A parameter is written as a field or an argument is declared:
    /// `name : Type`.
    open spec fn written(tree: IdentAndTypeView) -> Seq<TokenView> {
        seq![word(tree.name), mark(':')] + tree.typ
    }

    fn to_tokens(&self, tokens: &mut Vec<Token>) {
        let ghost before = tokens.deep_view();
        tokens.push(Token::Ident(self.name.clone()));
        assert(tokens.deep_view() =~= before.push(word(self.name@)));
        push_mark(tokens, ':', false);
        push_all(tokens, &self.typ.tokens);
        assert(tokens.deep_view() =~= before + Self::written(self.deep_view()));
    }
}

impl ToTokens for IdentAndValue {
    /// A state variable is written as the statement that gives it its first
    /// value: `let name : Type = value ;`.
    open spec fn written(tree: IdentAndValueView) -> Seq<TokenView> {
        seq![word("let"@), word(tree.name), mark(':')] + tree.typ + seq![mark('=')] + tree.value
            + seq![mark(';')]
    }

    fn to_tokens(&self, tokens: &mut Vec<Token>) {
        let ghost before = tokens.deep_view();
        push_word(tokens, "let");
        let ghost named = tokens.deep_view();
        tokens.push(Token::Ident(self.name.clone()));
        assert(tokens.deep_view() =~= named.push(word(self.name@)));
        push_mark(tokens, ':', false);
        push_all(tokens, &self.typ.tokens);
        push_mark(tokens, '=', false);
        push_all(tokens, &self.value.tokens);
        push_mark(tokens, ';', false);
        assert(tokens.deep_view() =~= before + Self::written(self.deep_view()));
    }
}

/// The assignment that an equation stands for. A direct equation replaces
/// the state: `self . x = ( rhs ) ;`. A derivative equation moves the state
/// by the right side times the time step, from the value that the state has
/// when the statement is reached: `self . x = ( rhs ) * dt + self . x ;`.
pub open spec fn assignment(equation: EquationView) -> Seq<TokenView> {
    let name = equation.left_side.name();
    let direct = seq![
        word("self"@),
        mark('.'),
        word(name),
        mark('='),
        parenthesized(equation.right_side),
    ];
    match equation.left_side {
        IdentOrDerivativeView::Ident(_) => direct.push(mark(';')),
        IdentOrDerivativeView::Derivative(_) => direct + seq![
            mark('*'),
            word("dt"@),
            mark('+'),
            word("self"@),
            mark('.'),
            word(name),
            mark(';'),
        ],
    }
}

impl ToTokens for Equation {
    open spec fn written(tree: EquationView) -> Seq<TokenView> {
        assignment(tree)
    }

    fn to_tokens(&self, tokens: &mut Vec<Token>) {
        let ghost before = tokens.deep_view();
        let (name, derivative) = match &self.left_side {
            IdentOrDerivative::Ident(name) => (name, false),
            IdentOrDerivative::Derivative(name) => (name, true),
        };
        push_word(tokens, "self");
        push_mark(tokens, '.', false);
        let ghost dotted = tokens.deep_view();
        tokens.push(Token::Ident(name.clone()));
        assert(tokens.deep_view() =~= dotted.push(word(name@)));
        push_mark(tokens, '=', false);
        let mut right: Vec<Token> = Vec::new();
        push_all(&mut right, &self.right_side.tokens);
        assert(right.deep_view() =~= self.right_side.deep_view());
        push_group(tokens, Delimiter::Parenthesis, right);
        if derivative {
            push_mark(tokens, '*', false);
            push_word(tokens, "dt");
            push_mark(tokens, '+', false);
            push_word(tokens, "self");
            push_mark(tokens, '.', false);
            let ghost again = tokens.deep_view();
            tokens.push(Token::Ident(name.clone()));
            assert(tokens.deep_view() =~= again.push(word(name@)));
        }
        push_mark(tokens, ';', false);
        assert(tokens.deep_view() =~= before + assignment(self.deep_view()));
    }
}

/// The items from index `at` on, one after the other, each with the mark
/// `after` behind it where one is given.
pub open spec fn each<T: ToTokens>(items: Seq<<T as DeepView>::V>, at: int, after: Option<char>) -> Seq<
    TokenView,
>
    decreases items.len() - at,
{
    if 0 <= at < items.len() {
        let end: Seq<TokenView> = match after {
            Some(after) => seq![mark(after)],
            None => seq![],
        };
        T::written(items[at]) + end + each::<T>(items, at + 1, after)
    } else {
        seq![]
    }
}

/// The items from index `at` on with the mark `separator` between each two.
pub open spec fn separated<T: ToTokens>(
    items: Seq<<T as DeepView>::V>,
    at: int,
    separator: char,
) -> Seq<TokenView>
    decreases items.len() - at,
{
    if 0 <= at < items.len() - 1 {
        T::written(items[at]).push(mark(separator)) + separated::<T>(items, at + 1, separator)
    } else if at == items.len() - 1 {
        T::written(items[at])
    } else {
        seq![]
    }
}

/// The names of the fields from index `at` on, with commas between them.
pub open spec fn names(fields: Seq<IdentAndTypeView>, at: int) -> Seq<TokenView>
    decreases fields.len() - at,
{
    if 0 <= at < fields.len() - 1 {
        seq![word(fields[at].name), mark(',')] + names(fields, at + 1)
    } else if at == fields.len() - 1 {
        seq![word(fields[at].name)]
    } else {
        seq![]
    }
}

/// Writes the items one after the other.
pub fn push_each<T: ToTokens>(tokens: &mut Vec<Token>, items: &Vec<T>, after: Option<char>)
    ensures
        final(tokens).deep_view() == old(tokens).deep_view() + each::<T>(items.deep_view(), 0, after),
{
    let ghost all = items.deep_view();
    let mut at: usize = 0;
    while at < items.len()
        invariant
            at <= items.len(),
            all == items.deep_view(),
            tokens.deep_view() + each::<T>(all, at as int, after) == old(tokens).deep_view() + each::<
                T,
            >(all, 0, after),
        decreases items.len() - at,
    {
        let ghost before = tokens.deep_view();
        items[at].to_tokens(tokens);
        if let Some(after) = after {
            push_mark(tokens, after, false);
        }
        assert(tokens.deep_view() + each::<T>(all, at as int + 1, after) =~= before + each::<T>(
            all,
            at as int,
            after,
        ));
        at = at + 1;
    }
    assert(tokens.deep_view() + each::<T>(all, at as int, after) =~= tokens.deep_view());
}

/// Writes the items with a separator between each two.
pub fn push_separated<T: ToTokens>(tokens: &mut Vec<Token>, items: &Vec<T>, separator: char)
    ensures
        final(tokens).deep_view() == old(tokens).deep_view() + separated::<T>(
            items.deep_view(),
            0,
            separator,
        ),
{
    let ghost all = items.deep_view();
    let mut at: usize = 0;
    while at < items.len()
        invariant
            at <= items.len(),
            all == items.deep_view(),
            tokens.deep_view() + separated::<T>(all, at as int, separator) == old(
                tokens,
            ).deep_view() + separated::<T>(all, 0, separator),
        decreases items.len() - at,
    {
        let ghost before = tokens.deep_view();
        items[at].to_tokens(tokens);
        if at + 1 < items.len() {
            push_mark(tokens, separator, false);
        }
        assert(tokens.deep_view() + separated::<T>(all, at as int + 1, separator) =~= before
            + separated::<T>(all, at as int, separator));
        at = at + 1;
    }
    assert(tokens.deep_view() + separated::<T>(all, at as int, separator) =~= tokens.deep_view());
}

/// Writes the names of the fields with commas between them.
pub fn push_names(tokens: &mut Vec<Token>, fields: &Vec<IdentAndType>)
    ensures
        final(tokens).deep_view() == old(tokens).deep_view() + names(fields.deep_view(), 0),
{
    let ghost all = fields.deep_view();
    let mut at: usize = 0;
    while at < fields.len()
        invariant
            at <= fields.len(),
            all == fields.deep_view(),
            tokens.deep_view() + names(all, at as int) == old(tokens).deep_view() + names(all, 0),
        decreases fields.len() - at,
    {
        let ghost before = tokens.deep_view();
        tokens.push(Token::Ident(fields[at].name.clone()));
        assert(tokens.deep_view() =~= before.push(word(all[at as int].name)));
        if at + 1 < fields.len() {
            push_mark(tokens, ',', false);
        }
        assert(tokens.deep_view() + names(all, at as int + 1) =~= before + names(all, at as int));
        at = at + 1;
    }
    assert(tokens.deep_view() + names(all, at as int) =~= tokens.deep_view());
}

/// A state variable as a field: its name and its type.
pub open spec fn as_field(variable: IdentAndValueView) -> IdentAndTypeView {
    IdentAndTypeView { name: variable.name, typ: variable.typ }
}

/// The state of a unit: its parameters, and behind them its state variables.
pub open spec fn typed_fields(
    params: Seq<IdentAndTypeView>,
    variables: Seq<IdentAndValueView>,
) -> Seq<IdentAndTypeView> {
    params + variables.map_values(|variable: IdentAndValueView| as_field(variable))
}

/// Lists the state of a unit.
pub fn list_fields(params: &Vec<IdentAndType>, variables: &Vec<IdentAndValue>) -> (fields: Vec<
    IdentAndType,
>)
    ensures
        fields.deep_view() == typed_fields(params.deep_view(), variables.deep_view()),
{
    let mut fields: Vec<IdentAndType> = Vec::new();
    let mut at: usize = 0;
    while at < params.len()
        invariant
            at <= params.len(),
            fields.deep_view() == params.deep_view().take(at as int),
        decreases params.len() - at,
    {
        let tokens = copy_range(&params[at].typ.tokens, 0, params[at].typ.tokens.len());
        let field = IdentAndType { name: params[at].name.clone(), typ: Type { tokens } };
        assert(params[at as int].typ.deep_view().subrange(
            0,
            params[at as int].typ.tokens.len() as int,
        ) =~= params[at as int].typ.deep_view());
        assert(field.deep_view() == params.deep_view()[at as int]);
        let ghost before = fields.deep_view();
        fields.push(field);
        assert(fields.deep_view() =~= before.push(field.deep_view()));
        assert(fields.deep_view() =~= params.deep_view().take(at as int + 1));
        at = at + 1;
    }
    assert(params.deep_view().take(at as int) =~= params.deep_view());
    let mut at: usize = 0;
    while at < variables.len()
        invariant
            at <= variables.len(),
            fields.deep_view() == params.deep_view() + variables.deep_view().take(
                at as int,
            ).map_values(|variable: IdentAndValueView| as_field(variable)),
        decreases variables.len() - at,
    {
        let field = variables[at].drop_value();
        let ghost before = fields.deep_view();
        fields.push(field);
        assert(fields.deep_view() =~= before.push(field.deep_view()));
        assert(fields.deep_view() =~= params.deep_view() + variables.deep_view().take(
            at as int + 1,
        ).map_values(|variable: IdentAndValueView| as_field(variable)));
        at = at + 1;
    }
    assert(variables.deep_view().take(at as int) =~= variables.deep_view());
    fields
}

/// A method: `fn name ( arguments ) { body }`, with `-> result` before the
/// body where a result is given.
pub open spec fn method(
    name: Seq<char>,
    arguments: Seq<TokenView>,
    result: Option<Seq<TokenView>>,
    body: Seq<TokenView>,
) -> Seq<TokenView> {
    let arrow: Seq<TokenView> = match result {
        Some(result) => seq![joint('-'), mark('>')] + result,
        None => seq![],
    };
    seq![word("fn"@), word(name), parenthesized(arguments)] + arrow + seq![braced(body)]
}

/// Writes a method.
pub fn push_method(
    tokens: &mut Vec<Token>,
    name: &str,
    arguments: Vec<Token>,
    result: Option<&Vec<Token>>,
    body: Vec<Token>,
)
    ensures
        final(tokens).deep_view() == old(tokens).deep_view() + method(
            name@,
            arguments.deep_view(),
            match result {
                Some(result) => Some(result.deep_view()),
                None => None,
            },
            body.deep_view(),
        ),
{
    let ghost before = tokens.deep_view();
    push_word(tokens, "fn");
    push_word(tokens, name);
    push_group(tokens, Delimiter::Parenthesis, arguments);
    if let Some(result) = result {
        push_mark(tokens, '-', true);
        push_mark(tokens, '>', false);
        push_all(tokens, result);
    }
    push_group(tokens, Delimiter::Brace, body);
    assert(tokens.deep_view() =~= before + method(
        name@,
        arguments.deep_view(),
        match result {
            Some(result) => Some(result.deep_view()),
            None => None,
        },
        body.deep_view(),
    ));
}

/// The implementation of a trait for a unit:
/// `impl Trait < generics > for Name { body }`.
pub open spec fn implementation(
    of: Seq<char>,
    generics: Seq<TokenView>,
    name: Seq<char>,
    body: Seq<TokenView>,
) -> Seq<TokenView> {
    seq![word("impl"@), word(of), mark('<')] + generics + seq![
        mark('>'),
        word("for"@),
        word(name),
        braced(body),
    ]
}

/// Writes the implementation of a trait for a unit.
pub fn push_implementation(
    tokens: &mut Vec<Token>,
    of: &str,
    generics: Vec<Token>,
    name: &String,
    body: Vec<Token>,
)
    ensures
        final(tokens).deep_view() == old(tokens).deep_view() + implementation(
            of@,
            generics.deep_view(),
            name@,
            body.deep_view(),
        ),
{
    let ghost before = tokens.deep_view();
    push_word(tokens, "impl");
    push_word(tokens, of);
    push_mark(tokens, '<', false);
    push_all(tokens, &generics);
    push_mark(tokens, '>', false);
    push_word(tokens, "for");
    let ghost named = tokens.deep_view();
    tokens.push(Token::Ident(name.clone()));
    assert(tokens.deep_view() =~= named.push(word(name@)));
    push_group(tokens, Delimiter::Brace, body);
    assert(tokens.deep_view() =~= before + implementation(
        of@,
        generics.deep_view(),
        name@,
        body.deep_view(),
    ));
}

/// The state and the constructor of a unit. The unit holds its parameters
/// and its state variables. `new` takes the parameters in the order in which
/// they are declared, gives the state variables their first values in the
/// order in which they are declared, each where it can read the parameters
/// and the variables before it, and makes the unit of all of them:
///
/// `pub struct Name { fields }`
/// `impl Name { pub fn new ( params ) -> Self { lets Name { names } } }`
pub open spec fn state(
    name: Seq<char>,
    params: Seq<IdentAndTypeView>,
    variables: Seq<IdentAndValueView>,
) -> Seq<TokenView> {
    let fields = typed_fields(params, variables);
    let made = each::<IdentAndValue>(variables, 0, None) + seq![
        word(name),
        braced(names(fields, 0)),
    ];
    let constructor = seq![word("pub"@)] + method(
        "new"@,
        separated::<IdentAndType>(params, 0, ','),
        Some(seq![word("Self"@)]),
        made,
    );
    seq![
        word("pub"@),
        word("struct"@),
        word(name),
        braced(separated::<IdentAndType>(fields, 0, ',')),
        word("impl"@),
        word(name),
        braced(constructor),
    ]
}

/// Writes the state and the constructor of a unit.
pub fn push_state(
    tokens: &mut Vec<Token>,
    name: &String,
    params: &Vec<IdentAndType>,
    variables: &Vec<IdentAndValue>,
)
    ensures
        final(tokens).deep_view() == old(tokens).deep_view() + state(
            name@,
            params.deep_view(),
            variables.deep_view(),
        ),
{
    let ghost before = tokens.deep_view();
    let fields = list_fields(params, variables);
    let mut declared: Vec<Token> = Vec::new();
    push_separated::<IdentAndType>(&mut declared, &fields, ',');
    let mut arguments: Vec<Token> = Vec::new();
    push_separated::<IdentAndType>(&mut arguments, params, ',');
    let mut listed: Vec<Token> = Vec::new();
    push_names(&mut listed, &fields);
    let mut made: Vec<Token> = Vec::new();
    push_each::<IdentAndValue>(&mut made, variables, None);
    let ghost let_end = made.deep_view();
    made.push(Token::Ident(name.clone()));
    assert(made.deep_view() =~= let_end.push(word(name@)));
    push_group(&mut made, Delimiter::Brace, listed);
    let mut result: Vec<Token> = Vec::new();
    push_word(&mut result, "Self");
    let mut constructor: Vec<Token> = Vec::new();
    push_word(&mut constructor, "pub");
    push_method(&mut constructor, "new", arguments, Some(&result), made);
    push_word(tokens, "pub");
    push_word(tokens, "struct");
    let ghost named = tokens.deep_view();
    tokens.push(Token::Ident(name.clone()));
    assert(tokens.deep_view() =~= named.push(word(name@)));
    push_group(tokens, Delimiter::Brace, declared);
    push_word(tokens, "impl");
    let ghost named = tokens.deep_view();
    tokens.push(Token::Ident(name.clone()));
    assert(tokens.deep_view() =~= named.push(word(name@)));
    push_group(tokens, Delimiter::Brace, constructor);
    proof {
        let fields_view = typed_fields(params.deep_view(), variables.deep_view());
        assert(declared.deep_view() =~= separated::<IdentAndType>(fields_view, 0, ','));
        assert(arguments.deep_view() =~= separated::<IdentAndType>(params.deep_view(), 0, ','));
        assert(listed.deep_view() =~= names(fields_view, 0));
        assert(result.deep_view() =~= seq![word("Self"@)]);
        assert(made.deep_view() =~= each::<IdentAndValue>(variables.deep_view(), 0, None) + seq![
            word(name@),
            braced(names(fields_view, 0)),
        ]);
        assert(constructor.deep_view() =~= seq![word("pub"@)] + method(
            "new"@,
            separated::<IdentAndType>(params.deep_view(), 0, ','),
            Some(seq![word("Self"@)]),
            made.deep_view(),
        ));
        assert(tokens.deep_view() =~= before + state(
            name@,
            params.deep_view(),
            variables.deep_view(),
        ));
    }
}

/// The arguments of a method that only reads the unit: `& self`.
pub open spec fn by_reference() -> Seq<TokenView> {
    seq![mark('&'), word("self"@)]
}

/// The arguments of a method that changes the unit and takes one value:
/// `& mut self , name : Type`.
pub open spec fn by_mutable_reference(name: Seq<char>, typ: Seq<TokenView>) -> Seq<TokenView> {
    seq![mark('&'), word("mut"@), word("self"@), mark(','), word(name), mark(':')] + typ
}

/// Writes `& self`.
pub fn receiver() -> (arguments: Vec<Token>)
    ensures
        arguments.deep_view() == by_reference(),
{
    let mut arguments: Vec<Token> = Vec::new();
    push_mark(&mut arguments, '&', false);
    push_word(&mut arguments, "self");
    assert(arguments.deep_view() =~= by_reference());
    arguments
}

/// Writes `& mut self , name : Type`.
pub fn mutable_receiver(name: &str, typ: &Type) -> (arguments: Vec<Token>)
    ensures
        arguments.deep_view() == by_mutable_reference(name@, typ.deep_view()),
{
    let mut arguments: Vec<Token> = Vec::new();
    push_mark(&mut arguments, '&', false);
    push_word(&mut arguments, "mut");
    push_word(&mut arguments, "self");
    push_mark(&mut arguments, ',', false);
    push_word(&mut arguments, name);
    push_mark(&mut arguments, ':', false);
    push_all(&mut arguments, &typ.tokens);
    assert(arguments.deep_view() =~= by_mutable_reference(name@, typ.deep_view()));
    arguments
}

/// The body of a neuron's step. If the neuron spikes, all its reset
/// statements run first, in the order in which they are declared. Then the
/// equations of the time step run, in the order in which they are declared,
/// each as its assignment: an equation reads the state as the equations
/// before it have left it.
pub open spec fn neuron_step(def: NeuronDefView) -> Seq<TokenView> {
    seq![
        word("if"@),
        word("self"@),
        mark('.'),
        word("did_spike"@),
        parenthesized(seq![]),
        braced(each::<Expr>(def.reset, 0, Some(';'))),
    ] + each::<Equation>(def.time_step, 0, None)
}

/// The unit that the specification of a neuron stands for: its state and
/// constructor; `did_spike`, which is the spike condition, and
/// `get_voltage`, which is the output expression, both read against the
/// state as it is; and `handle_input`, which takes `input` and `dt` and is
/// one step.
pub open spec fn neuron_unit(def: NeuronDefView) -> Seq<TokenView> {
    let name = def.neuron_type.name;
    let voltage = def.neuron_type.voltage_type;
    let time = def.neuron_type.time_type;
    state(name, def.param_list, def.initialize_list) + implementation(
        "SpikeGenerator"@,
        voltage,
        name,
        method("did_spike"@, by_reference(), Some(seq![word("bool"@)]), def.spike_when) + method(
            "get_voltage"@,
            by_reference(),
            Some(voltage),
            def.voltage_getter,
        ),
    ) + implementation(
        "InnerSpikeGenerator"@,
        voltage + seq![mark(',')] + time,
        name,
        method(
            "handle_input"@,
            by_mutable_reference("input"@, voltage) + seq![mark(','), word("dt"@), mark(':')] + time,
            None,
            neuron_step(def),
        ),
    )
}

impl ToTokens for NeuronDef {
    open spec fn written(tree: NeuronDefView) -> Seq<TokenView> {
        neuron_unit(tree)
    }

    fn to_tokens(&self, tokens: &mut Vec<Token>) {
        let ghost before = tokens.deep_view();
        let ghost def = self.deep_view();
        let name = &self.neuron_type.name;
        let voltage = &self.neuron_type.voltage_type;
        let time = &self.neuron_type.time_type;
        push_state(tokens, name, &self.param_list, &self.initialize_list);

        let mut condition: Vec<Token> = Vec::new();
        push_all(&mut condition, &self.spike_when.tokens);
        let mut truth: Vec<Token> = Vec::new();
        push_word(&mut truth, "bool");
        let mut output: Vec<Token> = Vec::new();
        push_all(&mut output, &self.voltage_getter.tokens);
        let mut queries: Vec<Token> = Vec::new();
        push_method(&mut queries, "did_spike", receiver(), Some(&truth), condition);
        push_method(&mut queries, "get_voltage", receiver(), Some(&voltage.tokens), output);
        let mut of_voltage: Vec<Token> = Vec::new();
        push_all(&mut of_voltage, &voltage.tokens);
        push_implementation(tokens, "SpikeGenerator", of_voltage, name, queries);

        let mut resets: Vec<Token> = Vec::new();
        push_each::<Expr>(&mut resets, &self.reset, Some(';'));
        let mut step: Vec<Token> = Vec::new();
        push_word(&mut step, "if");
        push_word(&mut step, "self");
        push_mark(&mut step, '.', false);
        push_word(&mut step, "did_spike");
        let nothing: Vec<Token> = Vec::new();
        assert(nothing.deep_view() =~= Seq::<TokenView>::empty());
        push_group(&mut step, Delimiter::Parenthesis, nothing);
        push_group(&mut step, Delimiter::Brace, resets);
        push_each::<Equation>(&mut step, &self.time_step, None);
        let mut arguments = mutable_receiver("input", voltage);
        push_mark(&mut arguments, ',', false);
        push_word(&mut arguments, "dt");
        push_mark(&mut arguments, ':', false);
        push_all(&mut arguments, &time.tokens);
        let mut stepping: Vec<Token> = Vec::new();
        push_method(&mut stepping, "handle_input", arguments, None, step);
        let mut of_both: Vec<Token> = Vec::new();
        push_all(&mut of_both, &voltage.tokens);
        push_mark(&mut of_both, ',', false);
        push_all(&mut of_both, &time.tokens);
        push_implementation(tokens, "InnerSpikeGenerator", of_both, name, stepping);
        proof {
            assert(condition.deep_view() =~= def.spike_when);
            assert(truth.deep_view() =~= seq![word("bool"@)]);
            assert(output.deep_view() =~= def.voltage_getter);
            assert(of_voltage.deep_view() =~= def.neuron_type.voltage_type);
            assert(resets.deep_view() =~= each::<Expr>(def.reset, 0, Some(';')));
            assert(step.deep_view() =~= neuron_step(def));
            assert(queries.deep_view() =~= method(
                "did_spike"@,
                by_reference(),
                Some(seq![word("bool"@)]),
                def.spike_when,
            ) + method(
                "get_voltage"@,
                by_reference(),
                Some(def.neuron_type.voltage_type),
                def.voltage_getter,
            ));
            assert(arguments.deep_view() =~= by_mutable_reference(
                "input"@,
                def.neuron_type.voltage_type,
            ) + seq![mark(','), word("dt"@), mark(':')] + def.neuron_type.time_type);
            assert(of_both.deep_view() =~= def.neuron_type.voltage_type + seq![mark(',')]
                + def.neuron_type.time_type);
            assert(stepping.deep_view() =~= method(
                "handle_input"@,
                arguments.deep_view(),
                None,
                neuron_step(def),
            ));
            assert(tokens.deep_view() =~= before + neuron_unit(def));
        }
    }
}

/// The unit that the specification of a synapse stands for: its state and
/// constructor; `on_pre` and `on_post`, which take `input` and run their
/// statements in the order in which they are declared; `current_weight`,
/// which is the weight expression read against the state as it is; and
/// `advance_once`, which takes `dt` and runs the equations of the time step
/// as a neuron's step does, whether or not anything has spiked.
pub open spec fn synapse_unit(def: SynapseDefView) -> Seq<TokenView> {
    let name = def.synapse_type.name;
    let voltage = def.synapse_type.voltage_type;
    let time = def.synapse_type.time_type;
    state(name, def.param_list, def.initialize_list) + implementation(
        "Synaptic"@,
        voltage + seq![mark(',')] + time,
        name,
        method(
            "on_pre"@,
            by_mutable_reference("input"@, voltage),
            None,
            each::<Expr>(def.pre_synapse_spike, 0, Some(';')),
        ) + method(
            "on_post"@,
            by_mutable_reference("input"@, voltage),
            None,
            each::<Expr>(def.post_synapse_spike, 0, Some(';')),
        ) + method(
            "current_weight"@,
            by_reference(),
            Some(seq![word("f64"@)]),
            def.weight_getter,
        ) + method(
            "advance_once"@,
            by_mutable_reference("dt"@, time),
            None,
            each::<Equation>(def.time_step, 0, None),
        ),
    )
}

impl ToTokens for SynapseDef {
    open spec fn written(tree: SynapseDefView) -> Seq<TokenView> {
        synapse_unit(tree)
    }

    fn to_tokens(&self, tokens: &mut Vec<Token>) {
        let ghost before = tokens.deep_view();
        let ghost def = self.deep_view();
        let name = &self.synapse_type.name;
        let voltage = &self.synapse_type.voltage_type;
        let time = &self.synapse_type.time_type;
        push_state(tokens, name, &self.param_list, &self.initialize_list);

        let mut pre: Vec<Token> = Vec::new();
        push_each::<Expr>(&mut pre, &self.pre_synapse_spike, Some(';'));
        let mut post: Vec<Token> = Vec::new();
        push_each::<Expr>(&mut post, &self.post_synapse_spike, Some(';'));
        let mut weight: Vec<Token> = Vec::new();
        push_all(&mut weight, &self.weight_getter.tokens);
        let mut number: Vec<Token> = Vec::new();
        push_word(&mut number, "f64");
        let mut step: Vec<Token> = Vec::new();
        push_each::<Equation>(&mut step, &self.time_step, None);
        let mut methods: Vec<Token> = Vec::new();
        push_method(&mut methods, "on_pre", mutable_receiver("input", voltage), None, pre);
        push_method(&mut methods, "on_post", mutable_receiver("input", voltage), None, post);
        push_method(&mut methods, "current_weight", receiver(), Some(&number), weight);
        push_method(&mut methods, "advance_once", mutable_receiver("dt", time), None, step);
        let mut of_both: Vec<Token> = Vec::new();
        push_all(&mut of_both, &voltage.tokens);
        push_mark(&mut of_both, ',', false);
        push_all(&mut of_both, &time.tokens);
        push_implementation(tokens, "Synaptic", of_both, name, methods);
        proof {
            assert(pre.deep_view() =~= each::<Expr>(def.pre_synapse_spike, 0, Some(';')));
            assert(post.deep_view() =~= each::<Expr>(def.post_synapse_spike, 0, Some(';')));
            assert(weight.deep_view() =~= def.weight_getter);
            assert(number.deep_view() =~= seq![word("f64"@)]);
            assert(step.deep_view() =~= each::<Equation>(def.time_step, 0, None));
            assert(of_both.deep_view() =~= def.synapse_type.voltage_type + seq![mark(',')]
                + def.synapse_type.time_type);
            assert(methods.deep_view() =~= method(
                "on_pre"@,
                by_mutable_reference("input"@, def.synapse_type.voltage_type),
                None,
                each::<Expr>(def.pre_synapse_spike, 0, Some(';')),
            ) + method(
                "on_post"@,
                by_mutable_reference("input"@, def.synapse_type.voltage_type),
                None,
                each::<Expr>(def.post_synapse_spike, 0, Some(';')),
            ) + method(
                "current_weight"@,
                by_reference(),
                Some(seq![word("f64"@)]),
                def.weight_getter,
            ) + method(
                "advance_once"@,
                by_mutable_reference("dt"@, def.synapse_type.time_type),
                None,
                each::<Equation>(def.time_step, 0, None),
            ));
            assert(tokens.deep_view() =~= before + synapse_unit(def));
        }
    }
}

/// The equations of a time step are written in the order in which they are
/// declared, each as its one assignment, with nothing between them: the
/// assignment of an equation stands behind those of all equations before it
/// and before those of all equations after it. It assigns to the state
/// itself, and its right side is the equation's own, with the names that the
/// equation used. So what an equation reads of a state that an earlier
/// equation is about is what that equation has assigned.
pub proof fn lemma_assignments_in_order(equations: Seq<EquationView>, from: int, index: int)
    requires
        0 <= from <= index < equations.len(),
    ensures
        each::<Equation>(equations, from, None) == each::<Equation>(
            equations.take(index),
            from,
            None,
        ) + assignment(equations[index]) + each::<Equation>(equations, index + 1, None),
        assignment(equations[index])[0] == word("self"@),
        assignment(equations[index])[1] == mark('.'),
        assignment(equations[index])[2] == word(equations[index].left_side.name()),
        assignment(equations[index])[3] == mark('='),
        assignment(equations[index])[4] == parenthesized(equations[index].right_side),
    decreases index - from,
{
    let before = equations.take(index);
    let end = Seq::<TokenView>::empty();
    if from < index {
        lemma_assignments_in_order(equations, from + 1, index);
        assert(before[from] == equations[from]);
        assert(each::<Equation>(equations, from, None) =~= assignment(equations[from]) + end + (
        each::<Equation>(before, from + 1, None) + assignment(equations[index]) + each::<Equation>(
            equations,
            index + 1,
            None,
        )));
        assert(each::<Equation>(before, from, None) =~= assignment(equations[from]) + end + each::<
            Equation,
        >(before, from + 1, None));
        assert(each::<Equation>(equations, from, None) =~= each::<Equation>(before, from, None)
            + assignment(equations[index]) + each::<Equation>(equations, index + 1, None));
    } else {
        assert(each::<Equation>(before, from, None) =~= end);
        assert(each::<Equation>(equations, from, None) =~= end + assignment(equations[index])
            + each::<Equation>(equations, index + 1, None));
    }
}

} // verus!
