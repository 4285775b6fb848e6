//! The specification of a neuron or of a synapse as a tree, and the grammar
//! that reads it from tokens.
//!
//! A specification is a header, `Name<Output, Time>:`, and a fixed run of
//! sections, each a keyword and a body in braces. The body of `params` is a
//! list of `name: Type` separated by commas. The bodies of `initialize`
//! (`name: Type = expr`), `time_step` (`name = expr`, or `name @ = expr` for
//! a derivative), `reset`, `on_pre` and `on_post` (`expr`) are lists
//! separated by semicolons. No list is empty and none ends in its separator.
//! The bodies of `spike_when`, `get_voltage` and `weight_getter` are one
//! expression each.

use vstd::prelude::*;
use crate::macros::syntax::{is_expr, is_name, is_type, reads_as_expr, reads_as_ident, reads_as_type};
use crate::macros::tokens::{copy_range, push_char, spelling, Delimiter, Token, TokenView};

verus! {

/// The keywords that open the sections of a specification.
#[derive(Clone, Copy, Debug, PartialEq, Eq, Structural)]
pub enum Keyword {
    Params,
    Initialize,
    TimeStep,
    SpikeWhen,
    GetVoltage,
    Reset,
    WeightGetter,
    OnPre,
    OnPost,
}

impl Keyword {
    /// The keyword as it is written.
    pub open spec fn spelled(self) -> Seq<char> {
        match self {
            Keyword::Params => "params"@,
            Keyword::Initialize => "initialize"@,
            Keyword::TimeStep => "time_step"@,
            Keyword::SpikeWhen => "spike_when"@,
            Keyword::GetVoltage => "get_voltage"@,
            Keyword::Reset => "reset"@,
            Keyword::WeightGetter => "weight_getter"@,
            Keyword::OnPre => "on_pre"@,
            Keyword::OnPost => "on_post"@,
        }
    }

    /// Whether `word` opens the section of this keyword. The section of the
    /// output may be opened by `get_current` as well: the output of a unit is
    /// a voltage or a current.
    pub open spec fn opened_by(self, word: Seq<char>) -> bool {
        word == self.spelled() || (self == Keyword::GetVoltage && word == "get_current"@)
    }

    /// The keyword as it is written.
    pub fn text(self) -> (text: &'static str)
        ensures
            text@ == self.spelled(),
    {
        match self {
            Keyword::Params => "params",
            Keyword::Initialize => "initialize",
            Keyword::TimeStep => "time_step",
            Keyword::SpikeWhen => "spike_when",
            Keyword::GetVoltage => "get_voltage",
            Keyword::Reset => "reset",
            Keyword::WeightGetter => "weight_getter",
            Keyword::OnPre => "on_pre",
            Keyword::OnPost => "on_post",
        }
    }
}

/// What the grammar asked for where it found something else.
#[derive(Clone, Copy, Debug, PartialEq, Eq)]
pub enum Expected {
    /// A name: an identifier that is no keyword of Rust.
    Name,
    /// The keyword of a section.
    Keyword(Keyword),
    /// A punctuation mark.
    Mark(char),
    /// A body in braces.
    Braces,
    /// A type.
    Type,
    /// An expression.
    Expression,
    /// The end of the specification.
    End,
}

/// Why a specification was not read: what was expected, and at which token.
#[derive(Clone, Copy, Debug, PartialEq, Eq)]
pub struct ParseError {
    pub expected: Expected,
    /// The section in whose body the token stands; `None` for a token that
    /// stands outside all braces.
    pub inside: Option<Keyword>,
    /// The index of the token among those of its body, or of the
    /// specification; their number, where the tokens ended too early. For a
    /// type or an expression, the index of its first token.
    pub at: usize,
}

impl ParseError {
    /// The error in words: what was expected.
    pub open spec fn words(self) -> Seq<char> {
        match self.expected {
            Expected::Name => "expected identifier"@,
            Expected::Keyword(keyword) => "Expected `"@ + keyword.spelled() + "` keyword"@,
            Expected::Mark(mark) => "expected `"@.push(mark).push('`'),
            Expected::Braces => "expected curly braces"@,
            Expected::Type => "expected a type"@,
            Expected::Expression => "expected an expression"@,
            Expected::End => "unexpected token"@,
        }
    }

    /// The error in words: what was expected.
    pub fn message(&self) -> (text: String)
        ensures
            text@ == self.words(),
    {
        match self.expected {
            Expected::Name => String::from_str("expected identifier"),
            Expected::Keyword(keyword) => {
                let mut text = String::from_str("Expected `");
                text.append(keyword.text());
                text.append("` keyword");
                text
            },
            Expected::Mark(mark) => {
                let mut text = String::from_str("expected `");
                push_char(&mut text, mark);
                push_char(&mut text, '`');
                text
            },
            Expected::Braces => String::from_str("expected curly braces"),
            Expected::Type => String::from_str("expected a type"),
            Expected::Expression => String::from_str("expected an expression"),
            Expected::End => String::from_str("unexpected token"),
        }
    }
}

/// Whether a token is the punctuation mark `mark`.
pub open spec fn is_mark(token: TokenView, mark: char) -> bool {
    token matches TokenView::Punct(found, _) && found == mark
}

/// The error of one token.
pub open spec fn missing(expected: Expected, inside: Option<Keyword>, at: int) -> ParseError {
    ParseError { expected, inside, at: at as usize }
}

/// The keyword of a section is expected at index `at`.
pub open spec fn keyword_at(tokens: Seq<TokenView>, at: int, keyword: Keyword) -> Result<
    (),
    ParseError,
> {
    if 0 <= at < tokens.len() && (tokens[at] matches TokenView::Ident(word) && keyword.opened_by(
        word,
    )) {
        Ok(())
    } else {
        Err(missing(Expected::Keyword(keyword), None, at))
    }
}

/// A name is expected at index `at`, before index `to`.
pub open spec fn name_at(tokens: Seq<TokenView>, at: int, to: int, inside: Option<Keyword>) -> Result<
    Seq<char>,
    ParseError,
> {
    if 0 <= at < to <= tokens.len() && (tokens[at] matches TokenView::Ident(word) && reads_as_ident(
        word,
    )) {
        Ok(tokens[at]->Ident_0)
    } else {
        Err(missing(Expected::Name, inside, at))
    }
}

/// The punctuation mark `mark` is expected at index `at`, before index `to`.
pub open spec fn mark_at(
    tokens: Seq<TokenView>,
    at: int,
    to: int,
    mark: char,
    inside: Option<Keyword>,
) -> Result<(), ParseError> {
    if 0 <= at < to <= tokens.len() && is_mark(tokens[at], mark) {
        Ok(())
    } else {
        Err(missing(Expected::Mark(mark), inside, at))
    }
}

/// A body in braces is expected at index `at`.
pub open spec fn braces_at(tokens: Seq<TokenView>, at: int) -> Result<Seq<TokenView>, ParseError> {
    if 0 <= at < tokens.len() && (tokens[at] matches TokenView::Group(delimiter, _) && delimiter
        == Delimiter::Brace) {
        Ok(tokens[at]->Group_1)
    } else {
        Err(missing(Expected::Braces, None, at))
    }
}

/// The view of a token of a vector is the token of the vector's view.
pub proof fn lemma_token_view(tokens: &Vec<Token>, at: int)
    requires
        0 <= at < tokens.len(),
    ensures
        tokens.deep_view()[at] == tokens@[at].deep_view(),
        tokens.deep_view().len() == tokens.len(),
{
}

/// Reads the keyword of a section at index `at`.
pub fn expect_str(tokens: &Vec<Token>, at: usize, keyword: Keyword) -> (found: Result<
    (),
    ParseError,
>)
    ensures
        found == keyword_at(tokens.deep_view(), at as int, keyword),
        found.is_ok() ==> at < tokens.len(),
{
    if at < tokens.len() {
        proof {
            lemma_token_view(tokens, at as int);
        }
        if let Token::Ident(word) = &tokens[at] {
            let opens = *word == String::from_str(keyword.text()) || (keyword == Keyword::GetVoltage
                && *word == String::from_str("get_current"));
            if opens {
                return Ok(());
            }
        }
    }
    Err(ParseError { expected: Expected::Keyword(keyword), inside: None, at })
}

/// Reads a name at index `at`, before index `to`.
pub fn expect_name(tokens: &Vec<Token>, at: usize, to: usize, inside: Option<Keyword>) -> (found:
    Result<String, ParseError>)
    requires
        to <= tokens.len(),
    ensures
        match found {
            Ok(name) => name_at(tokens.deep_view(), at as int, to as int, inside) == Ok::<
                Seq<char>,
                ParseError,
            >(name@),
            Err(error) => name_at(tokens.deep_view(), at as int, to as int, inside) == Err::<
                Seq<char>,
                ParseError,
            >(error),
        },
{
    if at < to {
        proof {
            lemma_token_view(tokens, at as int);
        }
        if let Token::Ident(word) = &tokens[at] {
            if is_name(word) {
                return Ok(word.clone());
            }
        }
    }
    Err(ParseError { expected: Expected::Name, inside, at })
}

/// Reads the punctuation mark `mark` at index `at`, before index `to`.
pub fn expect_mark(
    tokens: &Vec<Token>,
    at: usize,
    to: usize,
    mark: char,
    inside: Option<Keyword>,
) -> (found: Result<(), ParseError>)
    requires
        to <= tokens.len(),
    ensures
        found == mark_at(tokens.deep_view(), at as int, to as int, mark, inside),
{
    if at < to {
        proof {
            lemma_token_view(tokens, at as int);
        }
        if let Token::Punct(found, _) = &tokens[at] {
            if *found == mark {
                return Ok(());
            }
        }
    }
    Err(ParseError { expected: Expected::Mark(mark), inside, at })
}

/// Reads a body in braces at index `at`.
pub fn expect_braces(tokens: &Vec<Token>, at: usize) -> (found: Result<&Vec<Token>, ParseError>)
    ensures
        found.is_ok() ==> at < tokens.len(),
        match found {
            Ok(body) => braces_at(tokens.deep_view(), at as int) == Ok::<Seq<TokenView>, ParseError>(
                body.deep_view(),
            ),
            Err(error) => braces_at(tokens.deep_view(), at as int) == Err::<
                Seq<TokenView>,
                ParseError,
            >(error),
        },
{
    if at < tokens.len() {
        proof {
            lemma_token_view(tokens, at as int);
        }
        if let Token::Group(delimiter, body) = &tokens[at] {
            if let Delimiter::Brace = delimiter {
                proof {
                    crate::macros::tokens::lemma_group_view(*delimiter, *body);
                }
                return Ok(body);
            }
        }
    }
    Err(ParseError { expected: Expected::Braces, inside: None, at })
}

/// Whether the token at index `at` is the head of an arrow, `->`, and so
/// closes no angle bracket.
pub open spec fn arrow_head(tokens: Seq<TokenView>, at: int) -> bool {
    0 < at < tokens.len() && tokens[at - 1] == TokenView::Punct('-', true) && is_mark(
        tokens[at],
        '>',
    )
}

/// Where a piece that starts at index `at` ends: at the first of the marks
/// `first` and `second` that stands outside all angle brackets opened since,
/// or at `to` if there is none. `depth` counts the angle brackets that are
/// open at `at`. With `angles` off, `<` and `>` are marks like any other, as
/// they are in expressions.
pub open spec fn leaf_end(
    tokens: Seq<TokenView>,
    at: int,
    to: int,
    depth: nat,
    first: char,
    second: char,
    angles: bool,
) -> int
    decreases to - at,
{
    if !(0 <= at < to <= tokens.len()) {
        to
    } else if depth == 0 && (is_mark(tokens[at], first) || is_mark(tokens[at], second))
        && !arrow_head(tokens, at) {
        at
    } else if angles && is_mark(tokens[at], '<') {
        leaf_end(tokens, at + 1, to, depth + 1, first, second, angles)
    } else if angles && depth > 0 && is_mark(tokens[at], '>') && !arrow_head(tokens, at) {
        leaf_end(tokens, at + 1, to, (depth - 1) as nat, first, second, angles)
    } else {
        leaf_end(tokens, at + 1, to, depth, first, second, angles)
    }
}

/// A piece ends between its start and the bound.
pub proof fn lemma_leaf_end_bounds(
    tokens: Seq<TokenView>,
    at: int,
    to: int,
    depth: nat,
    first: char,
    second: char,
    angles: bool,
)
    requires
        0 <= at <= to <= tokens.len(),
    ensures
        at <= leaf_end(tokens, at, to, depth, first, second, angles) <= to,
    decreases to - at,
{
    if at < to {
        lemma_leaf_end_bounds(tokens, at + 1, to, depth + 1, first, second, angles);
        lemma_leaf_end_bounds(tokens, at + 1, to, depth, first, second, angles);
        if depth > 0 {
            lemma_leaf_end_bounds(tokens, at + 1, to, (depth - 1) as nat, first, second, angles);
        }
    }
}

/// Whether the token at index `at` is the mark `mark`.
fn mark_stands_at(tokens: &Vec<Token>, at: usize, mark: char) -> (stands: bool)
    requires
        at < tokens.len(),
    ensures
        stands == is_mark(tokens.deep_view()[at as int], mark),
{
    proof {
        lemma_token_view(tokens, at as int);
    }
    match &tokens[at] {
        Token::Punct(found, _) => *found == mark,
        _ => false,
    }
}

/// Whether the token at index `at` is the head of an arrow.
fn arrow_head_at(tokens: &Vec<Token>, at: usize) -> (stands: bool)
    requires
        at < tokens.len(),
    ensures
        stands == arrow_head(tokens.deep_view(), at as int),
{
    if at == 0 {
        return false;
    }
    proof {
        lemma_token_view(tokens, at as int);
        lemma_token_view(tokens, at as int - 1);
    }
    let shaft = match &tokens[at - 1] {
        Token::Punct(found, joint) => *found == '-' && *joint,
        _ => false,
    };
    shaft && mark_stands_at(tokens, at, '>')
}

/// Finds where the piece that starts at index `from` ends.
pub fn find_leaf_end(
    tokens: &Vec<Token>,
    from: usize,
    to: usize,
    first: char,
    second: char,
    angles: bool,
) -> (end: usize)
    requires
        from <= to <= tokens.len(),
    ensures
        end == leaf_end(tokens.deep_view(), from as int, to as int, 0, first, second, angles),
        from <= end <= to,
{
    let ghost all = tokens.deep_view();
    let mut at: usize = from;
    let mut depth: usize = 0;
    while at < to
        invariant
            from <= at <= to <= tokens.len(),
            all == tokens.deep_view(),
            depth <= at - from,
            leaf_end(all, at as int, to as int, depth as nat, first, second, angles) == leaf_end(
                all,
                from as int,
                to as int,
                0,
                first,
                second,
                angles,
            ),
        decreases to - at,
    {
        let head = arrow_head_at(tokens, at);
        if depth == 0 && (mark_stands_at(tokens, at, first) || mark_stands_at(tokens, at, second))
            && !head {
            return at;
        }
        if angles && mark_stands_at(tokens, at, '<') {
            depth = depth + 1;
        } else if angles && depth > 0 && mark_stands_at(tokens, at, '>') && !head {
            depth = depth - 1;
        }
        at = at + 1;
    }
    to
}

/// A type is expected to fill the tokens from `from` up to `to`, of which
/// there is at least one.
pub open spec fn type_in(tokens: Seq<TokenView>, from: int, to: int, inside: Option<Keyword>) -> Result<
    Seq<TokenView>,
    ParseError,
> {
    if 0 <= from < to <= tokens.len() && reads_as_type(spelling(tokens.subrange(from, to), 0)) {
        Ok(tokens.subrange(from, to))
    } else {
        Err(missing(Expected::Type, inside, from))
    }
}

/// An expression is expected to fill the tokens from `from` up to `to`, of
/// which there is at least one.
pub open spec fn expr_in(tokens: Seq<TokenView>, from: int, to: int, inside: Option<Keyword>) -> Result<
    Seq<TokenView>,
    ParseError,
> {
    if 0 <= from < to <= tokens.len() && reads_as_expr(spelling(tokens.subrange(from, to), 0)) {
        Ok(tokens.subrange(from, to))
    } else {
        Err(missing(Expected::Expression, inside, from))
    }
}

/// A type of Rust, as the tokens that spell it.
#[derive(Debug, PartialEq, Eq)]
pub struct Type {
    pub tokens: Vec<Token>,
}

impl DeepView for Type {
    type V = Seq<TokenView>;

    open spec fn deep_view(&self) -> Seq<TokenView> {
        self.tokens.deep_view()
    }
}

/// An expression of Rust, as the tokens that spell it.
#[derive(Debug, PartialEq, Eq)]
pub struct Expr {
    pub tokens: Vec<Token>,
}

impl DeepView for Expr {
    type V = Seq<TokenView>;

    open spec fn deep_view(&self) -> Seq<TokenView> {
        self.tokens.deep_view()
    }
}

/// Reads the tokens from `from` up to `to` as one type.
pub fn expect_type(tokens: &Vec<Token>, from: usize, to: usize, inside: Option<Keyword>) -> (found:
    Result<Type, ParseError>)
    requires
        to <= tokens.len(),
    ensures
        match found {
            Ok(leaf) => type_in(tokens.deep_view(), from as int, to as int, inside) == Ok::<
                Seq<TokenView>,
                ParseError,
            >(leaf.deep_view()),
            Err(error) => type_in(tokens.deep_view(), from as int, to as int, inside) == Err::<
                Seq<TokenView>,
                ParseError,
            >(error),
        },
{
    if from < to {
        let leaf = copy_range(tokens, from, to);
        if is_type(&leaf) {
            return Ok(Type { tokens: leaf });
        }
    }
    Err(ParseError { expected: Expected::Type, inside, at: from })
}

/// Reads the tokens from `from` up to `to` as one expression.
pub fn expect_expr(tokens: &Vec<Token>, from: usize, to: usize, inside: Option<Keyword>) -> (found:
    Result<Expr, ParseError>)
    requires
        to <= tokens.len(),
    ensures
        match found {
            Ok(leaf) => expr_in(tokens.deep_view(), from as int, to as int, inside) == Ok::<
                Seq<TokenView>,
                ParseError,
            >(leaf.deep_view()),
            Err(error) => expr_in(tokens.deep_view(), from as int, to as int, inside) == Err::<
                Seq<TokenView>,
                ParseError,
            >(error),
        },
{
    if from < to {
        let leaf = copy_range(tokens, from, to);
        if is_expr(&leaf) {
            return Ok(Expr { tokens: leaf });
        }
    }
    Err(ParseError { expected: Expected::Expression, inside, at: from })
}

/// The header of a specification: the name of the unit, the type of its
/// output and the type of its time.
#[derive(Debug, PartialEq, Eq)]
pub struct NeuronType {
    pub name: String,
    pub voltage_type: Type,
    pub time_type: Type,
}

/// A header as mathematics.
pub struct NeuronTypeView {
    pub name: Seq<char>,
    pub voltage_type: Seq<TokenView>,
    pub time_type: Seq<TokenView>,
}

impl DeepView for NeuronType {
    type V = NeuronTypeView;

    open spec fn deep_view(&self) -> NeuronTypeView {
        NeuronTypeView {
            name: self.name@,
            voltage_type: self.voltage_type.deep_view(),
            time_type: self.time_type.deep_view(),
        }
    }
}

/// A parameter, `name: Type`.
#[derive(Debug, PartialEq, Eq)]
pub struct IdentAndType {
    pub name: String,
    pub typ: Type,
}

/// A parameter as mathematics.
pub struct IdentAndTypeView {
    pub name: Seq<char>,
    pub typ: Seq<TokenView>,
}

impl DeepView for IdentAndType {
    type V = IdentAndTypeView;

    open spec fn deep_view(&self) -> IdentAndTypeView {
        IdentAndTypeView { name: self.name@, typ: self.typ.deep_view() }
    }
}

/// A state variable with its first value, `name: Type = expr`.
#[derive(Debug, PartialEq, Eq)]
pub struct IdentAndValue {
    pub name: String,
    pub typ: Type,
    pub value: Expr,
}

/// A state variable as mathematics.
pub struct IdentAndValueView {
    pub name: Seq<char>,
    pub typ: Seq<TokenView>,
    pub value: Seq<TokenView>,
}

impl DeepView for IdentAndValue {
    type V = IdentAndValueView;

    open spec fn deep_view(&self) -> IdentAndValueView {
        IdentAndValueView {
            name: self.name@,
            typ: self.typ.deep_view(),
            value: self.value.deep_view(),
        }
    }
}

/// The left side of an equation: the name of a state variable, marked with
/// `@` where the equation gives its derivative in time.
#[derive(Debug, PartialEq, Eq)]
pub enum IdentOrDerivative {
    Ident(String),
    Derivative(String),
}

/// A left side as mathematics.
pub enum IdentOrDerivativeView {
    Ident(Seq<char>),
    Derivative(Seq<char>),
}

impl IdentOrDerivativeView {
    /// The state variable that the equation is about.
    pub open spec fn name(self) -> Seq<char> {
        match self {
            IdentOrDerivativeView::Ident(name) => name,
            IdentOrDerivativeView::Derivative(name) => name,
        }
    }
}

impl DeepView for IdentOrDerivative {
    type V = IdentOrDerivativeView;

    open spec fn deep_view(&self) -> IdentOrDerivativeView {
        match self {
            IdentOrDerivative::Ident(name) => IdentOrDerivativeView::Ident(name@),
            IdentOrDerivative::Derivative(name) => IdentOrDerivativeView::Derivative(name@),
        }
    }
}

/// An equation of the time step.
#[derive(Debug, PartialEq, Eq)]
pub struct Equation {
    pub left_side: IdentOrDerivative,
    pub right_side: Expr,
}

/// An equation as mathematics.
pub struct EquationView {
    pub left_side: IdentOrDerivativeView,
    pub right_side: Seq<TokenView>,
}

impl DeepView for Equation {
    type V = EquationView;

    open spec fn deep_view(&self) -> EquationView {
        EquationView {
            left_side: self.left_side.deep_view(),
            right_side: self.right_side.deep_view(),
        }
    }
}

/// What can be read from a run of tokens, one item of a list at a time.
pub trait Parse: Sized + DeepView {
    /// The grammar: the item that fills the tokens from `from` up to `to`, or
    /// the first place where they are not such an item.
    spec fn grammar(tokens: Seq<TokenView>, from: int, to: int, inside: Option<Keyword>) -> Result<
        <Self as DeepView>::V,
        ParseError,
    >;

    /// Reads the item that fills the tokens from `from` up to `to`.
    fn parse(tokens: &Vec<Token>, from: usize, to: usize, inside: Option<Keyword>) -> (found: Result<
        Self,
        ParseError,
    >)
        requires
            from <= to <= tokens.len(),
        ensures
            match found {
                Ok(item) => Self::grammar(tokens.deep_view(), from as int, to as int, inside)
                    == Ok::<<Self as DeepView>::V, ParseError>(item.deep_view()),
                Err(error) => Self::grammar(tokens.deep_view(), from as int, to as int, inside)
                    == Err::<<Self as DeepView>::V, ParseError>(error),
            },
    ;

    /// No item is made of no tokens.
    proof fn lemma_needs_tokens(tokens: Seq<TokenView>, at: int, inside: Option<Keyword>)
        ensures
            Self::grammar(tokens, at, at, inside) is Err,
    ;
}

/// The grammar of a parameter that fills the tokens from `from` up to `to`.
pub open spec fn ident_and_type(
    tokens: Seq<TokenView>,
    from: int,
    to: int,
    inside: Option<Keyword>,
) -> Result<IdentAndTypeView, ParseError> {
    match name_at(tokens, from, to, inside) {
        Err(error) => Err(error),
        Ok(name) => match mark_at(tokens, from + 1, to, ':', inside) {
            Err(error) => Err(error),
            Ok(_) => match type_in(tokens, from + 2, to, inside) {
                Err(error) => Err(error),
                Ok(typ) => Ok(IdentAndTypeView { name, typ }),
            },
        },
    }
}

/// The grammar of a state variable that fills the tokens from `from` up to
/// `to`. Its type ends at the first `=` outside angle brackets.
pub open spec fn ident_and_value(
    tokens: Seq<TokenView>,
    from: int,
    to: int,
    inside: Option<Keyword>,
) -> Result<IdentAndValueView, ParseError> {
    let equals = leaf_end(tokens, from + 2, to, 0, '=', '=', true);
    match name_at(tokens, from, to, inside) {
        Err(error) => Err(error),
        Ok(name) => match mark_at(tokens, from + 1, to, ':', inside) {
            Err(error) => Err(error),
            Ok(_) => match type_in(tokens, from + 2, equals, inside) {
                Err(error) => Err(error),
                Ok(typ) => match mark_at(tokens, equals, to, '=', inside) {
                    Err(error) => Err(error),
                    Ok(_) => match expr_in(tokens, equals + 1, to, inside) {
                        Err(error) => Err(error),
                        Ok(value) => Ok(IdentAndValueView { name, typ, value }),
                    },
                },
            },
        },
    }
}

/// The grammar of a left side that starts at index `from`: the left side and
/// the index behind it.
pub open spec fn ident_or_derivative(
    tokens: Seq<TokenView>,
    from: int,
    to: int,
    inside: Option<Keyword>,
) -> Result<(IdentOrDerivativeView, int), ParseError> {
    match name_at(tokens, from, to, inside) {
        Err(error) => Err(error),
        Ok(name) => if mark_at(tokens, from + 1, to, '@', inside).is_ok() {
            Ok((IdentOrDerivativeView::Derivative(name), from + 2))
        } else {
            Ok((IdentOrDerivativeView::Ident(name), from + 1))
        },
    }
}

/// The grammar of an equation that fills the tokens from `from` up to `to`.
pub open spec fn equation(tokens: Seq<TokenView>, from: int, to: int, inside: Option<Keyword>) -> Result<
    EquationView,
    ParseError,
> {
    match ident_or_derivative(tokens, from, to, inside) {
        Err(error) => Err(error),
        Ok((left_side, next)) => match mark_at(tokens, next, to, '=', inside) {
            Err(error) => Err(error),
            Ok(_) => match expr_in(tokens, next + 1, to, inside) {
                Err(error) => Err(error),
                Ok(right_side) => Ok(EquationView { left_side, right_side }),
            },
        },
    }
}

impl Parse for IdentAndType {
    proof fn lemma_needs_tokens(tokens: Seq<TokenView>, at: int, inside: Option<Keyword>) {
    }

    open spec fn grammar(tokens: Seq<TokenView>, from: int, to: int, inside: Option<Keyword>) -> Result<
        IdentAndTypeView,
        ParseError,
    > {
        ident_and_type(tokens, from, to, inside)
    }

    fn parse(tokens: &Vec<Token>, from: usize, to: usize, inside: Option<Keyword>) -> (found: Result<
        IdentAndType,
        ParseError,
    >)
    {
        let name = match expect_name(tokens, from, to, inside) {
            Ok(name) => name,
            Err(error) => return Err(error),
        };
        if let Err(error) = expect_mark(tokens, from + 1, to, ':', inside) {
            return Err(error);
        }
        match expect_type(tokens, from + 2, to, inside) {
            Ok(typ) => Ok(IdentAndType { name, typ }),
            Err(error) => Err(error),
        }
    }
}

impl Parse for IdentAndValue {
    proof fn lemma_needs_tokens(tokens: Seq<TokenView>, at: int, inside: Option<Keyword>) {
    }

    open spec fn grammar(tokens: Seq<TokenView>, from: int, to: int, inside: Option<Keyword>) -> Result<
        IdentAndValueView,
        ParseError,
    > {
        ident_and_value(tokens, from, to, inside)
    }

    fn parse(tokens: &Vec<Token>, from: usize, to: usize, inside: Option<Keyword>) -> (found: Result<
        IdentAndValue,
        ParseError,
    >)
    {
        let name = match expect_name(tokens, from, to, inside) {
            Ok(name) => name,
            Err(error) => return Err(error),
        };
        if let Err(error) = expect_mark(tokens, from + 1, to, ':', inside) {
            return Err(error);
        }
        let equals = find_leaf_end(tokens, from + 2, to, '=', '=', true);
        let typ = match expect_type(tokens, from + 2, equals, inside) {
            Ok(typ) => typ,
            Err(error) => return Err(error),
        };
        if let Err(error) = expect_mark(tokens, equals, to, '=', inside) {
            return Err(error);
        }
        match expect_expr(tokens, equals + 1, to, inside) {
            Ok(value) => Ok(IdentAndValue { name, typ, value }),
            Err(error) => Err(error),
        }
    }

}

impl IdentAndValue {
    /// The variable without its first value, as a parameter is written.
    pub fn drop_value(&self) -> (field: IdentAndType)
        ensures
            field.deep_view() == (IdentAndTypeView {
                name: self.deep_view().name,
                typ: self.deep_view().typ,
            }),
    {
        let tokens = copy_range(&self.typ.tokens, 0, self.typ.tokens.len());
        assert(self.typ.deep_view().subrange(0, self.typ.tokens.len() as int)
            =~= self.typ.deep_view());
        IdentAndType { name: self.name.clone(), typ: Type { tokens } }
    }
}

impl IdentOrDerivative {
    /// Reads a left side that starts at index `from`, and says where it ends.
    pub fn parse(tokens: &Vec<Token>, from: usize, to: usize, inside: Option<Keyword>) -> (found:
        Result<(IdentOrDerivative, usize), ParseError>)
        requires
            from <= to <= tokens.len(),
        ensures
            match found {
                Ok((left, next)) => ident_or_derivative(
                    tokens.deep_view(),
                    from as int,
                    to as int,
                    inside,
                ) == Ok::<(IdentOrDerivativeView, int), ParseError>((left.deep_view(), next as int))
                    && from < next <= to,
                Err(error) => ident_or_derivative(tokens.deep_view(), from as int, to as int, inside)
                    == Err::<(IdentOrDerivativeView, int), ParseError>(error),
            },
    {
        let name = match expect_name(tokens, from, to, inside) {
            Ok(name) => name,
            Err(error) => return Err(error),
        };
        if expect_mark(tokens, from + 1, to, '@', inside).is_ok() {
            Ok((IdentOrDerivative::Derivative(name), from + 2))
        } else {
            Ok((IdentOrDerivative::Ident(name), from + 1))
        }
    }
}

impl Parse for Equation {
    proof fn lemma_needs_tokens(tokens: Seq<TokenView>, at: int, inside: Option<Keyword>) {
    }

    open spec fn grammar(tokens: Seq<TokenView>, from: int, to: int, inside: Option<Keyword>) -> Result<
        EquationView,
        ParseError,
    > {
        equation(tokens, from, to, inside)
    }

    fn parse(tokens: &Vec<Token>, from: usize, to: usize, inside: Option<Keyword>) -> (found: Result<
        Equation,
        ParseError,
    >)
    {
        let (left_side, next) = match IdentOrDerivative::parse(tokens, from, to, inside) {
            Ok(found) => found,
            Err(error) => return Err(error),
        };
        if let Err(error) = expect_mark(tokens, next, to, '=', inside) {
            return Err(error);
        }
        match expect_expr(tokens, next + 1, to, inside) {
            Ok(right_side) => Ok(Equation { left_side, right_side }),
            Err(error) => Err(error),
        }
    }
}

impl Parse for Expr {
    proof fn lemma_needs_tokens(tokens: Seq<TokenView>, at: int, inside: Option<Keyword>) {
    }

    open spec fn grammar(tokens: Seq<TokenView>, from: int, to: int, inside: Option<Keyword>) -> Result<
        Seq<TokenView>,
        ParseError,
    > {
        expr_in(tokens, from, to, inside)
    }

    fn parse(tokens: &Vec<Token>, from: usize, to: usize, inside: Option<Keyword>) -> (found: Result<
        Expr,
        ParseError,
    >) {
        expect_expr(tokens, from, to, inside)
    }
}

/// What has been read with what is still to be read behind it.
pub open spec fn behind<V>(read: Seq<V>, rest: Result<Seq<V>, ParseError>) -> Result<
    Seq<V>,
    ParseError,
> {
    match rest {
        Ok(rest) => Ok(read + rest),
        Err(error) => Err(error),
    }
}

/// The grammar of a list from index `from` of a body on: items with one
/// `separator` between each two, at least one item, and no separator at the
/// end. An item ends at the next separator; in a list of commas, at the next
/// that stands outside angle brackets.
pub open spec fn delimited<T: Parse>(
    body: Seq<TokenView>,
    from: int,
    separator: char,
    section: Keyword,
) -> Result<Seq<<T as DeepView>::V>, ParseError>
    decreases body.len() - from,
{
    let end = leaf_end(body, from, body.len() as int, 0, separator, separator, separator == ',');
    match T::grammar(body, from, end, Some(section)) {
        Err(error) => Err(error),
        Ok(item) => if from <= end < body.len() {
            behind(seq![item], delimited::<T>(body, end + 1, separator, section))
        } else {
            Ok(seq![item])
        },
    }
}

/// The grammar of a section body at index `at` that holds a list.
pub open spec fn delimited_within_braces<T: Parse>(
    tokens: Seq<TokenView>,
    at: int,
    separator: char,
    section: Keyword,
) -> Result<Seq<<T as DeepView>::V>, ParseError> {
    match braces_at(tokens, at) {
        Err(error) => Err(error),
        Ok(body) => delimited::<T>(body, 0, separator, section),
    }
}

/// Reads the body in braces at index `at` as a list of items of `T`.
pub fn get_delimited_within_braces<T: Parse>(
    tokens: &Vec<Token>,
    at: usize,
    separator: char,
    section: Keyword,
) -> (found: Result<Vec<T>, ParseError>)
    ensures
        found.is_ok() ==> at < tokens.len(),
        match found {
            Ok(items) => delimited_within_braces::<T>(tokens.deep_view(), at as int, separator, section)
                == Ok::<Seq<<T as DeepView>::V>, ParseError>(items.deep_view()),
            Err(error) => delimited_within_braces::<T>(
                tokens.deep_view(),
                at as int,
                separator,
                section,
            ) == Err::<Seq<<T as DeepView>::V>, ParseError>(error),
        },
{
    let body = match expect_braces(tokens, at) {
        Ok(body) => body,
        Err(error) => return Err(error),
    };
    let ghost all = body.deep_view();
    let mut items: Vec<T> = Vec::new();
    let mut from: usize = 0;
    loop
        invariant
            from <= body.len(),
            at < tokens.len(),
            all == body.deep_view(),
            braces_at(tokens.deep_view(), at as int) == Ok::<Seq<TokenView>, ParseError>(all),
            delimited::<T>(all, 0, separator, section) == behind(
                items.deep_view(),
                delimited::<T>(all, from as int, separator, section),
            ),
        decreases body.len() - from,
    {
        let end = find_leaf_end(body, from, body.len(), separator, separator, separator == ',');
        let ghost read = items.deep_view();
        match T::parse(body, from, end, Some(section)) {
            Err(error) => {
                return Err(error);
            },
            Ok(item) => {
                items.push(item);
                assert(items.deep_view() =~= read.push(item.deep_view()));
            },
        }
        if end >= body.len() {
            assert(read + seq![items.deep_view().last()] =~= items.deep_view());
            return Ok(items);
        }
        proof {
            let rest = delimited::<T>(all, end as int + 1, separator, section);
            if let Ok(rest) = rest {
                assert(read + (seq![items.deep_view().last()] + rest) =~= items.deep_view() + rest);
            }
        }
        from = end + 1;
    }
}

/// The grammar of a section at index `at` whose body is a list: the list.
pub open spec fn list_section<T: Parse>(
    tokens: Seq<TokenView>,
    at: int,
    keyword: Keyword,
    separator: char,
) -> Result<Seq<<T as DeepView>::V>, ParseError> {
    match keyword_at(tokens, at, keyword) {
        Err(error) => Err(error),
        Ok(_) => delimited_within_braces::<T>(tokens, at + 1, separator, keyword),
    }
}

/// The grammar of a section at index `at` whose body is one expression.
pub open spec fn expr_section(tokens: Seq<TokenView>, at: int, keyword: Keyword) -> Result<
    Seq<TokenView>,
    ParseError,
> {
    match keyword_at(tokens, at, keyword) {
        Err(error) => Err(error),
        Ok(_) => match braces_at(tokens, at + 1) {
            Err(error) => Err(error),
            Ok(body) => expr_in(body, 0, body.len() as int, Some(keyword)),
        },
    }
}

/// Reads the section at index `at` whose body is a list.
pub fn read_list_section<T: Parse>(
    tokens: &Vec<Token>,
    at: usize,
    keyword: Keyword,
    separator: char,
) -> (found: Result<Vec<T>, ParseError>)
    ensures
        match found {
            Ok(items) => list_section::<T>(tokens.deep_view(), at as int, keyword, separator) == Ok::<
                Seq<<T as DeepView>::V>,
                ParseError,
            >(items.deep_view()) && at + 2 <= tokens.len(),
            Err(error) => list_section::<T>(tokens.deep_view(), at as int, keyword, separator)
                == Err::<Seq<<T as DeepView>::V>, ParseError>(error),
        },
{
    if let Err(error) = expect_str(tokens, at, keyword) {
        return Err(error);
    }
    get_delimited_within_braces::<T>(tokens, at + 1, separator, keyword)
}

/// Reads the section at index `at` whose body is one expression.
pub fn read_expr_section(tokens: &Vec<Token>, at: usize, keyword: Keyword) -> (found: Result<
    Expr,
    ParseError,
>)
    ensures
        match found {
            Ok(body) => expr_section(tokens.deep_view(), at as int, keyword) == Ok::<
                Seq<TokenView>,
                ParseError,
            >(body.deep_view()) && at + 2 <= tokens.len(),
            Err(error) => expr_section(tokens.deep_view(), at as int, keyword) == Err::<
                Seq<TokenView>,
                ParseError,
            >(error),
        },
{
    if let Err(error) = expect_str(tokens, at, keyword) {
        return Err(error);
    }
    let body = match expect_braces(tokens, at + 1) {
        Ok(body) => body,
        Err(error) => return Err(error),
    };
    expect_expr(body, 0, body.len(), Some(keyword))
}

/// The grammar of a header, `Name<Output, Time>`: the header and the index
/// behind it. The first type ends at the first `,` or `>` outside angle
/// brackets of its own, and so does the second.
pub open spec fn neuron_type(tokens: Seq<TokenView>) -> Result<(NeuronTypeView, int), ParseError> {
    let len = tokens.len() as int;
    let comma = leaf_end(tokens, 2, len, 0, ',', '>', true);
    let close = leaf_end(tokens, comma + 1, len, 0, ',', '>', true);
    match name_at(tokens, 0, len, None) {
        Err(error) => Err(error),
        Ok(name) => match mark_at(tokens, 1, len, '<', None) {
            Err(error) => Err(error),
            Ok(_) => match type_in(tokens, 2, comma, None) {
                Err(error) => Err(error),
                Ok(voltage_type) => match mark_at(tokens, comma, len, ',', None) {
                    Err(error) => Err(error),
                    Ok(_) => match type_in(tokens, comma + 1, close, None) {
                        Err(error) => Err(error),
                        Ok(time_type) => match mark_at(tokens, close, len, '>', None) {
                            Err(error) => Err(error),
                            Ok(_) => Ok(
                                (NeuronTypeView { name, voltage_type, time_type }, close + 1),
                            ),
                        },
                    },
                },
            },
        },
    }
}

impl NeuronType {
    /// Reads the header at the start of a specification, and says where it
    /// ends.
    pub fn parse(tokens: &Vec<Token>) -> (found: Result<(NeuronType, usize), ParseError>)
        ensures
            match found {
                Ok((header, next)) => neuron_type(tokens.deep_view()) == Ok::<
                    (NeuronTypeView, int),
                    ParseError,
                >((header.deep_view(), next as int)) && next <= tokens.len(),
                Err(error) => neuron_type(tokens.deep_view()) == Err::<
                    (NeuronTypeView, int),
                    ParseError,
                >(error),
            },
    {
        let len = tokens.len();
        let name = match expect_name(tokens, 0, len, None) {
            Ok(name) => name,
            Err(error) => return Err(error),
        };
        if let Err(error) = expect_mark(tokens, 1, len, '<', None) {
            return Err(error);
        }
        let comma = find_leaf_end(tokens, 2, len, ',', '>', true);
        let voltage_type = match expect_type(tokens, 2, comma, None) {
            Ok(found) => found,
            Err(error) => return Err(error),
        };
        if let Err(error) = expect_mark(tokens, comma, len, ',', None) {
            return Err(error);
        }
        let close = find_leaf_end(tokens, comma + 1, len, ',', '>', true);
        let time_type = match expect_type(tokens, comma + 1, close, None) {
            Ok(found) => found,
            Err(error) => return Err(error),
        };
        if let Err(error) = expect_mark(tokens, close, len, '>', None) {
            return Err(error);
        }
        Ok((NeuronType { name, voltage_type, time_type }, close + 1))
    }
}

/// The end of the specification is expected at index `at`.
pub open spec fn end_at(tokens: Seq<TokenView>, at: int) -> Result<(), ParseError> {
    if at == tokens.len() {
        Ok(())
    } else {
        Err(missing(Expected::End, None, at))
    }
}

/// Checks that the specification ends at index `at`.
pub fn expect_end(tokens: &Vec<Token>, at: usize) -> (found: Result<(), ParseError>)
    ensures
        found == end_at(tokens.deep_view(), at as int),
{
    if at == tokens.len() {
        Ok(())
    } else {
        Err(ParseError { expected: Expected::End, inside: None, at })
    }
}

/// The specification of a neuron.
#[derive(Debug, PartialEq, Eq)]
pub struct NeuronDef {
    pub neuron_type: NeuronType,
    pub param_list: Vec<IdentAndType>,
    pub initialize_list: Vec<IdentAndValue>,
    pub time_step: Vec<Equation>,
    pub spike_when: Expr,
    pub voltage_getter: Expr,
    pub reset: Vec<Expr>,
}

/// The specification of a neuron as mathematics.
pub struct NeuronDefView {
    pub neuron_type: NeuronTypeView,
    pub param_list: Seq<IdentAndTypeView>,
    pub initialize_list: Seq<IdentAndValueView>,
    pub time_step: Seq<EquationView>,
    pub spike_when: Seq<TokenView>,
    pub voltage_getter: Seq<TokenView>,
    pub reset: Seq<Seq<TokenView>>,
}

impl DeepView for NeuronDef {
    type V = NeuronDefView;

    open spec fn deep_view(&self) -> NeuronDefView {
        NeuronDefView {
            neuron_type: self.neuron_type.deep_view(),
            param_list: self.param_list.deep_view(),
            initialize_list: self.initialize_list.deep_view(),
            time_step: self.time_step.deep_view(),
            spike_when: self.spike_when.deep_view(),
            voltage_getter: self.voltage_getter.deep_view(),
            reset: self.reset.deep_view(),
        }
    }
}

/// The grammar of the specification of a neuron: the header, a colon, and
/// the sections `params`, `initialize`, `time_step`, `spike_when`,
/// `get_voltage` and `reset`, in this order and with nothing behind them.
pub open spec fn neuron_def(tokens: Seq<TokenView>) -> Result<NeuronDefView, ParseError> {
    match neuron_type(tokens) {
        Err(error) => Err(error),
        Ok((neuron_type, next)) => match mark_at(tokens, next, tokens.len() as int, ':', None) {
            Err(error) => Err(error),
            Ok(_) => match list_section::<IdentAndType>(tokens, next + 1, Keyword::Params, ',') {
                Err(error) => Err(error),
                Ok(param_list) => match list_section::<IdentAndValue>(
                    tokens,
                    next + 3,
                    Keyword::Initialize,
                    ';',
                ) {
                    Err(error) => Err(error),
                    Ok(initialize_list) => match list_section::<Equation>(
                        tokens,
                        next + 5,
                        Keyword::TimeStep,
                        ';',
                    ) {
                        Err(error) => Err(error),
                        Ok(time_step) => match expr_section(tokens, next + 7, Keyword::SpikeWhen) {
                            Err(error) => Err(error),
                            Ok(spike_when) => match expr_section(
                                tokens,
                                next + 9,
                                Keyword::GetVoltage,
                            ) {
                                Err(error) => Err(error),
                                Ok(voltage_getter) => match list_section::<Expr>(
                                    tokens,
                                    next + 11,
                                    Keyword::Reset,
                                    ';',
                                ) {
                                    Err(error) => Err(error),
                                    Ok(reset) => match end_at(tokens, next + 13) {
                                        Err(error) => Err(error),
                                        Ok(_) => Ok(
                                            NeuronDefView {
                                                neuron_type,
                                                param_list,
                                                initialize_list,
                                                time_step,
                                                spike_when,
                                                voltage_getter,
                                                reset,
                                            },
                                        ),
                                    },
                                },
                            },
                        },
                    },
                },
            },
        },
    }
}

impl NeuronDef {
    /// Reads the specification of a neuron.
    pub fn parse(tokens: &Vec<Token>) -> (found: Result<NeuronDef, ParseError>)
        ensures
            match found {
                Ok(def) => neuron_def(tokens.deep_view()) == Ok::<NeuronDefView, ParseError>(
                    def.deep_view(),
                ),
                Err(error) => neuron_def(tokens.deep_view()) == Err::<NeuronDefView, ParseError>(
                    error,
                ),
            },
    {
        let (neuron_type, next) = match NeuronType::parse(tokens) {
            Ok(found) => found,
            Err(error) => return Err(error),
        };
        if let Err(error) = expect_mark(tokens, next, tokens.len(), ':', None) {
            return Err(error);
        }
        let param_list = match read_list_section::<IdentAndType>(
            tokens,
            next + 1,
            Keyword::Params,
            ',',
        ) {
            Ok(found) => found,
            Err(error) => return Err(error),
        };
        let initialize_list = match read_list_section::<IdentAndValue>(
            tokens,
            next + 3,
            Keyword::Initialize,
            ';',
        ) {
            Ok(found) => found,
            Err(error) => return Err(error),
        };
        let time_step = match read_list_section::<Equation>(tokens, next + 5, Keyword::TimeStep, ';') {
            Ok(found) => found,
            Err(error) => return Err(error),
        };
        let spike_when = match read_expr_section(tokens, next + 7, Keyword::SpikeWhen) {
            Ok(found) => found,
            Err(error) => return Err(error),
        };
        let voltage_getter = match read_expr_section(tokens, next + 9, Keyword::GetVoltage) {
            Ok(found) => found,
            Err(error) => return Err(error),
        };
        let reset = match read_list_section::<Expr>(tokens, next + 11, Keyword::Reset, ';') {
            Ok(found) => found,
            Err(error) => return Err(error),
        };
        if let Err(error) = expect_end(tokens, next + 13) {
            return Err(error);
        }
        Ok(
            NeuronDef {
                neuron_type,
                param_list,
                initialize_list,
                time_step,
                spike_when,
                voltage_getter,
                reset,
            },
        )
    }
}

/// The specification of a synapse.
#[derive(Debug, PartialEq, Eq)]
pub struct SynapseDef {
    pub synapse_type: NeuronType,
    pub param_list: Vec<IdentAndType>,
    pub initialize_list: Vec<IdentAndValue>,
    pub time_step: Vec<Equation>,
    pub weight_getter: Expr,
    pub pre_synapse_spike: Vec<Expr>,
    pub post_synapse_spike: Vec<Expr>,
}

/// The specification of a synapse as mathematics.
pub struct SynapseDefView {
    pub synapse_type: NeuronTypeView,
    pub param_list: Seq<IdentAndTypeView>,
    pub initialize_list: Seq<IdentAndValueView>,
    pub time_step: Seq<EquationView>,
    pub weight_getter: Seq<TokenView>,
    pub pre_synapse_spike: Seq<Seq<TokenView>>,
    pub post_synapse_spike: Seq<Seq<TokenView>>,
}

impl DeepView for SynapseDef {
    type V = SynapseDefView;

    open spec fn deep_view(&self) -> SynapseDefView {
        SynapseDefView {
            synapse_type: self.synapse_type.deep_view(),
            param_list: self.param_list.deep_view(),
            initialize_list: self.initialize_list.deep_view(),
            time_step: self.time_step.deep_view(),
            weight_getter: self.weight_getter.deep_view(),
            pre_synapse_spike: self.pre_synapse_spike.deep_view(),
            post_synapse_spike: self.post_synapse_spike.deep_view(),
        }
    }
}

/// The grammar of the specification of a synapse: the header, a colon, and
/// the sections `params`, `initialize`, `time_step`, `weight_getter`,
/// `on_pre` and `on_post`, in this order and with nothing behind them.
pub open spec fn synapse_def(tokens: Seq<TokenView>) -> Result<SynapseDefView, ParseError> {
    match neuron_type(tokens) {
        Err(error) => Err(error),
        Ok((synapse_type, next)) => match mark_at(tokens, next, tokens.len() as int, ':', None) {
            Err(error) => Err(error),
            Ok(_) => match list_section::<IdentAndType>(tokens, next + 1, Keyword::Params, ',') {
                Err(error) => Err(error),
                Ok(param_list) => match list_section::<IdentAndValue>(
                    tokens,
                    next + 3,
                    Keyword::Initialize,
                    ';',
                ) {
                    Err(error) => Err(error),
                    Ok(initialize_list) => match list_section::<Equation>(
                        tokens,
                        next + 5,
                        Keyword::TimeStep,
                        ';',
                    ) {
                        Err(error) => Err(error),
                        Ok(time_step) => match expr_section(
                            tokens,
                            next + 7,
                            Keyword::WeightGetter,
                        ) {
                            Err(error) => Err(error),
                            Ok(weight_getter) => match list_section::<Expr>(
                                tokens,
                                next + 9,
                                Keyword::OnPre,
                                ';',
                            ) {
                                Err(error) => Err(error),
                                Ok(pre_synapse_spike) => match list_section::<Expr>(
                                    tokens,
                                    next + 11,
                                    Keyword::OnPost,
                                    ';',
                                ) {
                                    Err(error) => Err(error),
                                    Ok(post_synapse_spike) => match end_at(tokens, next + 13) {
                                        Err(error) => Err(error),
                                        Ok(_) => Ok(
                                            SynapseDefView {
                                                synapse_type,
                                                param_list,
                                                initialize_list,
                                                time_step,
                                                weight_getter,
                                                pre_synapse_spike,
                                                post_synapse_spike,
                                            },
                                        ),
                                    },
                                },
                            },
                        },
                    },
                },
            },
        },
    }
}

impl SynapseDef {
    /// Reads the specification of a synapse.
    pub fn parse(tokens: &Vec<Token>) -> (found: Result<SynapseDef, ParseError>)
        ensures
            match found {
                Ok(def) => synapse_def(tokens.deep_view()) == Ok::<SynapseDefView, ParseError>(
                    def.deep_view(),
                ),
                Err(error) => synapse_def(tokens.deep_view()) == Err::<SynapseDefView, ParseError>(
                    error,
                ),
            },
    {
        let (synapse_type, next) = match NeuronType::parse(tokens) {
            Ok(found) => found,
            Err(error) => return Err(error),
        };
        if let Err(error) = expect_mark(tokens, next, tokens.len(), ':', None) {
            return Err(error);
        }
        let param_list = match read_list_section::<IdentAndType>(
            tokens,
            next + 1,
            Keyword::Params,
            ',',
        ) {
            Ok(found) => found,
            Err(error) => return Err(error),
        };
        let initialize_list = match read_list_section::<IdentAndValue>(
            tokens,
            next + 3,
            Keyword::Initialize,
            ';',
        ) {
            Ok(found) => found,
            Err(error) => return Err(error),
        };
        let time_step = match read_list_section::<Equation>(tokens, next + 5, Keyword::TimeStep, ';') {
            Ok(found) => found,
            Err(error) => return Err(error),
        };
        let weight_getter = match read_expr_section(tokens, next + 7, Keyword::WeightGetter) {
            Ok(found) => found,
            Err(error) => return Err(error),
        };
        let pre_synapse_spike = match read_list_section::<Expr>(tokens, next + 9, Keyword::OnPre, ';') {
            Ok(found) => found,
            Err(error) => return Err(error),
        };
        let post_synapse_spike = match read_list_section::<Expr>(
            tokens,
            next + 11,
            Keyword::OnPost,
            ';',
        ) {
            Ok(found) => found,
            Err(error) => return Err(error),
        };
        if let Err(error) = expect_end(tokens, next + 13) {
            return Err(error);
        }
        Ok(
            SynapseDef {
                synapse_type,
                param_list,
                initialize_list,
                time_step,
                weight_getter,
                pre_synapse_spike,
                post_synapse_spike,
            },
        )
    }
}

/// An empty body is no list: whatever the items are, a section whose braces
/// hold nothing is refused.
pub proof fn lemma_empty_list_is_refused<T: Parse>(separator: char, section: Keyword)
    ensures
        delimited::<T>(Seq::<TokenView>::empty(), 0, separator, section) is Err,
{
    let body = Seq::<TokenView>::empty();
    assert(leaf_end(body, 0, 0, 0, separator, separator, separator == ',') == 0);
    T::lemma_needs_tokens(body, 0, Some(section));
}

/// A list does not end in its separator: a body whose last token is a
/// semicolon is no list of items between semicolons.
pub proof fn lemma_trailing_semicolon_is_refused<T: Parse>(
    body: Seq<TokenView>,
    from: int,
    section: Keyword,
)
    requires
        0 <= from < body.len(),
        is_mark(body.last(), ';'),
    ensures
        delimited::<T>(body, from, ';', section) is Err,
    decreases body.len() - from,
{
    let len = body.len() as int;
    let end = leaf_end(body, from, len, 0, ';', ';', false);
    lemma_leaf_end_bounds(body, from, len, 0, ';', ';', false);
    lemma_leaf_end_stops(body, from, len, ';');
    if T::grammar(body, from, end, Some(section)) is Ok {
        assert(end < len);
        if end + 1 < len {
            lemma_trailing_semicolon_is_refused::<T>(body, end + 1, section);
        } else {
            assert(leaf_end(body, len, len, 0, ';', ';', false) == len);
            T::lemma_needs_tokens(body, len, Some(section));
        }
    }
}

/// Among marks that are no angle brackets, and with angle brackets left
/// alone, a piece ends at the first token that is the mark.
pub proof fn lemma_leaf_end_stops(tokens: Seq<TokenView>, at: int, to: int, stop: char)
    requires
        0 <= at <= to <= tokens.len(),
        stop != '>',
    ensures
        ({
            let end = leaf_end(tokens, at, to, 0, stop, stop, false);
            &&& forall|i: int| at <= i < end ==> !is_mark(tokens[i], stop)
            &&& end < to ==> is_mark(tokens[end], stop)
        }),
    decreases to - at,
{
    if at < to {
        lemma_leaf_end_stops(tokens, at + 1, to, stop);
    }
}

} // verus!
