//! Token trees: what a model specification is read from and what a generated
//! unit is written as.

use proc_macro2::{Spacing, TokenStream, TokenTree};
use std::str::FromStr;
use vstd::prelude::*;

verus! {

/// The brackets around a group of tokens.
#[derive(Clone, Copy, Debug, PartialEq, Eq, Structural)]
pub enum Delimiter {
    /// `( ... )`
    Parenthesis,
    /// `{ ... }`
    Brace,
    /// `[ ... ]`
    Bracket,
    /// No visible brackets.
    Invisible,
}

/// One token, or a bracketed group of them.
#[derive(Debug, PartialEq, Eq)]
pub enum Token {
    /// A word: a name or a keyword.
    Ident(String),
    /// One punctuation character, and whether the next token is a punctuation
    /// character that follows it without a gap, as do the two of `::`.
    Punct(char, bool),
    /// A literal, as it is written.
    Literal(String),
    /// A bracketed group with the tokens inside it.
    Group(Delimiter, Vec<Token>),
}

/// A token as mathematics.
pub enum TokenView {
    Ident(Seq<char>),
    Punct(char, bool),
    Literal(Seq<char>),
    Group(Delimiter, Seq<TokenView>),
}

impl DeepView for Token {
    type V = TokenView;

    open spec fn deep_view(&self) -> TokenView
        decreases self,
    {
        match self {
            Token::Ident(name) => TokenView::Ident(name@),
            Token::Punct(mark, joint) => TokenView::Punct(*mark, *joint),
            Token::Literal(text) => TokenView::Literal(text@),
            Token::Group(delimiter, inner) => TokenView::Group(
                *delimiter,
                Seq::new(
                    inner@.len(),
                    |i: int|
                        if 0 <= i < inner@.len() {
                            inner@[i].deep_view()
                        } else {
                            TokenView::Punct(' ', false)
                        },
                ),
            ),
        }
    }
}

/// The tokens that a text is made of, or `None` where the text is not a
/// sequence of tokens with balanced brackets.
pub uninterp spec fn lexed(text: Seq<char>) -> Option<Seq<TokenView>>;

/// A stream of tokens as `proc_macro2` holds it.
#[verifier::external_type_specification]
#[verifier::external_body]
pub struct ExTokenStream(proc_macro2::TokenStream);

/// The tokens that a stream holds.
pub uninterp spec fn stream_tokens(stream: TokenStream) -> Seq<TokenView>;

/// `proc_macro2::TokenStream::from_str` reads the text, with the lexer of
/// `proc_macro2` itself: the crate is built without its link to the compiler.
/// Trusted: that whether the text is read, and the tokens of the stream that
/// it is read as, depend on the text alone.
#[verifier::external_body]
fn lex(text: &str) -> (stream: Option<TokenStream>)
    ensures
        match stream {
            Some(stream) => lexed(text@) == Some(stream_tokens(stream)),
            None => lexed(text@).is_none(),
        },
{
    TokenStream::from_str(text).ok()
}

/// Takes the token trees of a stream over, each as it is: an identifier and
/// a literal as `to_string` spells them, a punctuation mark by `as_char` and
/// `spacing`, a group by `delimiter` and by the tokens of its `stream`.
/// Trusted: that these are the tokens that the stream holds.
#[verifier::external_body]
fn tokens_of(stream: TokenStream) -> (tokens: Vec<Token>)
    ensures
        tokens.deep_view() == stream_tokens(stream),
{
    stream.into_iter().map(|tree| match tree {
        TokenTree::Ident(word) => Token::Ident(word.to_string()),
        TokenTree::Literal(literal) => Token::Literal(literal.to_string()),
        TokenTree::Punct(mark) => Token::Punct(mark.as_char(), mark.spacing() == Spacing::Joint),
        TokenTree::Group(group) => Token::Group(match group.delimiter() {
            proc_macro2::Delimiter::Parenthesis => Delimiter::Parenthesis,
            proc_macro2::Delimiter::Brace => Delimiter::Brace,
            proc_macro2::Delimiter::Bracket => Delimiter::Bracket,
            proc_macro2::Delimiter::None => Delimiter::Invisible,
        }, tokens_of(group.stream())),
    }).collect()
}

/// Reads a text as tokens.
pub fn tokenize(text: &str) -> (tokens: Option<Vec<Token>>)
    ensures
        match tokens {
            Some(tokens) => lexed(text@) == Some(tokens.deep_view()),
            None => lexed(text@).is_none(),
        },
{
    match lex(text) {
        Some(stream) => Some(tokens_of(stream)),
        None => None,
    }
}

/// The opening bracket of a delimiter, as text.
pub open spec fn opening(delimiter: Delimiter) -> Seq<char> {
    match delimiter {
        Delimiter::Parenthesis => seq!['('],
        Delimiter::Brace => seq!['{'],
        Delimiter::Bracket => seq!['['],
        Delimiter::Invisible => seq![],
    }
}

/// The closing bracket of a delimiter, as text.
pub open spec fn closing(delimiter: Delimiter) -> Seq<char> {
    match delimiter {
        Delimiter::Parenthesis => seq![')'],
        Delimiter::Brace => seq!['}'],
        Delimiter::Bracket => seq![']'],
        Delimiter::Invisible => seq![],
    }
}

/// A token as source text. A blank follows every token but a punctuation
/// mark that the next one follows without a gap.
pub open spec fn spelled(token: TokenView) -> Seq<char>
    decreases token, 0nat,
{
    match token {
        TokenView::Ident(name) => name.push(' '),
        TokenView::Literal(text) => text.push(' '),
        TokenView::Punct(mark, joint) => if joint {
            seq![mark]
        } else {
            seq![mark, ' ']
        },
        TokenView::Group(delimiter, inner) => opening(delimiter).push(' ') + spelling(inner, 0)
            + closing(delimiter).push(' '),
    }
}

/// The tokens from index `at` on as source text.
pub open spec fn spelling(tokens: Seq<TokenView>, at: int) -> Seq<char>
    decreases tokens, tokens.len() - at,
{
    if 0 <= at < tokens.len() {
        spelled(tokens[at]) + spelling(tokens, at + 1)
    } else {
        seq![]
    }
}

/// A group is seen as its delimiter and the views of the tokens inside it.
pub proof fn lemma_group_view(delimiter: Delimiter, inner: Vec<Token>)
    ensures
        Token::Group(delimiter, inner).deep_view() == TokenView::Group(
            delimiter,
            inner.deep_view(),
        ),
{
    let views = Seq::new(
        inner@.len(),
        |i: int|
            if 0 <= i < inner@.len() {
                inner@[i].deep_view()
            } else {
                TokenView::Punct(' ', false)
            },
    );
    reveal_with_fuel(<Token as DeepView>::deep_view, 2);
    assert(views =~= inner.deep_view());
    let whole = Token::Group(delimiter, inner).deep_view();
    assert(whole is Group);
    assert(whole->Group_0 == delimiter);
    assert(whole->Group_1 =~= views);
}

/// `String::push`. Trusted: that the character is added at the end.
#[verifier::external_body]
pub(crate) fn push_char(text: &mut String, mark: char)
    ensures
        final(text)@ == old(text)@.push(mark),
{
    text.push(mark);
}

/// Writes the tokens behind `text`, as source text.
pub fn spell_into(tokens: &Vec<Token>, text: &mut String)
    ensures
        final(text)@ == old(text)@ + spelling(tokens.deep_view(), 0),
    decreases tokens,
{
    let ghost all = tokens.deep_view();
    let mut at: usize = 0;
    while at < tokens.len()
        invariant
            at <= tokens.len(),
            all == tokens.deep_view(),
            text@ + spelling(all, at as int) == old(text)@ + spelling(all, 0),
        decreases tokens.len() - at,
    {
        let ghost before = text@;
        match &tokens[at] {
            Token::Ident(name) => {
                text.append(name.as_str());
                push_char(text, ' ');
            },
            Token::Literal(literal) => {
                text.append(literal.as_str());
                push_char(text, ' ');
            },
            Token::Punct(mark, joint) => {
                push_char(text, *mark);
                if !*joint {
                    push_char(text, ' ');
                }
            },
            Token::Group(delimiter, inner) => {
                proof {
                    lemma_group_view(*delimiter, *inner);
                }
                match delimiter {
                    Delimiter::Parenthesis => push_char(text, '('),
                    Delimiter::Brace => push_char(text, '{'),
                    Delimiter::Bracket => push_char(text, '['),
                    Delimiter::Invisible => {},
                }
                push_char(text, ' ');
                spell_into(inner, text);
                match delimiter {
                    Delimiter::Parenthesis => push_char(text, ')'),
                    Delimiter::Brace => push_char(text, '}'),
                    Delimiter::Bracket => push_char(text, ']'),
                    Delimiter::Invisible => {},
                }
                push_char(text, ' ');
            },
        }
        assert(text@ =~= before + spelled(all[at as int]));
        assert(before + spelling(all, at as int) =~= text@ + spelling(all, at as int + 1));
        at = at + 1;
    }
    assert(spelling(all, at as int) =~= Seq::<char>::empty());
    assert(text@ + Seq::<char>::empty() =~= text@);
}

/// The tokens as source text.
pub fn spell(tokens: &Vec<Token>) -> (text: String)
    ensures
        text@ == spelling(tokens.deep_view(), 0),
{
    let mut text = String::new();
    spell_into(tokens, &mut text);
    assert(Seq::<char>::empty() + spelling(tokens.deep_view(), 0) =~= spelling(tokens.deep_view(), 0));
    text
}

/// Copies the tokens from index `from` up to, not including, index `to`.
pub fn copy_range(tokens: &Vec<Token>, from: usize, to: usize) -> (copy: Vec<Token>)
    requires
        from <= to <= tokens.len(),
    ensures
        copy.deep_view() == tokens.deep_view().subrange(from as int, to as int),
    decreases tokens,
{
    let mut copy: Vec<Token> = Vec::new();
    let mut at: usize = from;
    while at < to
        invariant
            from <= at <= to <= tokens.len(),
            copy.deep_view() =~= tokens.deep_view().subrange(from as int, at as int),
        decreases to - at,
    {
        let one = match &tokens[at] {
            Token::Ident(name) => Token::Ident(name.clone()),
            Token::Literal(text) => Token::Literal(text.clone()),
            Token::Punct(mark, joint) => Token::Punct(*mark, *joint),
            Token::Group(delimiter, inner) => {
                let inside = copy_range(inner, 0, inner.len());
                proof {
                    lemma_group_view(*delimiter, *inner);
                    lemma_group_view(*delimiter, inside);
                    assert(inner.deep_view().subrange(0, inner.len() as int) =~= inner.deep_view());
                }
                Token::Group(*delimiter, inside)
            },
        };
        assert(one.deep_view() == tokens@[at as int].deep_view());
        let ghost before = copy.deep_view();
        copy.push(one);
        assert(copy.deep_view() =~= before.push(one.deep_view()));
        at = at + 1;
    }
    copy
}

} // verus!
