//! The compiler for model specifications: a neuron or a synapse is described
//! by its parameters, its state, its equations and its rules, and is turned
//! into the source of a unit that can be stepped.

use vstd::prelude::*;
use crate::macros::generate::{neuron_unit, synapse_unit, ToTokens};
use crate::macros::model::{neuron_def, synapse_def, NeuronDef, ParseError, SynapseDef};
use crate::macros::names::{neuron_unbound, synapse_unbound, Unbound, UnboundView};
use crate::macros::tokens::{Token, TokenView};

pub mod generate;
pub mod meaning;
pub mod model;
pub mod names;
pub mod source;
pub mod syntax;
pub mod tokens;

verus! {

/// Why no unit was generated.
#[derive(Debug, PartialEq, Eq)]
pub enum Error {
    /// The tokens are not a specification.
    Parse(ParseError),
    /// The specification refers to a state that it does not declare.
    Unbound(Unbound),
}

/// An error as mathematics.
pub enum ErrorView {
    Parse(ParseError),
    Unbound(UnboundView),
}

impl DeepView for Error {
    type V = ErrorView;

    open spec fn deep_view(&self) -> ErrorView {
        match self {
            Error::Parse(error) => ErrorView::Parse(*error),
            Error::Unbound(unbound) => ErrorView::Unbound(unbound.deep_view()),
        }
    }
}

/// What `define_neuron` makes of tokens: the unit of the specification that
/// they are, unless they are none or the specification refers to a state
/// that it does not declare.
pub open spec fn neuron_code(input: Seq<TokenView>) -> Result<Seq<TokenView>, ErrorView> {
    match neuron_def(input) {
        Err(error) => Err(ErrorView::Parse(error)),
        Ok(def) => match neuron_unbound(def) {
            Some(unbound) => Err(ErrorView::Unbound(unbound)),
            None => Ok(neuron_unit(def)),
        },
    }
}

/// What `define_synapse` makes of tokens.
pub open spec fn synapse_code(input: Seq<TokenView>) -> Result<Seq<TokenView>, ErrorView> {
    match synapse_def(input) {
        Err(error) => Err(ErrorView::Parse(error)),
        Ok(def) => match synapse_unbound(def) {
            Some(unbound) => Err(ErrorView::Unbound(unbound)),
            None => Ok(synapse_unit(def)),
        },
    }
}

/// Turns the specification of a neuron into the source of its unit: a type
/// with the neuron's state that implements `SpikeGenerator` and
/// `InnerSpikeGenerator`.
pub fn define_neuron(input: &Vec<Token>) -> (code: Result<Vec<Token>, Error>)
    ensures
        match code {
            Ok(unit) => neuron_code(input.deep_view()) == Ok::<Seq<TokenView>, ErrorView>(
                unit.deep_view(),
            ),
            Err(error) => neuron_code(input.deep_view()) == Err::<Seq<TokenView>, ErrorView>(
                error.deep_view(),
            ),
        },
{
    let def = match NeuronDef::parse(input) {
        Ok(def) => def,
        Err(error) => return Err(Error::Parse(error)),
    };
    if let Some(unbound) = def.unbound() {
        return Err(Error::Unbound(unbound));
    }
    let mut unit: Vec<Token> = Vec::new();
    def.to_tokens(&mut unit);
    assert(unit.deep_view() =~= neuron_unit(def.deep_view()));
    Ok(unit)
}

/// Turns the specification of a synapse into the source of its unit: a type
/// with the synapse's state that implements `Synaptic`.
pub fn define_synapse(input: &Vec<Token>) -> (code: Result<Vec<Token>, Error>)
    ensures
        match code {
            Ok(unit) => synapse_code(input.deep_view()) == Ok::<Seq<TokenView>, ErrorView>(
                unit.deep_view(),
            ),
            Err(error) => synapse_code(input.deep_view()) == Err::<Seq<TokenView>, ErrorView>(
                error.deep_view(),
            ),
        },
{
    let def = match SynapseDef::parse(input) {
        Ok(def) => def,
        Err(error) => return Err(Error::Parse(error)),
    };
    if let Some(unbound) = def.unbound() {
        return Err(Error::Unbound(unbound));
    }
    let mut unit: Vec<Token> = Vec::new();
    def.to_tokens(&mut unit);
    assert(unit.deep_view() =~= synapse_unit(def.deep_view()));
    Ok(unit)
}

} // verus!
