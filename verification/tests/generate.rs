use brian_rs::macros::generate::ToTokens;
use brian_rs::macros::model::{
    Equation, Expected, Expr, IdentAndType, IdentAndValue, IdentOrDerivative, Keyword, ParseError,
    Type,
};
use brian_rs::macros::names::Unbound;
use brian_rs::macros::tokens::{spell, tokenize, Token};
use brian_rs::macros::{define_neuron, define_synapse, Error};

fn tokens_of(text: &str) -> Vec<Token> {
    tokenize(text).unwrap()
}

/// The tokens without the mark of whether a punctuation mark is followed at
/// once by another: written source decides that by its blanks alone.
fn loose(tokens: &[Token]) -> Vec<Token> {
    tokens
        .iter()
        .map(|token| match token {
            Token::Ident(name) => Token::Ident(name.clone()),
            Token::Literal(text) => Token::Literal(text.clone()),
            Token::Punct(mark, _) => Token::Punct(*mark, false),
            Token::Group(delimiter, inner) => Token::Group(*delimiter, loose(inner)),
        })
        .collect()
}

fn same_source(found: &[Token], expected: &str) {
    assert_eq!(loose(found), loose(&tokens_of(expected)));
}

const LEAKY: &str = "Leaky<Volt, Second>:
    params { tau: f64, threshold: Volt }
    initialize { v: Volt = 0.0 * threshold; fired: u32 = 0 }
    time_step { v @ = (input - self.v) / self.tau; fired = self.fired + (self.v > self.threshold) as u32 }
    spike_when { self.v > self.threshold }
    get_current { self.v }
    reset { self.v = 0.0 * self.threshold }";

#[test]
fn neuron_unit_is_generated() {
    let unit = define_neuron(&tokens_of(LEAKY)).unwrap();
    same_source(
        &unit,
        "pub struct Leaky { tau: f64, threshold: Volt, v: Volt, fired: u32 }
        impl Leaky {
            pub fn new(tau: f64, threshold: Volt) -> Self {
                let v: Volt = 0.0 * threshold;
                let fired: u32 = 0;
                Leaky { tau, threshold, v, fired }
            }
        }
        impl SpikeGenerator<Volt> for Leaky {
            fn did_spike(&self) -> bool { self.v > self.threshold }
            fn get_voltage(&self) -> Volt { self.v }
        }
        impl InnerSpikeGenerator<Volt, Second> for Leaky {
            fn handle_input(&mut self, input: Volt, dt: Second) {
                if self.did_spike() { self.v = 0.0 * self.threshold; }
                self.v = ((input - self.v) / self.tau) * dt + self.v;
                self.fired = (self.fired + (self.v > self.threshold) as u32);
            }
        }",
    );
    // What is generated is source that reads back as the same tokens.
    assert_eq!(tokens_of(&spell(&unit)), unit);
}

#[test]
fn synapse_unit_is_generated() {
    let unit = define_synapse(&tokens_of(
        "Stdp<Volt, Second>:
        params { tau: f64, w: f64, bump: f64 }
        initialize { a_pre: f64 = 0.0; a_post: f64 = a_pre }
        time_step { a_pre @ = -self.a_pre / self.tau; a_post @ = -self.a_post / self.tau }
        weight_getter { self.w }
        on_pre { self.a_pre += self.bump; self.w += self.a_post }
        on_post { self.a_post += self.bump; self.w += self.a_pre }",
    ))
    .unwrap();
    same_source(
        &unit,
        "pub struct Stdp { tau: f64, w: f64, bump: f64, a_pre: f64, a_post: f64 }
        impl Stdp {
            pub fn new(tau: f64, w: f64, bump: f64) -> Self {
                let a_pre: f64 = 0.0;
                let a_post: f64 = a_pre;
                Stdp { tau, w, bump, a_pre, a_post }
            }
        }
        impl Synaptic<Volt, Second> for Stdp {
            fn on_pre(&mut self, input: Volt) { self.a_pre += self.bump; self.w += self.a_post; }
            fn on_post(&mut self, input: Volt) { self.a_post += self.bump; self.w += self.a_pre; }
            fn current_weight(&self) -> f64 { self.w }
            fn advance_once(&mut self, dt: Second) {
                self.a_pre = (-self.a_pre / self.tau) * dt + self.a_pre;
                self.a_post = (-self.a_post / self.tau) * dt + self.a_post;
            }
        }",
    );
}

fn equation(text: &str) -> Equation {
    let tokens = tokens_of(text);
    <Equation as brian_rs::macros::model::Parse>::parse(&tokens, 0, tokens.len(), None).unwrap()
}

fn written<T: ToTokens>(item: &T) -> Vec<Token> {
    let mut tokens = vec![Token::Ident("before".to_string())];
    item.to_tokens(&mut tokens);
    assert_eq!(tokens.remove(0), Token::Ident("before".to_string()));
    tokens
}

#[test]
fn equations_are_written_as_assignments() {
    let direct = equation("v = self.k + 1");
    assert_eq!(
        written(&direct),
        vec![
            Token::Ident("self".to_string()),
            Token::Punct('.', false),
            Token::Ident("v".to_string()),
            Token::Punct('=', false),
            Token::Group(
                brian_rs::macros::tokens::Delimiter::Parenthesis,
                vec![
                    Token::Ident("self".to_string()),
                    Token::Punct('.', false),
                    Token::Ident("k".to_string()),
                    Token::Punct('+', false),
                    Token::Literal("1".to_string()),
                ]
            ),
            Token::Punct(';', false),
        ]
    );
    assert_eq!(spell(&written(&direct)), "self . v = ( self . k + 1 ) ; ");
    let derivative = equation("v @ = self.k + 1");
    assert_eq!(
        spell(&written(&derivative)),
        "self . v = ( self . k + 1 ) * dt + self . v ; "
    );
}

#[test]
fn items_are_written_as_declarations() {
    let field = IdentAndType {
        name: "w".to_string(),
        typ: Type { tokens: tokens_of("Vec<f64>") },
    };
    same_source(&written(&field), "w: Vec<f64>");
    let variable = IdentAndValue {
        name: "v".to_string(),
        typ: Type { tokens: tokens_of("f64") },
        value: Expr { tokens: tokens_of("2.0 * c") },
    };
    same_source(&written(&variable), "let v: f64 = 2.0 * c;");
    assert_eq!(variable.drop_value(), IdentAndType {
        name: "v".to_string(),
        typ: Type { tokens: tokens_of("f64") },
    });
    same_source(&written(&Expr { tokens: tokens_of("a + b") }), "a + b");
}

/// The body of `handle_input` of a generated neuron, as source text.
fn step_body(unit: &[Token]) -> String {
    let Some(Token::Group(_, implementation)) = unit.last() else {
        panic!("the unit does not end in the body of an implementation");
    };
    let Some(Token::Group(_, body)) = implementation.last() else {
        panic!("the implementation does not end in the body of a method");
    };
    spell(body)
}

struct Pair {
    a: f64,
    b: f64,
}

#[test]
fn later_equations_read_what_earlier_ones_wrote() {
    let unit = define_neuron(&tokens_of(
        "Pair<f64, f64>:
        params { a: f64 }
        initialize { b: f64 = 0.0 }
        time_step { a = self.a + 1.0; b = self.a * 10.0 }
        spike_when { false }
        get_voltage { self.b }
        reset { self.b = 0.0 }",
    ))
    .unwrap();
    assert_eq!(
        step_body(&unit),
        "if self . did_spike ( ) { self . b = 0.0 ; } \
         self . a = ( self . a + 1.0 ) ; self . b = ( self . a * 10.0 ) ; "
    );
    // The two assignments, as they were generated, applied to a state.
    let mut pair = Pair { a: 1.0, b: 0.0 };
    pair.a = pair.a + 1.0;
    pair.b = pair.a * 10.0;
    assert_eq!(pair.a, 2.0);
    assert_eq!(pair.b, 20.0);
}

#[test]
fn derivative_equation_accumulates_by_euler_steps() {
    let unit = define_neuron(&tokens_of(
        "Ramp<f64, f64>:
        params { k: f64 }
        initialize { v: f64 = 0.0 }
        time_step { v @ = self.k }
        spike_when { false }
        get_voltage { self.v }
        reset { self.v = 0.0 }",
    ))
    .unwrap();
    assert_eq!(
        step_body(&unit),
        "if self . did_spike ( ) { self . v = 0.0 ; } self . v = ( self . k ) * dt + self . v ; "
    );
    // The assignment, as it was generated, applied three times.
    let k: f64 = 7.0;
    let dt: f64 = 0.1;
    let mut v: f64 = 0.0;
    for _ in 0..3 {
        v = k * dt + v;
    }
    assert!((v - 0.3 * k).abs() < 1e-12);
    assert!((v - k).abs() > 1.0);
}

#[test]
fn undeclared_state_is_a_generation_error() {
    let unbound = |text: &str| match define_neuron(&tokens_of(text)) {
        Err(Error::Unbound(found)) => found,
        other => panic!("expected an undeclared state, got {:?}", other),
    };
    let found = unbound(&LEAKY.replace("v @ =", "u @ ="));
    assert_eq!(found, Unbound { name: "u".to_string(), section: Keyword::TimeStep, index: 0 });
    let found = unbound(&LEAKY.replace("self.fired +", "self.count +"));
    assert_eq!(found, Unbound { name: "count".to_string(), section: Keyword::TimeStep, index: 1 });
    let found = unbound(&LEAKY.replace("(self.v > self.threshold) as u32", "(self.v > self.limit) as u32"));
    assert_eq!(found, Unbound { name: "limit".to_string(), section: Keyword::TimeStep, index: 1 });
    let found = unbound(&LEAKY.replace("spike_when { self.v >", "spike_when { self.w >"));
    assert_eq!(found, Unbound { name: "w".to_string(), section: Keyword::SpikeWhen, index: 0 });
    let found = unbound(&LEAKY.replace("get_current { self.v }", "get_current { self.out }"));
    assert_eq!(found, Unbound { name: "out".to_string(), section: Keyword::GetVoltage, index: 0 });
    let found = unbound(&LEAKY.replace("reset { self.v =", "reset { self.v = 1.0; self.z ="));
    assert_eq!(found, Unbound { name: "z".to_string(), section: Keyword::Reset, index: 1 });
    // The first in the order of the sections is the one that is named.
    let found = unbound(&LEAKY.replace("self.threshold", "self.limit"));
    assert_eq!(found, Unbound { name: "limit".to_string(), section: Keyword::TimeStep, index: 1 });
}

#[test]
fn methods_and_free_names_are_not_state() {
    let text = LEAKY.replace("spike_when { self.v >", "spike_when { self.helper() + limit::MAX + other >");
    assert!(define_neuron(&tokens_of(&text)).is_ok());
}

#[test]
fn undeclared_state_of_a_synapse_is_a_generation_error() {
    let text = "S<V, T>:
        params { w: f64 }
        initialize { a: f64 = 0.0 }
        time_step { a @ = -self.a }
        weight_getter { self.w }
        on_pre { self.a += 1.0 }
        on_post { self.w += self.a; self.w -= [self.b][0] }";
    assert_eq!(
        define_synapse(&tokens_of(text)),
        Err(Error::Unbound(Unbound { name: "b".to_string(), section: Keyword::OnPost, index: 1 }))
    );
    let text = text.replace("weight_getter { self.w }", "weight_getter { self.weight }");
    assert_eq!(
        define_synapse(&tokens_of(&text)),
        Err(Error::Unbound(Unbound {
            name: "weight".to_string(),
            section: Keyword::WeightGetter,
            index: 0
        }))
    );
    let text = text.replace("on_pre { self.a += 1.0 }", "on_pre { self.c += 1.0 }");
    assert_eq!(
        define_synapse(&tokens_of(&text)),
        Err(Error::Unbound(Unbound {
            name: "weight".to_string(),
            section: Keyword::WeightGetter,
            index: 0
        }))
    );
}

#[test]
fn what_is_no_specification_is_a_parse_error() {
    assert_eq!(
        define_neuron(&tokens_of("Leaky<Volt, Second>: parameters { }")),
        Err(Error::Parse(ParseError {
            expected: Expected::Keyword(Keyword::Params),
            inside: None,
            at: 7
        }))
    );
    assert_eq!(
        define_synapse(&tokens_of(LEAKY)),
        Err(Error::Parse(ParseError {
            expected: Expected::Keyword(Keyword::WeightGetter),
            inside: None,
            at: 13
        }))
    );
    assert_eq!(
        IdentOrDerivative::parse(&tokens_of("3 = x"), 0, 3, Some(Keyword::TimeStep)),
        Err(ParseError { expected: Expected::Name, inside: Some(Keyword::TimeStep), at: 0 })
    );
}

#[test]
fn undeclared_state_is_reported_in_words() {
    let found = Unbound { name: "u".to_string(), section: Keyword::TimeStep, index: 3 };
    assert_eq!(found.message(), "undeclared state `u` in `time_step`");
}
