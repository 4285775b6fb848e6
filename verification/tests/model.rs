use brian_rs::macros::model::{
    Equation, Expected, IdentOrDerivative, Keyword, NeuronDef, ParseError, SynapseDef,
};
use brian_rs::macros::tokens::{spell, tokenize, Delimiter, Token};

const IZHIKEVICH: &str = "Izikhevich<si::Volt<f64>, si::Second<f64>>:
    params {
        a: f64, b: f64, c: f64, d: f64
    }
    initialize {
        v: si::Volt<f64> = c * si::V;
        u: si::Volt<f64> = 0.0 * si::V
    }
    time_step {
        v @ = (0.04 * self.v * self.v / si::V + 5.0 * self.v + 140.0 * si::V - self.u + input) / si::S;
        u @ = self.a * (self.b * self.v - self.u) / si::S
    }
    spike_when { self.v > 30.0 * si::V }
    get_voltage { self.v }
    reset { self.v = self.c * si::V; self.u += self.d * si::V }";

const STDP: &str = "StdpNeuron<si::Volt<f64>, si::Second<f64>>:
    params {
        tau_pre: f64, tau_post: f64, w: si::Unitless<f64>, activation_bump: f64
    }
    initialize {
        a_pre: si::Unitless<f64> = 0.0 * si::S / si::S;
        a_post: si::Unitless<f64> = 0.0 * si::S / si::S
    }
    time_step {
        a_pre @ = - (self.a_pre / self.tau_pre) / si::S;
        a_post @ = - (self.a_post / self.tau_post) / si::S
    }
    weight_getter { *self.w }
    on_pre {
        self.a_pre += self.activation_bump;
        self.w += self.a_post
    }
    on_post {
        self.a_post += self.activation_bump;
        self.w += self.a_pre
    }";

fn tokens_of(text: &str) -> Vec<Token> {
    tokenize(text).unwrap()
}

fn neuron(text: &str) -> Result<NeuronDef, ParseError> {
    NeuronDef::parse(&tokens_of(text))
}

#[test]
fn tokens_mirror_the_text() {
    let tokens = tokens_of("a::b { 1.5 'x } -> \"s\"");
    assert_eq!(
        tokens,
        vec![
            Token::Ident("a".to_string()),
            Token::Punct(':', true),
            Token::Punct(':', false),
            Token::Ident("b".to_string()),
            Token::Group(
                Delimiter::Brace,
                vec![
                    Token::Literal("1.5".to_string()),
                    Token::Punct('\'', true),
                    Token::Ident("x".to_string()),
                ]
            ),
            Token::Punct('-', true),
            Token::Punct('>', false),
            Token::Literal("\"s\"".to_string()),
        ]
    );
    assert_eq!(spell(&tokens), "a :: b { 1.5 'x } -> \"s\" ");
    assert_eq!(tokens_of(&spell(&tokens)), tokens);
}

#[test]
fn unbalanced_text_is_no_token_sequence() {
    assert_eq!(tokenize("a { b"), None);
    assert_eq!(tokenize("a ) b"), None);
    assert_eq!(tokenize("\"open"), None);
    assert_eq!(tokenize(""), Some(vec![]));
}

#[test]
fn izhikevich_neuron_is_read() {
    let def = neuron(IZHIKEVICH).unwrap();
    assert_eq!(def.neuron_type.name, "Izikhevich");
    assert_eq!(spell(&def.neuron_type.voltage_type.tokens), "si :: Volt < f64 >");
    assert_eq!(spell(&def.neuron_type.time_type.tokens), "si :: Second < f64 >");
    let params: Vec<&str> = def.param_list.iter().map(|p| p.name.as_str()).collect();
    assert_eq!(params, vec!["a", "b", "c", "d"]);
    assert_eq!(spell(&def.param_list[2].typ.tokens), "f64 ");
    assert_eq!(def.initialize_list.len(), 2);
    assert_eq!(def.initialize_list[0].name, "v");
    assert_eq!(spell(&def.initialize_list[0].typ.tokens), "si :: Volt < f64 > ");
    assert_eq!(spell(&def.initialize_list[0].value.tokens), "c * si :: V ");
    assert_eq!(spell(&def.initialize_list[1].value.tokens), "0.0 * si :: V ");
    assert_eq!(def.time_step.len(), 2);
    assert_eq!(def.time_step[0].left_side, IdentOrDerivative::Derivative("v".to_string()));
    assert_eq!(def.time_step[1].left_side, IdentOrDerivative::Derivative("u".to_string()));
    assert_eq!(
        spell(&def.time_step[1].right_side.tokens),
        "self . a * ( self . b * self . v - self . u ) / si :: S "
    );
    assert_eq!(spell(&def.spike_when.tokens), "self . v > 30.0 * si :: V ");
    assert_eq!(spell(&def.voltage_getter.tokens), "self . v ");
    assert_eq!(def.reset.len(), 2);
    assert_eq!(spell(&def.reset[1].tokens), "self . u += self . d * si :: V ");
}

#[test]
fn stdp_synapse_is_read() {
    let def = SynapseDef::parse(&tokens_of(STDP)).unwrap();
    assert_eq!(def.synapse_type.name, "StdpNeuron");
    assert_eq!(def.param_list.len(), 4);
    assert_eq!(def.initialize_list.len(), 2);
    assert_eq!(def.time_step.len(), 2);
    assert_eq!(spell(&def.weight_getter.tokens), "* self . w ");
    assert_eq!(def.pre_synapse_spike.len(), 2);
    assert_eq!(def.post_synapse_spike.len(), 2);
    assert_eq!(spell(&def.post_synapse_spike[1].tokens), "self . w += self . a_pre ");
}

fn error(expected: Expected, inside: Option<Keyword>, at: usize) -> ParseError {
    ParseError { expected, inside, at }
}

#[test]
fn direct_and_derivative_equations_are_told_apart() {
    let tokens = tokens_of("v = self.k; w @ = 2 * self.k");
    let direct = <Equation as brian_rs::macros::model::Parse>::parse(&tokens, 0, 5, None).unwrap();
    assert_eq!(direct.left_side, IdentOrDerivative::Ident("v".to_string()));
    assert_eq!(spell(&direct.right_side.tokens), "self . k ");
    let derivative =
        <Equation as brian_rs::macros::model::Parse>::parse(&tokens, 6, tokens.len(), None).unwrap();
    assert_eq!(derivative.left_side, IdentOrDerivative::Derivative("w".to_string()));
    assert_eq!(spell(&derivative.right_side.tokens), "2 * self . k ");
}

#[test]
fn sections_must_come_in_order_and_under_their_names() {
    let swapped = IZHIKEVICH.replace("params", "initialise");
    assert_eq!(neuron(&swapped), Err(error(Expected::Keyword(Keyword::Params), None, 19)));
    let misnamed = IZHIKEVICH.replace("spike_when", "spikes_when");
    assert_eq!(neuron(&misnamed), Err(error(Expected::Keyword(Keyword::SpikeWhen), None, 25)));
    let missing = IZHIKEVICH.replace("get_voltage { self.v }", "");
    assert_eq!(neuron(&missing), Err(error(Expected::Keyword(Keyword::GetVoltage), None, 27)));
    let current = IZHIKEVICH.replace("get_voltage", "get_current");
    assert!(neuron(&current).is_ok());
    assert_eq!(
        SynapseDef::parse(&tokens_of(IZHIKEVICH)),
        Err(error(Expected::Keyword(Keyword::WeightGetter), None, 25))
    );
    assert_eq!(
        neuron(STDP),
        Err(error(Expected::Keyword(Keyword::SpikeWhen), None, 25))
    );
}

#[test]
fn empty_lists_and_trailing_separators_are_refused() {
    let no_params = IZHIKEVICH.replace("a: f64, b: f64, c: f64, d: f64", "");
    assert_eq!(neuron(&no_params), Err(error(Expected::Name, Some(Keyword::Params), 0)));
    let trailing = IZHIKEVICH.replace("d: f64", "d: f64,");
    assert_eq!(neuron(&trailing), Err(error(Expected::Name, Some(Keyword::Params), 16)));
    let no_reset = IZHIKEVICH.replace("self.v = self.c * si::V; self.u += self.d * si::V", "");
    assert_eq!(neuron(&no_reset), Err(error(Expected::Expression, Some(Keyword::Reset), 0)));
    let no_condition = IZHIKEVICH.replace("self.v > 30.0 * si::V", "");
    assert_eq!(neuron(&no_condition), Err(error(Expected::Expression, Some(Keyword::SpikeWhen), 0)));
}

#[test]
fn header_and_items_report_what_is_missing() {
    assert_eq!(neuron(""), Err(error(Expected::Name, None, 0)));
    assert_eq!(neuron("struct<A, B>:"), Err(error(Expected::Name, None, 0)));
    assert_eq!(neuron("N(A, B):"), Err(error(Expected::Mark('<'), None, 1)));
    assert_eq!(neuron("N<A>:"), Err(error(Expected::Mark(','), None, 3)));
    assert_eq!(neuron("N<A, B"), Err(error(Expected::Mark('>'), None, 5)));
    assert_eq!(neuron("N<A, B, C>:"), Err(error(Expected::Mark('>'), None, 5)));
    assert_eq!(neuron("N<, B>:"), Err(error(Expected::Type, None, 2)));
    assert_eq!(neuron("N<A, 3 +>:"), Err(error(Expected::Type, None, 4)));
    assert_eq!(neuron("N<A, B> params"), Err(error(Expected::Mark(':'), None, 6)));
    assert_eq!(neuron("N<A, B>: params [ a: f64 ]"), Err(error(Expected::Braces, None, 8)));
    let extra = format!("{} reset {{ 1 }}", IZHIKEVICH);
    assert_eq!(neuron(&extra), Err(error(Expected::End, None, 31)));
    let colon = IZHIKEVICH.replace("b: f64", "b f64");
    assert_eq!(neuron(&colon), Err(error(Expected::Mark(':'), Some(Keyword::Params), 5)));
    let keyword = IZHIKEVICH.replace("b: f64", "fn: f64");
    assert_eq!(neuron(&keyword), Err(error(Expected::Name, Some(Keyword::Params), 4)));
    let no_value = IZHIKEVICH.replace("= c * si::V", "");
    assert_eq!(neuron(&no_value), Err(error(Expected::Mark('='), Some(Keyword::Initialize), 9)));
    let bad_value = IZHIKEVICH.replace("= c * si::V", "= c *");
    assert_eq!(neuron(&bad_value), Err(error(Expected::Expression, Some(Keyword::Initialize), 10)));
    let bad_type = IZHIKEVICH.replace("v: si::Volt<f64> =", "v: 5 =");
    assert_eq!(neuron(&bad_type), Err(error(Expected::Type, Some(Keyword::Initialize), 2)));
    let no_equals = IZHIKEVICH.replace("u @ =", "u @");
    assert_eq!(neuron(&no_equals), Err(error(Expected::Mark('='), Some(Keyword::TimeStep), 12)));
}

#[test]
fn types_may_hold_commas_equals_and_arrows_in_angle_brackets() {
    let text = IZHIKEVICH
        .replace("a: f64", "a: Map<u8, fn(u8) -> Vec<u8>>")
        .replace("u: si::Volt<f64> =", "u: Box<dyn Iterator<Item = u8>> =");
    let def = neuron(&text).unwrap();
    assert_eq!(def.param_list.len(), 4);
    assert_eq!(spell(&def.param_list[0].typ.tokens), "Map < u8 , fn ( u8 ) -> Vec < u8 >>");
    assert_eq!(
        spell(&def.initialize_list[1].typ.tokens),
        "Box < dyn Iterator < Item = u8 >> "
    );
    let header = text.replace("Izikhevich<si::Volt<f64>,", "Izikhevich<fn(A, B) -> Pair<A, B>,");
    let def = neuron(&header).unwrap();
    assert_eq!(spell(&def.neuron_type.voltage_type.tokens), "fn ( A , B ) -> Pair < A , B >");
}

#[test]
fn expressions_may_compare_with_angle_brackets() {
    let text = IZHIKEVICH.replace(
        "self.v = self.c * si::V; self.u += self.d * si::V",
        "self.v = if self.a < self.b { self.c } else { self.d }; self.u = self.a > self.b",
    );
    let def = neuron(&text).unwrap();
    assert_eq!(def.reset.len(), 2);
}

#[test]
fn errors_say_what_was_expected() {
    assert_eq!(
        error(Expected::Keyword(Keyword::Params), None, 0).message(),
        "Expected `params` keyword"
    );
    assert_eq!(
        error(Expected::Keyword(Keyword::OnPost), None, 0).message(),
        "Expected `on_post` keyword"
    );
    assert_eq!(error(Expected::Name, None, 0).message(), "expected identifier");
    assert_eq!(error(Expected::Mark('<'), None, 0).message(), "expected `<`");
    assert_eq!(error(Expected::Braces, None, 0).message(), "expected curly braces");
    assert_eq!(error(Expected::Type, None, 0).message(), "expected a type");
    assert_eq!(error(Expected::Expression, None, 0).message(), "expected an expression");
    assert_eq!(error(Expected::End, None, 0).message(), "unexpected token");
    let keywords = [
        (Keyword::Params, "params"),
        (Keyword::Initialize, "initialize"),
        (Keyword::TimeStep, "time_step"),
        (Keyword::SpikeWhen, "spike_when"),
        (Keyword::GetVoltage, "get_voltage"),
        (Keyword::Reset, "reset"),
        (Keyword::WeightGetter, "weight_getter"),
        (Keyword::OnPre, "on_pre"),
        (Keyword::OnPost, "on_post"),
    ];
    for (keyword, text) in keywords {
        assert_eq!(keyword.text(), text);
    }
}

#[test]
fn lists_end_in_an_item() {
    let trailing = IZHIKEVICH.replace("self.u += self.d * si::V", "self.u += self.d * si::V;");
    assert_eq!(neuron(&trailing), Err(error(Expected::Expression, Some(Keyword::Reset), 27)));
    let doubled = IZHIKEVICH.replace("f64, b", "f64,, b");
    assert_eq!(neuron(&doubled), Err(error(Expected::Name, Some(Keyword::Params), 4)));
}
