//! Specifications written out as tokens, and the proof that the grammar
//! reads them back: what is written of a tree is read as that tree.

use vstd::prelude::*;
use crate::macros::generate::{braced, mark, word};
use crate::macros::model::{
    arrow_head, delimited, expr_section, is_mark, leaf_end, list_section, neuron_def,
    neuron_type, synapse_def, Equation, EquationView, Expr, IdentAndType, IdentAndTypeView,
    IdentAndValue, IdentAndValueView, IdentOrDerivativeView, Keyword, NeuronDefView, NeuronTypeView,
    Parse, ParseError, SynapseDefView,
};
use crate::macros::syntax::{reads_as_expr, reads_as_ident, reads_as_type};
use crate::macros::tokens::{spelling, TokenView};

verus! {

/// Whether the angle brackets of the tokens from index `at` on pair up, with
/// `depth` of them open at `at`, and every comma, every `=`, and every `>`
/// that is no head of an arrow stands inside a pair.
pub open spec fn angles_close(tokens: Seq<TokenView>, at: int, depth: nat) -> bool
    decreases tokens.len() - at,
{
    if !(0 <= at < tokens.len()) {
        depth == 0
    } else if is_mark(tokens[at], '<') {
        angles_close(tokens, at + 1, depth + 1)
    } else if is_mark(tokens[at], '>') && !arrow_head(tokens, at) {
        depth > 0 && angles_close(tokens, at + 1, (depth - 1) as nat)
    } else if is_mark(tokens[at], ',') || is_mark(tokens[at], '=') {
        depth > 0 && angles_close(tokens, at + 1, depth)
    } else {
        angles_close(tokens, at + 1, depth)
    }
}

/// Whether no token is a semicolon. Semicolons inside brackets are inside a
/// group, which is one token.
pub open spec fn no_semicolon(tokens: Seq<TokenView>) -> bool {
    forall|i: int| 0 <= i < tokens.len() ==> !is_mark(#[trigger] tokens[i], ';')
}

/// The tokens of a type as it can stand in a specification: they spell a
/// type, their angle brackets pair up around every comma and every `=`, and
/// they end in no `-` that would make an arrow of a `>` behind it.
pub open spec fn type_leaf(tokens: Seq<TokenView>) -> bool {
    &&& tokens.len() > 0
    &&& reads_as_type(spelling(tokens, 0))
    &&& angles_close(tokens, 0, 0)
    &&& no_semicolon(tokens)
    &&& tokens.last() != TokenView::Punct('-', true)
}

/// The tokens of an expression as it can stand in a specification: they
/// spell an expression.
pub open spec fn expr_leaf(tokens: Seq<TokenView>) -> bool {
    &&& tokens.len() > 0
    &&& reads_as_expr(spelling(tokens, 0))
    &&& no_semicolon(tokens)
}

/// One of the marks that end a type.
pub open spec fn ends_type(stop: char) -> bool {
    stop == ',' || stop == '=' || stop == '>'
}

/// The search for the end of a piece runs through a type whose angle
/// brackets pair up, and is behind it where it was before it.
pub proof fn lemma_scan_passes_type(
    tokens: Seq<TokenView>,
    from: int,
    len: int,
    bound: int,
    at: int,
    depth: nat,
    first: char,
    second: char,
)
    requires
        0 <= from <= at <= from + len <= bound <= tokens.len(),
        angles_close(tokens.subrange(from, from + len), at - from, depth),
        ends_type(first),
        ends_type(second),
        from == 0 || tokens[from - 1] != TokenView::Punct('-', true),
    ensures
        leaf_end(tokens, at, bound, depth, first, second, true) == leaf_end(
            tokens,
            from + len,
            bound,
            0,
            first,
            second,
            true,
        ),
    decreases from + len - at,
{
    let leaf = tokens.subrange(from, from + len);
    if at < from + len {
        assert(leaf[at - from] == tokens[at]);
        if at > from {
            assert(leaf[at - from - 1] == tokens[at - 1]);
        }
        assert(arrow_head(leaf, at - from) == arrow_head(tokens, at));
        if is_mark(tokens[at], '<') {
            lemma_scan_passes_type(tokens, from, len, bound, at + 1, depth + 1, first, second);
        } else if is_mark(tokens[at], '>') && !arrow_head(tokens, at) {
            lemma_scan_passes_type(
                tokens,
                from,
                len,
                bound,
                at + 1,
                (depth - 1) as nat,
                first,
                second,
            );
        } else {
            lemma_scan_passes_type(tokens, from, len, bound, at + 1, depth, first, second);
        }
    }
}

/// The search for a semicolon runs through tokens that hold none.
pub proof fn lemma_scan_passes_to(tokens: Seq<TokenView>, at: int, end: int, bound: int)
    requires
        0 <= at <= end <= bound <= tokens.len(),
        forall|i: int| at <= i < end ==> !is_mark(#[trigger] tokens[i], ';'),
    ensures
        leaf_end(tokens, at, bound, 0, ';', ';', false) == leaf_end(
            tokens,
            end,
            bound,
            0,
            ';',
            ';',
            false,
        ),
    decreases end - at,
{
    if at < end {
        assert(!is_mark(tokens[at], ';'));
        lemma_scan_passes_to(tokens, at + 1, end, bound);
    }
}

/// What is read from tokens and can be written back as tokens.
pub trait Source: Parse {
    /// The tokens that an item is written as in a specification.
    spec fn source(tree: <Self as DeepView>::V) -> Seq<TokenView>;

    /// Whether an item can stand in a list with the separator `separator`:
    /// its names are names, its types are types and its expressions are
    /// expressions, and the separator is the one of the lists it stands in.
    spec fn sound(tree: <Self as DeepView>::V, separator: char) -> bool;

    /// Where the tokens of an item stand, the grammar reads the item.
    proof fn lemma_reads_back(
        tokens: Seq<TokenView>,
        from: int,
        tree: <Self as DeepView>::V,
        inside: Option<Keyword>,
        separator: char,
    )
        requires
            Self::sound(tree, separator),
            0 <= from,
            from + Self::source(tree).len() <= tokens.len(),
            tokens.subrange(from, from + Self::source(tree).len()) == Self::source(tree),
        ensures
            Self::source(tree).len() > 0,
            Self::grammar(tokens, from, from + Self::source(tree).len(), inside) == Ok::<
                <Self as DeepView>::V,
                ParseError,
            >(tree),
    ;

    /// The search for the separator runs through the tokens of an item.
    proof fn lemma_runs_through(
        tokens: Seq<TokenView>,
        from: int,
        bound: int,
        tree: <Self as DeepView>::V,
        separator: char,
    )
        requires
            Self::sound(tree, separator),
            0 <= from,
            from + Self::source(tree).len() <= bound <= tokens.len(),
            tokens.subrange(from, from + Self::source(tree).len()) == Self::source(tree),
        ensures
            leaf_end(tokens, from, bound, 0, separator, separator, separator == ',') == leaf_end(
                tokens,
                from + Self::source(tree).len(),
                bound,
                0,
                separator,
                separator,
                separator == ',',
            ),
    ;
}

/// If a run of tokens is found in other tokens, each of its tokens is found
/// there.
pub proof fn lemma_found_at(tokens: Seq<TokenView>, from: int, piece: Seq<TokenView>, i: int)
    requires
        0 <= from,
        from + piece.len() <= tokens.len(),
        tokens.subrange(from, from + piece.len()) == piece,
        0 <= i < piece.len(),
    ensures
        tokens[from + i] == piece[i],
{
    assert(tokens.subrange(from, from + piece.len())[i] == tokens[from + i]);
}

/// If a run of tokens is found in other tokens, each part of it is found
/// there.
pub proof fn lemma_part_found(
    tokens: Seq<TokenView>,
    from: int,
    piece: Seq<TokenView>,
    start: int,
    part: Seq<TokenView>,
)
    requires
        0 <= from,
        from + piece.len() <= tokens.len(),
        tokens.subrange(from, from + piece.len()) == piece,
        0 <= start,
        start + part.len() <= piece.len(),
        piece.subrange(start, start + part.len()) == part,
    ensures
        tokens.subrange(from + start, from + start + part.len()) == part,
{
    assert forall|i: int| 0 <= i < part.len() implies tokens.subrange(
        from + start,
        from + start + part.len(),
    )[i] == part[i] by {
        lemma_found_at(tokens, from, piece, start + i);
        assert(piece.subrange(start, start + part.len())[i] == piece[start + i]);
    }
    assert(tokens.subrange(from + start, from + start + part.len()) =~= part);
}

impl Source for Expr {
    open spec fn source(tree: Seq<TokenView>) -> Seq<TokenView> {
        tree
    }

    open spec fn sound(tree: Seq<TokenView>, separator: char) -> bool {
        separator == ';' && expr_leaf(tree)
    }

    proof fn lemma_reads_back(
        tokens: Seq<TokenView>,
        from: int,
        tree: Seq<TokenView>,
        inside: Option<Keyword>,
        separator: char,
    ) {
    }

    proof fn lemma_runs_through(
        tokens: Seq<TokenView>,
        from: int,
        bound: int,
        tree: Seq<TokenView>,
        separator: char,
    ) {
        assert forall|i: int| from <= i < from + tree.len() implies !is_mark(
            #[trigger] tokens[i],
            ';',
        ) by {
            lemma_found_at(tokens, from, tree, i - from);
        }
        lemma_scan_passes_to(tokens, from, from + tree.len(), bound);
    }
}

impl Source for IdentAndType {
    /// `name : Type`
    open spec fn source(tree: IdentAndTypeView) -> Seq<TokenView> {
        seq![word(tree.name), mark(':')] + tree.typ
    }

    open spec fn sound(tree: IdentAndTypeView, separator: char) -> bool {
        separator == ',' && reads_as_ident(tree.name) && type_leaf(tree.typ)
    }

    proof fn lemma_reads_back(
        tokens: Seq<TokenView>,
        from: int,
        tree: IdentAndTypeView,
        inside: Option<Keyword>,
        separator: char,
    ) {
        let piece = Self::source(tree);
        lemma_found_at(tokens, from, piece, 0);
        lemma_found_at(tokens, from, piece, 1);
        assert(piece.subrange(2, 2 + tree.typ.len() as int) =~= tree.typ);
        lemma_part_found(tokens, from, piece, 2, tree.typ);
    }

    proof fn lemma_runs_through(
        tokens: Seq<TokenView>,
        from: int,
        bound: int,
        tree: IdentAndTypeView,
        separator: char,
    ) {
        let piece = Self::source(tree);
        lemma_found_at(tokens, from, piece, 0);
        lemma_found_at(tokens, from, piece, 1);
        assert(piece.subrange(2, 2 + tree.typ.len() as int) =~= tree.typ);
        lemma_part_found(tokens, from, piece, 2, tree.typ);
        lemma_scan_passes_type(tokens, from + 2, tree.typ.len() as int, bound, from + 2, 0, ',', ',');
        assert(leaf_end(tokens, from, bound, 0, ',', ',', true) == leaf_end(
            tokens,
            from + 1,
            bound,
            0,
            ',',
            ',',
            true,
        ));
        assert(leaf_end(tokens, from + 1, bound, 0, ',', ',', true) == leaf_end(
            tokens,
            from + 2,
            bound,
            0,
            ',',
            ',',
            true,
        ));
    }
}

/// No token of a run that is found in other tokens and holds no semicolon
/// is a semicolon there.
pub proof fn lemma_no_semicolon_found(tokens: Seq<TokenView>, from: int, piece: Seq<TokenView>)
    requires
        0 <= from,
        from + piece.len() <= tokens.len(),
        tokens.subrange(from, from + piece.len()) == piece,
        no_semicolon(piece),
    ensures
        forall|i: int| from <= i < from + piece.len() ==> !is_mark(#[trigger] tokens[i], ';'),
{
    assert forall|i: int| from <= i < from + piece.len() implies !is_mark(
        #[trigger] tokens[i],
        ';',
    ) by {
        lemma_found_at(tokens, from, piece, i - from);
    }
}

impl Source for IdentAndValue {
    /// `name : Type = value`
    open spec fn source(tree: IdentAndValueView) -> Seq<TokenView> {
        seq![word(tree.name), mark(':')] + tree.typ + seq![mark('=')] + tree.value
    }

    open spec fn sound(tree: IdentAndValueView, separator: char) -> bool {
        separator == ';' && reads_as_ident(tree.name) && type_leaf(tree.typ) && expr_leaf(tree.value)
    }

    proof fn lemma_reads_back(
        tokens: Seq<TokenView>,
        from: int,
        tree: IdentAndValueView,
        inside: Option<Keyword>,
        separator: char,
    ) {
        let piece = Self::source(tree);
        let types = tree.typ.len() as int;
        let values = tree.value.len() as int;
        let to = from + piece.len();
        lemma_found_at(tokens, from, piece, 0);
        lemma_found_at(tokens, from, piece, 1);
        lemma_found_at(tokens, from, piece, 2 + types);
        assert(piece.subrange(2, 2 + types) =~= tree.typ);
        assert(piece.subrange(3 + types, 3 + types + values) =~= tree.value);
        lemma_part_found(tokens, from, piece, 2, tree.typ);
        lemma_part_found(tokens, from, piece, 3 + types, tree.value);
        lemma_scan_passes_type(tokens, from + 2, types, to, from + 2, 0, '=', '=');
        assert(leaf_end(tokens, from + 2 + types, to, 0, '=', '=', true) == from + 2 + types);
    }

    proof fn lemma_runs_through(
        tokens: Seq<TokenView>,
        from: int,
        bound: int,
        tree: IdentAndValueView,
        separator: char,
    ) {
        let piece = Self::source(tree);
        assert(no_semicolon(piece));
        lemma_no_semicolon_found(tokens, from, piece);
        lemma_scan_passes_to(tokens, from, from + piece.len(), bound);
    }
}

/// An equation as it is written in a specification: `name = rhs`, or
/// `name @ = rhs` for a derivative.
pub open spec fn equation_source(tree: EquationView) -> Seq<TokenView> {
    match tree.left_side {
        IdentOrDerivativeView::Ident(name) => seq![word(name), mark('=')] + tree.right_side,
        IdentOrDerivativeView::Derivative(name) => seq![word(name), mark('@'), mark('=')]
            + tree.right_side,
    }
}

impl Source for Equation {
    open spec fn source(tree: EquationView) -> Seq<TokenView> {
        equation_source(tree)
    }

    open spec fn sound(tree: EquationView, separator: char) -> bool {
        separator == ';' && reads_as_ident(tree.left_side.name()) && expr_leaf(tree.right_side)
    }

    proof fn lemma_reads_back(
        tokens: Seq<TokenView>,
        from: int,
        tree: EquationView,
        inside: Option<Keyword>,
        separator: char,
    ) {
        let piece = Self::source(tree);
        let values = tree.right_side.len() as int;
        lemma_found_at(tokens, from, piece, 0);
        lemma_found_at(tokens, from, piece, 1);
        match tree.left_side {
            IdentOrDerivativeView::Ident(name) => {
                assert(piece.subrange(2, 2 + values) =~= tree.right_side);
                lemma_part_found(tokens, from, piece, 2, tree.right_side);
            },
            IdentOrDerivativeView::Derivative(name) => {
                lemma_found_at(tokens, from, piece, 2);
                assert(piece.subrange(3, 3 + values) =~= tree.right_side);
                lemma_part_found(tokens, from, piece, 3, tree.right_side);
            },
        }
    }

    proof fn lemma_runs_through(
        tokens: Seq<TokenView>,
        from: int,
        bound: int,
        tree: EquationView,
        separator: char,
    ) {
        let piece = Self::source(tree);
        assert(no_semicolon(piece));
        lemma_no_semicolon_found(tokens, from, piece);
        lemma_scan_passes_to(tokens, from, from + piece.len(), bound);
    }
}

/// The items from index `at` on as they are written in a body: one after the
/// other, with the separator between each two.
pub open spec fn joined<T: Source>(items: Seq<<T as DeepView>::V>, at: int, separator: char) -> Seq<
    TokenView,
>
    decreases items.len() - at,
{
    if 0 <= at < items.len() - 1 {
        T::source(items[at]).push(mark(separator)) + joined::<T>(items, at + 1, separator)
    } else if at == items.len() - 1 {
        T::source(items[at])
    } else {
        seq![]
    }
}

/// Whether all items can stand in a list with the separator `separator`.
pub open spec fn all_sound<T: Source>(items: Seq<<T as DeepView>::V>, separator: char) -> bool {
    forall|i: int| 0 <= i < items.len() ==> T::sound(#[trigger] items[i], separator)
}

/// Where a body ends in the items from index `at` on, as they are written,
/// the grammar reads these items.
pub proof fn lemma_list_reads_back<T: Source>(
    body: Seq<TokenView>,
    from: int,
    items: Seq<<T as DeepView>::V>,
    at: int,
    separator: char,
    section: Keyword,
)
    requires
        0 <= at < items.len(),
        all_sound::<T>(items, separator),
        separator != '>',
        0 <= from <= body.len(),
        body.subrange(from, body.len() as int) == joined::<T>(items, at, separator),
    ensures
        delimited::<T>(body, from, separator, section) == Ok::<Seq<<T as DeepView>::V>, ParseError>(
            items.subrange(at, items.len() as int),
        ),
    decreases items.len() - at,
{
    let len = body.len() as int;
    let item = items[at];
    let piece = T::source(item);
    let rest = body.subrange(from, len);
    assert(T::sound(item, separator));
    if at < items.len() - 1 {
        let more = joined::<T>(items, at + 1, separator);
        assert(rest == piece.push(mark(separator)) + more);
        assert(rest.len() == piece.len() + 1 + more.len());
        assert(body.subrange(from, from + piece.len()) =~= piece) by {
            assert forall|i: int| 0 <= i < piece.len() implies body.subrange(
                from,
                from + piece.len(),
            )[i] == piece[i] by {
                assert(rest[i] == body[from + i]);
            }
        }
        assert(body[from + piece.len()] == mark(separator)) by {
            assert(rest[piece.len() as int] == body[from + piece.len()]);
        }
        assert(body.subrange(from + piece.len() + 1, len) =~= more) by {
            assert forall|i: int| 0 <= i < more.len() implies body.subrange(
                from + piece.len() + 1,
                len,
            )[i] == more[i] by {
                assert(rest[piece.len() + 1 + i] == body[from + piece.len() + 1 + i]);
            }
        }
        T::lemma_reads_back(body, from, item, Some(section), separator);
        T::lemma_runs_through(body, from, len, item, separator);
        let end = from + piece.len();
        assert(leaf_end(body, end, len, 0, separator, separator, separator == ',') == end);
        lemma_list_reads_back::<T>(body, end + 1, items, at + 1, separator, section);
        assert(seq![item] + items.subrange(at + 1, items.len() as int) =~= items.subrange(
            at,
            items.len() as int,
        ));
    } else {
        assert(rest == piece);
        assert(body.subrange(from, from + piece.len()) =~= piece);
        T::lemma_reads_back(body, from, item, Some(section), separator);
        T::lemma_runs_through(body, from, len, item, separator);
        assert(leaf_end(body, len, len, 0, separator, separator, separator == ',') == len);
        assert(seq![item] =~= items.subrange(at, items.len() as int));
    }
}

/// A section that is written as its keyword and the list of its items in
/// braces is read as these items.
pub proof fn lemma_list_section_reads_back<T: Source>(
    tokens: Seq<TokenView>,
    at: int,
    items: Seq<<T as DeepView>::V>,
    keyword: Keyword,
    separator: char,
)
    requires
        0 <= at,
        at + 1 < tokens.len(),
        tokens[at] == word(keyword.spelled()),
        tokens[at + 1] == braced(joined::<T>(items, 0, separator)),
        items.len() > 0,
        all_sound::<T>(items, separator),
        separator != '>',
    ensures
        list_section::<T>(tokens, at, keyword, separator) == Ok::<
            Seq<<T as DeepView>::V>,
            ParseError,
        >(items),
{
    let body = joined::<T>(items, 0, separator);
    assert(body.subrange(0, body.len() as int) =~= body);
    lemma_list_reads_back::<T>(body, 0, items, 0, separator, keyword);
    assert(items.subrange(0, items.len() as int) =~= items);
}

/// A section that is written as its keyword and one expression in braces is
/// read as this expression.
pub proof fn lemma_expr_section_reads_back(
    tokens: Seq<TokenView>,
    at: int,
    expr: Seq<TokenView>,
    keyword: Keyword,
)
    requires
        0 <= at,
        at + 1 < tokens.len(),
        tokens[at] == word(keyword.spelled()),
        tokens[at + 1] == braced(expr),
        expr_leaf(expr),
    ensures
        expr_section(tokens, at, keyword) == Ok::<Seq<TokenView>, ParseError>(expr),
{
    assert(expr.subrange(0, expr.len() as int) =~= expr);
}

/// A header as it is written: `Name < Output , Time >`.
pub open spec fn header_source(header: NeuronTypeView) -> Seq<TokenView> {
    seq![word(header.name), mark('<')] + header.voltage_type + seq![mark(',')] + header.time_type
        + seq![mark('>')]
}

/// Whether a header can be written: its name is a name and its types are
/// types.
pub open spec fn sound_header(header: NeuronTypeView) -> bool {
    reads_as_ident(header.name) && type_leaf(header.voltage_type) && type_leaf(header.time_type)
}

/// Tokens that start with a header as it is written are read as starting
/// with this header.
pub proof fn lemma_header_reads_back(tokens: Seq<TokenView>, header: NeuronTypeView)
    requires
        sound_header(header),
        header_source(header).len() <= tokens.len(),
        tokens.subrange(0, header_source(header).len() as int) == header_source(header),
    ensures
        neuron_type(tokens) == Ok::<(NeuronTypeView, int), ParseError>(
            (header, header_source(header).len() as int),
        ),
{
    let piece = header_source(header);
    let len = tokens.len() as int;
    let voltages = header.voltage_type.len() as int;
    let times = header.time_type.len() as int;
    lemma_found_at(tokens, 0, piece, 0);
    lemma_found_at(tokens, 0, piece, 1);
    lemma_found_at(tokens, 0, piece, 2 + voltages);
    lemma_found_at(tokens, 0, piece, 2 + voltages + times);
    lemma_found_at(tokens, 0, piece, 3 + voltages + times);
    assert(piece[2 + voltages + times] == header.time_type.last());
    assert(piece.subrange(2, 2 + voltages) =~= header.voltage_type);
    assert(piece.subrange(3 + voltages, 3 + voltages + times) =~= header.time_type);
    lemma_part_found(tokens, 0, piece, 2, header.voltage_type);
    lemma_part_found(tokens, 0, piece, 3 + voltages, header.time_type);
    lemma_scan_passes_type(tokens, 2, voltages, len, 2, 0, ',', '>');
    let comma = 2 + voltages;
    assert(leaf_end(tokens, comma, len, 0, ',', '>', true) == comma);
    lemma_scan_passes_type(tokens, comma + 1, times, len, comma + 1, 0, ',', '>');
    let close = comma + 1 + times;
    assert(!arrow_head(tokens, close));
    assert(leaf_end(tokens, close, len, 0, ',', '>', true) == close);
}

/// The specification of a neuron as it is written.
pub open spec fn neuron_source(def: NeuronDefView) -> Seq<TokenView> {
    header_source(def.neuron_type) + seq![
        mark(':'),
        word("params"@),
        braced(joined::<IdentAndType>(def.param_list, 0, ',')),
        word("initialize"@),
        braced(joined::<IdentAndValue>(def.initialize_list, 0, ';')),
        word("time_step"@),
        braced(joined::<Equation>(def.time_step, 0, ';')),
        word("spike_when"@),
        braced(def.spike_when),
        word("get_voltage"@),
        braced(def.voltage_getter),
        word("reset"@),
        braced(joined::<Expr>(def.reset, 0, ';')),
    ]
}

/// Whether the specification of a neuron can be written: no list of it is
/// empty, its names are names, its types are types and its expressions are
/// expressions.
pub open spec fn sound_neuron(def: NeuronDefView) -> bool {
    &&& sound_header(def.neuron_type)
    &&& def.param_list.len() > 0
    &&& all_sound::<IdentAndType>(def.param_list, ',')
    &&& def.initialize_list.len() > 0
    &&& all_sound::<IdentAndValue>(def.initialize_list, ';')
    &&& def.time_step.len() > 0
    &&& all_sound::<Equation>(def.time_step, ';')
    &&& expr_leaf(def.spike_when)
    &&& expr_leaf(def.voltage_getter)
    &&& def.reset.len() > 0
    &&& all_sound::<Expr>(def.reset, ';')
}

/// The grammar of a neuron reads back what is written of a specification:
/// whatever tree can be written, the tokens that it is written as are read
/// as that tree and as no other.
pub proof fn lemma_neuron_reads_back(def: NeuronDefView)
    requires
        sound_neuron(def),
    ensures
        neuron_def(neuron_source(def)) == Ok::<NeuronDefView, ParseError>(def),
{
    let tokens = neuron_source(def);
    let head = header_source(def.neuron_type);
    let next = head.len() as int;
    assert(tokens.len() == next + 13);
    assert(tokens.subrange(0, next) =~= head);
    lemma_header_reads_back(tokens, def.neuron_type);
    assert(tokens[next] == mark(':'));
    assert(tokens[next + 1] == word("params"@));
    assert(tokens[next + 2] == braced(joined::<IdentAndType>(def.param_list, 0, ',')));
    assert(tokens[next + 3] == word("initialize"@));
    assert(tokens[next + 4] == braced(joined::<IdentAndValue>(def.initialize_list, 0, ';')));
    assert(tokens[next + 5] == word("time_step"@));
    assert(tokens[next + 6] == braced(joined::<Equation>(def.time_step, 0, ';')));
    assert(tokens[next + 7] == word("spike_when"@));
    assert(tokens[next + 8] == braced(def.spike_when));
    assert(tokens[next + 9] == word("get_voltage"@));
    assert(tokens[next + 10] == braced(def.voltage_getter));
    assert(tokens[next + 11] == word("reset"@));
    assert(tokens[next + 12] == braced(joined::<Expr>(def.reset, 0, ';')));
    lemma_list_section_reads_back::<IdentAndType>(
        tokens,
        next + 1,
        def.param_list,
        Keyword::Params,
        ',',
    );
    lemma_list_section_reads_back::<IdentAndValue>(
        tokens,
        next + 3,
        def.initialize_list,
        Keyword::Initialize,
        ';',
    );
    lemma_list_section_reads_back::<Equation>(tokens, next + 5, def.time_step, Keyword::TimeStep, ';');
    lemma_expr_section_reads_back(tokens, next + 7, def.spike_when, Keyword::SpikeWhen);
    lemma_expr_section_reads_back(tokens, next + 9, def.voltage_getter, Keyword::GetVoltage);
    lemma_list_section_reads_back::<Expr>(tokens, next + 11, def.reset, Keyword::Reset, ';');
}

/// The specification of a synapse as it is written.
pub open spec fn synapse_source(def: SynapseDefView) -> Seq<TokenView> {
    header_source(def.synapse_type) + seq![
        mark(':'),
        word("params"@),
        braced(joined::<IdentAndType>(def.param_list, 0, ',')),
        word("initialize"@),
        braced(joined::<IdentAndValue>(def.initialize_list, 0, ';')),
        word("time_step"@),
        braced(joined::<Equation>(def.time_step, 0, ';')),
        word("weight_getter"@),
        braced(def.weight_getter),
        word("on_pre"@),
        braced(joined::<Expr>(def.pre_synapse_spike, 0, ';')),
        word("on_post"@),
        braced(joined::<Expr>(def.post_synapse_spike, 0, ';')),
    ]
}

/// Whether the specification of a synapse can be written.
pub open spec fn sound_synapse(def: SynapseDefView) -> bool {
    &&& sound_header(def.synapse_type)
    &&& def.param_list.len() > 0
    &&& all_sound::<IdentAndType>(def.param_list, ',')
    &&& def.initialize_list.len() > 0
    &&& all_sound::<IdentAndValue>(def.initialize_list, ';')
    &&& def.time_step.len() > 0
    &&& all_sound::<Equation>(def.time_step, ';')
    &&& expr_leaf(def.weight_getter)
    &&& def.pre_synapse_spike.len() > 0
    &&& all_sound::<Expr>(def.pre_synapse_spike, ';')
    &&& def.post_synapse_spike.len() > 0
    &&& all_sound::<Expr>(def.post_synapse_spike, ';')
}

/// The grammar of a synapse reads back what is written of a specification.
pub proof fn lemma_synapse_reads_back(def: SynapseDefView)
    requires
        sound_synapse(def),
    ensures
        synapse_def(synapse_source(def)) == Ok::<SynapseDefView, ParseError>(def),
{
    let tokens = synapse_source(def);
    let head = header_source(def.synapse_type);
    let next = head.len() as int;
    assert(tokens.len() == next + 13);
    assert(tokens.subrange(0, next) =~= head);
    lemma_header_reads_back(tokens, def.synapse_type);
    assert(tokens[next] == mark(':'));
    assert(tokens[next + 1] == word("params"@));
    assert(tokens[next + 2] == braced(joined::<IdentAndType>(def.param_list, 0, ',')));
    assert(tokens[next + 3] == word("initialize"@));
    assert(tokens[next + 4] == braced(joined::<IdentAndValue>(def.initialize_list, 0, ';')));
    assert(tokens[next + 5] == word("time_step"@));
    assert(tokens[next + 6] == braced(joined::<Equation>(def.time_step, 0, ';')));
    assert(tokens[next + 7] == word("weight_getter"@));
    assert(tokens[next + 8] == braced(def.weight_getter));
    assert(tokens[next + 9] == word("on_pre"@));
    assert(tokens[next + 10] == braced(joined::<Expr>(def.pre_synapse_spike, 0, ';')));
    assert(tokens[next + 11] == word("on_post"@));
    assert(tokens[next + 12] == braced(joined::<Expr>(def.post_synapse_spike, 0, ';')));
    lemma_list_section_reads_back::<IdentAndType>(
        tokens,
        next + 1,
        def.param_list,
        Keyword::Params,
        ',',
    );
    lemma_list_section_reads_back::<IdentAndValue>(
        tokens,
        next + 3,
        def.initialize_list,
        Keyword::Initialize,
        ';',
    );
    lemma_list_section_reads_back::<Equation>(tokens, next + 5, def.time_step, Keyword::TimeStep, ';');
    lemma_expr_section_reads_back(tokens, next + 7, def.weight_getter, Keyword::WeightGetter);
    lemma_list_section_reads_back::<Expr>(tokens, next + 9, def.pre_synapse_spike, Keyword::OnPre, ';');
    lemma_list_section_reads_back::<Expr>(
        tokens,
        next + 11,
        def.post_synapse_spike,
        Keyword::OnPost,
        ';',
    );
}

} // verus!
