//! The conversions into `Location` that are emitted for tuples and arrays of
//! junctions, with or without parents in front.
//!
//! Each emitted impl is specified as a sequence of tokens. The comment above
//! a specification shows the text for two junctions and, where it has any,
//! two parents.

use crate::fragments::{
    emit_from_impl, emit_generics, from_impl, generics, into_calls, push_into_calls,
    push_repeated, push_separated, push_terminated, repeated, separated, terminated,
};
use crate::tokens::{
    braces, brackets, error_message, extend, holds, ident, is_identifier, joint,
    lemma_holds_in_two, lemma_holds_within, numbered, parens, punct, push_braces, push_brackets,
    push_ident, push_numbered, push_parens, push_path_sep, push_punct, push_suffixed,
    push_unsuffixed, stream_tokens, suffixed, unsuffixed, usage_error, Token,
};
use crate::MAX_JUNCTIONS;
use proc_macro2::TokenStream;
use vstd::prelude::*;

pub mod laws;

verus! {

/// The shapes of value from which a `Location` is made. There is one
/// conversion for each; the numbers say how many parents and how many
/// junctions the shape has.
pub enum Shape {
    /// `(Ancestor, Junctions)`: a count of ancestors and an interior.
    AncestorInterior,
    /// `Junction`: one junction.
    Junction,
    /// `(Ancestor, J0, J1)`: a count of ancestors, then `k` values.
    AncestorTuple(nat),
    /// `[Junction; 2]`: an array of `k` junctions.
    Array(nat),
    /// `(Parent, Parent, J0, J1)`: `p` times `Parent`, then `k` values.
    ParentTuple(nat, nat),
    /// `(Parent, Parent, Junctions)`: `p` times `Parent`, then an interior.
    ParentInterior(nat),
}

impl Shape {
    /// The type that the conversion is from, as it stands behind `From <`.
    pub open spec fn source(self) -> Seq<Token> {
        match self {
            Shape::AncestorInterior => seq![
                parens(seq![ident("Ancestor"), punct(','), ident("Junctions")]),
            ],
            Shape::Junction => seq![ident("Junction")],
            Shape::AncestorTuple(k) => seq![parens(ancestor_types(k))],
            Shape::Array(k) => seq![brackets(array_of(k))],
            Shape::ParentTuple(p, k) => seq![parens(parent_types(p, k))],
            Shape::ParentInterior(p) => seq![parens(parents_before_interior(p))],
        }
    }

    /// The conversion that is emitted for the shape.
    pub open spec fn conversion(self) -> Seq<Token> {
        match self {
            Shape::AncestorInterior => from_ancestor_interior(),
            Shape::Junction => from_junction(),
            Shape::AncestorTuple(k) => from_ancestor_tuple(k),
            Shape::Array(k) => from_array(k),
            Shape::ParentTuple(p, k) => from_parent_tuple(p, k),
            Shape::ParentInterior(p) => from_parent_interior(p),
        }
    }

    /// The shape has at most `max_junctions` junctions and at most
    /// `max_parents` parents given as markers.
    pub open spec fn is_within(self, max_junctions: nat, max_parents: nat) -> bool {
        match self {
            Shape::AncestorInterior => true,
            Shape::Junction => true,
            Shape::AncestorTuple(k) => k <= max_junctions,
            Shape::Array(k) => k <= max_junctions,
            Shape::ParentTuple(p, k) => p <= max_parents && k <= max_junctions,
            Shape::ParentInterior(p) => p <= max_parents,
        }
    }
}

/// `Parent , Parent , J0 , J1 ,`
pub open spec fn parent_types(p: nat, k: nat) -> Seq<Token> {
    repeated("Parent", p) + terminated("J", k)
}

/// `Parent , Parent , Junctions`
pub open spec fn parents_before_interior(p: nat) -> Seq<Token> {
    repeated("Parent", p).push(ident("Junctions"))
}

/// `alloc :: sync :: Arc :: new ( [ j0 . into ( ) , j1 . into ( ) ] )`
pub open spec fn shared_array(k: nat) -> Seq<Token> {
    seq![
        ident("alloc"),
        joint(':'),
        punct(':'),
        ident("sync"),
        joint(':'),
        punct(':'),
        ident("Arc"),
        joint(':'),
        punct(':'),
        ident("new"),
        parens(seq![brackets(into_calls(k))]),
    ]
}

/// The interior made of the first `k` bindings: `Junctions :: Here` for
/// none, else the variant for `k` junctions around the shared array,
/// `Junctions :: X2 ( alloc :: sync :: Arc :: new ( .. ) )`.
pub open spec fn interior(k: nat) -> Seq<Token> {
    if k == 0 {
        seq![ident("Junctions"), joint(':'), punct(':'), ident("Here")]
    } else {
        seq![
            ident("Junctions"),
            joint(':'),
            punct(':'),
            numbered("X", k),
            parens(shared_array(k)),
        ]
    }
}

/// `Ancestor , J0 , J1`
pub open spec fn ancestor_types(k: nat) -> Seq<Token> {
    seq![ident("Ancestor"), punct(',')] + separated("J", k)
}

/// `Ancestor ( parents ) , j0 , j1`
pub open spec fn ancestor_bindings(k: nat) -> Seq<Token> {
    seq![ident("Ancestor"), parens(seq![ident("parents")]), punct(',')] + separated("j", k)
}

/// `parents , interior : Junctions :: X2 ( .. )`
pub open spec fn given_parents(k: nat) -> Seq<Token> {
    seq![ident("parents"), punct(','), ident("interior"), punct(':')] + interior(k)
}

/// The conversion from a count of ancestors followed by `k` junctions.
///
/// ```text
/// impl<J0: Into<Junction>, J1: Into<Junction>,> From<(Ancestor, J0, J1)> for Location {
///     fn from((Ancestor(parents), j0, j1): (Ancestor, J0, J1)) -> Self {
///         Location { parents, interior: Junctions::X2(..) }
///     }
/// }
/// ```
pub open spec fn from_ancestor_tuple(k: nat) -> Seq<Token> {
    from_impl(
        generics(k),
        Shape::AncestorTuple(k).source(),
        "Location",
        seq![parens(ancestor_bindings(k))],
        seq![ident("Location"), braces(given_parents(k))],
    )
}

/// `Junction ; 2usize`
pub open spec fn array_of(k: nat) -> Seq<Token> {
    seq![ident("Junction"), punct(';'), suffixed(k)]
}

/// `parents : 0 , interior : Junctions :: X2 ( .. )`
pub open spec fn no_parents(k: nat) -> Seq<Token> {
    seq![
        ident("parents"),
        punct(':'),
        unsuffixed(0),
        punct(','),
        ident("interior"),
        punct(':'),
    ] + interior(k)
}

/// `let [ j0 , j1 ] = j ; Location { parents : 0 , interior : .. }`
pub open spec fn array_body(k: nat) -> Seq<Token> {
    seq![
        ident("let"),
        brackets(separated("j", k)),
        punct('='),
        ident("j"),
        punct(';'),
        ident("Location"),
        braces(no_parents(k)),
    ]
}

/// The conversion from an array of `k` junctions, without parents.
///
/// ```text
/// impl From<[Junction; 2usize]> for Location {
///     fn from(j: [Junction; 2usize]) -> Self {
///         let [j0, j1] = j;
///         Location { parents: 0, interior: Junctions::X2(..) }
///     }
/// }
/// ```
pub open spec fn from_array(k: nat) -> Seq<Token> {
    from_impl(
        Seq::empty(),
        Shape::Array(k).source(),
        "Location",
        seq![ident("j")],
        array_body(k),
    )
}

/// `parents : 2usize as u8 , interior :`
pub open spec fn counted_parents(p: nat) -> Seq<Token> {
    seq![
        ident("parents"),
        punct(':'),
        suffixed(p),
        ident("as"),
        ident("u8"),
        punct(','),
        ident("interior"),
        punct(':'),
    ]
}

/// The conversion from `p` times `Parent` followed by `k` junctions.
///
/// ```text
/// impl<J0: Into<Junction>, J1: Into<Junction>,> From<(Parent, Parent, J0, J1,)> for Location {
///     fn from((_, _, j0, j1,): (Parent, Parent, J0, J1,)) -> Self {
///         Self { parents: 2usize as u8, interior: Junctions::X2(..) }
///     }
/// }
/// ```
pub open spec fn from_parent_tuple(p: nat, k: nat) -> Seq<Token> {
    from_impl(
        generics(k),
        Shape::ParentTuple(p, k).source(),
        "Location",
        seq![parens(repeated("_", p) + terminated("j", k))],
        seq![ident("Self"), braces(counted_parents(p) + interior(k))],
    )
}

/// The conversion from `p` times `Parent` followed by an interior.
///
/// ```text
/// impl From<(Parent, Parent, Junctions)> for Location {
///     fn from((_, _, junctions): (Parent, Parent, Junctions)) -> Self {
///         Location { parents: 2usize as u8, interior: junctions }
///     }
/// }
/// ```
pub open spec fn from_parent_interior(p: nat) -> Seq<Token> {
    from_impl(
        Seq::empty(),
        Shape::ParentInterior(p).source(),
        "Location",
        seq![parens(repeated("_", p).push(ident("junctions")))],
        seq![ident("Location"), braces(counted_parents(p).push(ident("junctions")))],
    )
}

/// The conversion from a count of ancestors and an interior.
///
/// ```text
/// impl From<(Ancestor, Junctions)> for Location {
///     fn from((Ancestor(parents), interior): (Ancestor, Junctions)) -> Self {
///         Location { parents, interior }
///     }
/// }
/// ```
pub open spec fn from_ancestor_interior() -> Seq<Token> {
    from_impl(
        Seq::empty(),
        Shape::AncestorInterior.source(),
        "Location",
        seq![
            parens(
                seq![
                    ident("Ancestor"),
                    parens(seq![ident("parents")]),
                    punct(','),
                    ident("interior"),
                ],
            ),
        ],
        seq![ident("Location"), braces(seq![ident("parents"), punct(','), ident("interior")])],
    )
}

/// `parents : 0 , interior : [ x ] . into ( )`
pub open spec fn single_junction() -> Seq<Token> {
    seq![
        ident("parents"),
        punct(':'),
        unsuffixed(0),
        punct(','),
        ident("interior"),
        punct(':'),
        brackets(seq![ident("x")]),
        punct('.'),
        ident("into"),
        parens(Seq::empty()),
    ]
}

/// The conversion from one junction, without parents.
///
/// ```text
/// impl From<Junction> for Location {
///     fn from(x: Junction) -> Self {
///         Location { parents: 0, interior: [x].into() }
///     }
/// }
/// ```
pub open spec fn from_junction() -> Seq<Token> {
    from_impl(
        Seq::empty(),
        Shape::Junction.source(),
        "Location",
        seq![ident("x")],
        seq![ident("Location"), braces(single_junction())],
    )
}

/// The tuples of `k` values behind 0, 1, .. `count - 1` times `Parent`.
pub open spec fn parent_tuple_shapes(count: nat, k: nat) -> Seq<Shape> {
    Seq::new(count, |p: int| Shape::ParentTuple(p as nat, k))
}

/// The shapes of `k` junctions: the tuple behind a count of ancestors, the
/// array, and the tuples behind 0 to `max_parents` times `Parent`.
pub open spec fn shapes_of(k: nat, max_parents: nat) -> Seq<Shape> {
    seq![Shape::AncestorTuple(k), Shape::Array(k)] + parent_tuple_shapes(max_parents + 1, k)
}

/// The shapes of 0, 1, .. `count - 1` junctions.
pub open spec fn tuple_shapes(count: nat, max_parents: nat) -> Seq<Shape>
    decreases count,
{
    if count == 0 {
        Seq::empty()
    } else {
        tuple_shapes((count - 1) as nat, max_parents) + shapes_of((count - 1) as nat, max_parents)
    }
}

/// An interior behind 0, 1, .. `count - 1` times `Parent`.
pub open spec fn parent_interior_shapes(count: nat) -> Seq<Shape> {
    Seq::new(count, |p: int| Shape::ParentInterior(p as nat))
}

/// The shapes for which a conversion is emitted, in the order of their
/// conversions: the two that take no list of junctions, the shapes of 0 to
/// `max_junctions` junctions, and an interior behind 0 to `max_parents`
/// times `Parent`.
pub open spec fn shapes(max_junctions: nat, max_parents: nat) -> Seq<Shape> {
    seq![Shape::AncestorInterior, Shape::Junction] + tuple_shapes(max_junctions + 1, max_parents)
        + parent_interior_shapes(max_parents + 1)
}

/// The conversions for the given shapes, one behind the other.
pub open spec fn emitted(shapes: Seq<Shape>) -> Seq<Token>
    decreases shapes.len(),
{
    if shapes.len() == 0 {
        Seq::empty()
    } else {
        emitted(shapes.drop_last()) + shapes.last().conversion()
    }
}

/// Everything that is emitted for `Location`: the conversion for each
/// shape of at most `max_junctions` junctions and `max_parents` parents.
pub open spec fn conversions(max_junctions: nat, max_parents: nat) -> Seq<Token> {
    emitted(shapes(max_junctions, max_parents))
}

/// One more shape gives one more conversion, behind the others.
pub proof fn lemma_emitted_push(shapes: Seq<Shape>, shape: Shape)
    ensures
        emitted(shapes.push(shape)) == emitted(shapes) + shape.conversion(),
{
    assert(shapes.push(shape).drop_last() =~= shapes);
}

/// The conversions for two lists of shapes, one behind the other, are the
/// conversions for the first list followed by those for the second.
pub proof fn lemma_emitted_concat(first: Seq<Shape>, second: Seq<Shape>)
    ensures
        emitted(first + second) == emitted(first) + emitted(second),
    decreases second.len(),
{
    if second.len() == 0 {
        assert(first + second =~= first);
        assert(emitted(first) + emitted(second) =~= emitted(first));
    } else {
        lemma_emitted_concat(first, second.drop_last());
        assert((first + second).drop_last() =~= first + second.drop_last());
        assert(emitted(first + second) =~= emitted(first) + emitted(second));
    }
}

/// The conversion for each of the shapes stands in what is emitted for them.
pub proof fn lemma_emitted_holds(shapes: Seq<Shape>, i: int)
    requires
        0 <= i < shapes.len(),
    ensures
        holds(emitted(shapes), shapes[i].conversion()),
    decreases shapes.len(),
{
    lemma_holds_in_two(emitted(shapes.drop_last()), shapes.last().conversion());
    if i < shapes.len() - 1 {
        lemma_emitted_holds(shapes.drop_last(), i);
        lemma_holds_within(emitted(shapes), emitted(shapes.drop_last()), shapes[i].conversion());
    }
}

fn emit_shared_array(k: usize) -> (ts: TokenStream)
    ensures
        stream_tokens(ts) == shared_array(k as nat),
{
    proof {
        reveal_strlit("alloc");
        reveal_strlit("sync");
        reveal_strlit("Arc");
        reveal_strlit("new");
    }
    let mut elements = TokenStream::new();
    push_into_calls(&mut elements, k);
    assert(stream_tokens(elements) == into_calls(k as nat));
    let mut argument = TokenStream::new();
    push_brackets(&mut argument, elements);
    let mut ts = TokenStream::new();
    push_ident(&mut ts, "alloc");
    push_path_sep(&mut ts);
    push_ident(&mut ts, "sync");
    push_path_sep(&mut ts);
    push_ident(&mut ts, "Arc");
    push_path_sep(&mut ts);
    push_ident(&mut ts, "new");
    push_parens(&mut ts, argument);
    ts
}

fn push_interior(ts: &mut TokenStream, k: usize)
    ensures
        stream_tokens(*final(ts)) == stream_tokens(*old(ts)) + interior(k as nat),
{
    proof {
        reveal_strlit("Junctions");
        reveal_strlit("Here");
        reveal_strlit("X");
    }
    push_ident(ts, "Junctions");
    push_path_sep(ts);
    if k == 0 {
        push_ident(ts, "Here");
    } else {
        push_numbered(ts, "X", k);
        push_parens(ts, emit_shared_array(k));
    }
}

/// A stream of one group in parentheses.
fn in_parens(inner: TokenStream) -> (ts: TokenStream)
    ensures
        stream_tokens(ts) == seq![parens(stream_tokens(inner))],
{
    let mut ts = TokenStream::new();
    push_parens(&mut ts, inner);
    ts
}

/// A stream of one group in square brackets.
fn in_brackets(inner: TokenStream) -> (ts: TokenStream)
    ensures
        stream_tokens(ts) == seq![brackets(stream_tokens(inner))],
{
    let mut ts = TokenStream::new();
    push_brackets(&mut ts, inner);
    ts
}

/// A stream of one identifier.
fn word(name: &str) -> (ts: TokenStream)
    requires
        is_identifier(name@),
    ensures
        stream_tokens(ts) == seq![ident(name)],
{
    let mut ts = TokenStream::new();
    push_ident(&mut ts, name);
    ts
}

fn emit_from_ancestor_tuple(k: usize) -> (ts: TokenStream)
    ensures
        stream_tokens(ts) == from_ancestor_tuple(k as nat),
{
    proof {
        reveal_strlit("Ancestor");
        reveal_strlit("J");
        reveal_strlit("parents");
        reveal_strlit("j");
        reveal_strlit("Location");
        reveal_strlit("interior");
    }
    let mut types = TokenStream::new();
    push_ident(&mut types, "Ancestor");
    push_punct(&mut types, ',');
    push_separated(&mut types, "J", k);
    assert(stream_tokens(types) == ancestor_types(k as nat));

    let mut bindings = TokenStream::new();
    push_ident(&mut bindings, "Ancestor");
    push_parens(&mut bindings, word("parents"));
    push_punct(&mut bindings, ',');
    push_separated(&mut bindings, "j", k);
    assert(stream_tokens(bindings) == ancestor_bindings(k as nat));

    let mut fields = TokenStream::new();
    push_ident(&mut fields, "parents");
    push_punct(&mut fields, ',');
    push_ident(&mut fields, "interior");
    push_punct(&mut fields, ':');
    push_interior(&mut fields, k);
    assert(stream_tokens(fields) == given_parents(k as nat));
    let mut body = TokenStream::new();
    push_ident(&mut body, "Location");
    push_braces(&mut body, fields);
    assert(stream_tokens(body) == seq![ident("Location"), braces(given_parents(k as nat))]);

    emit_from_impl(
        emit_generics(k),
        &in_parens(types),
        "Location",
        in_parens(bindings),
        body,
    )
}

fn emit_from_array(k: usize) -> (ts: TokenStream)
    ensures
        stream_tokens(ts) == from_array(k as nat),
{
    proof {
        reveal_strlit("Junction");
        reveal_strlit("j");
        reveal_strlit("let");
        reveal_strlit("Location");
        reveal_strlit("parents");
        reveal_strlit("interior");
    }
    let mut array = TokenStream::new();
    push_ident(&mut array, "Junction");
    push_punct(&mut array, ';');
    push_suffixed(&mut array, k);
    assert(stream_tokens(array) == array_of(k as nat));

    let mut bindings = TokenStream::new();
    push_separated(&mut bindings, "j", k);
    assert(stream_tokens(bindings) == separated("j", k as nat));
    let mut fields = TokenStream::new();
    push_ident(&mut fields, "parents");
    push_punct(&mut fields, ':');
    push_unsuffixed(&mut fields, 0);
    push_punct(&mut fields, ',');
    push_ident(&mut fields, "interior");
    push_punct(&mut fields, ':');
    push_interior(&mut fields, k);
    assert(stream_tokens(fields) == no_parents(k as nat));
    let mut body = TokenStream::new();
    push_ident(&mut body, "let");
    push_brackets(&mut body, bindings);
    push_punct(&mut body, '=');
    push_ident(&mut body, "j");
    push_punct(&mut body, ';');
    push_ident(&mut body, "Location");
    push_braces(&mut body, fields);
    assert(stream_tokens(body) == array_body(k as nat));

    emit_from_impl(
        TokenStream::new(),
        &in_brackets(array),
        "Location",
        word("j"),
        body,
    )
}

fn emit_counted_parents(p: usize) -> (ts: TokenStream)
    ensures
        stream_tokens(ts) == counted_parents(p as nat),
{
    proof {
        reveal_strlit("parents");
        reveal_strlit("as");
        reveal_strlit("u8");
        reveal_strlit("interior");
    }
    let mut ts = TokenStream::new();
    push_ident(&mut ts, "parents");
    push_punct(&mut ts, ':');
    push_suffixed(&mut ts, p);
    push_ident(&mut ts, "as");
    push_ident(&mut ts, "u8");
    push_punct(&mut ts, ',');
    push_ident(&mut ts, "interior");
    push_punct(&mut ts, ':');
    ts
}

fn emit_from_parent_tuple(p: usize, k: usize) -> (ts: TokenStream)
    ensures
        stream_tokens(ts) == from_parent_tuple(p as nat, k as nat),
{
    proof {
        reveal_strlit("Parent");
        reveal_strlit("J");
        reveal_strlit("_");
        reveal_strlit("j");
        reveal_strlit("Self");
        reveal_strlit("Location");
    }
    let mut types = TokenStream::new();
    push_repeated(&mut types, "Parent", p);
    push_terminated(&mut types, "J", k);
    assert(stream_tokens(types) == repeated("Parent", p as nat) + terminated("J", k as nat));

    let mut bindings = TokenStream::new();
    push_repeated(&mut bindings, "_", p);
    push_terminated(&mut bindings, "j", k);
    assert(stream_tokens(bindings) == repeated("_", p as nat) + terminated("j", k as nat));

    let mut fields = emit_counted_parents(p);
    push_interior(&mut fields, k);
    let mut body = TokenStream::new();
    push_ident(&mut body, "Self");
    push_braces(&mut body, fields);
    assert(stream_tokens(body) == seq![
        ident("Self"),
        braces(counted_parents(p as nat) + interior(k as nat)),
    ]);

    emit_from_impl(
        emit_generics(k),
        &in_parens(types),
        "Location",
        in_parens(bindings),
        body,
    )
}

fn emit_from_parent_interior(p: usize) -> (ts: TokenStream)
    ensures
        stream_tokens(ts) == from_parent_interior(p as nat),
{
    proof {
        reveal_strlit("Parent");
        reveal_strlit("Junctions");
        reveal_strlit("_");
        reveal_strlit("junctions");
        reveal_strlit("Location");
    }
    let mut types = TokenStream::new();
    push_repeated(&mut types, "Parent", p);
    push_ident(&mut types, "Junctions");
    assert(stream_tokens(types) == repeated("Parent", p as nat).push(ident("Junctions")));

    let mut bindings = TokenStream::new();
    push_repeated(&mut bindings, "_", p);
    push_ident(&mut bindings, "junctions");
    assert(stream_tokens(bindings) == repeated("_", p as nat).push(ident("junctions")));

    let mut fields = emit_counted_parents(p);
    push_ident(&mut fields, "junctions");
    let mut body = TokenStream::new();
    push_ident(&mut body, "Location");
    push_braces(&mut body, fields);
    assert(stream_tokens(body) == seq![
        ident("Location"),
        braces(counted_parents(p as nat).push(ident("junctions"))),
    ]);

    emit_from_impl(
        TokenStream::new(),
        &in_parens(types),
        "Location",
        in_parens(bindings),
        body,
    )
}

fn emit_from_ancestor_interior() -> (ts: TokenStream)
    ensures
        stream_tokens(ts) == from_ancestor_interior(),
{
    proof {
        reveal_strlit("Ancestor");
        reveal_strlit("Junctions");
        reveal_strlit("parents");
        reveal_strlit("interior");
        reveal_strlit("Location");
    }
    let mut types = TokenStream::new();
    push_ident(&mut types, "Ancestor");
    push_punct(&mut types, ',');
    push_ident(&mut types, "Junctions");
    assert(stream_tokens(types) == seq![ident("Ancestor"), punct(','), ident("Junctions")]);

    let mut bindings = TokenStream::new();
    push_ident(&mut bindings, "Ancestor");
    push_parens(&mut bindings, word("parents"));
    push_punct(&mut bindings, ',');
    push_ident(&mut bindings, "interior");
    assert(stream_tokens(bindings) == seq![
        ident("Ancestor"),
        parens(seq![ident("parents")]),
        punct(','),
        ident("interior"),
    ]);

    let mut fields = TokenStream::new();
    push_ident(&mut fields, "parents");
    push_punct(&mut fields, ',');
    push_ident(&mut fields, "interior");
    assert(stream_tokens(fields) == seq![ident("parents"), punct(','), ident("interior")]);
    let mut body = TokenStream::new();
    push_ident(&mut body, "Location");
    push_braces(&mut body, fields);
    assert(stream_tokens(body) == seq![
        ident("Location"),
        braces(seq![ident("parents"), punct(','), ident("interior")]),
    ]);

    emit_from_impl(
        TokenStream::new(),
        &in_parens(types),
        "Location",
        in_parens(bindings),
        body,
    )
}

fn emit_from_junction() -> (ts: TokenStream)
    ensures
        stream_tokens(ts) == from_junction(),
{
    proof {
        reveal_strlit("Junction");
        reveal_strlit("x");
        reveal_strlit("parents");
        reveal_strlit("interior");
        reveal_strlit("into");
        reveal_strlit("Location");
    }
    let mut fields = TokenStream::new();
    push_ident(&mut fields, "parents");
    push_punct(&mut fields, ':');
    push_unsuffixed(&mut fields, 0);
    push_punct(&mut fields, ',');
    push_ident(&mut fields, "interior");
    push_punct(&mut fields, ':');
    push_brackets(&mut fields, word("x"));
    push_punct(&mut fields, '.');
    push_ident(&mut fields, "into");
    push_parens(&mut fields, TokenStream::new());
    assert(stream_tokens(fields) == single_junction());
    let mut body = TokenStream::new();
    push_ident(&mut body, "Location");
    push_braces(&mut body, fields);
    assert(stream_tokens(body) == seq![ident("Location"), braces(single_junction())]);

    emit_from_impl(TokenStream::new(), &word("Junction"), "Location", word("x"), body)
}

/// Emits the conversions for the shapes of `k` junctions.
fn emit_from_junctions(k: usize, max_parents: usize) -> (ts: TokenStream)
    ensures
        stream_tokens(ts) == emitted(shapes_of(k as nat, max_parents as nat)),
{
    let ghost fixed = seq![Shape::AncestorTuple(k as nat), Shape::Array(k as nat)];
    let mut ts = emit_from_ancestor_tuple(k);
    extend(&mut ts, emit_from_array(k));
    proof {
        let first = Seq::<Shape>::empty().push(Shape::AncestorTuple(k as nat));
        lemma_emitted_push(Seq::empty(), Shape::AncestorTuple(k as nat));
        lemma_emitted_push(first, Shape::Array(k as nat));
        assert(first.push(Shape::Array(k as nat)) =~= fixed + parent_tuple_shapes(0, k as nat));
    }
    let mut p: usize = 0;
    while p < max_parents
        invariant
            p <= max_parents,
            stream_tokens(ts) == emitted(fixed + parent_tuple_shapes(p as nat, k as nat)),
        decreases max_parents - p,
    {
        extend(&mut ts, emit_from_parent_tuple(p, k));
        proof {
            let done = fixed + parent_tuple_shapes(p as nat, k as nat);
            let next = Shape::ParentTuple(p as nat, k as nat);
            lemma_emitted_push(done, next);
            assert(done.push(next) =~= fixed + parent_tuple_shapes((p + 1) as nat, k as nat));
        }
        p += 1;
    }
    extend(&mut ts, emit_from_parent_tuple(max_parents, k));
    proof {
        let done = fixed + parent_tuple_shapes(max_parents as nat, k as nat);
        let last = Shape::ParentTuple(max_parents as nat, k as nat);
        lemma_emitted_push(done, last);
        assert(done.push(last) =~= shapes_of(k as nat, max_parents as nat));
    }
    ts
}

/// Emits every conversion into `Location` for up to `max_junctions`
/// junctions and up to `max_parents` parents.
pub fn generate_conversion_from_tuples(max_junctions: usize, max_parents: usize) -> (ts:
    TokenStream)
    ensures
        stream_tokens(ts) == conversions(max_junctions as nat, max_parents as nat),
{
    let ghost fixed = seq![Shape::AncestorInterior, Shape::Junction];
    let mut ts = emit_from_ancestor_interior();
    extend(&mut ts, emit_from_junction());
    proof {
        let first = Seq::<Shape>::empty().push(Shape::AncestorInterior);
        lemma_emitted_push(Seq::empty(), Shape::AncestorInterior);
        lemma_emitted_push(first, Shape::Junction);
        assert(first.push(Shape::Junction) =~= fixed + tuple_shapes(0, max_parents as nat));
    }
    let mut k: usize = 0;
    while k < max_junctions
        invariant
            k <= max_junctions,
            stream_tokens(ts) == emitted(fixed + tuple_shapes(k as nat, max_parents as nat)),
        decreases max_junctions - k,
    {
        let ghost done = fixed + tuple_shapes(k as nat, max_parents as nat);
        extend(&mut ts, emit_from_junctions(k, max_parents));
        proof {
            lemma_emitted_concat(done, shapes_of(k as nat, max_parents as nat));
            assert(done + shapes_of(k as nat, max_parents as nat) =~= fixed + tuple_shapes(
                (k + 1) as nat,
                max_parents as nat,
            ));
        }
        k += 1;
    }
    let ghost tuples = tuple_shapes((max_junctions + 1) as nat, max_parents as nat);
    extend(&mut ts, emit_from_junctions(max_junctions, max_parents));
    proof {
        let done = fixed + tuple_shapes(max_junctions as nat, max_parents as nat);
        lemma_emitted_concat(done, shapes_of(max_junctions as nat, max_parents as nat));
        assert(done + shapes_of(max_junctions as nat, max_parents as nat) =~= fixed + tuples
            + parent_interior_shapes(0));
    }
    let mut p: usize = 0;
    while p < max_parents
        invariant
            p <= max_parents,
            stream_tokens(ts) == emitted(fixed + tuples + parent_interior_shapes(p as nat)),
        decreases max_parents - p,
    {
        extend(&mut ts, emit_from_parent_interior(p));
        proof {
            let done = fixed + tuples + parent_interior_shapes(p as nat);
            let next = Shape::ParentInterior(p as nat);
            lemma_emitted_push(done, next);
            assert(done.push(next) =~= fixed + tuples + parent_interior_shapes((p + 1) as nat));
        }
        p += 1;
    }
    extend(&mut ts, emit_from_parent_interior(max_parents));
    proof {
        let done = fixed + tuples + parent_interior_shapes(max_parents as nat);
        let last = Shape::ParentInterior(max_parents as nat);
        lemma_emitted_push(done, last);
        assert(done.push(last) =~= shapes(max_junctions as nat, max_parents as nat));
    }
    ts
}

/// Emits the conversions into `Location`. The macro takes no arguments:
/// any token in `input` is an error.
pub fn generate_conversion_functions(input: TokenStream) -> (result: Result<
    TokenStream,
    syn::Error,
>)
    ensures
        match result {
            Ok(ts) => stream_tokens(input).len() == 0 && stream_tokens(ts) == conversions(
                MAX_JUNCTIONS as nat,
                MAX_JUNCTIONS as nat,
            ),
            Err(error) => stream_tokens(input).len() > 0 && error_message(error)
                == "No arguments expected"@,
        },
{
    if !input.is_empty() {
        return Err(usage_error("No arguments expected"));
    }
    Ok(generate_conversion_from_tuples(MAX_JUNCTIONS, MAX_JUNCTIONS))
}

} // verus!
