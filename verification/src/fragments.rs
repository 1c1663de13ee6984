//! The repeated pieces that the emitted impls share: lists of numbered type
//! parameters and bindings, and runs of one repeated word.

use crate::tokens::{
    braces, brackets, ident, is_identifier, joint, numbered, parens, punct, push_arrow,
    push_braces, push_brackets, push_ident, push_numbered, push_parens, push_punct, push_stream,
    stream_tokens, Token,
};
use proc_macro2::TokenStream;
use vstd::prelude::*;

verus! {

/// `J0 : Into < Junction > ,` and so on for the first `k` type parameters:
/// the generics of an impl over `k` values that each convert into a junction.
pub open spec fn type_params(k: nat) -> Seq<Token>
    decreases k,
{
    if k == 0 {
        Seq::empty()
    } else {
        type_params((k - 1) as nat) + seq![
            numbered("J", (k - 1) as nat),
            punct(':'),
            ident("Into"),
            punct('<'),
            ident("Junction"),
            punct('>'),
            punct(','),
        ]
    }
}

/// The first `k` numbered names with a comma between each two: `j0 , j1 , j2`.
pub open spec fn separated(prefix: &str, k: nat) -> Seq<Token>
    decreases k,
{
    if k == 0 {
        Seq::empty()
    } else if k == 1 {
        seq![numbered(prefix, 0)]
    } else {
        separated(prefix, (k - 1) as nat) + seq![punct(','), numbered(prefix, (k - 1) as nat)]
    }
}

/// The first `k` numbered names with a comma after each: `J0 , J1 ,`.
pub open spec fn terminated(prefix: &str, k: nat) -> Seq<Token>
    decreases k,
{
    if k == 0 {
        Seq::empty()
    } else {
        terminated(prefix, (k - 1) as nat) + seq![numbered(prefix, (k - 1) as nat), punct(',')]
    }
}

/// One word `count` times, with a comma after each: `Parent , Parent ,`.
pub open spec fn repeated(word: &str, count: nat) -> Seq<Token>
    decreases count,
{
    if count == 0 {
        Seq::empty()
    } else {
        repeated(word, (count - 1) as nat) + seq![ident(word), punct(',')]
    }
}

/// The first `k` bindings, each converted, with a comma between each two:
/// `j0 . into ( ) , j1 . into ( )`.
pub open spec fn into_calls(k: nat) -> Seq<Token>
    decreases k,
{
    if k == 0 {
        Seq::empty()
    } else if k == 1 {
        seq![numbered("j", 0), punct('.'), ident("into"), parens(Seq::empty())]
    } else {
        into_calls((k - 1) as nat) + seq![
            punct(','),
            numbered("j", (k - 1) as nat),
            punct('.'),
            ident("into"),
            parens(Seq::empty()),
        ]
    }
}

/// `[ j0 . into ( ) , .. ] . into ( )`: the sequence of junctions made of the
/// first `k` bindings.
pub open spec fn array_into(k: nat) -> Seq<Token> {
    seq![brackets(into_calls(k)), punct('.'), ident("into"), parens(Seq::empty())]
}

/// The generics of an impl over `k` values: `< J0 : Into < Junction > , .. >`.
pub open spec fn generics(k: nat) -> Seq<Token> {
    seq![punct('<')] + type_params(k) + seq![punct('>')]
}

/// The function inside a conversion:
/// `fn from ( <pattern> : <source> ) -> Self { <body> }`.
pub open spec fn from_fn(pattern: Seq<Token>, source: Seq<Token>, body: Seq<Token>) -> Seq<Token> {
    seq![
        ident("fn"),
        ident("from"),
        parens(pattern + seq![punct(':')] + source),
        joint('-'),
        punct('>'),
        ident("Self"),
        braces(body),
    ]
}

/// One conversion:
/// `impl <generics> From < <source> > for <target> { <function> }`, with
/// the function that [`from_fn`] gives.
pub open spec fn from_impl(
    generics: Seq<Token>,
    source: Seq<Token>,
    target: &str,
    pattern: Seq<Token>,
    body: Seq<Token>,
) -> Seq<Token> {
    seq![ident("impl")] + generics + seq![ident("From"), punct('<')] + source + seq![
        punct('>'),
        ident("for"),
        ident(target),
        braces(from_fn(pattern, source, body)),
    ]
}

/// A repeated word takes two tokens each time.
pub proof fn lemma_repeated_len(word: &str, count: nat)
    ensures
        repeated(word, count).len() == 2 * count,
    decreases count,
{
    if count > 0 {
        lemma_repeated_len(word, (count - 1) as nat);
    }
}

/// The word stands at every even position of its repetition.
pub proof fn lemma_repeated_at(word: &str, count: nat, i: nat)
    requires
        i < count,
    ensures
        repeated(word, count)[2 * i as int] == ident(word),
    decreases count,
{
    lemma_repeated_len(word, (count - 1) as nat);
    if i < count - 1 {
        lemma_repeated_at(word, (count - 1) as nat, i);
    }
}

/// A name with its comma takes two tokens.
pub proof fn lemma_terminated_len(prefix: &str, k: nat)
    ensures
        terminated(prefix, k).len() == 2 * k,
    decreases k,
{
    if k > 0 {
        lemma_terminated_len(prefix, (k - 1) as nat);
    }
}

/// A list of names with commas behind starts with the first name.
pub proof fn lemma_terminated_first(prefix: &str, k: nat)
    requires
        k > 0,
    ensures
        terminated(prefix, k)[0] == numbered(prefix, 0),
    decreases k,
{
    lemma_terminated_len(prefix, (k - 1) as nat);
    if k > 1 {
        lemma_terminated_first(prefix, (k - 1) as nat);
    }
}

/// A list of names with commas between takes a token for each name and
/// one for each comma, and starts with the first name.
pub proof fn lemma_separated_len(prefix: &str, k: nat)
    ensures
        separated(prefix, k).len() == if k == 0 {
            0
        } else {
            2 * k - 1
        },
        k > 0 ==> separated(prefix, k)[0] == numbered(prefix, 0),
    decreases k,
{
    if k > 1 {
        lemma_separated_len(prefix, (k - 1) as nat);
    }
}

/// Appends the first `k` type parameters, each with its bound and a comma.
pub fn push_type_params(ts: &mut TokenStream, k: usize)
    ensures
        stream_tokens(*final(ts)) == stream_tokens(*old(ts)) + type_params(k as nat),
{
    proof {
        reveal_strlit("J");
        reveal_strlit("Into");
        reveal_strlit("Junction");
    }
    let mut i: usize = 0;
    assert(stream_tokens(*ts) =~= stream_tokens(*old(ts)) + type_params(0));
    while i < k
        invariant
            i <= k,
            is_identifier("J"@),
            is_identifier("Into"@),
            is_identifier("Junction"@),
            stream_tokens(*ts) == stream_tokens(*old(ts)) + type_params(i as nat),
        decreases k - i,
    {
        push_numbered(ts, "J", i);
        push_punct(ts, ':');
        push_ident(ts, "Into");
        push_punct(ts, '<');
        push_ident(ts, "Junction");
        push_punct(ts, '>');
        push_punct(ts, ',');
        i += 1;
        assert(stream_tokens(*ts) =~= stream_tokens(*old(ts)) + type_params(i as nat));
    }
}

/// Appends the first `k` names that begin with `prefix`, with commas
/// between them.
pub fn push_separated(ts: &mut TokenStream, prefix: &str, k: usize)
    requires
        is_identifier(prefix@),
    ensures
        stream_tokens(*final(ts)) == stream_tokens(*old(ts)) + separated(prefix, k as nat),
{
    let mut i: usize = 0;
    assert(stream_tokens(*ts) =~= stream_tokens(*old(ts)) + separated(prefix, 0));
    while i < k
        invariant
            i <= k,
            is_identifier(prefix@),
            stream_tokens(*ts) == stream_tokens(*old(ts)) + separated(prefix, i as nat),
        decreases k - i,
    {
        if i > 0 {
            push_punct(ts, ',');
        }
        push_numbered(ts, prefix, i);
        i += 1;
        assert(stream_tokens(*ts) =~= stream_tokens(*old(ts)) + separated(prefix, i as nat));
    }
}

/// Appends the first `k` names that begin with `prefix`, with a comma
/// behind each.
pub fn push_terminated(ts: &mut TokenStream, prefix: &str, k: usize)
    requires
        is_identifier(prefix@),
    ensures
        stream_tokens(*final(ts)) == stream_tokens(*old(ts)) + terminated(prefix, k as nat),
{
    let mut i: usize = 0;
    assert(stream_tokens(*ts) =~= stream_tokens(*old(ts)) + terminated(prefix, 0));
    while i < k
        invariant
            i <= k,
            is_identifier(prefix@),
            stream_tokens(*ts) == stream_tokens(*old(ts)) + terminated(prefix, i as nat),
        decreases k - i,
    {
        push_numbered(ts, prefix, i);
        push_punct(ts, ',');
        i += 1;
        assert(stream_tokens(*ts) =~= stream_tokens(*old(ts)) + terminated(prefix, i as nat));
    }
}

/// Appends `word` and a comma, `count` times.
pub fn push_repeated(ts: &mut TokenStream, word: &str, count: usize)
    requires
        is_identifier(word@),
    ensures
        stream_tokens(*final(ts)) == stream_tokens(*old(ts)) + repeated(word, count as nat),
{
    let mut i: usize = 0;
    assert(stream_tokens(*ts) =~= stream_tokens(*old(ts)) + repeated(word, 0));
    while i < count
        invariant
            i <= count,
            is_identifier(word@),
            stream_tokens(*ts) == stream_tokens(*old(ts)) + repeated(word, i as nat),
        decreases count - i,
    {
        push_ident(ts, word);
        push_punct(ts, ',');
        i += 1;
        assert(stream_tokens(*ts) =~= stream_tokens(*old(ts)) + repeated(word, i as nat));
    }
}

/// Appends the conversions of the first `k` bindings, with commas between
/// them.
pub fn push_into_calls(ts: &mut TokenStream, k: usize)
    ensures
        stream_tokens(*final(ts)) == stream_tokens(*old(ts)) + into_calls(k as nat),
{
    proof {
        reveal_strlit("j");
        reveal_strlit("into");
    }
    let mut i: usize = 0;
    assert(stream_tokens(*ts) =~= stream_tokens(*old(ts)) + into_calls(0));
    while i < k
        invariant
            i <= k,
            is_identifier("j"@),
            is_identifier("into"@),
            stream_tokens(*ts) == stream_tokens(*old(ts)) + into_calls(i as nat),
        decreases k - i,
    {
        if i > 0 {
            push_punct(ts, ',');
        }
        push_numbered(ts, "j", i);
        push_punct(ts, '.');
        push_ident(ts, "into");
        push_parens(ts, TokenStream::new());
        i += 1;
        assert(stream_tokens(*ts) =~= stream_tokens(*old(ts)) + into_calls(i as nat));
    }
}

/// Appends the array of the first `k` bindings, each converted, and the
/// conversion of the array.
pub fn push_array_into(ts: &mut TokenStream, k: usize)
    ensures
        stream_tokens(*final(ts)) == stream_tokens(*old(ts)) + array_into(k as nat),
{
    proof {
        reveal_strlit("into");
    }
    let mut elements = TokenStream::new();
    push_into_calls(&mut elements, k);
    assert(stream_tokens(elements) =~= into_calls(k as nat));
    push_brackets(ts, elements);
    push_punct(ts, '.');
    push_ident(ts, "into");
    push_parens(ts, TokenStream::new());
    assert(stream_tokens(*ts) =~= stream_tokens(*old(ts)) + array_into(k as nat));
}

/// The generics of an impl over `k` values.
pub fn emit_generics(k: usize) -> (ts: TokenStream)
    ensures
        stream_tokens(ts) == generics(k as nat),
{
    let mut ts = TokenStream::new();
    push_punct(&mut ts, '<');
    push_type_params(&mut ts, k);
    push_punct(&mut ts, '>');
    ts
}

/// Puts the parts of one conversion together.
pub fn emit_from_impl(
    generics: TokenStream,
    source: &TokenStream,
    target: &str,
    pattern: TokenStream,
    body: TokenStream,
) -> (ts: TokenStream)
    requires
        is_identifier(target@),
    ensures
        stream_tokens(ts) == from_impl(
            stream_tokens(generics),
            stream_tokens(*source),
            target,
            stream_tokens(pattern),
            stream_tokens(body),
        ),
{
    proof {
        reveal_strlit("impl");
        reveal_strlit("From");
        reveal_strlit("for");
        reveal_strlit("fn");
        reveal_strlit("from");
        reveal_strlit("Self");
    }
    let mut parameter = pattern;
    push_punct(&mut parameter, ':');
    push_stream(&mut parameter, source);
    assert(stream_tokens(parameter) == stream_tokens(pattern) + seq![punct(':')] + stream_tokens(
        *source,
    ));
    let mut function = TokenStream::new();
    push_ident(&mut function, "fn");
    push_ident(&mut function, "from");
    push_parens(&mut function, parameter);
    push_arrow(&mut function);
    push_ident(&mut function, "Self");
    push_braces(&mut function, body);
    assert(stream_tokens(function) == from_fn(
        stream_tokens(pattern),
        stream_tokens(*source),
        stream_tokens(body),
    ));
    let mut ts = TokenStream::new();
    push_ident(&mut ts, "impl");
    push_stream(&mut ts, &generics);
    push_ident(&mut ts, "From");
    push_punct(&mut ts, '<');
    push_stream(&mut ts, source);
    push_punct(&mut ts, '>');
    push_ident(&mut ts, "for");
    push_ident(&mut ts, target);
    push_braces(&mut ts, function);
    ts
}

} // verus!
