//! The conversions into `Junctions` that are emitted: from tuples of values
//! that each convert into a junction, and from the `Junctions` of the
//! previous version, `crate::v4::Junctions`.

use crate::fragments::{
    array_into, emit_from_impl, emit_generics, from_impl, generics, lemma_terminated_len,
    push_array_into, push_separated, push_terminated, separated, terminated,
};
use crate::tokens::{
    braces, brackets, error_message, extend, holds, ident, joint, lemma_holds_in_two,
    lemma_holds_within, lemma_numbered_is_injective, numbered, parens, punct, push_arrow,
    push_braces, push_brackets, push_ident, push_joint, push_numbered, push_parens,
    push_path_sep, push_punct, push_suffixed, stream_tokens, suffixed, usage_error, Token,
};
use crate::MAX_JUNCTIONS;
use proc_macro2::TokenStream;
use vstd::prelude::*;

verus! {

/// The type of a tuple of `k` values, `( J0 , J1 , )`.
pub open spec fn tuple_type(k: nat) -> Seq<Token> {
    seq![parens(terminated("J", k))]
}

/// The conversion from a tuple of `k` values.
///
/// ```text
/// impl<J0: Into<Junction>, J1: Into<Junction>,> From<(J0, J1,)> for Junctions {
///     fn from((j0, j1,): (J0, J1,)) -> Self {
///         [j0.into(), j1.into()].into()
///     }
/// }
/// ```
pub open spec fn from_tuple(k: nat) -> Seq<Token> {
    from_impl(
        generics(k),
        tuple_type(k),
        "Junctions",
        seq![parens(terminated("j", k))],
        array_into(k),
    )
}

/// The conversions from tuples of 1, 2, .. `count` values. There is none
/// from the empty tuple.
pub open spec fn from_tuples(count: nat) -> Seq<Token>
    decreases count,
{
    if count == 0 {
        Seq::empty()
    } else {
        from_tuples((count - 1) as nat) + from_tuple(count)
    }
}

/// `crate :: v4 :: Junctions`
pub open spec fn previous_junctions() -> Seq<Token> {
    seq![
        ident("crate"),
        joint(':'),
        punct(':'),
        ident("v4"),
        joint(':'),
        punct(':'),
        ident("Junctions"),
    ]
}

/// `slice [ 1usize ] . clone ( )`
pub open spec fn cloned_element(i: nat) -> Seq<Token> {
    seq![
        ident("slice"),
        brackets(seq![suffixed(i)]),
        punct('.'),
        ident("clone"),
        parens(Seq::empty()),
    ]
}

/// The conversion of the element at `i`, which leaves the function with
/// the error where it fails:
/// `let j1 = core :: convert :: TryInto :: try_into ( slice [ 1usize ] . clone ( ) ) ? ;`
pub open spec fn try_into_element(i: nat) -> Seq<Token> {
    seq![
        ident("let"),
        numbered("j", i),
        punct('='),
        ident("core"),
        joint(':'),
        punct(':'),
        ident("convert"),
        joint(':'),
        punct(':'),
        ident("TryInto"),
        joint(':'),
        punct(':'),
        ident("try_into"),
        parens(cloned_element(i)),
        punct('?'),
        punct(';'),
    ]
}

/// The conversions of the first `n` elements in order, with one more `;`
/// between each two.
pub open spec fn try_into_elements(n: nat) -> Seq<Token>
    decreases n,
{
    if n == 0 {
        Seq::empty()
    } else if n == 1 {
        try_into_element(0)
    } else {
        try_into_elements((n - 1) as nat) + seq![punct(';')] + try_into_element((n - 1) as nat)
    }
}

/// What the arm for `n` junctions does: it converts the elements one after
/// the other and makes the new `Junctions` of them in the same order.
///
/// ```text
/// let slice = &arc[..];
/// let j0 = core::convert::TryInto::try_into(slice[0usize].clone())?;;
/// let j1 = core::convert::TryInto::try_into(slice[1usize].clone())?;;
/// let junctions: Junctions = [j0, j1].into();
/// junctions
/// ```
pub open spec fn arm_body(n: nat) -> Seq<Token> {
    seq![
        ident("let"),
        ident("slice"),
        punct('='),
        punct('&'),
        ident("arc"),
        brackets(seq![joint('.'), punct('.')]),
        punct(';'),
    ] + try_into_elements(n) + seq![
        punct(';'),
        ident("let"),
        ident("junctions"),
        punct(':'),
        ident("Junctions"),
        punct('='),
        brackets(separated("j", n)),
        punct('.'),
        ident("into"),
        parens(Seq::empty()),
        punct(';'),
        ident("junctions"),
    ]
}

/// The previous variant of `n` junctions, `crate :: v4 :: Junctions :: X2`.
pub open spec fn previous_variant(n: nat) -> Seq<Token> {
    previous_junctions() + seq![joint(':'), punct(':'), numbered("X", n)]
}

/// The match arm for the previous variant of `n` junctions:
/// `crate :: v4 :: Junctions :: X2 ( arc ) => { .. } ,`
pub open spec fn arm(n: nat) -> Seq<Token> {
    previous_variant(n) + seq![
        parens(seq![ident("arc")]),
        joint('='),
        punct('>'),
        braces(arm_body(n)),
        punct(','),
    ]
}

/// The arms for 1, 2, .. `count` junctions.
pub open spec fn arms(count: nat) -> Seq<Token>
    decreases count,
{
    if count == 0 {
        Seq::empty()
    } else {
        arms((count - 1) as nat) + arm(count)
    }
}

/// `crate :: v4 :: Junctions :: Here => Junctions :: Here ,`
pub open spec fn here_arm() -> Seq<Token> {
    previous_junctions() + seq![
        joint(':'),
        punct(':'),
        ident("Here"),
        joint('='),
        punct('>'),
        ident("Junctions"),
        joint(':'),
        punct(':'),
        ident("Here"),
        punct(','),
    ]
}

/// `match old { .. }` with the arm for no junction and the arms for 1 to
/// `max_junctions` junctions, and no other arm.
pub open spec fn match_old(max_junctions: nat) -> Seq<Token> {
    seq![ident("match"), ident("old"), braces(here_arm() + arms(max_junctions))]
}

/// `mut old : crate :: v4 :: Junctions`
pub open spec fn old_parameter() -> Seq<Token> {
    seq![ident("mut"), ident("old"), punct(':')] + previous_junctions()
}

/// The items of the impl: the error type, which is the unit type, and the
/// function.
///
/// ```text
/// type Error = ();
/// fn try_from(mut old: crate::v4::Junctions) -> core::result::Result<Self, ()> {
///     Ok(match old { .. })
/// }
/// ```
pub open spec fn try_from_items(max_junctions: nat) -> Seq<Token> {
    seq![
        ident("type"),
        ident("Error"),
        punct('='),
        parens(Seq::empty()),
        punct(';'),
        ident("fn"),
        ident("try_from"),
        parens(old_parameter()),
        joint('-'),
        punct('>'),
        ident("core"),
        joint(':'),
        punct(':'),
        ident("result"),
        joint(':'),
        punct(':'),
        ident("Result"),
        punct('<'),
        ident("Self"),
        punct(','),
        parens(Seq::empty()),
        punct('>'),
        braces(seq![ident("Ok"), parens(match_old(max_junctions))]),
    ]
}

/// The fallible conversion from the previous version's `Junctions`:
/// `impl core :: convert :: TryFrom < crate :: v4 :: Junctions > for Junctions { .. }`.
pub open spec fn from_v4(max_junctions: nat) -> Seq<Token> {
    seq![
        ident("impl"),
        ident("core"),
        joint(':'),
        punct(':'),
        ident("convert"),
        joint(':'),
        punct(':'),
        ident("TryFrom"),
        punct('<'),
    ] + previous_junctions() + seq![
        punct('>'),
        ident("for"),
        ident("Junctions"),
        braces(try_from_items(max_junctions)),
    ]
}

/// Everything that is emitted for `Junctions`, in order.
pub open spec fn conversions(max_junctions: nat) -> Seq<Token> {
    from_v4(max_junctions) + from_tuples(max_junctions)
}

/// No length is left out: what is emitted holds the conversion from the
/// previous version and, for each `k` from 1 to `max_junctions`, the
/// conversion from a tuple of `k` values.
pub proof fn lemma_every_tuple_is_emitted(max_junctions: nat, k: nat)
    requires
        1 <= k <= max_junctions,
    ensures
        holds(from_tuples(max_junctions), from_tuple(k)),
        holds(conversions(max_junctions), from_tuple(k)),
        holds(conversions(max_junctions), from_v4(max_junctions)),
    decreases max_junctions,
{
    let before = from_tuples((max_junctions - 1) as nat);
    lemma_holds_in_two(before, from_tuple(max_junctions));
    if k < max_junctions {
        lemma_every_tuple_is_emitted((max_junctions - 1) as nat, k);
        lemma_holds_within(from_tuples(max_junctions), before, from_tuple(k));
    }
    lemma_holds_in_two(from_v4(max_junctions), from_tuples(max_junctions));
    lemma_holds_within(conversions(max_junctions), from_tuples(max_junctions), from_tuple(k));
}

/// Tuples of different lengths have different types: no two of the
/// conversions from tuples are from the same type.
pub proof fn lemma_tuple_types_differ(k: nat, l: nat)
    requires
        k != l,
    ensures
        tuple_type(k) != tuple_type(l),
{
    lemma_terminated_len("J", k);
    lemma_terminated_len("J", l);
    assert(tuple_type(k)[0] != tuple_type(l)[0]);
}

/// The arms for different lengths match different variants: no value of
/// the previous version is matched by two arms.
pub proof fn lemma_previous_variants_differ(n: nat, m: nat)
    requires
        n != m,
    ensures
        previous_variant(n) != previous_variant(m),
{
    lemma_numbered_is_injective("X", n, m);
    assert(previous_variant(n)[9] == numbered("X", n));
    assert(previous_variant(m)[9] == numbered("X", m));
}

/// No old length is left out: for each `n` from 1 to `max_junctions`, the
/// arms of the match hold the arm for `n` junctions.
pub proof fn lemma_every_arm_is_emitted(max_junctions: nat, n: nat)
    requires
        1 <= n <= max_junctions,
    ensures
        holds(arms(max_junctions), arm(n)),
    decreases max_junctions,
{
    let before = arms((max_junctions - 1) as nat);
    lemma_holds_in_two(before, arm(max_junctions));
    if n < max_junctions {
        lemma_every_arm_is_emitted((max_junctions - 1) as nat, n);
        lemma_holds_within(arms(max_junctions), before, arm(n));
    }
}

fn emit_from_tuple(k: usize) -> (ts: TokenStream)
    ensures
        stream_tokens(ts) == from_tuple(k as nat),
{
    proof {
        reveal_strlit("J");
        reveal_strlit("j");
        reveal_strlit("Junctions");
    }
    let mut types = TokenStream::new();
    push_terminated(&mut types, "J", k);
    assert(stream_tokens(types) == terminated("J", k as nat));
    let mut source = TokenStream::new();
    push_parens(&mut source, types);

    let mut bindings = TokenStream::new();
    push_terminated(&mut bindings, "j", k);
    assert(stream_tokens(bindings) == terminated("j", k as nat));
    let mut pattern = TokenStream::new();
    push_parens(&mut pattern, bindings);

    let mut body = TokenStream::new();
    push_array_into(&mut body, k);
    assert(stream_tokens(body) == array_into(k as nat));

    emit_from_impl(emit_generics(k), &source, "Junctions", pattern, body)
}

/// Emits the conversions from tuples of 1 to `max_junctions` values.
pub fn generate_conversion_from_tuples(max_junctions: usize) -> (ts: TokenStream)
    ensures
        stream_tokens(ts) == from_tuples(max_junctions as nat),
{
    let mut ts = TokenStream::new();
    let mut done: usize = 0;
    while done < max_junctions
        invariant
            done <= max_junctions,
            stream_tokens(ts) == from_tuples(done as nat),
        decreases max_junctions - done,
    {
        extend(&mut ts, emit_from_tuple(done + 1));
        done += 1;
    }
    ts
}

fn push_previous_junctions(ts: &mut TokenStream)
    ensures
        stream_tokens(*final(ts)) == stream_tokens(*old(ts)) + previous_junctions(),
{
    proof {
        reveal_strlit("crate");
        reveal_strlit("v4");
        reveal_strlit("Junctions");
    }
    push_ident(ts, "crate");
    push_path_sep(ts);
    push_ident(ts, "v4");
    push_path_sep(ts);
    push_ident(ts, "Junctions");
    assert(stream_tokens(*ts) == stream_tokens(*old(ts)) + previous_junctions());
}

fn push_fat_arrow(ts: &mut TokenStream)
    ensures
        stream_tokens(*final(ts)) == stream_tokens(*old(ts)).push(joint('=')).push(punct('>')),
{
    push_joint(ts, '=');
    push_punct(ts, '>');
}

fn push_try_into_element(ts: &mut TokenStream, i: usize)
    ensures
        stream_tokens(*final(ts)) == stream_tokens(*old(ts)) + try_into_element(i as nat),
{
    proof {
        reveal_strlit("slice");
        reveal_strlit("clone");
        reveal_strlit("let");
        reveal_strlit("j");
        reveal_strlit("core");
        reveal_strlit("convert");
        reveal_strlit("TryInto");
        reveal_strlit("try_into");
    }
    let mut index = TokenStream::new();
    push_suffixed(&mut index, i);
    let mut element = TokenStream::new();
    push_ident(&mut element, "slice");
    push_brackets(&mut element, index);
    push_punct(&mut element, '.');
    push_ident(&mut element, "clone");
    push_parens(&mut element, TokenStream::new());
    assert(stream_tokens(element) == cloned_element(i as nat));

    push_ident(ts, "let");
    push_numbered(ts, "j", i);
    push_punct(ts, '=');
    push_ident(ts, "core");
    push_path_sep(ts);
    push_ident(ts, "convert");
    push_path_sep(ts);
    push_ident(ts, "TryInto");
    push_path_sep(ts);
    push_ident(ts, "try_into");
    push_parens(ts, element);
    push_punct(ts, '?');
    push_punct(ts, ';');
    assert(stream_tokens(*ts) == stream_tokens(*old(ts)) + try_into_element(i as nat));
}

fn push_try_into_elements(ts: &mut TokenStream, n: usize)
    ensures
        stream_tokens(*final(ts)) == stream_tokens(*old(ts)) + try_into_elements(n as nat),
{
    let mut i: usize = 0;
    assert(stream_tokens(*ts) == stream_tokens(*old(ts)) + try_into_elements(0));
    while i < n
        invariant
            i <= n,
            stream_tokens(*ts) == stream_tokens(*old(ts)) + try_into_elements(i as nat),
        decreases n - i,
    {
        if i > 0 {
            push_punct(ts, ';');
        }
        push_try_into_element(ts, i);
        i += 1;
        assert(stream_tokens(*ts) == stream_tokens(*old(ts)) + try_into_elements(i as nat));
    }
}

fn emit_arm_body(n: usize) -> (ts: TokenStream)
    ensures
        stream_tokens(ts) == arm_body(n as nat),
{
    proof {
        reveal_strlit("let");
        reveal_strlit("slice");
        reveal_strlit("arc");
        reveal_strlit("junctions");
        reveal_strlit("Junctions");
        reveal_strlit("j");
        reveal_strlit("into");
    }
    let mut full_range = TokenStream::new();
    push_joint(&mut full_range, '.');
    push_punct(&mut full_range, '.');
    assert(stream_tokens(full_range) == seq![joint('.'), punct('.')]);
    let mut bindings = TokenStream::new();
    push_separated(&mut bindings, "j", n);
    assert(stream_tokens(bindings) == separated("j", n as nat));

    let mut ts = TokenStream::new();
    push_ident(&mut ts, "let");
    push_ident(&mut ts, "slice");
    push_punct(&mut ts, '=');
    push_punct(&mut ts, '&');
    push_ident(&mut ts, "arc");
    push_brackets(&mut ts, full_range);
    push_punct(&mut ts, ';');
    push_try_into_elements(&mut ts, n);
    push_punct(&mut ts, ';');
    push_ident(&mut ts, "let");
    push_ident(&mut ts, "junctions");
    push_punct(&mut ts, ':');
    push_ident(&mut ts, "Junctions");
    push_punct(&mut ts, '=');
    push_brackets(&mut ts, bindings);
    push_punct(&mut ts, '.');
    push_ident(&mut ts, "into");
    push_parens(&mut ts, TokenStream::new());
    push_punct(&mut ts, ';');
    push_ident(&mut ts, "junctions");
    ts
}

fn emit_arm(n: usize) -> (ts: TokenStream)
    ensures
        stream_tokens(ts) == arm(n as nat),
{
    proof {
        reveal_strlit("X");
        reveal_strlit("arc");
    }
    let mut binding = TokenStream::new();
    push_ident(&mut binding, "arc");
    let mut ts = TokenStream::new();
    push_previous_junctions(&mut ts);
    push_path_sep(&mut ts);
    push_numbered(&mut ts, "X", n);
    push_parens(&mut ts, binding);
    push_fat_arrow(&mut ts);
    push_braces(&mut ts, emit_arm_body(n));
    push_punct(&mut ts, ',');
    ts
}

fn emit_match_old(max_junctions: usize) -> (ts: TokenStream)
    ensures
        stream_tokens(ts) == match_old(max_junctions as nat),
{
    proof {
        reveal_strlit("Here");
        reveal_strlit("Junctions");
        reveal_strlit("match");
        reveal_strlit("old");
    }
    let mut match_variants = TokenStream::new();
    push_previous_junctions(&mut match_variants);
    push_path_sep(&mut match_variants);
    push_ident(&mut match_variants, "Here");
    push_fat_arrow(&mut match_variants);
    push_ident(&mut match_variants, "Junctions");
    push_path_sep(&mut match_variants);
    push_ident(&mut match_variants, "Here");
    push_punct(&mut match_variants, ',');
    assert(stream_tokens(match_variants) == here_arm() + arms(0));
    let mut cur_num: usize = 0;
    while cur_num < max_junctions
        invariant
            cur_num <= max_junctions,
            stream_tokens(match_variants) == here_arm() + arms(cur_num as nat),
        decreases max_junctions - cur_num,
    {
        extend(&mut match_variants, emit_arm(cur_num + 1));
        cur_num += 1;
        assert(stream_tokens(match_variants) == here_arm() + arms(cur_num as nat));
    }
    let mut ts = TokenStream::new();
    push_ident(&mut ts, "match");
    push_ident(&mut ts, "old");
    push_braces(&mut ts, match_variants);
    ts
}

fn emit_try_from_items(max_junctions: usize) -> (ts: TokenStream)
    ensures
        stream_tokens(ts) == try_from_items(max_junctions as nat),
{
    proof {
        reveal_strlit("mut");
        reveal_strlit("old");
        reveal_strlit("Ok");
        reveal_strlit("type");
        reveal_strlit("Error");
        reveal_strlit("fn");
        reveal_strlit("try_from");
        reveal_strlit("core");
        reveal_strlit("result");
        reveal_strlit("Result");
        reveal_strlit("Self");
    }
    let mut parameter = TokenStream::new();
    push_ident(&mut parameter, "mut");
    push_ident(&mut parameter, "old");
    push_punct(&mut parameter, ':');
    push_previous_junctions(&mut parameter);
    assert(stream_tokens(parameter) == old_parameter());

    let mut body = TokenStream::new();
    push_ident(&mut body, "Ok");
    push_parens(&mut body, emit_match_old(max_junctions));
    assert(stream_tokens(body) == seq![ident("Ok"), parens(match_old(max_junctions as nat))]);

    let mut ts = TokenStream::new();
    push_ident(&mut ts, "type");
    push_ident(&mut ts, "Error");
    push_punct(&mut ts, '=');
    push_parens(&mut ts, TokenStream::new());
    push_punct(&mut ts, ';');
    push_ident(&mut ts, "fn");
    push_ident(&mut ts, "try_from");
    push_parens(&mut ts, parameter);
    push_arrow(&mut ts);
    push_ident(&mut ts, "core");
    push_path_sep(&mut ts);
    push_ident(&mut ts, "result");
    push_path_sep(&mut ts);
    push_ident(&mut ts, "Result");
    push_punct(&mut ts, '<');
    push_ident(&mut ts, "Self");
    push_punct(&mut ts, ',');
    push_parens(&mut ts, TokenStream::new());
    push_punct(&mut ts, '>');
    push_braces(&mut ts, body);
    ts
}

/// Emits the fallible conversion from the previous version's `Junctions`,
/// with one match arm for each number of junctions up to `max_junctions`.
pub fn generate_conversion_from_v4(max_junctions: usize) -> (ts: TokenStream)
    ensures
        stream_tokens(ts) == from_v4(max_junctions as nat),
{
    proof {
        reveal_strlit("impl");
        reveal_strlit("core");
        reveal_strlit("convert");
        reveal_strlit("TryFrom");
        reveal_strlit("for");
        reveal_strlit("Junctions");
    }
    let mut ts = TokenStream::new();
    push_ident(&mut ts, "impl");
    push_ident(&mut ts, "core");
    push_path_sep(&mut ts);
    push_ident(&mut ts, "convert");
    push_path_sep(&mut ts);
    push_ident(&mut ts, "TryFrom");
    push_punct(&mut ts, '<');
    push_previous_junctions(&mut ts);
    push_punct(&mut ts, '>');
    push_ident(&mut ts, "for");
    push_ident(&mut ts, "Junctions");
    push_braces(&mut ts, emit_try_from_items(max_junctions));
    ts
}

/// Emits the conversions into `Junctions`. The macro takes no arguments:
/// any token in `input` is an error.
pub fn generate_conversion_functions(input: TokenStream) -> (result: Result<
    TokenStream,
    syn::Error,
>)
    ensures
        match result {
            Ok(ts) => stream_tokens(input).len() == 0 && stream_tokens(ts) == conversions(
                MAX_JUNCTIONS as nat,
            ),
            Err(error) => stream_tokens(input).len() > 0 && error_message(error)
                == "No arguments expected"@,
        },
{
    if !input.is_empty() {
        return Err(usage_error("No arguments expected"));
    }
    let mut ts = generate_conversion_from_v4(MAX_JUNCTIONS);
    extend(&mut ts, generate_conversion_from_tuples(MAX_JUNCTIONS));
    Ok(ts)
}

} // verus!
