//! A mathematical model of token streams, and the contracts under which the
//! generators build a `proc_macro2::TokenStream`.
//!
//! A stream is modelled by the sequence of its token trees, spans left out.
//! Everything that the generators emit carries the call-site span.

use vstd::prelude::*;
use vstd::string::StringExecFns;

verus! {

/// Whether a punctuation character is directly followed by another one.
#[derive(Clone, Copy, PartialEq, Eq, Debug)]
pub enum Spacing {
    /// The character ends an operator, as the `>` of `->`.
    Alone,
    /// The next token continues the operator, as the `-` of `->`.
    Joint,
}

/// The brackets around a group of tokens.
#[derive(Clone, Copy, PartialEq, Eq, Debug)]
pub enum Delimiter {
    /// `( .. )`
    Parenthesis,
    /// `{ .. }`
    Brace,
    /// `[ .. ]`
    Bracket,
    /// Nothing that is written: the group only keeps its tokens together.
    /// The generators emit no such group.
    Invisible,
}

/// One token tree, without its span.
pub enum Token {
    /// An identifier or keyword, by its text.
    Ident(Seq<char>),
    /// A single punctuation character.
    Punct(char, Spacing),
    /// A literal, by its text.
    Literal(Seq<char>),
    /// A delimited group and the tokens inside it.
    Group(Delimiter, Seq<Token>),
}

/// The identifier or keyword with the given text.
pub open spec fn ident(name: &str) -> Token {
    Token::Ident(name@)
}

/// A punctuation character that ends an operator.
pub open spec fn punct(ch: char) -> Token {
    Token::Punct(ch, Spacing::Alone)
}

/// A punctuation character that the next one continues, as the first `:` of `::`.
pub open spec fn joint(ch: char) -> Token {
    Token::Punct(ch, Spacing::Joint)
}

/// The group `( inner )`.
pub open spec fn parens(inner: Seq<Token>) -> Token {
    Token::Group(Delimiter::Parenthesis, inner)
}

/// The group `{ inner }`.
pub open spec fn braces(inner: Seq<Token>) -> Token {
    Token::Group(Delimiter::Brace, inner)
}

/// The group `[ inner ]`.
pub open spec fn brackets(inner: Seq<Token>) -> Token {
    Token::Group(Delimiter::Bracket, inner)
}

/// The character that stands for a number below ten.
pub open spec fn digit(d: nat) -> char {
    if d == 0 {
        '0'
    } else if d == 1 {
        '1'
    } else if d == 2 {
        '2'
    } else if d == 3 {
        '3'
    } else if d == 4 {
        '4'
    } else if d == 5 {
        '5'
    } else if d == 6 {
        '6'
    } else if d == 7 {
        '7'
    } else if d == 8 {
        '8'
    } else {
        '9'
    }
}

/// The decimal digits of `n`, most significant first, without leading zeros.
pub open spec fn decimal(n: nat) -> Seq<char>
    decreases n,
{
    if n < 10 {
        seq![digit(n)]
    } else {
        decimal(n / 10).push(digit(n % 10))
    }
}

/// The identifier made of `prefix` and the decimal digits of `index`, such as `J3`.
pub open spec fn numbered(prefix: &str, index: nat) -> Token {
    Token::Ident(prefix@ + decimal(index))
}

/// The integer literal `n` with the suffix `usize`, such as `3usize`.
pub open spec fn suffixed(n: nat) -> Token {
    Token::Literal(decimal(n) + "usize"@)
}

/// The integer literal `n` without a suffix.
pub open spec fn unsuffixed(n: nat) -> Token {
    Token::Literal(decimal(n))
}

/// An ASCII letter or the underscore.
pub open spec fn is_ident_start(c: char) -> bool {
    ('a' <= c && c <= 'z') || ('A' <= c && c <= 'Z') || c == '_'
}

/// An ASCII letter, an ASCII digit or the underscore.
pub open spec fn is_ident_continue(c: char) -> bool {
    is_ident_start(c) || ('0' <= c && c <= '9')
}

/// Texts that are identifiers for certain: an ASCII letter or underscore,
/// then ASCII letters, digits and underscores.
pub open spec fn is_identifier(s: Seq<char>) -> bool {
    &&& s.len() > 0
    &&& is_ident_start(s[0])
    &&& forall|i: int| 0 <= i < s.len() ==> is_ident_continue(#[trigger] s[i])
}

/// The characters that a punctuation token may hold.
pub open spec fn is_punct_char(ch: char) -> bool {
    ch == '!' || ch == '#' || ch == '$' || ch == '%' || ch == '&' || ch == '\'' || ch == '*'
        || ch == '+' || ch == ',' || ch == '-' || ch == '.' || ch == '/' || ch == ':' || ch == ';'
        || ch == '<' || ch == '=' || ch == '>' || ch == '?' || ch == '@' || ch == '^' || ch == '|'
        || ch == '~'
}

/// `proc_macro2::TokenStream`, of which only [`stream_tokens`] is known.
#[verifier::external_type_specification]
#[verifier::external_body]
pub struct ExTokenStream(proc_macro2::TokenStream);

/// `syn::Error`, of which only [`error_message`] is known.
#[verifier::external_type_specification]
#[verifier::external_body]
pub struct ExError(syn::Error);

/// The token trees that a stream holds, in the order in which iterating
/// over the stream gives them, each without its span.
pub uninterp spec fn stream_tokens(ts: proc_macro2::TokenStream) -> Seq<Token>;

/// The message that an error displays: for an error made of several, the
/// message of the first.
pub uninterp spec fn error_message(error: syn::Error) -> Seq<char>;

/// `TokenStream::new` returns a stream without token trees.
pub assume_specification[ proc_macro2::TokenStream::new ]() -> (ts: proc_macro2::TokenStream)
    ensures
        stream_tokens(ts) == Seq::<Token>::empty(),
;

/// `TokenStream::is_empty` tells whether the stream holds no token tree.
pub assume_specification[ proc_macro2::TokenStream::is_empty ](
    ts: &proc_macro2::TokenStream,
) -> (b: bool)
    ensures
        b == (stream_tokens(*ts).len() == 0),
;

/// `Ident::new` with the call-site span, handed to `TokenStreamExt::append`:
/// the stream gains one identifier with the given text. `Ident::new`
/// panics on a text that is no identifier, which `requires` leaves out.
#[verifier::external_body]
pub(crate) fn push_ident(ts: &mut proc_macro2::TokenStream, name: &str)
    requires
        is_identifier(name@),
    ensures
        stream_tokens(*final(ts)) == stream_tokens(*old(ts)).push(Token::Ident(name@)),
{
    let span = proc_macro2::Span::call_site();
    quote::TokenStreamExt::append(ts, proc_macro2::Ident::new(name, span));
}

/// `Punct::new` with `Spacing::Alone`, handed to `TokenStreamExt::append`:
/// the stream gains one punctuation token with the given character, which
/// ends an operator. `Punct::new` panics on a character outside its list,
/// which `requires` leaves out.
#[verifier::external_body]
pub(crate) fn push_punct(ts: &mut proc_macro2::TokenStream, ch: char)
    requires
        is_punct_char(ch),
    ensures
        stream_tokens(*final(ts)) == stream_tokens(*old(ts)).push(punct(ch)),
{
    let alone = proc_macro2::Punct::new(ch, proc_macro2::Spacing::Alone);
    quote::TokenStreamExt::append(ts, alone);
}

/// `Punct::new` with `Spacing::Joint`, handed to `TokenStreamExt::append`:
/// the stream gains one punctuation token with the given character, which
/// the next token continues. `Punct::new` panics on a character outside
/// its list, which `requires` leaves out.
#[verifier::external_body]
pub(crate) fn push_joint(ts: &mut proc_macro2::TokenStream, ch: char)
    requires
        is_punct_char(ch),
    ensures
        stream_tokens(*final(ts)) == stream_tokens(*old(ts)).push(joint(ch)),
{
    let joint = proc_macro2::Punct::new(ch, proc_macro2::Spacing::Joint);
    quote::TokenStreamExt::append(ts, joint);
}

/// `Group::new` with `Delimiter::Parenthesis`, handed to
/// `TokenStreamExt::append`: the stream gains one group that holds the
/// token trees of `inner` between `(` and `)`.
#[verifier::external_body]
pub(crate) fn push_parens(ts: &mut proc_macro2::TokenStream, inner: proc_macro2::TokenStream)
    ensures
        stream_tokens(*final(ts)) == stream_tokens(*old(ts)).push(parens(stream_tokens(inner))),
{
    let group = proc_macro2::Group::new(proc_macro2::Delimiter::Parenthesis, inner);
    quote::TokenStreamExt::append(ts, group);
}

/// `Group::new` with `Delimiter::Brace`, handed to `TokenStreamExt::append`:
/// the stream gains one group that holds the token trees of `inner`
/// between `{` and `}`.
#[verifier::external_body]
pub(crate) fn push_braces(ts: &mut proc_macro2::TokenStream, inner: proc_macro2::TokenStream)
    ensures
        stream_tokens(*final(ts)) == stream_tokens(*old(ts)).push(braces(stream_tokens(inner))),
{
    let group = proc_macro2::Group::new(proc_macro2::Delimiter::Brace, inner);
    quote::TokenStreamExt::append(ts, group);
}

/// `Group::new` with `Delimiter::Bracket`, handed to
/// `TokenStreamExt::append`: the stream gains one group that holds the
/// token trees of `inner` between `[` and `]`.
#[verifier::external_body]
pub(crate) fn push_brackets(ts: &mut proc_macro2::TokenStream, inner: proc_macro2::TokenStream)
    ensures
        stream_tokens(*final(ts)) == stream_tokens(*old(ts)).push(brackets(stream_tokens(inner))),
{
    let group = proc_macro2::Group::new(proc_macro2::Delimiter::Bracket, inner);
    quote::TokenStreamExt::append(ts, group);
}

/// `ToTokens::to_tokens` of a `usize`: the stream gains the integer literal
/// of that value with the suffix `usize`.
#[verifier::external_body]
pub(crate) fn push_suffixed(ts: &mut proc_macro2::TokenStream, n: usize)
    ensures
        stream_tokens(*final(ts)) == stream_tokens(*old(ts)).push(suffixed(n as nat)),
{
    quote::ToTokens::to_tokens(&n, ts);
}

/// `Literal::usize_unsuffixed`, handed to `TokenStreamExt::append`: the
/// stream gains the integer literal of that value without a suffix.
#[verifier::external_body]
pub(crate) fn push_unsuffixed(ts: &mut proc_macro2::TokenStream, n: usize)
    ensures
        stream_tokens(*final(ts)) == stream_tokens(*old(ts)).push(unsuffixed(n as nat)),
{
    quote::TokenStreamExt::append(ts, proc_macro2::Literal::usize_unsuffixed(n));
}

/// `Extend<TokenStream>::extend` with one stream: its token trees are
/// appended in order.
#[verifier::external_body]
pub(crate) fn extend(ts: &mut proc_macro2::TokenStream, other: proc_macro2::TokenStream)
    ensures
        stream_tokens(*final(ts)) == stream_tokens(*old(ts)) + stream_tokens(other),
{
    ts.extend(Some(other));
}

/// `ToTokens::to_tokens` of a stream: the token trees of `other` are
/// appended in order, and `other` is left as it was.
#[verifier::external_body]
pub(crate) fn push_stream(ts: &mut proc_macro2::TokenStream, other: &proc_macro2::TokenStream)
    ensures
        stream_tokens(*final(ts)) == stream_tokens(*old(ts)) + stream_tokens(*other),
{
    quote::ToTokens::to_tokens(other, ts);
}

/// `Error::new` with the call-site span: an error that displays `message`.
#[verifier::external_body]
pub(crate) fn usage_error(message: &str) -> (error: syn::Error)
    ensures
        error_message(error) == message@,
{
    syn::Error::new(proc_macro2::Span::call_site(), message)
}

/// `part` stands in `whole` from the position `start` on, token for token.
pub open spec fn is_run_at(whole: Seq<Token>, part: Seq<Token>, start: int) -> bool {
    &&& 0 <= start
    &&& start + part.len() <= whole.len()
    &&& whole.subrange(start, start + part.len()) == part
}

/// `part` stands somewhere in `whole`, token for token and unbroken.
pub open spec fn holds(whole: Seq<Token>, part: Seq<Token>) -> bool {
    exists|start: int| is_run_at(whole, part, start)
}

/// Each of two sequences stands in the two put together.
pub proof fn lemma_holds_in_two(first: Seq<Token>, second: Seq<Token>)
    ensures
        holds(first + second, first),
        holds(first + second, second),
{
    let whole = first + second;
    assert(whole.subrange(0, first.len() as int) =~= first);
    assert(is_run_at(whole, first, 0));
    let start = first.len() as int;
    assert(whole.subrange(start, start + second.len()) =~= second);
    assert(is_run_at(whole, second, start));
}

/// What stands in a part of a sequence stands in the sequence.
pub proof fn lemma_holds_within(whole: Seq<Token>, middle: Seq<Token>, part: Seq<Token>)
    requires
        holds(whole, middle),
        holds(middle, part),
    ensures
        holds(whole, part),
{
    let outer = choose|start: int| is_run_at(whole, middle, start);
    let inner = choose|start: int| is_run_at(middle, part, start);
    assert(whole.subrange(outer + inner, outer + inner + part.len()) =~= whole.subrange(
        outer,
        outer + middle.len(),
    ).subrange(inner, inner + part.len()));
    assert(is_run_at(whole, part, outer + inner));
}

/// Every character of a decimal representation is a digit.
pub proof fn lemma_decimal_digits(n: nat)
    ensures
        decimal(n).len() > 0,
        forall|i: int| 0 <= i < decimal(n).len() ==> '0' <= #[trigger] decimal(n)[i] <= '9',
    decreases n,
{
    if n >= 10 {
        lemma_decimal_digits(n / 10);
    }
}

/// The number that a digit stands for.
pub open spec fn digit_value(c: char) -> nat {
    if c == '1' {
        1
    } else if c == '2' {
        2
    } else if c == '3' {
        3
    } else if c == '4' {
        4
    } else if c == '5' {
        5
    } else if c == '6' {
        6
    } else if c == '7' {
        7
    } else if c == '8' {
        8
    } else if c == '9' {
        9
    } else {
        0
    }
}

/// The number that a sequence of digits stands for.
pub open spec fn decimal_value(digits: Seq<char>) -> nat
    decreases digits.len(),
{
    if digits.len() == 0 {
        0
    } else {
        decimal_value(digits.drop_last()) * 10 + digit_value(digits.last())
    }
}

/// The decimal digits of a number stand for that number.
pub proof fn lemma_decimal_value(n: nat)
    ensures
        decimal_value(decimal(n)) == n,
    decreases n,
{
    if n < 10 {
        assert(decimal(n).drop_last() =~= Seq::<char>::empty());
        assert(decimal_value(decimal(n).drop_last()) == 0);
    } else {
        lemma_decimal_value(n / 10);
        assert(decimal(n).drop_last() =~= decimal(n / 10));
    }
}

/// Different numbers are written differently.
pub proof fn lemma_decimal_is_injective(a: nat, b: nat)
    requires
        decimal(a) == decimal(b),
    ensures
        a == b,
{
    lemma_decimal_value(a);
    lemma_decimal_value(b);
}

/// Different numbers give different literals.
pub proof fn lemma_suffixed_is_injective(a: nat, b: nat)
    requires
        a != b,
    ensures
        suffixed(a) != suffixed(b),
{
    let tail = "usize"@;
    if decimal(a) + tail == decimal(b) + tail {
        assert((decimal(a) + tail).len() == (decimal(b) + tail).len());
        assert(decimal(a).len() == decimal(b).len());
        assert forall|i: int| 0 <= i < decimal(a).len() implies decimal(a)[i] == decimal(b)[i] by {
            assert((decimal(a) + tail)[i] == decimal(a)[i]);
            assert((decimal(b) + tail)[i] == decimal(b)[i]);
        }
        assert(decimal(a) =~= decimal(b));
        lemma_decimal_is_injective(a, b);
    }
}

/// Different numbers give different numbered identifiers.
pub proof fn lemma_numbered_is_injective(prefix: &str, a: nat, b: nat)
    requires
        a != b,
    ensures
        numbered(prefix, a) != numbered(prefix, b),
{
    let head = prefix@;
    if head + decimal(a) == head + decimal(b) {
        assert((head + decimal(a)).len() == (head + decimal(b)).len());
        assert forall|i: int| 0 <= i < decimal(a).len() implies decimal(a)[i] == decimal(b)[i] by {
            assert((head + decimal(a))[head.len() + i] == decimal(a)[i]);
            assert((head + decimal(b))[head.len() + i] == decimal(b)[i]);
        }
        assert(decimal(a) =~= decimal(b));
        lemma_decimal_is_injective(a, b);
    }
}

/// An identifier followed by a number is an identifier.
pub proof fn lemma_numbered_is_identifier(prefix: Seq<char>, n: nat)
    requires
        is_identifier(prefix),
    ensures
        is_identifier(prefix + decimal(n)),
{
    lemma_decimal_digits(n);
    let name = prefix + decimal(n);
    assert(name[0] == prefix[0]);
    assert forall|i: int| 0 <= i < name.len() implies is_ident_continue(#[trigger] name[i]) by {
        if i < prefix.len() {
            assert(name[i] == prefix[i]);
        } else {
            assert(name[i] == decimal(n)[i - prefix.len()]);
        }
    }
}

fn digit_text(d: usize) -> (text: &'static str)
    requires
        d < 10,
    ensures
        text@ == seq![digit(d as nat)],
{
    proof {
        reveal_strlit("0");
        reveal_strlit("1");
        reveal_strlit("2");
        reveal_strlit("3");
        reveal_strlit("4");
        reveal_strlit("5");
        reveal_strlit("6");
        reveal_strlit("7");
        reveal_strlit("8");
        reveal_strlit("9");
    }
    let text = if d == 0 {
        "0"
    } else if d == 1 {
        "1"
    } else if d == 2 {
        "2"
    } else if d == 3 {
        "3"
    } else if d == 4 {
        "4"
    } else if d == 5 {
        "5"
    } else if d == 6 {
        "6"
    } else if d == 7 {
        "7"
    } else if d == 8 {
        "8"
    } else {
        "9"
    };
    assert(text@ =~= seq![digit(d as nat)]);
    text
}

/// Writes `n` in decimal.
pub fn decimal_string(n: usize) -> (text: String)
    ensures
        text@ == decimal(n as nat),
    decreases n,
{
    if n < 10 {
        String::from_str(digit_text(n))
    } else {
        let mut text = decimal_string(n / 10);
        text.append(digit_text(n % 10));
        assert(text@ =~= decimal(n as nat));
        text
    }
}

/// Appends the identifier made of `prefix` and the decimal digits of `index`.
pub fn push_numbered(ts: &mut proc_macro2::TokenStream, prefix: &str, index: usize)
    requires
        is_identifier(prefix@),
    ensures
        stream_tokens(*final(ts)) == stream_tokens(*old(ts)).push(numbered(prefix, index as nat)),
{
    let mut name = String::from_str(prefix);
    let digits = decimal_string(index);
    name.append(digits.as_str());
    proof {
        lemma_numbered_is_identifier(prefix@, index as nat);
    }
    push_ident(ts, name.as_str());
}

/// Appends `::`.
pub fn push_path_sep(ts: &mut proc_macro2::TokenStream)
    ensures
        stream_tokens(*final(ts)) == stream_tokens(*old(ts)).push(joint(':')).push(punct(':')),
{
    push_joint(ts, ':');
    push_punct(ts, ':');
}

/// Appends `->`.
pub fn push_arrow(ts: &mut proc_macro2::TokenStream)
    ensures
        stream_tokens(*final(ts)) == stream_tokens(*old(ts)).push(joint('-')).push(punct('>')),
{
    push_joint(ts, '-');
    push_punct(ts, '>');
}

} // verus!
