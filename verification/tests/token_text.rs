use proc_macro2::TokenStream;
use xcm_procedural::fragments::{
    emit_from_impl, emit_generics, push_array_into, push_into_calls, push_repeated,
    push_separated, push_terminated, push_type_params,
};
use xcm_procedural::tokens::{decimal_string, push_arrow, push_numbered, push_path_sep};

fn text_of(expected: &str) -> String {
    expected.parse::<TokenStream>().expect("the expected text lexes").to_string()
}

fn stream_of(expected: &str) -> TokenStream {
    expected.parse::<TokenStream>().expect("the expected text lexes")
}

#[test]
fn decimal_of_small_and_large_numbers() {
    assert_eq!(decimal_string(0), "0");
    assert_eq!(decimal_string(7), "7");
    assert_eq!(decimal_string(9), "9");
    assert_eq!(decimal_string(10), "10");
    assert_eq!(decimal_string(99), "99");
    assert_eq!(decimal_string(100), "100");
    assert_eq!(decimal_string(1234567890), "1234567890");
    assert_eq!(decimal_string(usize::MAX), usize::MAX.to_string());
}

#[test]
fn numbered_identifier_is_appended() {
    let mut stream = stream_of("impl");
    push_numbered(&mut stream, "J", 12);
    push_numbered(&mut stream, "j", 0);
    assert_eq!(stream.to_string(), "impl J12 j0");
    let trees: Vec<_> = stream.into_iter().collect();
    assert_eq!(trees.len(), 3);
    assert!(matches!(&trees[1], proc_macro2::TokenTree::Ident(name) if name == "J12"));
}

#[test]
fn path_separator_and_arrow_are_two_joined_characters() {
    let mut stream = stream_of("a");
    push_path_sep(&mut stream);
    let mut rest = stream_of("b");
    push_arrow(&mut rest);
    stream.extend(rest);
    assert_eq!(stream.to_string(), "a :: b ->");
    assert_eq!(stream.to_string(), text_of("a::b->"));
    assert_eq!(stream.into_iter().count(), 6);
}

#[test]
fn type_parameters_end_with_a_comma_each() {
    let mut stream = TokenStream::new();
    push_type_params(&mut stream, 0);
    assert!(stream.is_empty());
    push_type_params(&mut stream, 2);
    assert_eq!(stream.to_string(), text_of("J0 : Into < Junction > , J1 : Into < Junction > ,"));
    assert_eq!(emit_generics(1).to_string(), text_of("< J0 : Into < Junction > , >"));
    assert_eq!(emit_generics(0).to_string(), text_of("< >"));
}

#[test]
fn separated_names_have_commas_between() {
    let mut stream = TokenStream::new();
    push_separated(&mut stream, "j", 0);
    assert!(stream.is_empty());
    push_separated(&mut stream, "j", 1);
    assert_eq!(stream.to_string(), "j0");
    let mut stream = stream_of("let");
    push_separated(&mut stream, "j", 3);
    assert_eq!(stream.to_string(), text_of("let j0 , j1 , j2"));
}

#[test]
fn terminated_names_have_commas_behind() {
    let mut stream = TokenStream::new();
    push_terminated(&mut stream, "J", 0);
    assert!(stream.is_empty());
    push_terminated(&mut stream, "J", 3);
    assert_eq!(stream.to_string(), text_of("J0 , J1 , J2 ,"));
}

#[test]
fn repeated_word_has_commas_behind() {
    let mut stream = TokenStream::new();
    push_repeated(&mut stream, "Parent", 0);
    assert!(stream.is_empty());
    push_repeated(&mut stream, "Parent", 2);
    push_repeated(&mut stream, "_", 1);
    assert_eq!(stream.to_string(), text_of("Parent , Parent , _ ,"));
}

#[test]
fn conversions_of_bindings() {
    let mut stream = TokenStream::new();
    push_into_calls(&mut stream, 2);
    assert_eq!(stream.to_string(), text_of("j0 . into ( ) , j1 . into ( )"));
    let mut stream = TokenStream::new();
    push_array_into(&mut stream, 2);
    assert_eq!(stream.to_string(), text_of("[ j0 . into ( ) , j1 . into ( ) ] . into ( )"));
    let mut stream = TokenStream::new();
    push_array_into(&mut stream, 0);
    assert_eq!(stream.to_string(), text_of("[ ] . into ( )"));
}

#[test]
fn impl_block_is_put_together() {
    let emitted = emit_from_impl(
        stream_of("< T >"),
        &stream_of("( T , )"),
        "Target",
        stream_of("( t , )"),
        stream_of("Target ( t )"),
    );
    let text = "impl < T > From < ( T , ) > for Target { \
                fn from ( ( t , ) : ( T , ) ) -> Self { Target ( t ) } }";
    assert_eq!(emitted.to_string(), text_of(text));
}
