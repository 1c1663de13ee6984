use proc_macro2::TokenStream;
use xcm_procedural::location::{generate_conversion_from_tuples, generate_conversion_functions};

/// The text of the stream that `text` lexes to.
fn normal(text: &str) -> String {
    text.parse::<TokenStream>().expect("the expected text lexes").to_string()
}

fn names(prefix: &str, k: usize) -> Vec<String> {
    (0..k).map(|i| format!("{prefix}{i}")).collect()
}

fn type_params(k: usize) -> String {
    names("J", k).iter().map(|name| format!("{name} : Into < Junction > , ")).collect()
}

fn terminated(items: &[String]) -> String {
    items.iter().map(|item| format!("{item} , ")).collect()
}

fn interior(k: usize) -> String {
    if k == 0 {
        return "Junctions :: Here".to_string();
    }
    let elements: Vec<String> =
        names("j", k).iter().map(|name| format!("{name} . into ( )")).collect();
    format!("Junctions :: X{k} ( alloc :: sync :: Arc :: new ( [ {} ] ) )", elements.join(" , "))
}

fn from_ancestor_tuple(k: usize) -> String {
    let types = names("J", k).join(" , ");
    let idents = names("j", k).join(" , ");
    format!(
        "impl < {} > From < ( Ancestor , {types} ) > for Location {{ \
         fn from ( ( Ancestor ( parents ) , {idents} ) : ( Ancestor , {types} ) ) -> Self {{ \
         Location {{ parents , interior : {} }} }} }} ",
        type_params(k),
        interior(k)
    )
}

fn from_array(k: usize) -> String {
    let idents = names("j", k).join(" , ");
    format!(
        "impl From < [ Junction ; {k}usize ] > for Location {{ \
         fn from ( j : [ Junction ; {k}usize ] ) -> Self {{ \
         let [ {idents} ] = j ; \
         Location {{ parents : 0 , interior : {} }} }} }} ",
        interior(k)
    )
}

fn from_parent_tuple(p: usize, k: usize) -> String {
    let parents = "Parent , ".repeat(p);
    let underscores = "_ , ".repeat(p);
    let types = terminated(&names("J", k));
    let idents = terminated(&names("j", k));
    format!(
        "impl < {} > From < ( {parents} {types} ) > for Location {{ \
         fn from ( ( {underscores} {idents} ) : ( {parents} {types} ) ) -> Self {{ \
         Self {{ parents : {p}usize as u8 , interior : {} }} }} }} ",
        type_params(k),
        interior(k)
    )
}

fn from_parent_interior(p: usize) -> String {
    let parents = "Parent , ".repeat(p);
    let underscores = "_ , ".repeat(p);
    format!(
        "impl From < ( {parents} Junctions ) > for Location {{ \
         fn from ( ( {underscores} junctions ) : ( {parents} Junctions ) ) -> Self {{ \
         Location {{ parents : {p}usize as u8 , interior : junctions }} }} }} "
    )
}

const FROM_ANCESTOR_INTERIOR: &str = "impl From < ( Ancestor , Junctions ) > for Location { \
    fn from ( ( Ancestor ( parents ) , interior ) : ( Ancestor , Junctions ) ) -> Self { \
    Location { parents , interior } } } ";

const FROM_JUNCTION: &str = "impl From < Junction > for Location { \
    fn from ( x : Junction ) -> Self { \
    Location { parents : 0 , interior : [ x ] . into ( ) } } } ";

/// The whole output, written down independently as text.
fn expected(max_junctions: usize, max_parents: usize) -> String {
    let mut text = String::new();
    text.push_str(FROM_ANCESTOR_INTERIOR);
    text.push_str(FROM_JUNCTION);
    for k in 0..=max_junctions {
        text.push_str(&from_ancestor_tuple(k));
        text.push_str(&from_array(k));
        for p in 0..=max_parents {
            text.push_str(&from_parent_tuple(p, k));
        }
    }
    for p in 0..=max_parents {
        text.push_str(&from_parent_interior(p));
    }
    normal(&text)
}

fn count_impls(stream: &TokenStream) -> usize {
    stream
        .clone()
        .into_iter()
        .filter(|tree| matches!(tree, proc_macro2::TokenTree::Ident(word) if word == "impl"))
        .count()
}

#[test]
fn location_no_junctions_no_parents_is_exact() {
    let text = "\
        impl From < ( Ancestor , Junctions ) > for Location { \
            fn from ( ( Ancestor ( parents ) , interior ) : ( Ancestor , Junctions ) ) -> Self { \
                Location { parents , interior } \
            } \
        } \
        impl From < Junction > for Location { \
            fn from ( x : Junction ) -> Self { \
                Location { parents : 0 , interior : [ x ] . into ( ) } \
            } \
        } \
        impl < > From < ( Ancestor , ) > for Location { \
            fn from ( ( Ancestor ( parents ) , ) : ( Ancestor , ) ) -> Self { \
                Location { parents , interior : Junctions :: Here } \
            } \
        } \
        impl From < [ Junction ; 0usize ] > for Location { \
            fn from ( j : [ Junction ; 0usize ] ) -> Self { \
                let [ ] = j ; \
                Location { parents : 0 , interior : Junctions :: Here } \
            } \
        } \
        impl < > From < ( ) > for Location { \
            fn from ( ( ) : ( ) ) -> Self { \
                Self { parents : 0usize as u8 , interior : Junctions :: Here } \
            } \
        } \
        impl From < ( Junctions ) > for Location { \
            fn from ( ( junctions ) : ( Junctions ) ) -> Self { \
                Location { parents : 0usize as u8 , interior : junctions } \
            } \
        }";
    assert_eq!(generate_conversion_from_tuples(0, 0).to_string(), normal(text));
}

#[test]
fn location_two_junctions_from_array_is_emitted() {
    let text = "\
        impl From < [ Junction ; 2usize ] > for Location { \
            fn from ( j : [ Junction ; 2usize ] ) -> Self { \
                let [ j0 , j1 ] = j ; \
                Location { parents : 0 , interior : \
                    Junctions :: X2 ( alloc :: sync :: Arc :: new ( [ j0 . into ( ) , j1 . into ( ) ] ) ) } \
            } \
        }";
    let emitted = generate_conversion_from_tuples(2, 0).to_string();
    assert!(emitted.contains(&normal(text)));
    assert_eq!(emitted.matches(&normal(text)).count(), 1);
}

#[test]
fn location_ancestor_with_one_junction_is_emitted() {
    let text = "\
        impl < J0 : Into < Junction > , > From < ( Ancestor , J0 ) > for Location { \
            fn from ( ( Ancestor ( parents ) , j0 ) : ( Ancestor , J0 ) ) -> Self { \
                Location { parents , interior : \
                    Junctions :: X1 ( alloc :: sync :: Arc :: new ( [ j0 . into ( ) ] ) ) } \
            } \
        }";
    let emitted = generate_conversion_from_tuples(1, 0).to_string();
    assert_eq!(emitted.matches(&normal(text)).count(), 1);
}

#[test]
fn location_two_parents_two_junctions_is_emitted() {
    let text = "\
        impl < J0 : Into < Junction > , J1 : Into < Junction > , > \
            From < ( Parent , Parent , J0 , J1 , ) > for Location { \
            fn from ( ( _ , _ , j0 , j1 , ) : ( Parent , Parent , J0 , J1 , ) ) -> Self { \
                Self { parents : 2usize as u8 , interior : \
                    Junctions :: X2 ( alloc :: sync :: Arc :: new ( [ j0 . into ( ) , j1 . into ( ) ] ) ) } \
            } \
        }";
    let emitted = generate_conversion_from_tuples(2, 2).to_string();
    assert_eq!(emitted.matches(&normal(text)).count(), 1);
}

#[test]
fn location_three_parents_before_an_interior_is_emitted() {
    let text = "\
        impl From < ( Parent , Parent , Parent , Junctions ) > for Location { \
            fn from ( ( _ , _ , _ , junctions ) : ( Parent , Parent , Parent , Junctions ) ) -> Self { \
                Location { parents : 3usize as u8 , interior : junctions } \
            } \
        }";
    let emitted = generate_conversion_from_tuples(0, 3).to_string();
    assert_eq!(emitted.matches(&normal(text)).count(), 1);
}

#[test]
fn location_output_matches_the_text_for_small_bounds() {
    for (max_junctions, max_parents) in [(0, 0), (1, 0), (0, 1), (1, 1), (3, 2), (2, 5)] {
        assert_eq!(
            generate_conversion_from_tuples(max_junctions, max_parents).to_string(),
            expected(max_junctions, max_parents),
            "bounds {max_junctions} and {max_parents}",
        );
    }
}

#[test]
fn location_output_matches_the_text_for_eight_and_eight() {
    assert_eq!(generate_conversion_from_tuples(8, 8).to_string(), expected(8, 8));
}

#[test]
fn location_numbers_above_nine_are_written_in_decimal() {
    let emitted = generate_conversion_from_tuples(12, 11).to_string();
    assert_eq!(emitted, expected(12, 11));
    assert!(emitted.contains("[Junction ; 12usize]"));
    assert!(emitted.contains("Junctions :: X12"));
    assert!(emitted.contains("J11 : Into < Junction >"));
    assert!(emitted.contains("parents : 11usize as u8"));
}

#[test]
fn location_emits_one_impl_for_each_shape() {
    // Two without a list of junctions; for each number of junctions one behind
    // `Ancestor`, one from an array and one for each number of parents; one
    // for each number of parents before an interior.
    assert_eq!(count_impls(&generate_conversion_from_tuples(8, 8)), 2 + 9 * (1 + 1 + 9) + 9);
    assert_eq!(count_impls(&generate_conversion_from_tuples(0, 0)), 2 + 3 + 1);
    assert_eq!(count_impls(&generate_conversion_from_tuples(2, 3)), 2 + 3 * (1 + 1 + 4) + 4);
}

#[test]
fn location_emitted_impls_are_pairwise_different() {
    let emitted = generate_conversion_from_tuples(8, 8).to_string();
    let mut heads: Vec<&str> = emitted
        .split("impl ")
        .filter(|part| !part.is_empty())
        .map(|part| part.split(" for Location").next().unwrap())
        .collect();
    let all = heads.len();
    assert_eq!(all, 110);
    heads.sort();
    heads.dedup();
    assert_eq!(heads.len(), all);
}

#[test]
fn location_macro_without_arguments_emits_everything() {
    let emitted = generate_conversion_functions(TokenStream::new()).expect("no arguments");
    assert_eq!(emitted.to_string(), expected(8, 8));
    assert_eq!(emitted.to_string(), generate_conversion_from_tuples(8, 8).to_string());
}

#[test]
fn location_macro_with_arguments_is_an_error() {
    let input: TokenStream = "8".parse().unwrap();
    let error = generate_conversion_functions(input).expect_err("an argument");
    assert_eq!(error.to_string(), "No arguments expected");
    let input: TokenStream = "max = 8 , other".parse().unwrap();
    assert!(generate_conversion_functions(input).is_err());
}

#[test]
fn location_output_is_a_file_of_impls_for_location() {
    let file: syn::File =
        syn::parse2(generate_conversion_from_tuples(8, 8)).expect("the output is Rust");
    assert_eq!(file.items.len(), 110);
    for item in &file.items {
        let syn::Item::Impl(item) = item else {
            panic!("something else than an impl");
        };
        let (_, path, _) = item.trait_.as_ref().expect("an impl of a trait");
        assert_eq!(path.segments.last().unwrap().ident, "From");
        let syn::Type::Path(target) = &*item.self_ty else {
            panic!("an impl for something else than a named type");
        };
        assert!(target.path.is_ident("Location"));
        assert_eq!(item.items.len(), 1);
    }
}
