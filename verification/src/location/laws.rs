//! What holds of the conversions into `Location` taken together: a
//! conversion is emitted for each shape within the bounds and for no other,
//! for no shape twice, and no two conversions are from the same type.

use crate::fragments::{
    lemma_repeated_at, lemma_repeated_len, lemma_separated_len, lemma_terminated_first,
    lemma_terminated_len,
};
use crate::location::{
    ancestor_types, array_of, conversions, lemma_emitted_holds, parent_interior_shapes,
    parent_tuple_shapes, parent_types, parents_before_interior, shapes, shapes_of, tuple_shapes,
    Shape,
};
use crate::tokens::{
    decimal, holds, ident, lemma_suffixed_is_injective, numbered, punct, suffixed,
};
use vstd::prelude::*;
use vstd::seq_lib::lemma_no_dup_in_concat;

verus! {

/// A shape is in two lists put together where it is in one of them.
proof fn lemma_contains_in_concat(first: Seq<Shape>, second: Seq<Shape>, shape: Shape)
    ensures
        (first + second).contains(shape) <==> first.contains(shape) || second.contains(shape),
{
    let both = first + second;
    if first.contains(shape) {
        let i = choose|i: int| 0 <= i < first.len() && first[i] == shape;
        assert(both[i] == shape);
    }
    if second.contains(shape) {
        let i = choose|i: int| 0 <= i < second.len() && second[i] == shape;
        assert(both[first.len() + i] == shape);
    }
    if both.contains(shape) {
        let i = choose|i: int| 0 <= i < both.len() && both[i] == shape;
        if i < first.len() {
            assert(first[i] == shape);
        } else {
            assert(second[i - first.len()] == shape);
        }
    }
}

/// The shapes of `k` junctions are those three kinds, with `k` junctions
/// and at most `max_parents` markers, each once.
proof fn lemma_shapes_of(k: nat, max_parents: nat, shape: Shape)
    ensures
        shapes_of(k, max_parents).len() == max_parents + 3,
        shapes_of(k, max_parents).no_duplicates(),
        shapes_of(k, max_parents).contains(shape) <==> match shape {
            Shape::AncestorTuple(l) => l == k,
            Shape::Array(l) => l == k,
            Shape::ParentTuple(p, l) => l == k && p <= max_parents,
            _ => false,
        },
{
    let all = shapes_of(k, max_parents);
    assert(all[0] == Shape::AncestorTuple(k));
    assert(all[1] == Shape::Array(k));
    assert forall|i: int| 2 <= i < all.len() implies all[i] == Shape::ParentTuple(
        (i - 2) as nat,
        k,
    ) by {
        assert(all[i] == parent_tuple_shapes(max_parents + 1, k)[i - 2]);
    }
    match shape {
        Shape::ParentTuple(p, l) => {
            if l == k && p <= max_parents {
                assert(all[p as int + 2] == shape);
            }
        },
        _ => {},
    }
}

/// The shapes of less than `count` junctions are those three kinds, with
/// less than `count` junctions and at most `max_parents` markers, each once.
proof fn lemma_tuple_shapes(count: nat, max_parents: nat, shape: Shape)
    ensures
        tuple_shapes(count, max_parents).len() == count * (max_parents + 3),
        tuple_shapes(count, max_parents).no_duplicates(),
        tuple_shapes(count, max_parents).contains(shape) <==> match shape {
            Shape::AncestorTuple(k) => k < count,
            Shape::Array(k) => k < count,
            Shape::ParentTuple(p, k) => k < count && p <= max_parents,
            _ => false,
        },
    decreases count,
{
    if count > 0 {
        let before = tuple_shapes((count - 1) as nat, max_parents);
        let last = shapes_of((count - 1) as nat, max_parents);
        lemma_tuple_shapes((count - 1) as nat, max_parents, shape);
        lemma_shapes_of((count - 1) as nat, max_parents, shape);
        lemma_contains_in_concat(before, last, shape);
        let fewer = (count - 1) as nat;
        assert(count * (max_parents + 3) == fewer * (max_parents + 3) + (max_parents + 3))
            by (nonlinear_arith)
            requires
                count == fewer + 1,
        ;
        assert forall|i: int, j: int| 0 <= i < before.len() && 0 <= j < last.len() implies before[i]
            != last[j] by {
            lemma_tuple_shapes((count - 1) as nat, max_parents, before[i]);
            lemma_shapes_of((count - 1) as nat, max_parents, before[i]);
            assert(before.contains(before[i]));
            if before[i] == last[j] {
                assert(last.contains(before[i]));
            }
        }
        lemma_no_dup_in_concat(before, last);
    } else {
        assert(count * (max_parents + 3) == 0) by (nonlinear_arith)
            requires
                count == 0,
        ;
    }
}

/// The shapes for which a conversion is emitted are the shapes of at most
/// `max_junctions` junctions and at most `max_parents` parents given as
/// markers: all of them, and no other.
pub proof fn lemma_shapes_are_those_within(max_junctions: nat, max_parents: nat, shape: Shape)
    ensures
        shapes(max_junctions, max_parents).contains(shape) <==> shape.is_within(
            max_junctions,
            max_parents,
        ),
{
    let fixed = seq![Shape::AncestorInterior, Shape::Junction];
    let tuples = tuple_shapes(max_junctions + 1, max_parents);
    let interiors = parent_interior_shapes(max_parents + 1);
    lemma_tuple_shapes(max_junctions + 1, max_parents, shape);
    lemma_contains_in_concat(fixed, tuples, shape);
    lemma_contains_in_concat(fixed + tuples, interiors, shape);
    assert(fixed[0] == Shape::AncestorInterior && fixed[1] == Shape::Junction);
    match shape {
        Shape::ParentInterior(p) => {
            if p <= max_parents {
                assert(interiors[p as int] == shape);
            }
        },
        _ => {},
    }
}

/// No shape has two conversions: the shapes for which a conversion is
/// emitted are pairwise different.
pub proof fn lemma_shapes_are_distinct(max_junctions: nat, max_parents: nat)
    ensures
        shapes(max_junctions, max_parents).no_duplicates(),
{
    let fixed = seq![Shape::AncestorInterior, Shape::Junction];
    let tuples = tuple_shapes(max_junctions + 1, max_parents);
    let interiors = parent_interior_shapes(max_parents + 1);
    lemma_tuple_shapes(max_junctions + 1, max_parents, Shape::Junction);
    assert forall|i: int, j: int| 0 <= i < fixed.len() && 0 <= j < tuples.len() implies fixed[i]
        != tuples[j] by {
        lemma_tuple_shapes(max_junctions + 1, max_parents, fixed[i]);
        assert(tuples.contains(tuples[j]));
    }
    lemma_no_dup_in_concat(fixed, tuples);
    let front = fixed + tuples;
    assert forall|i: int, j: int| 0 <= i < front.len() && 0 <= j < interiors.len() implies front[i]
        != interiors[j] by {
        lemma_tuple_shapes(max_junctions + 1, max_parents, interiors[j]);
        lemma_contains_in_concat(fixed, tuples, interiors[j]);
        assert(front.contains(front[i]));
    }
    lemma_no_dup_in_concat(front, interiors);
}

/// How many conversions are emitted: two, then for each number of
/// junctions one behind `Ancestor`, one from an array and one for each
/// number of markers, then one for each number of markers before an
/// interior.
pub proof fn lemma_shapes_len(max_junctions: nat, max_parents: nat)
    ensures
        shapes(max_junctions, max_parents).len() == 2 + (max_junctions + 1) * (max_parents + 3)
            + (max_parents + 1),
{
    lemma_tuple_shapes(max_junctions + 1, max_parents, Shape::Junction);
}

/// The words that tell the tuple types apart are different words.
proof fn lemma_words_differ()
    ensures
        ident("Ancestor") != ident("Parent"),
        ident("Ancestor") != numbered("J", 0),
        ident("Junctions") != numbered("J", 0),
        ident("Parent") != numbered("J", 0),
{
    reveal_strlit("Ancestor");
    reveal_strlit("Parent");
    reveal_strlit("Junctions");
    reveal_strlit("J");
    assert("Ancestor"@.len() == 8);
    assert("Parent"@.len() == 6);
    assert("Junctions"@.len() == 9);
    assert(("J"@ + decimal(0)).len() == 2);
}

/// How long the types of a tuple behind `Ancestor` are, and where its
/// landmarks stand.
proof fn lemma_ancestor_types(k: nat)
    ensures
        ancestor_types(k).len() == if k == 0 {
            2
        } else {
            2 * k + 1
        },
        ancestor_types(k)[0] == ident("Ancestor"),
        k > 0 ==> ancestor_types(k)[2] == numbered("J", 0),
{
    lemma_separated_len("J", k);
}

/// How long the types of a tuple behind markers are, and where its
/// landmarks stand.
proof fn lemma_parent_types(p: nat, k: nat, i: nat)
    ensures
        parent_types(p, k).len() == 2 * p + 2 * k,
        i < p ==> parent_types(p, k)[2 * i as int] == ident("Parent"),
        k > 0 ==> parent_types(p, k)[2 * p as int] == numbered("J", 0),
{
    lemma_repeated_len("Parent", p);
    lemma_terminated_len("J", k);
    if i < p {
        lemma_repeated_at("Parent", p, i);
    }
    if k > 0 {
        lemma_terminated_first("J", k);
    }
}

/// How long the markers before an interior are, and where its landmarks
/// stand.
proof fn lemma_parents_before_interior(p: nat)
    ensures
        parents_before_interior(p).len() == 2 * p + 1,
        p > 0 ==> parents_before_interior(p)[0] == ident("Parent"),
{
    lemma_repeated_len("Parent", p);
    if p > 0 {
        lemma_repeated_at("Parent", p, 0);
    }
}

/// Two tuples behind markers have different types unless they have the
/// same number of markers and the same number of values.
proof fn lemma_parent_types_differ(p: nat, k: nat, q: nat, l: nat)
    requires
        p != q || k != l,
    ensures
        parent_types(p, k) != parent_types(q, l),
{
    lemma_words_differ();
    // Behind the markers of the shorter run stands a value in the one
    // and a marker in the other.
    lemma_parent_types(p, k, q);
    lemma_parent_types(q, l, p);
    if p + k == q + l {
        if p < q {
            assert(parent_types(p, k)[2 * p as int] == numbered("J", 0));
            assert(parent_types(q, l)[2 * p as int] == ident("Parent"));
        } else {
            assert(parent_types(q, l)[2 * q as int] == numbered("J", 0));
            assert(parent_types(p, k)[2 * q as int] == ident("Parent"));
        }
    }
}

/// A tuple behind `Ancestor` has other types than every tuple of the other
/// three kinds.
proof fn lemma_ancestor_types_differ(k: nat, p: nat, l: nat)
    ensures
        ancestor_types(k) != seq![ident("Ancestor"), punct(','), ident("Junctions")],
        ancestor_types(k) != parent_types(p, l),
        ancestor_types(k) != parents_before_interior(p),
{
    lemma_words_differ();
    lemma_ancestor_types(k);
    lemma_parent_types(p, l, 0);
    lemma_parents_before_interior(p);
    let plain = seq![ident("Ancestor"), punct(','), ident("Junctions")];
    assert(plain.len() == 3 && plain[2] == ident("Junctions"));
    if ancestor_types(k).len() == parent_types(p, l).len() {
        // Two tokens: the one starts with `Ancestor`, the other with a
        // marker or a value.
        if p > 0 {
            assert(parent_types(p, l)[0] == ident("Parent"));
        } else {
            assert(parent_types(p, l)[0] == numbered("J", 0));
        }
    }
}

/// No two shapes share the type that their conversion is from: the number
/// of its parts and the marker types in it tell each shape from the others.
pub proof fn lemma_sources_differ(a: Shape, b: Shape)
    requires
        a != b,
    ensures
        a.source() != b.source(),
{
    lemma_words_differ();
    let plain = seq![ident("Ancestor"), punct(','), ident("Junctions")];
    assert(plain.len() == 3 && plain[0] == ident("Ancestor"));
    match (a, b) {
        (Shape::Array(k), Shape::Array(l)) => {
            lemma_suffixed_is_injective(k, l);
            assert(array_of(k)[2] == suffixed(k) && array_of(l)[2] == suffixed(l));
        },
        (Shape::AncestorTuple(k), Shape::AncestorTuple(l)) => {
            lemma_ancestor_types(k);
            lemma_ancestor_types(l);
        },
        (Shape::AncestorTuple(k), Shape::AncestorInterior) => {
            lemma_ancestor_types_differ(k, 0, 0);
        },
        (Shape::AncestorInterior, Shape::AncestorTuple(k)) => {
            lemma_ancestor_types_differ(k, 0, 0);
        },
        (Shape::AncestorTuple(k), Shape::ParentTuple(p, l)) => {
            lemma_ancestor_types_differ(k, p, l);
        },
        (Shape::ParentTuple(p, l), Shape::AncestorTuple(k)) => {
            lemma_ancestor_types_differ(k, p, l);
        },
        (Shape::AncestorTuple(k), Shape::ParentInterior(p)) => {
            lemma_ancestor_types_differ(k, p, 0);
        },
        (Shape::ParentInterior(p), Shape::AncestorTuple(k)) => {
            lemma_ancestor_types_differ(k, p, 0);
        },
        (Shape::ParentTuple(p, k), Shape::ParentTuple(q, l)) => {
            lemma_parent_types_differ(p, k, q, l);
        },
        (Shape::ParentTuple(p, k), Shape::ParentInterior(q)) => {
            lemma_parent_types(p, k, 0);
            lemma_parents_before_interior(q);
        },
        (Shape::ParentInterior(q), Shape::ParentTuple(p, k)) => {
            lemma_parent_types(p, k, 0);
            lemma_parents_before_interior(q);
        },
        (Shape::ParentTuple(p, k), Shape::AncestorInterior) => {
            lemma_parent_types(p, k, 0);
        },
        (Shape::AncestorInterior, Shape::ParentTuple(p, k)) => {
            lemma_parent_types(p, k, 0);
        },
        (Shape::ParentInterior(p), Shape::ParentInterior(q)) => {
            lemma_parents_before_interior(p);
            lemma_parents_before_interior(q);
        },
        (Shape::ParentInterior(p), Shape::AncestorInterior) => {
            lemma_parents_before_interior(p);
        },
        (Shape::AncestorInterior, Shape::ParentInterior(p)) => {
            lemma_parents_before_interior(p);
        },
        _ => {},
    }
    assert(a.source()[0] != b.source()[0]);
}

/// No shape is left out: what is emitted holds the conversion for every
/// shape of at most `max_junctions` junctions and at most `max_parents`
/// parents.
pub proof fn lemma_every_shape_is_emitted(max_junctions: nat, max_parents: nat, shape: Shape)
    requires
        shape.is_within(max_junctions, max_parents),
    ensures
        holds(conversions(max_junctions, max_parents), shape.conversion()),
{
    let all = shapes(max_junctions, max_parents);
    lemma_shapes_are_those_within(max_junctions, max_parents, shape);
    let i = choose|i: int| 0 <= i < all.len() && all[i] == shape;
    lemma_emitted_holds(all, i);
}

} // verus!
