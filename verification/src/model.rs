//! What the emitted conversions compute, over any type of junction.
//!
//! The emitted impls are generic Rust and exist once per number of
//! junctions and of parents: one for each [`crate::location::Shape`], one
//! for each length of tuple, one match arm for each length of an old path.
//! Here each family is one function over a sequence of elements, so that
//! what the family does can be stated and proved for every length at once.
//! The conversion of one element is a function value: `Into::into` in the
//! infallible families, `TryInto::try_into` of a clone in the conversion
//! from the previous version. Nothing is asked of it but that it can be
//! called on the elements given.

use crate::MAX_JUNCTIONS;
use std::sync::Arc;
use vstd::prelude::*;

verus! {

/// A number of ancestors, given as a value.
#[derive(Clone, Copy, Debug, PartialEq, Eq)]
pub struct Ancestor(pub u8);

/// One ancestor, given as a marker: `(Parent, Parent, x)` stands two levels up.
#[derive(Clone, Copy, Debug, PartialEq, Eq)]
pub struct Parent;

/// An interior path of at most eight junctions, with one variant for each length.
/// The junctions of a path are shared between its clones.
#[derive(Clone, Debug, PartialEq, Eq)]
pub enum Junctions<J> {
    Here,
    X1(Arc<[J; 1]>),
    X2(Arc<[J; 2]>),
    X3(Arc<[J; 3]>),
    X4(Arc<[J; 4]>),
    X5(Arc<[J; 5]>),
    X6(Arc<[J; 6]>),
    X7(Arc<[J; 7]>),
    X8(Arc<[J; 8]>),
}

/// A place in the hierarchy: a number of steps up, then a path down.
#[derive(Clone, Debug, PartialEq, Eq)]
pub struct Location<J> {
    pub parents: u8,
    pub interior: Junctions<J>,
}

impl<J> View for Junctions<J> {
    type V = Seq<J>;

    /// The junctions of the path, in order.
    open spec fn view(&self) -> Seq<J> {
        match self {
            Junctions::Here => Seq::empty(),
            Junctions::X1(a) => a@,
            Junctions::X2(a) => a@,
            Junctions::X3(a) => a@,
            Junctions::X4(a) => a@,
            Junctions::X5(a) => a@,
            Junctions::X6(a) => a@,
            Junctions::X7(a) => a@,
            Junctions::X8(a) => a@,
        }
    }
}

/// `out` holds a conversion of each element, in the order of the elements.
pub open spec fn converted<E, J, F: Fn(E) -> J>(into: F, elements: Seq<E>, out: Seq<J>) -> bool {
    &&& out.len() == elements.len()
    &&& forall|i: int| 0 <= i < elements.len() ==> into.ensures((elements[i],), #[trigger] out[i])
}

/// The conversion may be called on each of the elements.
pub open spec fn takes<E, J, F: Fn(E) -> J>(into: F, elements: Seq<E>) -> bool {
    forall|i: int| 0 <= i < elements.len() ==> into.requires((#[trigger] elements[i],))
}

/// The conversion may be called on each of the old junctions.
pub open spec fn takes_each<O, J, F: Fn(&O) -> Result<J, ()>>(try_into: F, old: Seq<O>) -> bool {
    forall|i: int| 0 <= i < old.len() ==> try_into.requires((&#[trigger] old[i],))
}

/// The conversion gives one result for each element.
pub open spec fn is_function<E, J, F: Fn(E) -> J>(into: F) -> bool {
    forall|e: E, x: J, y: J| into.ensures((e,), x) && into.ensures((e,), y) ==> x == y
}

/// The element at `i` can be converted, and no attempt on it fails.
pub open spec fn converts<O, J, F: Fn(&O) -> Result<J, ()>>(
    try_into: F,
    old: Seq<O>,
    i: int,
) -> bool {
    forall|r: Result<J, ()>| try_into.ensures((&old[i],), r) ==> r is Ok
}

/// No attempt to convert the element at `i` succeeds.
pub open spec fn fails<O, J, F: Fn(&O) -> Result<J, ()>>(
    try_into: F,
    old: Seq<O>,
    i: int,
) -> bool {
    forall|r: Result<J, ()>| try_into.ensures((&old[i],), r) ==> r is Err
}

/// Some attempt to convert the element at `i` succeeds.
pub open spec fn may_convert<O, J, F: Fn(&O) -> Result<J, ()>>(
    try_into: F,
    old: Seq<O>,
    i: int,
) -> bool {
    exists|junction: J| try_into.ensures((&old[i],), Ok::<J, ()>(junction))
}

/// Some attempt to convert the element at `i` fails.
pub open spec fn may_fail<O, J, F: Fn(&O) -> Result<J, ()>>(
    try_into: F,
    old: Seq<O>,
    i: int,
) -> bool {
    exists|r: Result<J, ()>| r is Err && try_into.ensures((&old[i],), r)
}

/// How a conversion from the previous version may end. It succeeds with a
/// path that holds a conversion of each old junction, in the old order. It
/// fails at the first junction whose conversion fails, after the junctions
/// before it were converted.
pub open spec fn migrated<O, J, F: Fn(&O) -> Result<J, ()>>(
    try_into: F,
    old: Seq<O>,
    result: Result<Junctions<J>, ()>,
) -> bool {
    match result {
        Ok(new) => {
            &&& new@.len() == old.len()
            &&& forall|i: int|
                0 <= i < old.len() ==> try_into.ensures((&old[i],), Ok(#[trigger] new@[i]))
        },
        Err(_) => exists|i: int|
            {
                &&& 0 <= i < old.len()
                &&& #[trigger] may_fail(try_into, old, i)
                &&& forall|j: int| 0 <= j < i ==> #[trigger] may_convert(try_into, old, j)
            },
    }
}

impl<J> Junctions<J> {
    /// The number that the variant carries in its name, 0 for `Here`.
    pub open spec fn tag(self) -> nat {
        match self {
            Junctions::Here => 0,
            Junctions::X1(_) => 1,
            Junctions::X2(_) => 2,
            Junctions::X3(_) => 3,
            Junctions::X4(_) => 4,
            Junctions::X5(_) => 5,
            Junctions::X6(_) => 6,
            Junctions::X7(_) => 7,
            Junctions::X8(_) => 8,
        }
    }

    /// The variant tells the length, and no path is longer than eight.
    pub proof fn lemma_tag_is_len(self)
        ensures
            self.tag() == self@.len(),
            self@.len() <= MAX_JUNCTIONS,
    {
    }

    /// Two paths of the same junctions are the same path.
    pub proof fn lemma_view_is_injective(self, other: Self)
        requires
            self@ == other@,
        ensures
            self == other,
    {
        self.lemma_tag_is_len();
        other.lemma_tag_is_len();
        match (self, other) {
            (Junctions::Here, Junctions::Here) => {},
            (Junctions::X1(a), Junctions::X1(b)) => {
                assert(*a =~= *b);
            },
            (Junctions::X2(a), Junctions::X2(b)) => {
                assert(*a =~= *b);
            },
            (Junctions::X3(a), Junctions::X3(b)) => {
                assert(*a =~= *b);
            },
            (Junctions::X4(a), Junctions::X4(b)) => {
                assert(*a =~= *b);
            },
            (Junctions::X5(a), Junctions::X5(b)) => {
                assert(*a =~= *b);
            },
            (Junctions::X6(a), Junctions::X6(b)) => {
                assert(*a =~= *b);
            },
            (Junctions::X7(a), Junctions::X7(b)) => {
                assert(*a =~= *b);
            },
            (Junctions::X8(a), Junctions::X8(b)) => {
                assert(*a =~= *b);
            },
            _ => {},
        }
    }

    /// How many junctions the path holds.
    pub fn len(&self) -> (n: usize)
        ensures
            n == self@.len(),
            n == self.tag(),
            n <= MAX_JUNCTIONS,
    {
        match self {
            Junctions::Here => 0,
            Junctions::X1(_) => 1,
            Junctions::X2(_) => 2,
            Junctions::X3(_) => 3,
            Junctions::X4(_) => 4,
            Junctions::X5(_) => 5,
            Junctions::X6(_) => 6,
            Junctions::X7(_) => 7,
            Junctions::X8(_) => 8,
        }
    }

    /// The junction at `i`.
    pub fn at(&self, i: usize) -> (junction: &J)
        requires
            i < self@.len(),
        ensures
            *junction == self@[i as int],
    {
        match self {
            Junctions::Here => vstd::pervasive::unreached(),
            Junctions::X1(a) => &a[i],
            Junctions::X2(a) => &a[i],
            Junctions::X3(a) => &a[i],
            Junctions::X4(a) => &a[i],
            Junctions::X5(a) => &a[i],
            Junctions::X6(a) => &a[i],
            Junctions::X7(a) => &a[i],
            Junctions::X8(a) => &a[i],
        }
    }

    /// The junction at `i`, or nothing behind the end of the path.
    pub fn get(&self, i: usize) -> (junction: Option<&J>)
        ensures
            match junction {
                Some(j) => i < self@.len() && *j == self@[i as int],
                None => i >= self@.len(),
            },
    {
        if i < self.len() {
            Some(self.at(i))
        } else {
            None
        }
    }

    /// The path of the given junctions, as `[j0, j1].into()` makes it: the
    /// variant for their number, and the junctions in the order given.
    pub fn from_array(elements: Vec<J>) -> (path: Self)
        requires
            elements.len() <= MAX_JUNCTIONS,
        ensures
            path@ == elements@,
            path.tag() == elements.len(),
    {
        let mut rest = elements;
        if rest.len() == 0 {
            return Junctions::Here;
        }
        let j0 = rest.remove(0);
        if rest.len() == 0 {
            let path = Junctions::X1(Arc::new([j0]));
            assert(path@ =~= elements@);
            return path;
        }
        let j1 = rest.remove(0);
        if rest.len() == 0 {
            let path = Junctions::X2(Arc::new([j0, j1]));
            assert(path@ =~= elements@);
            return path;
        }
        let j2 = rest.remove(0);
        if rest.len() == 0 {
            let path = Junctions::X3(Arc::new([j0, j1, j2]));
            assert(path@ =~= elements@);
            return path;
        }
        let j3 = rest.remove(0);
        if rest.len() == 0 {
            let path = Junctions::X4(Arc::new([j0, j1, j2, j3]));
            assert(path@ =~= elements@);
            return path;
        }
        let j4 = rest.remove(0);
        if rest.len() == 0 {
            let path = Junctions::X5(Arc::new([j0, j1, j2, j3, j4]));
            assert(path@ =~= elements@);
            return path;
        }
        let j5 = rest.remove(0);
        if rest.len() == 0 {
            let path = Junctions::X6(Arc::new([j0, j1, j2, j3, j4, j5]));
            assert(path@ =~= elements@);
            return path;
        }
        let j6 = rest.remove(0);
        if rest.len() == 0 {
            let path = Junctions::X7(Arc::new([j0, j1, j2, j3, j4, j5, j6]));
            assert(path@ =~= elements@);
            return path;
        }
        let j7 = rest.remove(0);
        let path = Junctions::X8(Arc::new([j0, j1, j2, j3, j4, j5, j6, j7]));
        assert(path@ =~= elements@);
        path
    }

    /// The path made of a tuple of one to eight values: each is converted,
    /// in order, and the results form the path. There is no conversion
    /// from the empty tuple.
    pub fn from_tuple<E, F: Fn(E) -> J>(elements: Vec<E>, into: F) -> (path: Self)
        requires
            0 < elements.len() <= MAX_JUNCTIONS,
            takes(into, elements@),
        ensures
            converted(into, elements@, path@),
            path.tag() == elements.len(),
    {
        Junctions::from_array(convert_each(elements, into))
    }

    /// The conversion from a path of the previous version. The junctions
    /// are converted one after the other, in order; the first failure ends
    /// the conversion, and nothing is left of the junctions converted so far.
    pub fn try_from_previous<O, F: Fn(&O) -> Result<J, ()>>(
        old: Junctions<O>,
        try_into: F,
    ) -> (result: Result<Self, ()>)
        requires
            takes_each(try_into, old@),
        ensures
            migrated(try_into, old@, result),
            result is Ok ==> result.unwrap().tag() == old.tag(),
            old is Here ==> result == Ok::<Self, ()>(Junctions::Here),
            (forall|i: int| 0 <= i < old@.len() ==> converts(try_into, old@, i)) ==> result is Ok,
            (exists|i: int| 0 <= i < old@.len() && fails(try_into, old@, i)) ==> result is Err,
    {
        let n = old.len();
        let mut new: Vec<J> = Vec::new();
        let mut i: usize = 0;
        while i < n
            invariant
                n == old@.len(),
                i <= n,
                new@.len() == i,
                takes_each(try_into, old@),
                forall|k: int|
                    0 <= k < i ==> try_into.ensures((&old@[k],), Ok::<J, ()>(#[trigger] new@[k])),
            decreases n - i,
        {
            let outcome = try_into(old.at(i));
            assert(try_into.ensures((&old@[i as int],), outcome));
            match outcome {
                Ok(junction) => {
                    new.push(junction);
                },
                Err(_) => {
                    assert(may_fail(try_into, old@, i as int));
                    assert forall|j: int| 0 <= j < i implies may_convert(try_into, old@, j) by {
                        assert(try_into.ensures((&old@[j],), Ok::<J, ()>(new@[j])));
                    }
                    assert(!converts(try_into, old@, i as int));
                    return Err(());
                },
            }
            i += 1;
        }
        let path = Junctions::from_array(new);
        proof {
            if old is Here {
                path.lemma_view_is_injective(Junctions::Here);
            }
            assert forall|i: int| 0 <= i < old@.len() implies !fails(try_into, old@, i) by {
                assert(try_into.ensures((&old@[i],), Ok::<J, ()>(new@[i])));
            }
        }
        Ok(path)
    }
}

/// Converts the elements in order.
fn convert_each<E, J, F: Fn(E) -> J>(elements: Vec<E>, into: F) -> (out: Vec<J>)
    requires
        takes(into, elements@),
    ensures
        converted(into, elements@, out@),
{
    let mut rest = elements;
    let mut out: Vec<J> = Vec::new();
    while rest.len() > 0
        invariant
            takes(into, elements@),
            out@.len() + rest@.len() == elements@.len(),
            rest@ == elements@.skip(out@.len() as int),
            forall|i: int|
                0 <= i < out@.len() ==> into.ensures((elements@[i],), #[trigger] out@[i]),
        decreases rest.len(),
    {
        let element = rest.remove(0);
        assert(element == elements@[out@.len() as int]);
        out.push(into(element));
    }
    out
}

impl<J> Location<J> {
    /// From a count of ancestors followed by up to eight values, as from
    /// `(Ancestor(2), x, y)`: the count gives the parents, and the values,
    /// each converted, the interior.
    pub fn from_ancestor_tuple<E, F: Fn(E) -> J>(
        ancestor: Ancestor,
        elements: Vec<E>,
        into: F,
    ) -> (location: Self)
        requires
            elements.len() <= MAX_JUNCTIONS,
            takes(into, elements@),
        ensures
            location.parents == ancestor.0,
            converted(into, elements@, location.interior@),
            location.interior.tag() == elements.len(),
    {
        Location {
            parents: ancestor.0,
            interior: Junctions::from_array(convert_each(elements, into)),
        }
    }

    /// From an array of up to eight junctions, as from `[x, y]`: no
    /// parents, and the junctions as they are given.
    pub fn from_array(elements: Vec<J>) -> (location: Self)
        requires
            elements.len() <= MAX_JUNCTIONS,
        ensures
            location.parents == 0,
            location.interior@ == elements@,
            location.interior.tag() == elements.len(),
    {
        Location { parents: 0, interior: Junctions::from_array(elements) }
    }

    /// From up to eight times `Parent` followed by up to eight values, as
    /// from `(Parent, Parent, x, y)`: as many parents as there are markers,
    /// and the values, each converted, as the interior.
    pub fn from_parent_tuple<E, F: Fn(E) -> J>(
        markers: Vec<Parent>,
        elements: Vec<E>,
        into: F,
    ) -> (location: Self)
        requires
            markers.len() <= MAX_JUNCTIONS,
            elements.len() <= MAX_JUNCTIONS,
            takes(into, elements@),
        ensures
            location.parents == markers.len(),
            converted(into, elements@, location.interior@),
            location.interior.tag() == elements.len(),
    {
        Location {
            parents: markers.len() as u8,
            interior: Junctions::from_array(convert_each(elements, into)),
        }
    }

    /// From a count of ancestors and an interior, as from `(Ancestor(2), interior)`.
    pub fn from_ancestor_interior(ancestor: Ancestor, interior: Junctions<J>) -> (location: Self)
        ensures
            location.parents == ancestor.0,
            location.interior == interior,
    {
        Location { parents: ancestor.0, interior }
    }

    /// From up to eight times `Parent` and an interior, as from
    /// `(Parent, Parent, interior)`.
    pub fn from_parent_interior(markers: Vec<Parent>, interior: Junctions<J>) -> (location: Self)
        requires
            markers.len() <= MAX_JUNCTIONS,
        ensures
            location.parents == markers.len(),
            location.interior == interior,
    {
        Location { parents: markers.len() as u8, interior }
    }

    /// From one junction: no parents, and the junction alone as the interior.
    pub fn from_junction(junction: J) -> (location: Self)
        ensures
            location.parents == 0,
            location.interior@ == seq![junction],
            location.interior.tag() == 1,
    {
        let location = Location { parents: 0, interior: Junctions::X1(Arc::new([junction])) };
        assert(location.interior@ =~= seq![junction]);
        location
    }

    /// A count of ancestors and as many markers mean the same: the location
    /// from `(Ancestor(n), e1, .., ek)` and the location from `n` times
    /// `Parent` followed by `e1, .., ek` are equal, where the conversion of
    /// an element gives one result.
    pub proof fn lemma_count_and_markers_agree<E, F: Fn(E) -> J>(
        by_count: Self,
        by_markers: Self,
        ancestor: Ancestor,
        markers: Seq<Parent>,
        elements: Seq<E>,
        into: F,
    )
        requires
            markers.len() == ancestor.0,
            is_function(into),
            by_count.parents == ancestor.0,
            converted(into, elements, by_count.interior@),
            by_markers.parents == markers.len(),
            converted(into, elements, by_markers.interior@),
        ensures
            by_count == by_markers,
    {
        assert(by_count.interior@ =~= by_markers.interior@);
        by_count.interior.lemma_view_is_injective(by_markers.interior);
    }
}

} // verus!
