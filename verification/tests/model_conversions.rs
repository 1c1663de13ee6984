use std::cell::Cell;
use std::sync::Arc;
use xcm_procedural::model::{Ancestor, Junctions, Location, Parent};

/// A junction of the current version.
#[derive(Clone, Debug, PartialEq, Eq)]
enum Junction {
    Parachain(u32),
    PalletInstance(u8),
    GeneralIndex(u128),
}

/// A junction of the previous version, which has one kind more.
#[derive(Clone, Debug, PartialEq, Eq)]
enum OldJunction {
    Parachain(u32),
    PalletInstance(u8),
    GeneralIndex(u128),
    Retired,
}

fn upgrade(old: &OldJunction) -> Result<Junction, ()> {
    match old.clone() {
        OldJunction::Parachain(id) => Ok(Junction::Parachain(id)),
        OldJunction::PalletInstance(index) => Ok(Junction::PalletInstance(index)),
        OldJunction::GeneralIndex(index) => Ok(Junction::GeneralIndex(index)),
        OldJunction::Retired => Err(()),
    }
}

/// What a tuple may hold beside junctions: values that convert into one.
#[derive(Clone, Debug, PartialEq, Eq)]
enum Element {
    Index(u64),
    Ready(Junction),
}

fn into_junction(element: Element) -> Junction {
    match element {
        Element::Index(index) => Junction::GeneralIndex(index.into()),
        Element::Ready(junction) => junction,
    }
}

fn indices(k: usize) -> Vec<Junction> {
    (0..k).map(|i| Junction::GeneralIndex(10 + i as u128)).collect()
}

fn old_indices(k: usize) -> Vec<OldJunction> {
    (0..k).map(|i| OldJunction::GeneralIndex(10 + i as u128)).collect()
}

fn elements(k: usize) -> Vec<Element> {
    (0..k).map(|i| Element::Index(10 + i as u64)).collect()
}

fn collected<J: Clone>(path: &Junctions<J>) -> Vec<J> {
    (0..path.len()).map(|i| path.get(i).expect("inside the path").clone()).collect()
}

fn tag<J>(path: &Junctions<J>) -> usize {
    match path {
        Junctions::Here => 0,
        Junctions::X1(_) => 1,
        Junctions::X2(_) => 2,
        Junctions::X3(_) => 3,
        Junctions::X4(_) => 4,
        Junctions::X5(_) => 5,
        Junctions::X6(_) => 6,
        Junctions::X7(_) => 7,
        Junctions::X8(_) => 8,
    }
}

#[test]
fn array_of_two_junctions_has_no_parents() {
    let a = Junction::PalletInstance(50);
    let b = Junction::GeneralIndex(1984);
    let location = Location::from_array(vec![a.clone(), b.clone()]);
    assert_eq!(location, Location { parents: 0, interior: Junctions::X2(Arc::new([a, b])) });
}

#[test]
fn three_ancestors_and_one_value() {
    let x = Element::Index(1000);
    let location = Location::from_ancestor_tuple(Ancestor(3), vec![x.clone()], into_junction);
    assert_eq!(
        location,
        Location { parents: 3, interior: Junctions::X1(Arc::new([into_junction(x)])) }
    );
    assert_eq!(location.interior, Junctions::X1(Arc::new([Junction::GeneralIndex(1000)])));
}

#[test]
fn migration_of_three_junctions_keeps_their_order() {
    let old = Junctions::X3(Arc::new([
        OldJunction::Parachain(2000),
        OldJunction::PalletInstance(7),
        OldJunction::GeneralIndex(3),
    ]));
    let new = Junctions::try_from_previous(old, upgrade);
    assert_eq!(
        new,
        Ok(Junctions::X3(Arc::new([
            Junction::Parachain(2000),
            Junction::PalletInstance(7),
            Junction::GeneralIndex(3),
        ])))
    );
}

#[test]
fn migration_of_one_junction_that_fails_gives_no_path() {
    let old = Junctions::X1(Arc::new([OldJunction::Retired]));
    let new: Result<Junctions<Junction>, ()> = Junctions::try_from_previous(old, upgrade);
    assert_eq!(new, Err(()));
}

#[test]
fn array_of_each_length_keeps_order_and_has_no_parents() {
    for k in 0..=8 {
        let location = Location::from_array(indices(k));
        assert_eq!(location.parents, 0);
        assert_eq!(tag(&location.interior), k);
        assert_eq!(location.interior.len(), k);
        assert_eq!(collected(&location.interior), indices(k));
    }
}

#[test]
fn empty_array_is_here() {
    let location: Location<Junction> = Location::from_array(Vec::new());
    assert_eq!(location, Location { parents: 0, interior: Junctions::Here });
}

#[test]
fn array_of_eight_fills_the_last_variant() {
    let j = indices(8);
    let expected = Junctions::X8(Arc::new([
        j[0].clone(),
        j[1].clone(),
        j[2].clone(),
        j[3].clone(),
        j[4].clone(),
        j[5].clone(),
        j[6].clone(),
        j[7].clone(),
    ]));
    assert_eq!(Junctions::from_array(j), expected);
}

#[test]
fn parents_and_junctions_of_each_number() {
    for p in 0..=8usize {
        for k in 0..=8usize {
            let location = Location::from_parent_tuple(vec![Parent; p], elements(k), into_junction);
            assert_eq!(location.parents as usize, p);
            assert_eq!(tag(&location.interior), k);
            assert_eq!(collected(&location.interior), indices(k));
        }
    }
}

#[test]
fn count_of_ancestors_equals_as_many_markers() {
    for n in 0..=8u8 {
        for k in 0..=8usize {
            let by_count = Location::from_ancestor_tuple(Ancestor(n), elements(k), into_junction);
            let by_markers =
                Location::from_parent_tuple(vec![Parent; n as usize], elements(k), into_junction);
            assert_eq!(by_count, by_markers);
        }
    }
}

#[test]
fn ancestor_count_is_taken_as_it_is() {
    let location = Location::from_ancestor_tuple(Ancestor(255), elements(2), into_junction);
    assert_eq!(location.parents, 255);
    assert_eq!(collected(&location.interior), indices(2));
    let location: Location<Junction> =
        Location::from_ancestor_tuple(Ancestor(0), Vec::<Element>::new(), into_junction);
    assert_eq!(location, Location { parents: 0, interior: Junctions::Here });
}

#[test]
fn each_element_has_its_own_conversion() {
    let mixed = vec![
        Element::Ready(Junction::Parachain(1000)),
        Element::Index(5),
        Element::Ready(Junction::PalletInstance(9)),
    ];
    let location = Location::from_parent_tuple(vec![Parent], mixed, into_junction);
    assert_eq!(
        location,
        Location {
            parents: 1,
            interior: Junctions::X3(Arc::new([
                Junction::Parachain(1000),
                Junction::GeneralIndex(5),
                Junction::PalletInstance(9),
            ])),
        }
    );
}

#[test]
fn elements_are_converted_in_order() {
    let seen = Cell::new(0u64);
    let path = Junctions::from_tuple(vec![1u64, 2, 3, 4], |value: u64| {
        assert_eq!(value, seen.get() + 1);
        seen.set(value);
        value * 10
    });
    assert_eq!(path, Junctions::X4(Arc::new([10, 20, 30, 40])));
    assert_eq!(seen.get(), 4);
}

#[test]
fn tuple_of_each_length_from_one() {
    for k in 1..=8 {
        let path = Junctions::from_tuple(elements(k), into_junction);
        assert_eq!(tag(&path), k);
        assert_eq!(collected(&path), indices(k));
    }
}

#[test]
fn interior_is_handed_on() {
    let interior = Junctions::from_array(indices(3));
    assert_eq!(
        Location::from_ancestor_interior(Ancestor(4), interior.clone()),
        Location { parents: 4, interior: interior.clone() }
    );
    for p in 0..=8usize {
        assert_eq!(
            Location::from_parent_interior(vec![Parent; p], interior.clone()),
            Location { parents: p as u8, interior: interior.clone() }
        );
    }
}

#[test]
fn one_junction_alone() {
    let x = Junction::Parachain(1);
    assert_eq!(
        Location::from_junction(x.clone()),
        Location { parents: 0, interior: Junctions::X1(Arc::new([x.clone()])) }
    );
    assert_eq!(Location::from_junction(x.clone()), Location::from_array(vec![x]));
}

#[test]
fn get_and_at_read_the_path() {
    let path = Junctions::from_array(indices(5));
    assert_eq!(path.len(), 5);
    for i in 0..5 {
        assert_eq!(path.get(i), Some(&indices(5)[i]));
        assert_eq!(path.at(i), &indices(5)[i]);
    }
    assert_eq!(path.get(5), None);
    assert_eq!(path.get(usize::MAX), None);
    let here: Junctions<Junction> = Junctions::Here;
    assert_eq!(here.len(), 0);
    assert_eq!(here.get(0), None);
}

#[test]
fn migration_of_each_length_keeps_length_and_order() {
    for n in 1..=8 {
        let old = Junctions::from_array(old_indices(n));
        let new = Junctions::try_from_previous(old, upgrade).expect("every junction converts");
        assert_eq!(tag(&new), n);
        assert_eq!(collected(&new), indices(n));
    }
}

#[test]
fn migration_of_here_is_here() {
    let calls = Cell::new(0);
    let new: Result<Junctions<Junction>, ()> =
        Junctions::try_from_previous(Junctions::<OldJunction>::Here, |_old: &OldJunction| {
            calls.set(calls.get() + 1);
            Err(())
        });
    assert_eq!(new, Ok(Junctions::Here));
    assert_eq!(calls.get(), 0);
}

#[test]
fn migration_fails_wherever_one_junction_fails() {
    for n in 1..=8usize {
        for bad in 0..n {
            let mut junctions = old_indices(n);
            junctions[bad] = OldJunction::Retired;
            let new: Result<Junctions<Junction>, ()> =
                Junctions::try_from_previous(Junctions::from_array(junctions), upgrade);
            assert_eq!(new, Err(()), "{n} junctions, the one at {bad} fails");
        }
    }
}

#[test]
fn migration_stops_at_the_first_failure() {
    let mut junctions = old_indices(6);
    junctions[2] = OldJunction::Retired;
    junctions[4] = OldJunction::Retired;
    let calls = Cell::new(0);
    let new: Result<Junctions<Junction>, ()> =
        Junctions::try_from_previous(Junctions::from_array(junctions), |old: &OldJunction| {
            calls.set(calls.get() + 1);
            upgrade(old)
        });
    assert_eq!(new, Err(()));
    assert_eq!(calls.get(), 3);
}

#[test]
fn migration_leaves_the_old_path_to_its_other_owners() {
    let old = Junctions::from_array(old_indices(2));
    let kept = old.clone();
    let new = Junctions::try_from_previous(old, upgrade);
    assert_eq!(new, Ok(Junctions::from_array(indices(2))));
    assert_eq!(collected(&kept), old_indices(2));
}
