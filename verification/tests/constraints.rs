use placement::geom::{Length, Size, Spec};
use placement::regions::{Constrained, Constraints, Region, Regions};

fn size(x: i64, y: i64) -> Size {
    Size::new(Length::new(x), Length::new(y))
}

fn some(units: i64) -> Option<Length> {
    Some(Length::new(units))
}

#[test]
fn new_constraints_record_no_length() {
    let cts = Constraints::new(Spec::new(true, false));
    assert_eq!(cts.expand, Spec::new(true, false));
    assert_eq!(cts.base, Spec::new(None, None));
    assert_eq!(cts.exact, Spec::new(None, None));
}

#[test]
fn free_constraints_admit_any_sizes() {
    let cts = Constraints::new(Spec::new(false, false));
    assert!(cts.check(&Regions::one(size(1, 2), size(3, 4), Spec::new(false, false))));
    assert!(cts.check(&Regions::one(size(9, 9), size(0, 0), Spec::new(false, false))));
}

#[test]
fn a_change_of_expansion_is_not_admitted() {
    let cts = Constraints::new(Spec::new(false, false));
    assert!(!cts.check(&Regions::one(size(1, 2), size(3, 4), Spec::new(true, false))));
    assert!(!cts.check(&Regions::one(size(1, 2), size(3, 4), Spec::new(false, true))));
}

#[test]
fn recorded_lengths_must_be_unchanged() {
    let cts = Constraints {
        expand: Spec::new(true, false),
        base: Spec::new(some(100), some(200)),
        exact: Spec::new(some(60), None),
    };
    let expand = Spec::new(true, false);
    assert!(cts.check(&Regions::one(size(60, 80), size(100, 200), expand)));
    assert!(cts.check(&Regions::one(size(60, 5), size(100, 200), expand)));
    assert!(!cts.check(&Regions::one(size(61, 80), size(100, 200), expand)));
    assert!(!cts.check(&Regions::one(size(60, 80), size(101, 200), expand)));
    assert!(!cts.check(&Regions::one(size(60, 80), size(100, 199), expand)));
}

#[test]
fn only_the_first_region_is_checked() {
    let cts = Constraints {
        expand: Spec::new(false, false),
        base: Spec::new(some(100), some(200)),
        exact: Spec::new(None, some(80)),
    };
    let first = Region::new(size(60, 80), size(100, 200), Spec::new(false, false));
    let other = Region::new(size(1, 1), size(1, 1), Spec::new(true, true));
    assert!(cts.check(&Regions::new(first, vec![other])));
    assert!(!cts.check(&Regions::new(other, vec![first])));
}

#[test]
fn regions_keep_what_they_are_made_of() {
    let one = Regions::one(size(60, 80), size(100, 200), Spec::new(true, false));
    assert_eq!(one.first.current, size(60, 80));
    assert_eq!(one.first.base, size(100, 200));
    assert_eq!(one.first.expand, Spec::new(true, false));
    assert!(one.rest.is_empty());

    let first = Region::new(size(1, 2), size(3, 4), Spec::new(false, true));
    let regions = Regions::new(first, vec![one.first]);
    assert_eq!(regions.first, first);
    assert_eq!(regions.rest, vec![one.first]);
}

#[test]
fn constrained_pairs_an_item_with_constraints() {
    let pair = Constrained { item: 5u8, cts: Constraints::new(Spec::new(true, true)) };
    assert_eq!(pair.item, 5);
    assert_eq!(pair.cts, Constraints::new(Spec::new(true, true)));
}
