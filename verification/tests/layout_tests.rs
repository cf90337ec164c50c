use tui_core::layout::{allocate_space, SizeConstraint};

#[test]
fn stack_example_three_children() {
    // available = 21, children = [fixed(3), unconstrained, unconstrained]
    let constraints = vec![SizeConstraint::fixed(3), SizeConstraint::new(), SizeConstraint::new()];
    let sizes = allocate_space(&constraints, 21);
    assert_eq!(sizes, vec![3, 9, 9]);
}

#[test]
fn odd_unit_goes_to_the_first_unconstrained_child() {
    let constraints = vec![SizeConstraint::fixed(3), SizeConstraint::new(), SizeConstraint::new()];
    let sizes = allocate_space(&constraints, 22);
    assert_eq!(sizes[0], 3);
    assert_eq!(sizes[1], 10);
    assert_eq!(sizes[2], 9);
    assert_eq!(sizes.iter().map(|&s| s as u32).sum::<u32>(), 22);
}

#[test]
fn minimums_pin_when_the_extent_is_too_small() {
    let constraints = vec![
        SizeConstraint::new().with_min(4),
        SizeConstraint::new().with_min(5),
        SizeConstraint::new(),
    ];
    // 4 + 5 + 1 = 10 > 8: everything pinned at its minimum.
    let sizes = allocate_space(&constraints, 8);
    assert_eq!(sizes, vec![4, 5, 1]);
}

#[test]
fn capped_children_stop_at_their_maximum() {
    let constraints = vec![SizeConstraint::new().with_max(4), SizeConstraint::new()];
    let sizes = allocate_space(&constraints, 20);
    assert_eq!(sizes[0], 4);
    assert_eq!(sizes[1], 16);
}

#[test]
fn no_children_yields_no_sizes() {
    let constraints: Vec<SizeConstraint> = vec![];
    let sizes = allocate_space(&constraints, 10);
    assert!(sizes.is_empty());
}

#[test]
fn default_minimum_is_one() {
    let constraints = vec![SizeConstraint::new(); 5];
    let sizes = allocate_space(&constraints, 5);
    assert_eq!(sizes, vec![1, 1, 1, 1, 1]);
}

#[test]
fn conservation_with_an_unconstrained_child() {
    let constraints = vec![
        SizeConstraint::new().with_min(2).with_max(6),
        SizeConstraint::new(),
        SizeConstraint::fixed(5),
    ];
    let sizes = allocate_space(&constraints, 30);
    assert_eq!(sizes.iter().map(|&s| s as u32).sum::<u32>(), 30);
    assert!(sizes[0] >= 2 && sizes[0] <= 6);
    assert_eq!(sizes[2], 5);
}

#[test]
fn zero_extent_pins_everything_at_minimum() {
    let constraints = vec![SizeConstraint::new(), SizeConstraint::new().with_min(2)];
    let sizes = allocate_space(&constraints, 0);
    assert_eq!(sizes, vec![1, 2]);
}
