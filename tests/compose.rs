use geometry2d::compose::{composition_steps, Step};

#[test]
fn all_parts_in_order() {
    assert_eq!(
        composition_steps(true, true, true),
        vec![Step::Translate, Step::Rotate, Step::Scale]
    );
}

#[test]
fn identity_parameters_give_no_steps() {
    assert!(composition_steps(false, false, false).is_empty());
}

#[test]
fn skipped_rotation_keeps_order() {
    assert_eq!(composition_steps(true, false, true), vec![Step::Translate, Step::Scale]);
}

#[test]
fn single_parts() {
    assert_eq!(composition_steps(false, true, false), vec![Step::Rotate]);
    assert_eq!(composition_steps(false, false, true), vec![Step::Scale]);
    assert_eq!(composition_steps(true, false, false), vec![Step::Translate]);
}
