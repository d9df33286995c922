use nbody::quantity::{Quantity, QUANTITIES};

fn in_order() -> Vec<Quantity> {
    vec![
        Quantity::PositionX,
        Quantity::PositionY,
        Quantity::PositionZ,
        Quantity::VelocityX,
        Quantity::VelocityY,
        Quantity::VelocityZ,
        Quantity::Mass,
    ]
}

#[test]
fn seven_quantities_in_drawing_order() {
    let all: Vec<Quantity> = in_order();
    assert_eq!(all.len(), QUANTITIES);
    for (place, quantity) in all.iter().enumerate() {
        assert_eq!(quantity.ordinal(), place);
    }
}

#[test]
fn successor_walks_the_order() {
    let all: Vec<Quantity> = in_order();
    let mut walked: Vec<Quantity> = vec![Quantity::PositionX];
    let mut current: Quantity = Quantity::PositionX;
    while let Some(next) = current.successor() {
        walked.push(next);
        current = next;
    }
    assert_eq!(walked, all);
    assert_eq!(Quantity::Mass.successor(), None);
}

#[test]
fn positions_are_drawn_from_minus_hundred_to_hundred() {
    for quantity in [Quantity::PositionX, Quantity::PositionY, Quantity::PositionZ] {
        assert_eq!(quantity.lower(), -100);
        assert_eq!(quantity.upper(), 100);
    }
}

#[test]
fn velocities_are_drawn_from_minus_one_to_one() {
    for quantity in [Quantity::VelocityX, Quantity::VelocityY, Quantity::VelocityZ] {
        assert_eq!(quantity.lower(), -1);
        assert_eq!(quantity.upper(), 1);
    }
}

#[test]
fn mass_is_drawn_from_one_to_ten() {
    assert_eq!(Quantity::Mass.lower(), 1);
    assert_eq!(Quantity::Mass.upper(), 10);
}

#[test]
fn no_interval_is_empty() {
    for quantity in in_order() {
        assert!(quantity.lower() < quantity.upper());
    }
}
