use life_field::cell::{Color, State};

#[test]
fn dead_cells_are_black() {
    assert_eq!(State::S0.to_color(), Color { r: 0, g: 0, b: 0 });
}

#[test]
fn live_cells_are_green() {
    assert_eq!(State::S1.to_color(), Color { r: 2, g: 10, b: 2 });
}

#[test]
fn boundary_cells_are_red() {
    assert_eq!(State::S2.to_color(), Color { r: 10, g: 2, b: 2 });
}

#[test]
fn colours_stay_within_full_brightness() {
    for state in [State::S0, State::S1, State::S2] {
        let c = state.to_color();
        assert!(c.r <= Color::FULL);
        assert!(c.g <= Color::FULL);
        assert!(c.b <= Color::FULL);
    }
}

#[test]
fn colours_in_tenths_give_the_displayed_intensities() {
    let c = State::S1.to_color();
    let full = f32::from(Color::FULL);
    assert_eq!(f32::from(c.r) / full, 0.2);
    assert_eq!(f32::from(c.g) / full, 1.0);
    assert_eq!(f32::from(c.b) / full, 0.2);
    let c = State::S2.to_color();
    assert_eq!(f32::from(c.r) / full, 1.0);
    assert_eq!(f32::from(c.g) / full, 0.2);
    assert_eq!(f32::from(c.b) / full, 0.2);
    let c = State::S0.to_color();
    assert_eq!(f32::from(c.r) / full, 0.0);
}

#[test]
fn each_state_has_its_own_colour() {
    assert_ne!(State::S0.to_color(), State::S1.to_color());
    assert_ne!(State::S0.to_color(), State::S2.to_color());
    assert_ne!(State::S1.to_color(), State::S2.to_color());
}

#[test]
fn to_color_is_repeatable() {
    let s = State::S1;
    assert_eq!(s.to_color(), s.to_color());
    assert_eq!(s, State::S1);
}

#[test]
fn states_compare_by_variant() {
    assert_eq!(State::S0, State::S0);
    assert_ne!(State::S0, State::S1);
    assert_ne!(State::S1, State::S2);
    let copy = State::S2;
    let other = copy;
    assert_eq!(copy, other);
}
