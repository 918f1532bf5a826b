use lwd_mixnet_proxy::health::{Health, State};

#[test]
fn a_half_starts_out_starting() {
    assert_eq!(Health::starting().state(), State::Starting);
}

#[test]
fn only_a_serving_half_is_ready() {
    let mut health = Health::starting();
    health.advance_to(State::Registered);
    assert!(!health.state().is_ready());
}

#[test]
fn advancing_reaches_the_state_asked_for() {
    let mut health = Health::starting();
    health.advance_to(State::Serving);
    assert_eq!(health.state(), State::Serving);
}

#[test]
fn a_late_earlier_state_does_not_walk_a_serving_half_backwards() {
    let mut health = Health::starting();
    health.advance_to(State::Serving);
    health.advance_to(State::Registered);
    assert_eq!(health.state(), State::Serving);
}

#[test]
fn the_body_names_the_state() {
    let mut health = Health::starting();
    health.advance_to(State::Registered);
    assert_eq!(health.as_json(), "{\"state\":\"registered\"}\n");
}

#[test]
fn each_state_has_its_name() {
    assert_eq!(State::Starting.as_str(), "starting");
    assert_eq!(State::Registered.as_str(), "registered");
    assert_eq!(State::Serving.as_str(), "serving");
}

#[test]
fn only_serving_is_ready() {
    assert!(!State::Starting.is_ready());
    assert!(!State::Registered.is_ready());
    assert!(State::Serving.is_ready());
}

#[test]
fn codes_read_back_as_their_states() {
    for state in [State::Starting, State::Registered, State::Serving] {
        assert_eq!(State::from_code(state.code()), state);
    }
    assert_eq!(State::from_code(7), State::Starting);
}

#[test]
fn reports_in_either_order_end_in_the_same_state() {
    let mut one = Health::starting();
    one.advance_to(State::Registered);
    one.advance_to(State::Serving);
    let mut other = Health::starting();
    other.advance_to(State::Serving);
    other.advance_to(State::Registered);
    assert_eq!(one.state(), other.state());
    assert_eq!(one.state(), State::Serving);
}

#[test]
fn a_default_half_is_starting_and_not_ready() {
    let health = Health::default();
    assert_eq!(health.state(), State::Starting);
    assert_eq!(health.as_json(), "{\"state\":\"starting\"}\n");
}
