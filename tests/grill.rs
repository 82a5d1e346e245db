use barbecue_burner::grill::{AlarmDecision, Grill, DEFAULT_CAPACITY, MAX_TEMPERATURE};

#[test]
fn ready_only_after_capacity_records() {
    let mut grill = Grill::new();
    assert_eq!(grill.capacity(), DEFAULT_CAPACITY);
    for i in 0..DEFAULT_CAPACITY {
        assert!(!grill.is_ready());
        grill.record(i as i32);
    }
    for _ in 0..25 {
        assert!(grill.is_ready());
        grill.record(0);
    }
    assert!(grill.is_ready());
}

#[test]
fn average_of_exactly_capacity_values() {
    let mut grill = Grill::new();
    for t in [2000, 2100, 2200, 2300, 2400, 2500, 2600, 2700, 2800, 2900] {
        grill.record(t);
    }
    assert_eq!(grill.average_temperature(), 2450);
}

#[test]
fn average_covers_only_most_recent_values() {
    let mut grill = Grill::with_capacity(3);
    for t in [100, 200, 300, 400, 500] {
        grill.record(t);
    }
    assert_eq!(grill.average_temperature(), 400);
}

#[test]
fn average_rounds_down() {
    let mut grill = Grill::with_capacity(2);
    grill.record(10);
    grill.record(21);
    assert_eq!(grill.average_temperature(), 15);
    grill.record(-2);
    assert_eq!(grill.average_temperature(), 9);
    grill.record(-1);
    assert_eq!(grill.average_temperature(), -2);
}

#[test]
fn average_of_extreme_values_fits() {
    let mut grill = Grill::with_capacity(4);
    for _ in 0..4 {
        grill.record(i32::MAX);
    }
    assert_eq!(grill.average_temperature(), i32::MAX);
    for _ in 0..4 {
        grill.record(i32::MIN);
    }
    assert_eq!(grill.average_temperature(), i32::MIN);
}

#[test]
fn alarm_needs_complete_history() {
    let mut grill = Grill::new();
    for _ in 0..9 {
        grill.record(9000);
        assert_eq!(grill.should_alarm(false), AlarmDecision::NoTrigger);
    }
    grill.record(9000);
    assert_eq!(grill.should_alarm(false), AlarmDecision::Trigger);
}

#[test]
fn alarm_gating() {
    let mut grill = Grill::with_capacity(4);
    for _ in 0..4 {
        grill.record(MAX_TEMPERATURE + 300);
    }
    assert!(grill.grill_too_hot());
    assert_eq!(grill.should_alarm(false), AlarmDecision::Trigger);
    assert_eq!(grill.should_alarm(true), AlarmDecision::NoTrigger);
    for _ in 0..4 {
        grill.record(MAX_TEMPERATURE - 1);
    }
    assert_eq!(grill.average_temperature(), MAX_TEMPERATURE - 1);
    assert!(!grill.grill_too_hot());
    assert_eq!(grill.should_alarm(false), AlarmDecision::NoTrigger);
}

#[test]
fn sixty_degrees_over_ten_samples() {
    let mut grill = Grill::new();
    for _ in 0..10 {
        grill.record(6000);
    }
    assert_eq!(grill.should_alarm(false), AlarmDecision::Trigger);
    assert_eq!(grill.should_alarm(true), AlarmDecision::NoTrigger);

    let mut grill = Grill::new();
    for _ in 0..10 {
        grill.record(5990);
    }
    assert_eq!(grill.should_alarm(false), AlarmDecision::NoTrigger);
    assert_eq!(grill.should_alarm(true), AlarmDecision::NoTrigger);
}
