use pencilwm::params::{
    LayoutParams, Ratio, MAX_RATIO_PERCENT, MIN_RATIO_PERCENT, RATIO_STEP_PERCENT,
};

fn ratio(percent: u32) -> Ratio {
    Ratio::from_percent(percent).unwrap()
}

#[test]
fn ratio_is_a_proper_fraction() {
    assert_eq!(Ratio::from_percent(0), None);
    assert_eq!(Ratio::from_percent(100), None);
    assert_eq!(Ratio::from_percent(250), None);
    assert_eq!(Ratio::from_percent(1), Some(Ratio { percent: 1 }));
    assert_eq!(Ratio::from_percent(99), Some(Ratio { percent: 99 }));
    assert!(ratio(60).is_wf());
    assert!(!Ratio { percent: 0 }.is_wf());
    assert!(!Ratio { percent: 100 }.is_wf());
}

#[test]
fn ratio_from_a_fraction() {
    let fraction: f32 = 0.6;
    let percent = (fraction * 100.0).round() as u32;
    assert_eq!(Ratio::from_percent(percent), Some(Ratio { percent: 60 }));
}

#[test]
fn ratio_of_an_extent_rounds_down() {
    assert_eq!(ratio(60).of(100), 60);
    assert_eq!(ratio(60).of(101), 60);
    assert_eq!(ratio(60).of(102), 61);
    assert_eq!(ratio(50).of(1), 0);
    assert_eq!(ratio(99).of(0), 0);
    assert_eq!(ratio(1).of(99), 0);
    assert_eq!(ratio(99).of(u32::MAX), 4252017622);
}

#[test]
fn expanding_steps_up_to_the_bound() {
    assert_eq!(RATIO_STEP_PERCENT, 10);
    assert_eq!(MAX_RATIO_PERCENT, 95);
    assert_eq!(ratio(60).expanded(), ratio(70));
    assert_eq!(ratio(85).expanded(), ratio(95));
    assert_eq!(ratio(90).expanded(), ratio(95));
    assert_eq!(ratio(95).expanded(), ratio(95));
    assert_eq!(ratio(99).expanded(), ratio(95));
    assert_eq!(ratio(1).expanded(), ratio(11));
}

#[test]
fn reducing_steps_down_to_the_bound() {
    assert_eq!(MIN_RATIO_PERCENT, 5);
    assert_eq!(ratio(60).reduced(), ratio(50));
    assert_eq!(ratio(15).reduced(), ratio(5));
    assert_eq!(ratio(10).reduced(), ratio(5));
    assert_eq!(ratio(5).reduced(), ratio(5));
    assert_eq!(ratio(1).reduced(), ratio(5));
    assert_eq!(ratio(99).reduced(), ratio(89));
}

#[test]
fn adjusting_an_invalid_ratio_makes_it_valid() {
    assert_eq!(Ratio { percent: u32::MAX }.expanded(), ratio(95));
    assert_eq!(Ratio { percent: u32::MAX }.reduced(), ratio(95));
    assert_eq!(Ratio { percent: 0 }.reduced(), ratio(5));
    assert_eq!(Ratio { percent: 0 }.expanded(), ratio(10));
}

#[test]
fn inc_main_by_minus_five_stops_at_zero() {
    let params = LayoutParams::new(1, ratio(60));
    assert_eq!(params.inc_main(-5), LayoutParams::new(0, ratio(60)));
}

#[test]
fn inc_main_adds_and_subtracts() {
    let params = LayoutParams::new(3, ratio(60));
    assert_eq!(params.inc_main(1).max_main, 4);
    assert_eq!(params.inc_main(-1).max_main, 2);
    assert_eq!(params.inc_main(0).max_main, 3);
    assert_eq!(params.inc_main(-3).max_main, 0);
    assert_eq!(params.inc_main(i32::MIN).max_main, 0);
    assert_eq!(params.inc_main(i32::MAX).max_main, 2147483650);
}

#[test]
fn inc_main_stays_within_the_counts() {
    let params = LayoutParams::new(u32::MAX - 1, ratio(60));
    assert_eq!(params.inc_main(1).max_main, u32::MAX);
    assert_eq!(params.inc_main(2).max_main, u32::MAX);
    assert_eq!(params.inc_main(i32::MAX).max_main, u32::MAX);
}

#[test]
fn ratio_messages_leave_max_main_alone() {
    let params = LayoutParams::new(3, ratio(60));
    assert_eq!(params.expand_ratio(), LayoutParams::new(3, ratio(70)));
    assert_eq!(params.shrink_ratio(), LayoutParams::new(3, ratio(50)));
    assert!(params.is_wf());
    assert!(!LayoutParams::new(3, Ratio { percent: 100 }).is_wf());
}
