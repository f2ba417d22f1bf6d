use pencilwm::config::{
    decorated, default_layouts, default_params, BAR_HEIGHT, GAP_PX, N_MAIN, RATIO_PERCENT,
};
use pencilwm::geometry::{Edge, Region};
use pencilwm::layout::{HideStrategy, Layout, WindowId};
use pencilwm::layout_set::{LayoutSet, Message};
use pencilwm::params::{LayoutParams, Ratio};

fn params(max_main: u32, percent: u32) -> LayoutParams {
    LayoutParams::new(max_main, Ratio::from_percent(percent).unwrap())
}

fn three_layouts() -> LayoutSet {
    let mut set = LayoutSet::new(Layout::MainAndStackSide, params(1, 60));
    set.push(Layout::MainAndStackBottom, params(2, 50));
    set.push(Layout::monocle(), params(3, 40));
    set
}

#[test]
fn new_set_uses_its_only_layout() {
    let set = LayoutSet::new(Layout::MainAndStackBottom, params(1, 60));
    assert_eq!(set.len(), 1);
    assert_eq!(set.current_index(), 0);
    assert_eq!(*set.current_layout(), Layout::MainAndStackBottom);
    assert_eq!(set.current_params(), params(1, 60));
}

#[test]
fn push_keeps_the_layout_in_use() {
    let set = three_layouts();
    assert_eq!(set.len(), 3);
    assert_eq!(set.current_index(), 0);
    assert_eq!(*set.current_layout(), Layout::MainAndStackSide);
    assert_eq!(set.params_at(0), Some(params(1, 60)));
    assert_eq!(set.params_at(1), Some(params(2, 50)));
    assert_eq!(set.params_at(2), Some(params(3, 40)));
    assert_eq!(set.params_at(3), None);
    assert_eq!(set.layout_at(1), Some(&Layout::MainAndStackBottom));
    assert_eq!(set.layout_at(2), Some(&Layout::monocle()));
    assert_eq!(set.layout_at(3), None);
}

#[test]
fn cycle_forward_wraps_from_the_last_to_the_first() {
    let mut set = three_layouts();
    set.handle_message(Message::CycleForward);
    assert_eq!(set.current_index(), 1);
    set.handle_message(Message::CycleForward);
    assert_eq!(set.current_index(), 2);
    assert_eq!(*set.current_layout(), Layout::monocle());
    set.handle_message(Message::CycleForward);
    assert_eq!(set.current_index(), 0);
    assert_eq!(*set.current_layout(), Layout::MainAndStackSide);
}

#[test]
fn cycle_backward_wraps_from_the_first_to_the_last() {
    let mut set = three_layouts();
    set.handle_message(Message::CycleBackward);
    assert_eq!(set.current_index(), 2);
    set.cycle_backward();
    assert_eq!(set.current_index(), 1);
    set.cycle_backward();
    assert_eq!(set.current_index(), 0);
}

#[test]
fn cycling_a_set_of_one_stays_put() {
    let mut set = LayoutSet::new(Layout::monocle(), params(1, 60));
    set.cycle_forward();
    assert_eq!(set.current_index(), 0);
    set.cycle_backward();
    assert_eq!(set.current_index(), 0);
}

#[test]
fn cycling_changes_no_parameters() {
    let mut set = three_layouts();
    set.cycle_forward();
    set.cycle_backward();
    set.cycle_backward();
    assert_eq!(set.params_at(0), Some(params(1, 60)));
    assert_eq!(set.params_at(1), Some(params(2, 50)));
    assert_eq!(set.params_at(2), Some(params(3, 40)));
}

#[test]
fn inc_main_of_minus_five_clamps_to_zero() {
    let mut set = three_layouts();
    set.handle_message(Message::IncMain(-5));
    assert_eq!(set.current_params().max_main, 0);
    assert_eq!(set.current_params().ratio, Ratio { percent: 60 });
}

#[test]
fn messages_change_the_layout_in_use_only() {
    let mut set = three_layouts();
    set.handle_message(Message::CycleForward);
    set.handle_message(Message::IncMain(4));
    set.handle_message(Message::ExpandRatio);
    assert_eq!(set.current_index(), 1);
    assert_eq!(set.params_at(0), Some(params(1, 60)));
    assert_eq!(set.params_at(1), Some(params(6, 60)));
    assert_eq!(set.params_at(2), Some(params(3, 40)));
    set.handle_message(Message::CycleForward);
    set.handle_message(Message::ShrinkRatio);
    assert_eq!(set.params_at(0), Some(params(1, 60)));
    assert_eq!(set.params_at(1), Some(params(6, 60)));
    assert_eq!(set.params_at(2), Some(params(3, 30)));
}

#[test]
fn ratio_messages_stop_at_the_bounds() {
    let mut set = LayoutSet::new(Layout::MainAndStackSide, params(1, 60));
    for _ in 0..10 {
        set.handle_message(Message::ExpandRatio);
    }
    assert_eq!(set.current_params().ratio, Ratio { percent: 95 });
    for _ in 0..20 {
        set.handle_message(Message::ShrinkRatio);
    }
    assert_eq!(set.current_params().ratio, Ratio { percent: 5 });
}

#[test]
fn set_arranges_with_the_layout_in_use() {
    let windows = [WindowId(1), WindowId(2), WindowId(3)];
    let region = Region::new(0, 0, 100, 100);
    let mut set = three_layouts();
    assert_eq!(
        set.arrange(&windows, None, region),
        Layout::MainAndStackSide.compute(&windows, None, region, params(1, 60))
    );
    set.cycle_forward();
    assert_eq!(
        set.arrange(&windows, None, region),
        vec![
            (WindowId(1), Some(Region::new(0, 0, 50, 50))),
            (WindowId(2), Some(Region::new(50, 0, 50, 50))),
            (WindowId(3), Some(Region::new(0, 50, 100, 50))),
        ]
    );
    set.cycle_forward();
    assert_eq!(
        set.arrange(&windows, Some(WindowId(2)), region),
        vec![(WindowId(1), None), (WindowId(2), Some(region)), (WindowId(3), None)]
    );
}

#[test]
fn set_arranges_with_changed_parameters() {
    let windows = [WindowId(1), WindowId(2), WindowId(3)];
    let region = Region::new(0, 0, 100, 100);
    let mut set = three_layouts();
    set.handle_message(Message::IncMain(1));
    set.handle_message(Message::ShrinkRatio);
    assert_eq!(
        set.arrange(&windows, None, region),
        vec![
            (WindowId(1), Some(Region::new(0, 0, 50, 50))),
            (WindowId(2), Some(Region::new(0, 50, 50, 50))),
            (WindowId(3), Some(Region::new(50, 0, 50, 100))),
        ]
    );
}

#[test]
fn default_layouts_are_the_three_decorated_ones() {
    assert_eq!(BAR_HEIGHT, 20);
    assert_eq!(N_MAIN, 1);
    assert_eq!(RATIO_PERCENT, 60);
    assert_eq!(GAP_PX, 1);
    let mut set = default_layouts();
    assert_eq!(set.len(), 3);
    assert_eq!(set.current_index(), 0);
    let expected = [
        Layout::MainAndStackSide,
        Layout::MainAndStackBottom,
        Layout::exclusive(HideStrategy::Omit),
    ];
    for base in expected.iter() {
        assert_eq!(
            *set.current_layout(),
            base.clone().with_reserved_edge(Edge::Top, 20).with_gaps(1, 1)
        );
        assert_eq!(*set.current_layout(), decorated(base.clone()));
        assert_eq!(set.current_params(), params(1, 60));
        assert_eq!(set.current_params(), default_params());
        set.cycle_forward();
    }
}

#[test]
fn default_layouts_on_a_screen() {
    let windows = [WindowId(1), WindowId(2), WindowId(3)];
    let screen = Region::new(0, 0, 1920, 1080);
    let set = default_layouts();
    assert!(set.current_layout().admits(screen));
    assert_eq!(
        set.arrange(&windows, Some(WindowId(1)), screen),
        vec![
            (WindowId(1), Some(Region::new(2, 22, 1148, 1056))),
            (WindowId(2), Some(Region::new(1152, 22, 766, 527))),
            (WindowId(3), Some(Region::new(1152, 551, 766, 527))),
        ]
    );
}
