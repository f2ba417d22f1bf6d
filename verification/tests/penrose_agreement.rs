use pencilwm::config::default_layouts;
use pencilwm::geometry::{Edge, Region};
use pencilwm::layout::{Layout, WindowId};
use pencilwm::params::{LayoutParams, Ratio};
use penrose::builtin::layout::{
    messages::{ExpandMain, IncMain, ShrinkMain},
    transformers::{Gaps, ReserveTop},
    MainAndStack, Monocle,
};
use penrose::pure::{geometry::Rect, Stack};
use penrose::Xid;

/// What the window manager's layout yields for the stack in `r`.
fn run<L>(layout: &mut L, s: &Stack<Xid>, r: Rect) -> Vec<(Xid, Rect)>
where
    L: penrose::core::layout::Layout + ?Sized,
{
    penrose::core::layout::Layout::layout(layout, s, r).1
}

/// Sends `message` to the window manager's layout.
fn send<M>(layout: &mut MainAndStack, message: M)
where
    M: penrose::core::layout::IntoMessage,
{
    let message = penrose::core::layout::IntoMessage::into_message(message);
    penrose::core::layout::Layout::handle_message(layout, &message);
}

fn stack_of(n: u32, focus: u32) -> Stack<Xid> {
    Stack::new((0..focus).map(Xid::from), Xid::from(focus), (focus + 1..n).map(Xid::from))
}

fn windows_of(n: u32) -> Vec<WindowId> {
    (0..n).map(WindowId).collect()
}

fn region_of(r: Rect) -> Region {
    Region::new(r.x as i32, r.y as i32, r.w, r.h)
}

fn params(max_main: u32, percent: u32) -> LayoutParams {
    LayoutParams::new(max_main, Ratio::from_percent(percent).unwrap())
}

/// The rectangles of the windows that are shown, as the window manager
/// takes them.
fn shown(placed: Vec<(WindowId, Option<Region>)>) -> Vec<(Xid, Rect)> {
    placed
        .into_iter()
        .filter_map(|(id, placed)| {
            placed.map(|r| (Xid::from(id.0), Rect::new(r.x as u32, r.y as u32, r.width, r.height)))
        })
        .collect()
}

const SCREENS: [(u32, u32, u32, u32); 5] =
    [(0, 0, 1920, 1080), (1920, 0, 1280, 1024), (0, 0, 100, 100), (7, 11, 1366, 768), (0, 0, 1, 1)];

const RATIOS: [(u32, f32); 4] = [(60, 0.6), (50, 0.5), (25, 0.25), (75, 0.75)];

#[test]
fn side_layout_agrees_with_main_and_stack() {
    for (x, y, w, h) in SCREENS {
        let r = Rect::new(x, y, w, h);
        for (percent, fraction) in RATIOS {
            for max_main in 0..5 {
                for n in 1..7 {
                    let mut theirs = MainAndStack::side_unboxed(max_main, fraction, 0.1, false);
                    let expected = run(&mut theirs, &stack_of(n, 0), r);
                    let placed = Layout::MainAndStackSide.compute(
                        &windows_of(n),
                        Some(WindowId(0)),
                        region_of(r),
                        params(max_main, percent),
                    );
                    assert_eq!(shown(placed), expected);
                }
            }
        }
    }
}

#[test]
fn bottom_layout_agrees_with_main_and_stack() {
    for (x, y, w, h) in SCREENS {
        let r = Rect::new(x, y, w, h);
        for (percent, fraction) in RATIOS {
            for max_main in 0..5 {
                for n in 1..7 {
                    let mut theirs = MainAndStack::bottom_unboxed(max_main, fraction, 0.1, false);
                    let expected = run(&mut theirs, &stack_of(n, n - 1), r);
                    let placed = Layout::MainAndStackBottom.compute(
                        &windows_of(n),
                        Some(WindowId(n - 1)),
                        region_of(r),
                        params(max_main, percent),
                    );
                    assert_eq!(shown(placed), expected);
                }
            }
        }
    }
}

#[test]
fn monocle_agrees_with_monocle() {
    for (x, y, w, h) in SCREENS {
        let r = Rect::new(x, y, w, h);
        for n in 1..6 {
            for focus in 0..n {
                let expected = run(&mut Monocle, &stack_of(n, focus), r);
                let placed = Layout::monocle().compute(
                    &windows_of(n),
                    Some(WindowId(focus)),
                    region_of(r),
                    params(1, 60),
                );
                assert_eq!(placed.len(), n as usize);
                assert_eq!(shown(placed), expected);
            }
        }
    }
}

#[test]
fn reserved_top_agrees_with_reserve_top() {
    let r = Rect::new(0, 0, 1920, 1080);
    for px in [0, 1, 20, 500, 1079] {
        for n in 1..6 {
            let mut theirs = ReserveTop::wrap(MainAndStack::side(1, 0.6, 0.1), px);
            let expected = run(theirs.as_mut(), &stack_of(n, 0), r);
            let placed = Layout::MainAndStackSide.with_reserved_edge(Edge::Top, px).compute(
                &windows_of(n),
                Some(WindowId(0)),
                region_of(r),
                params(1, 60),
            );
            assert_eq!(shown(placed), expected);
        }
    }
}

#[test]
fn gaps_agree_with_gaps() {
    let r = Rect::new(0, 0, 1920, 1080);
    for (outer, inner) in [(0, 0), (1, 1), (5, 0), (0, 5), (10, 3), (100, 40)] {
        for n in 1..6 {
            let mut theirs = Gaps::wrap(MainAndStack::bottom(2, 0.5, 0.1), outer, inner);
            let expected = run(theirs.as_mut(), &stack_of(n, 0), r);
            let placed = Layout::MainAndStackBottom.with_gaps(outer, inner).compute(
                &windows_of(n),
                Some(WindowId(0)),
                region_of(r),
                params(2, 50),
            );
            assert_eq!(shown(placed), expected);
        }
    }
}

#[test]
fn default_layouts_agree_with_the_wrapped_builtins() {
    let r = Rect::new(0, 0, 1920, 1080);
    let mut theirs = vec![
        Gaps::wrap(ReserveTop::wrap(MainAndStack::side(1, 0.6, 0.1), 20), 1, 1),
        Gaps::wrap(ReserveTop::wrap(MainAndStack::bottom(1, 0.6, 0.1), 20), 1, 1),
        Gaps::wrap(ReserveTop::wrap(Monocle::boxed(), 20), 1, 1),
    ];
    let mut set = default_layouts();
    assert_eq!(set.len(), theirs.len());
    for layout in theirs.iter_mut() {
        for n in 1..6 {
            let expected = run(layout.as_mut(), &stack_of(n, 0), r);
            let placed = set.arrange(&windows_of(n), Some(WindowId(0)), region_of(r));
            assert_eq!(shown(placed), expected);
        }
        set.cycle_forward();
    }
}

#[test]
fn inc_main_agrees_with_the_message() {
    let r = Rect::new(0, 0, 1000, 1000);
    let mut theirs = MainAndStack::side_unboxed(1, 0.5, 0.1, false);
    let mut ours = params(1, 50);
    for delta in [1i8, 1, -1, 2, -5, 3, -127, 127] {
        send(&mut theirs, IncMain(delta));
        ours = ours.inc_main(i32::from(delta));
        let expected = run(&mut theirs, &stack_of(6, 0), r);
        let placed =
            Layout::MainAndStackSide.compute(&windows_of(6), None, region_of(r), ours);
        assert_eq!(shown(placed), expected);
    }
}

#[test]
fn ratio_steps_agree_with_the_messages_within_the_bounds() {
    let r = Rect::new(0, 0, 1000, 1000);
    let mut theirs = MainAndStack::side_unboxed(1, 0.5, 0.25, false);
    let mut ours = params(1, 50);
    assert_eq!(ours.expand_ratio().ratio.percent, 60);
    // The two step by different amounts, so they are compared where both are
    // back at the ratio they started from.
    send(&mut theirs, ExpandMain);
    send(&mut theirs, ShrinkMain);
    ours = ours.expand_ratio().shrink_ratio();
    let expected = run(&mut theirs, &stack_of(3, 0), r);
    let placed = Layout::MainAndStackSide.compute(&windows_of(3), None, region_of(r), ours);
    assert_eq!(shown(placed), expected);
}
