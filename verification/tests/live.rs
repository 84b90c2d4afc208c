use rich_rs::console::{Console, ConsoleOptions};
use rich_rs::live::{live_stop_plan, LiveManager, VerticalOverflowMethod};
use rich_rs::segment::{ControlType, Segment};
use rich_rs::text::Text;
use rich_rs::Renderable;

fn texts(segs: &[Segment]) -> String {
    segs.iter().map(|s| s.text.to_string()).collect()
}

#[test]
fn live_start_stacks_displays() {
    let mut live = LiveManager::new();
    let (a, root_a) = live.live_start(Box::new(Text::plain("one")), VerticalOverflowMethod::Ellipsis);
    let (b, root_b) = live.live_start(Box::new(Text::plain("two")), VerticalOverflowMethod::Crop);
    assert_eq!((a, root_a), (0, true));
    assert_eq!((b, root_b), (1, false));
}

#[test]
fn render_live_segments_draws_stack_in_order() {
    let mut live = LiveManager::new();
    live.live_start(Box::new(Text::plain("one")), VerticalOverflowMethod::Visible);
    live.live_start(Box::new(Text::plain("two")), VerticalOverflowMethod::Visible);
    let options = ConsoleOptions { max_width: 5, ..Default::default() };
    let (segs, full) = live.render_live_segments(&options);
    assert!(full);
    assert_eq!(texts(&segs), "one\ntwo");
    let restore = live.live_restore_cursor();
    assert_eq!(restore.len(), 1 + 3 * 2);
    assert_eq!(restore[0].control, Some(ControlType::CarriageReturn));
}

#[test]
fn render_live_segments_without_root_is_empty() {
    let mut live = LiveManager::new();
    let options = ConsoleOptions::default();
    let (segs, full) = live.render_live_segments(&options);
    assert!(segs.is_empty());
    assert!(!full);
}

#[test]
fn live_crop_keeps_lines_that_fit() {
    let mut live = LiveManager::new();
    live.live_start(Box::new(Text::plain("a\nb\nc")), VerticalOverflowMethod::Crop);
    let mut options = ConsoleOptions { max_width: 3, ..Default::default() };
    options.size = (3, 2);
    let (segs, _) = live.render_live_segments(&options);
    assert_eq!(texts(&segs), "a\nb");
}

#[test]
fn live_update_and_stop() {
    let mut live = LiveManager::new();
    let (id, _) = live.live_start(Box::new(Text::plain("old")), VerticalOverflowMethod::Visible);
    live.live_update(id, Box::new(Text::plain("new")));
    let options = ConsoleOptions { max_width: 3, ..Default::default() };
    let (segs, _) = live.render_live_segments(&options);
    assert_eq!(texts(&segs), "new");
    assert!(live.live_stop(id).is_some());
    assert!(live.live_stop(id).is_none());
    assert!(live.live_restore_cursor().is_empty());
}

#[test]
fn position_cursor_for_shape_moves_up_each_line_but_first() {
    let plain = LiveManager::live_position_cursor_for_shape(Some((4, 3)), false);
    let kinds: Vec<Option<ControlType>> = plain.iter().map(|s| s.control).collect();
    assert_eq!(kinds, vec![
        Some(ControlType::CarriageReturn),
        Some(ControlType::CursorUp(1)),
        Some(ControlType::CursorUp(1)),
    ]);
    let erase = LiveManager::live_position_cursor_for_shape(Some((4, 2)), true);
    assert_eq!(erase.len(), 2 + 3);
    assert!(LiveManager::live_position_cursor_for_shape(None, true).is_empty());
    assert!(LiveManager::live_position_cursor_for_shape(Some((4, 0)), true).is_empty());
}

#[test]
fn print_with_live_redraws_live_display_below_output() {
    let mut console = Console::capture();
    console.set_force_terminal(Some(true));
    let mut live = LiveManager::new();
    live.live_start(Box::new(Text::plain("LIVE")), VerticalOverflowMethod::Ellipsis);
    console.print_with_live(&mut live, &Text::plain("A"), None, None, None, false, "\n");
    let first = console.get_captured();
    let a = first.find('A').unwrap();
    let l = first.find("LIVE").unwrap();
    assert!(a < l);
    console.clear_captured();
    console.print_with_live(&mut live, &Text::plain("B"), None, None, None, false, "\n");
    let second = console.get_captured();
    assert!(second.starts_with('\r'));
    assert!(second.contains('B'));
    assert!(second.contains("LIVE"));
}

#[test]
fn print_with_live_without_terminal_prints_plainly() {
    let mut console = Console::capture();
    console.set_force_terminal(Some(false));
    let mut live = LiveManager::new();
    live.live_start(Box::new(Text::plain("LIVE")), VerticalOverflowMethod::Ellipsis);
    console.print_with_live(&mut live, &Text::plain("A"), None, None, None, false, "\n");
    let mut twin = Console::capture();
    twin.set_force_terminal(Some(false));
    twin.print(&Text::plain("A"), None, None, None, false, "\n");
    assert_eq!(console.get_captured(), twin.get_captured());
}

#[test]
fn live_stop_hands_back_a_live_display() {
    let mut live = LiveManager::new();
    let (a, _) = live.live_start(Box::new(Text::plain("one")), VerticalOverflowMethod::Visible);
    let (b, _) = live.live_start(Box::new(Text::plain("two")), VerticalOverflowMethod::Visible);
    assert!(b > a);
    let back = live.live_stop(a).unwrap();
    let options = ConsoleOptions { max_width: 5, ..Default::default() };
    let console = Console::with_options(options.clone());
    let text: String = back.render(&console, &options).iter().map(|s| s.text.to_string()).collect();
    assert!(text.contains("one"));
    assert!(live.live_stop(b).is_some());
}

#[test]
fn stop_plan_for_root_nested_and_undrawn_displays() {
    let root = live_stop_plan(true, true, true, true, false);
    assert!(root.final_redraw && root.restore_cursor && root.clear && root.final_newline && !root.leave_alt_screen);
    let on_alt = live_stop_plan(true, true, false, true, true);
    assert!(!on_alt.final_redraw && on_alt.clear && on_alt.leave_alt_screen && !on_alt.final_newline);
    let nested = live_stop_plan(true, false, false, true, false);
    assert!(nested.stop_nested && nested.print_stopped && !nested.refresh_after_stop && !nested.clear);
    let undrawn = live_stop_plan(false, false, false, false, false);
    assert!(undrawn.print_pending && !undrawn.clear);
}
