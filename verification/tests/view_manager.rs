use cdir::tui::keys::{Key, KeyPress};
use cdir::tui::layout::{centered_rect, Rect};
use cdir::tui::event::{GenericEvent, ViewManagerEvent};
use cdir::tui::manager::{
    after_event, broadcast_action, BroadcastEffect, key_handled, modal_key_action, next_top_level_view, route_terminal_event,
    runs_close_callback, search_active_view, search_active_view_by_ids, TerminalEvent,
    TerminalRoute, ViewNode,
};
use cdir::tui::view::{EventCaptured, ManagerAction};

#[test]
fn test_centered_rect() {
    // Test centering in a 100x50 area
    let area = Rect::new(0, 0, 100, 50);
    let centered = centered_rect(area, 20, 10);

    // Should be centered at (40, 20) with size 20x10
    assert_eq!(centered.x, 40);
    assert_eq!(centered.y, 20);
    assert_eq!(centered.width, 20);
    assert_eq!(centered.height, 10);

    // Test with offset area
    let area = Rect::new(10, 5, 100, 50);
    let centered = centered_rect(area, 20, 10);

    // Should be centered at (10 + 40, 5 + 20) with size 20x10
    assert_eq!(centered.x, 50);
    assert_eq!(centered.y, 25);
    assert_eq!(centered.width, 20);
    assert_eq!(centered.height, 10);

    // Test clamping when requested size is larger than area
    let area = Rect::new(0, 0, 50, 30);
    let centered = centered_rect(area, 100, 50);

    // Should be clamped to area size and positioned at origin
    assert_eq!(centered.x, 0);
    assert_eq!(centered.y, 0);
    assert_eq!(centered.width, 50);
    assert_eq!(centered.height, 30);

    // Test exact fit
    let area = Rect::new(0, 0, 50, 50);
    let centered = centered_rect(area, 50, 50);

    assert_eq!(centered.x, 0);
    assert_eq!(centered.y, 0);
    assert_eq!(centered.width, 50);
    assert_eq!(centered.height, 50);
}

fn leaf(id: usize, area: Rect) -> ViewNode {
    ViewNode { id, area, capture_focus: false, children: vec![] }
}

fn root() -> ViewNode {
    ViewNode {
        id: 10,
        area: Rect::new(0, 0, 80, 24),
        capture_focus: false,
        children: vec![leaf(0, Rect::new(0, 0, 80, 23)), leaf(1, Rect::new(0, 23, 80, 1))],
    }
}

#[test]
fn active_view_by_ids() {
    let views = vec![root()];
    assert_eq!(search_active_view_by_ids(&views, &[10]), Some(vec![0]));
    assert_eq!(search_active_view_by_ids(&views, &[10, 0]), Some(vec![0, 0]));
    assert_eq!(search_active_view_by_ids(&views, &[10, 1]), Some(vec![0, 1]));
    assert_eq!(search_active_view_by_ids(&views, &[10, 99]), None);
    assert_eq!(search_active_view_by_ids(&views, &[]), None);
    assert_eq!(search_active_view_by_ids(&views, &[3]), None);
}

#[test]
fn active_view_by_ids_takes_first_match() {
    let views = vec![leaf(4, Rect::new(0, 0, 1, 1)), leaf(4, Rect::new(0, 0, 1, 1))];
    assert_eq!(search_active_view_by_ids(&views, &[4]), Some(vec![0]));
}

#[test]
fn active_view_by_position() {
    let r = root();
    assert_eq!(search_active_view(&r, 5, 23), vec![1]);
    assert_eq!(search_active_view(&r, 5, 3), vec![0]);
    assert_eq!(search_active_view(&r, 90, 3), Vec::<usize>::new());
    let mut focused = root();
    focused.capture_focus = true;
    assert_eq!(search_active_view(&focused, 5, 23), Vec::<usize>::new());
}

#[test]
fn top_level_views_cycle() {
    assert_eq!(next_top_level_view(0, 2), 1);
    assert_eq!(next_top_level_view(1, 2), 0);
    assert_eq!(next_top_level_view(0, 1), 0);
}

fn key(code: Key) -> KeyPress {
    KeyPress { code, shift: false, control: false, other_modifiers: false }
}

#[test]
fn terminal_routes() {
    let (route, action) = route_terminal_event(TerminalEvent::Key(key(Key::Esc)), false, true);
    assert_eq!(route, TerminalRoute::Nothing);
    assert!(action.close);
    let (route, action) = route_terminal_event(TerminalEvent::Key(key(Key::Tab)), false, true);
    assert_eq!(route, TerminalRoute::SwitchView);
    assert!(action.redraw);
    let (route, _) = route_terminal_event(TerminalEvent::Key(key(Key::Tab)), true, true);
    assert_eq!(route, TerminalRoute::Key(key(Key::Tab)));
    let mut ctrl_h = key(Key::Char('h'));
    ctrl_h.control = true;
    assert_eq!(route_terminal_event(TerminalEvent::Key(ctrl_h), false, true).0, TerminalRoute::ShowHelp);
    assert_eq!(route_terminal_event(TerminalEvent::Key(ctrl_h), false, false).0, TerminalRoute::Key(ctrl_h));
    let (route, action) = route_terminal_event(TerminalEvent::Resize(120, 40), false, true);
    assert_eq!(route, TerminalRoute::Resize(120, 40));
    assert!(action.redraw && !action.resize);
    assert!(route_terminal_event(TerminalEvent::Other, false, true).1.redraw);
    assert_eq!(route_terminal_event(TerminalEvent::Closed, false, true).1, ManagerAction::new(false));
}

#[test]
fn loop_steps() {
    let close = ManagerAction::new(false).with_close(true);
    let step = after_event(close, true);
    assert!(step.close_modal && step.draw && !step.stop);
    let step = after_event(close, false);
    assert!(!step.close_modal && step.stop);
    let step = after_event(ManagerAction::new(false).with_resize(true), false);
    assert!(step.resize && step.draw && !step.stop);
    let step = after_event(ManagerAction::new(false), false);
    assert!(!step.draw && !step.stop);
}

#[test]
fn modal_actions() {
    let closing = ManagerAction::new(false).with_close(true);
    assert!(runs_close_callback(closing, true));
    assert!(!runs_close_callback(closing, false));
    assert!(!runs_close_callback(ManagerAction::new(true), true));
    let cb = ManagerAction::new(false).with_resize(true);
    assert_eq!(
        modal_key_action(closing, Some(cb)),
        ManagerAction { redraw: true, resize: true, close: true }
    );
    assert_eq!(modal_key_action(closing, None), closing);
}

#[test]
fn key_dispatch_merges_until_captured() {
    let mut merged = ManagerAction::new(false);
    assert_eq!(key_handled(&mut merged, EventCaptured::No, ManagerAction::new(true)), None);
    let own = ManagerAction::new(false).with_close(true);
    assert_eq!(key_handled(&mut merged, EventCaptured::Yes, own), Some(own));
    assert_eq!(merged, ManagerAction { redraw: true, resize: false, close: true });
}

#[test]
fn loop_ends_at_the_first_close_without_a_dialog() {
    // Two dialogs open; exit requests close them one by one, then the loop.
    let events: Vec<GenericEvent<()>> = vec![
        GenericEvent::ViewManagerEvent(ViewManagerEvent::Exit(Some("/first".to_string()))),
        GenericEvent::ViewManagerEvent(ViewManagerEvent::Redraw),
        GenericEvent::ViewManagerEvent(ViewManagerEvent::Exit(None)),
        GenericEvent::ViewManagerEvent(ViewManagerEvent::Exit(Some("/last".to_string()))),
        GenericEvent::ViewManagerEvent(ViewManagerEvent::Exit(Some("/never".to_string()))),
    ];
    let mut dialogs = 2;
    let mut exit: Option<String> = None;
    let mut stopped_at = None;
    for (i, e) in events.iter().enumerate() {
        let (action, effect) = broadcast_action(Some(e));
        if let BroadcastEffect::SetExit(text) = effect {
            exit = text;
        }
        let step = after_event(action, dialogs > 0);
        if step.close_modal {
            dialogs -= 1;
        }
        if step.stop {
            stopped_at = Some(i);
            break;
        }
    }
    assert_eq!(stopped_at, Some(3));
    assert_eq!(exit, Some("/last".to_string()));
}

#[test]
fn key_answer_comes_from_the_first_capturing_view() {
    let answers = [
        (EventCaptured::No, ManagerAction::new(false).with_resize(true)),
        (EventCaptured::No, ManagerAction::new(true)),
        (EventCaptured::Yes, ManagerAction::new(false).with_close(true)),
        (EventCaptured::Yes, ManagerAction::new(true)),
    ];
    let mut merged = ManagerAction::new(false);
    let mut answer = None;
    for (captured, action) in answers {
        if let Some(a) = key_handled(&mut merged, captured, action) {
            answer = Some(a);
            break;
        }
    }
    assert_eq!(answer, Some(ManagerAction::new(false).with_close(true)));
    let mut merged = ManagerAction::new(false);
    for (_, action) in &answers[..2] {
        assert_eq!(key_handled(&mut merged, EventCaptured::No, *action), None);
    }
    assert!(merged.redraw && merged.resize && !merged.close);
}
