use std::sync::Arc;

use cdir::tui::event::{ApplicationEventBuilder, GenericEvent, ViewManagerEvent};
use cdir::tui::manager::{broadcast_action, BroadcastEffect};
use cdir::tui::view::ManagerAction;

#[test]
fn event_test1() {
    let payload = String::from("payload");
    let ge = GenericEvent::ApplicationEvent(
        ApplicationEventBuilder::new("id").with_payload(Arc::new(payload)).build(),
    );
    assert!(matches!(ge, GenericEvent::ApplicationEvent(_)));
}

#[test]
fn event_tests_test1() {
    let payload = String::from("payload");
    let ge = GenericEvent::ApplicationEvent(
        ApplicationEventBuilder::new("id").with_payload(Arc::new(payload)).build(),
    );
    assert!(matches!(ge, GenericEvent::ApplicationEvent(_)));
}

#[test]
fn event_builder_keeps_id_and_payload() {
    let e = ApplicationEventBuilder::new("data.reload").with_payload(7u32).build();
    assert_eq!(e.id, "data.reload");
    assert_eq!(e.payload, Some(7));
    let e = ApplicationEventBuilder::<u32>::new("search.description").build();
    assert_eq!(e.id, "search.description");
    assert_eq!(e.payload, None);
}

#[test]
fn broadcast_actions() {
    let exit: GenericEvent<u8> =
        GenericEvent::ViewManagerEvent(ViewManagerEvent::Exit(Some("/tmp".to_string())));
    let (action, effect) = broadcast_action(Some(&exit));
    assert_eq!(action, ManagerAction { redraw: false, resize: false, close: true });
    assert_eq!(effect, BroadcastEffect::SetExit(Some("/tmp".to_string())));

    let resize: GenericEvent<u8> = GenericEvent::ViewManagerEvent(ViewManagerEvent::Resize);
    let (action, effect) = broadcast_action(Some(&resize));
    assert!(action.resize && !action.redraw && !action.close);
    assert_eq!(effect, BroadcastEffect::Nothing);

    let redraw: GenericEvent<u8> = GenericEvent::ViewManagerEvent(ViewManagerEvent::Redraw);
    assert!(broadcast_action(Some(&redraw)).0.redraw);

    let app: GenericEvent<u8> =
        GenericEvent::ApplicationEvent(ApplicationEventBuilder::new("data.reload").build());
    assert_eq!(broadcast_action(Some(&app)).1, BroadcastEffect::NotifyViews);

    let (action, effect) = broadcast_action::<u8>(None);
    assert_eq!(action, ManagerAction::new(false));
    assert_eq!(effect, BroadcastEffect::Nothing);
}
