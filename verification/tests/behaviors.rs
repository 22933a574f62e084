use gatedesk::scbehavior::{
    BEHAVIOR_EVENTS, BEHAVIOR_METHOD_IDENTIFIERS, CLICK_REASON, DRAW_EVENTS, EDIT_CHANGED_REASON,
    EVENT_GROUPS, INITIALIZATION_EVENTS, INITIALIZATION_PARAMS, IS_EMPTY_PARAMS, KEYBOARD_STATES,
    KEY_EVENTS, METHOD_PARAMS, MOUSE_BUTTONS, MOUSE_EVENTS, PHASE_MASK, SOM_EVENTS, TIMER_PARAMS,
};

#[test]
fn event_groups_combine_with_or() {
    let g = EVENT_GROUPS(EVENT_GROUPS::HANDLE_MOUSE) | EVENT_GROUPS(EVENT_GROUPS::HANDLE_KEY);
    assert_eq!(g, EVENT_GROUPS(0x0003));
    let h = g | EVENT_GROUPS(EVENT_GROUPS::HANDLE_MOUSE);
    assert_eq!(h, g);
    let i = EVENT_GROUPS(EVENT_GROUPS::HANDLE_INITIALIZATION) | g;
    assert_eq!(i, g);
    let all = EVENT_GROUPS(EVENT_GROUPS::HANDLE_SOM) | EVENT_GROUPS(EVENT_GROUPS::HANDLE_ALL);
    assert_eq!(all, EVENT_GROUPS(EVENT_GROUPS::HANDLE_ALL));
    assert_eq!(EVENT_GROUPS::SUBSCRIPTIONS_REQUEST, u32::MAX);
    assert_eq!(
        EVENT_GROUPS(EVENT_GROUPS::HANDLE_DRAW) | EVENT_GROUPS(EVENT_GROUPS::HANDLE_METHOD_CALL),
        EVENT_GROUPS(EVENT_GROUPS::HANDLE_METHOD_CALL) | EVENT_GROUPS(EVENT_GROUPS::HANDLE_DRAW)
    );
}

#[test]
fn codes_of_the_enums() {
    assert_eq!(INITIALIZATION_EVENTS::BEHAVIOR_ATTACH.code(), 1);
    assert_eq!(SOM_EVENTS::SOM_GET_ASSET.code(), 1);
    assert_eq!(DRAW_EVENTS::DRAW_OUTLINE.code(), 3);
    assert_eq!(MOUSE_BUTTONS::MIDDLE.code(), 3);
    assert_eq!(KEY_EVENTS::KEY_CHAR.code(), 2);
    assert_eq!(MOUSE_EVENTS::MOUSE_IDLE.code(), 8);
    assert_eq!(MOUSE_EVENTS::DRAG_REQUEST.code(), 0xC);
    assert_eq!(MOUSE_EVENTS::MOUSE_TCLICK.code(), 0xF);
    assert_eq!(MOUSE_EVENTS::MOUSE_CLICK.code(), 0xFF);
    assert_eq!(MOUSE_EVENTS::DRAGGING.code() | MOUSE_EVENTS::MOUSE_MOVE.code(), 0x102);
}

#[test]
fn open_code_spaces_hold_any_value() {
    assert_eq!(BEHAVIOR_METHOD_IDENTIFIERS::FIRST_APPLICATION_METHOD_ID, 0x100);
    let custom = BEHAVIOR_METHOD_IDENTIFIERS(0x123);
    assert_eq!(custom.0, 0x123);
    assert_eq!(BEHAVIOR_EVENTS::VIDEO_BIND_RQ, 0xD4);
    assert_eq!(BEHAVIOR_EVENTS(0x18), BEHAVIOR_EVENTS(BEHAVIOR_EVENTS::MEDIA_CHANGED));
    assert_eq!(CLICK_REASON::BY_MOUSE_ON_ICON, 3);
    assert_eq!(EDIT_CHANGED_REASON::CHANGE_BY_CODE, 7);
    assert_eq!(PHASE_MASK::SINKING_HANDLED, PHASE_MASK::SINKING | PHASE_MASK::BUBBLING_HANDLED);
}

#[test]
fn keyboard_states_and_params() {
    let k = KEYBOARD_STATES::from(KEYBOARD_STATES::CONTROL_KEY_PRESSED | KEYBOARD_STATES::ALT_KEY_PRESSED);
    assert_eq!(k, KEYBOARD_STATES::from(5));
    assert_eq!(KEYBOARD_STATES::default(), KEYBOARD_STATES::from(0));
    let p = INITIALIZATION_PARAMS { cmd: INITIALIZATION_EVENTS::BEHAVIOR_DETACH };
    assert_eq!(p.cmd.code(), 0);
    let m = METHOD_PARAMS { method: BEHAVIOR_METHOD_IDENTIFIERS::DO_CLICK };
    assert_eq!(m.method, 1);
    let e = IS_EMPTY_PARAMS { method: BEHAVIOR_METHOD_IDENTIFIERS::IS_EMPTY, is_empty: 1 };
    assert_eq!((e.method, e.is_empty), (0xFC, 1));
    let t = TIMER_PARAMS { timerId: 9 };
    assert_eq!(t.timerId, 9);
}
