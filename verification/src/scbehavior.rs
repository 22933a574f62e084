//! Plain values of the behaviour interface of the UI engine: event codes, event
//! groups, phases and reasons, as the engine passes them across its C interface.
//!
//! Several of them are bit sets or open code spaces rather than enums: the engine
//! combines groups with `|`, adds bits to phases, and sends codes this library has
//! no name for, so they are newtypes over the raw number that can hold any value.
#![allow(non_camel_case_types, non_upper_case_globals)]

use vstd::prelude::*;
use vstd::std_specs::ops::BitOrSpec;

verus! {

/// Whether a behaviour is being attached to an element or detached from it.
#[derive(Copy, Clone, Debug, PartialEq, Eq, Structural)]
pub enum INITIALIZATION_EVENTS {
    BEHAVIOR_DETACH,
    BEHAVIOR_ATTACH,
}

impl INITIALIZATION_EVENTS {
    /// The number the engine uses for this event.
    pub fn code(self) -> (c: u32)
        ensures
            c == (match self {
                INITIALIZATION_EVENTS::BEHAVIOR_DETACH => 0u32,
                INITIALIZATION_EVENTS::BEHAVIOR_ATTACH => 1u32,
            }),
    {
        match self {
            INITIALIZATION_EVENTS::BEHAVIOR_DETACH => 0,
            INITIALIZATION_EVENTS::BEHAVIOR_ATTACH => 1,
        }
    }
}

/// The parameters of an attach or detach notification.
pub struct INITIALIZATION_PARAMS {
    pub cmd: INITIALIZATION_EVENTS,
}

/// What a SOM request asks for.
#[derive(Copy, Clone, Debug, PartialEq, Eq, Structural)]
pub enum SOM_EVENTS {
    SOM_GET_PASSPORT,
    SOM_GET_ASSET,
}

impl SOM_EVENTS {
    /// The number the engine uses for this request.
    pub fn code(self) -> (c: u32)
        ensures
            c == (match self {
                SOM_EVENTS::SOM_GET_PASSPORT => 0u32,
                SOM_EVENTS::SOM_GET_ASSET => 1u32,
            }),
    {
        match self {
            SOM_EVENTS::SOM_GET_PASSPORT => 0,
            SOM_EVENTS::SOM_GET_ASSET => 1,
        }
    }
}

/// Identifiers of the methods intrinsic behaviours support. Not an enum: the
/// engine also dispatches application-defined ids, at or above
/// [`BEHAVIOR_METHOD_IDENTIFIERS::FIRST_APPLICATION_METHOD_ID`], and ids of later
/// engine versions. The associated constants are the raw ids.
#[derive(Copy, Clone, Debug, PartialEq, Eq, Structural, Hash)]
pub struct BEHAVIOR_METHOD_IDENTIFIERS(pub u32);

impl BEHAVIOR_METHOD_IDENTIFIERS {
    /// Raise a click event.
    pub const DO_CLICK: u32 = 1;

    /// `IS_EMPTY_PARAMS::is_empty` reflects the `:empty` state of the element.
    pub const IS_EMPTY: u32 = 0xFC;

    /// `VALUE_PARAMS`
    pub const GET_VALUE: u32 = 0xFD;

    /// `VALUE_PARAMS`
    pub const SET_VALUE: u32 = 0xFE;

    /// User method identifier used in custom behaviors: all custom codes are at or above it;
    /// the engine does not interpret them and only dispatches them.
    pub const FIRST_APPLICATION_METHOD_ID: u32 = 0x100;
}

/// Method arguments of a behaviour method call.
pub struct METHOD_PARAMS {
    /// A [`BEHAVIOR_METHOD_IDENTIFIERS`] id or an application one.
    pub method: u32,
}

/// The arguments of the `IS_EMPTY` method call.
pub struct IS_EMPTY_PARAMS {
    pub method: u32,
    pub is_empty: u32,
}

/// The parameters of a timer notification.
pub struct TIMER_PARAMS {
    pub timerId: usize,
}

/// Layer to draw.
#[derive(Copy, Clone, Debug, PartialEq, Eq, Structural)]
pub enum DRAW_EVENTS {
    DRAW_BACKGROUND,
    DRAW_CONTENT,
    DRAW_FOREGROUND,
    /// Since engine 4.2.3.
    DRAW_OUTLINE,
}

impl DRAW_EVENTS {
    /// The number the engine uses for this layer.
    pub fn code(self) -> (c: u32)
        ensures
            c == (match self {
                DRAW_EVENTS::DRAW_BACKGROUND => 0u32,
                DRAW_EVENTS::DRAW_CONTENT => 1u32,
                DRAW_EVENTS::DRAW_FOREGROUND => 2u32,
                DRAW_EVENTS::DRAW_OUTLINE => 3u32,
            }),
    {
        match self {
            DRAW_EVENTS::DRAW_BACKGROUND => 0,
            DRAW_EVENTS::DRAW_CONTENT => 1,
            DRAW_EVENTS::DRAW_FOREGROUND => 2,
            DRAW_EVENTS::DRAW_OUTLINE => 3,
        }
    }
}

/// Event groups a behaviour subscribes to: a bit set, combined with `|`, so a
/// value may be any combination of the groups below (the associated constants are
/// the raw bits).
#[derive(Copy, Clone, Debug, PartialEq, Eq, Structural, Hash)]
pub struct EVENT_GROUPS(pub u32);

impl EVENT_GROUPS {
    /// Attached/detached.
    pub const HANDLE_INITIALIZATION: u32 = 0x0000;

    /// Mouse events.
    pub const HANDLE_MOUSE: u32 = 0x0001;

    /// Key events.
    pub const HANDLE_KEY: u32 = 0x0002;

    /// Focus events; with this group the element is also focusable.
    pub const HANDLE_FOCUS: u32 = 0x0004;

    /// Scroll events.
    pub const HANDLE_SCROLL: u32 = 0x0008;

    /// Timer event.
    pub const HANDLE_TIMER: u32 = 0x0010;

    /// Size changed event.
    pub const HANDLE_SIZE: u32 = 0x0020;

    /// Drawing request (event).
    pub const HANDLE_DRAW: u32 = 0x0040;

    /// Requested data has been delivered.
    pub const HANDLE_DATA_ARRIVED: u32 = 0x0080;

    /// Logical, synthetic events (`BUTTON_CLICK`, `HYPERLINK_CLICK`, ...): notifications
    /// from intrinsic behaviours.
    pub const HANDLE_BEHAVIOR_EVENT: u32 = 0x0100;

    /// Behavior specific methods.
    pub const HANDLE_METHOD_CALL: u32 = 0x0200;

    /// Behavior specific methods.
    pub const HANDLE_SCRIPTING_METHOD_CALL: u32 = 0x0400;

    /// Behavior specific methods using direct script values; the engine no longer sends
    /// them.
    pub const HANDLE_TISCRIPT_METHOD_CALL: u32 = 0x0800;

    /// System drag-n-drop.
    pub const HANDLE_EXCHANGE: u32 = 0x1000;

    /// Touch input events.
    pub const HANDLE_GESTURE: u32 = 0x2000;

    /// SOM passport and asset requests.
    pub const HANDLE_SOM: u32 = 0x8000;

    /// All of them.
    pub const HANDLE_ALL: u32 = 0xFFFF;

    /// Special value for getting subscription flags.
    pub const SUBSCRIPTIONS_REQUEST: u32 = 0xFFFF_FFFF;
}

/// Event propagation phase: a bit set, `BUBBLING_HANDLED` and `SINKING_HANDLED`
/// being `BUBBLING` and `SINKING` with the "consumed" bit added; the engine may add
/// further bits.
#[derive(Copy, Clone, Debug, PartialEq, Eq, Structural, Hash)]
pub struct PHASE_MASK(pub u32);

impl PHASE_MASK {
    /// Bubbling phase: from a child element to all its containers.
    pub const BUBBLING: u32 = 0;

    /// Sinking phase: from containers to the target child element.
    pub const SINKING: u32 = 0x0_8000;

    /// Bubbling event consumed by some element.
    pub const BUBBLING_HANDLED: u32 = 0x1_0000;

    /// Sinking event consumed by some child.
    pub const SINKING_HANDLED: u32 = 0x1_8000;
}

/// Mouse buttons.
#[derive(Copy, Clone, Debug, PartialEq, Eq, Structural)]
pub enum MOUSE_BUTTONS {
    NONE,
    /// Left button.
    MAIN,
    /// Right button.
    PROP,
    /// Middle button.
    MIDDLE,
}

impl MOUSE_BUTTONS {
    /// The number the engine uses for this button.
    pub fn code(self) -> (c: u32)
        ensures
            c == (match self {
                MOUSE_BUTTONS::NONE => 0u32,
                MOUSE_BUTTONS::MAIN => 1u32,
                MOUSE_BUTTONS::PROP => 2u32,
                MOUSE_BUTTONS::MIDDLE => 3u32,
            }),
    {
        match self {
            MOUSE_BUTTONS::NONE => 0,
            MOUSE_BUTTONS::MAIN => 1,
            MOUSE_BUTTONS::PROP => 2,
            MOUSE_BUTTONS::MIDDLE => 3,
        }
    }
}

/// Keyboard modifier buttons state: a bit set of the `*_KEY_PRESSED` bits.
#[derive(Copy, Clone, Debug, PartialEq, Eq, Structural)]
pub struct KEYBOARD_STATES(u32);

impl KEYBOARD_STATES {
    pub const CONTROL_KEY_PRESSED: u32 = 0x01;

    pub const SHIFT_KEY_PRESSED: u32 = 0x02;

    pub const ALT_KEY_PRESSED: u32 = 0x04;

    /// The raw bits.
    pub closed spec fn bits(self) -> u32 {
        self.0
    }
}

impl Default for KEYBOARD_STATES {
    /// No modifier pressed.
    fn default() -> (r: Self)
        ensures
            r.bits() == 0,
    {
        KEYBOARD_STATES(0)
    }
}

impl From<u32> for KEYBOARD_STATES {
    fn from(u: u32) -> (r: Self)
        ensures
            r.bits() == u,
    {
        KEYBOARD_STATES(u)
    }
}

impl vstd::std_specs::convert::FromSpecImpl<u32> for KEYBOARD_STATES {
    open spec fn obeys_from_spec() -> bool {
        true
    }

    closed spec fn from_spec(u: u32) -> Self {
        KEYBOARD_STATES(u)
    }
}

/// Keyboard input events.
#[derive(Copy, Clone, Debug, PartialEq, Eq, Structural)]
pub enum KEY_EVENTS {
    KEY_DOWN,
    KEY_UP,
    KEY_CHAR,
}

impl KEY_EVENTS {
    /// The number the engine uses for this event.
    pub fn code(self) -> (c: u32)
        ensures
            c == (match self {
                KEY_EVENTS::KEY_DOWN => 0u32,
                KEY_EVENTS::KEY_UP => 1u32,
                KEY_EVENTS::KEY_CHAR => 2u32,
            }),
    {
        match self {
            KEY_EVENTS::KEY_DOWN => 0,
            KEY_EVENTS::KEY_UP => 1,
            KEY_EVENTS::KEY_CHAR => 2,
        }
    }
}

/// Mouse events.
#[derive(Copy, Clone, Debug, PartialEq, Eq, Structural)]
pub enum MOUSE_EVENTS {
    MOUSE_ENTER,
    MOUSE_LEAVE,
    MOUSE_MOVE,
    MOUSE_UP,
    MOUSE_DOWN,
    MOUSE_DCLICK,
    MOUSE_WHEEL,
    /// Mouse pressed ticks.
    MOUSE_TICK,
    /// Mouse stays idle for some time.
    MOUSE_IDLE,
    /// Item dropped; the target is the dropped item.
    DROP,
    /// Drag arrived at one of the current drop targets.
    DRAG_ENTER,
    /// Drag left one of the current drop targets; the target is the drop target.
    DRAG_LEAVE,
    /// Drag source notification before the drag starts; a handler answering true cancels it.
    DRAG_REQUEST,
    /// Mouse triple click.
    MOUSE_TCLICK,
    /// Mouse click event.
    MOUSE_CLICK,
    /// Or-ed with the `MOUSE_ENTER..MOUSE_DOWN` codes while a drag is in effect.
    DRAGGING,
}

impl MOUSE_EVENTS {
    /// The number the engine uses for this event.
    pub fn code(self) -> (c: u32)
        ensures
            c == (match self {
                MOUSE_EVENTS::MOUSE_ENTER => 0u32,
                MOUSE_EVENTS::MOUSE_LEAVE => 1u32,
                MOUSE_EVENTS::MOUSE_MOVE => 2u32,
                MOUSE_EVENTS::MOUSE_UP => 3u32,
                MOUSE_EVENTS::MOUSE_DOWN => 4u32,
                MOUSE_EVENTS::MOUSE_DCLICK => 5u32,
                MOUSE_EVENTS::MOUSE_WHEEL => 6u32,
                MOUSE_EVENTS::MOUSE_TICK => 7u32,
                MOUSE_EVENTS::MOUSE_IDLE => 8u32,
                MOUSE_EVENTS::DROP => 0x9u32,
                MOUSE_EVENTS::DRAG_ENTER => 0xAu32,
                MOUSE_EVENTS::DRAG_LEAVE => 0xBu32,
                MOUSE_EVENTS::DRAG_REQUEST => 0xCu32,
                MOUSE_EVENTS::MOUSE_TCLICK => 0xFu32,
                MOUSE_EVENTS::MOUSE_CLICK => 0xFFu32,
                MOUSE_EVENTS::DRAGGING => 0x100u32,
            }),
    {
        match self {
            MOUSE_EVENTS::MOUSE_ENTER => 0,
            MOUSE_EVENTS::MOUSE_LEAVE => 1,
            MOUSE_EVENTS::MOUSE_MOVE => 2,
            MOUSE_EVENTS::MOUSE_UP => 3,
            MOUSE_EVENTS::MOUSE_DOWN => 4,
            MOUSE_EVENTS::MOUSE_DCLICK => 5,
            MOUSE_EVENTS::MOUSE_WHEEL => 6,
            MOUSE_EVENTS::MOUSE_TICK => 7,
            MOUSE_EVENTS::MOUSE_IDLE => 8,
            MOUSE_EVENTS::DROP => 0x9,
            MOUSE_EVENTS::DRAG_ENTER => 0xA,
            MOUSE_EVENTS::DRAG_LEAVE => 0xB,
            MOUSE_EVENTS::DRAG_REQUEST => 0xC,
            MOUSE_EVENTS::MOUSE_TCLICK => 0xF,
            MOUSE_EVENTS::MOUSE_CLICK => 0xFF,
            MOUSE_EVENTS::DRAGGING => 0x100,
        }
    }
}

/// What triggered a behaviour event. Not an enum: for most events the reason is an
/// opaque engine-supplied number.
#[derive(Copy, Clone, Debug, PartialEq, Eq, Structural, Hash)]
pub struct CLICK_REASON(pub u32);

impl CLICK_REASON {
    /// By mouse button.
    pub const BY_MOUSE_CLICK: u32 = 0;

    /// By keyboard (e.g. spacebar).
    pub const BY_KEY_CLICK: u32 = 1;

    /// Synthesized, by code.
    pub const SYNTHESIZED: u32 = 2;

    /// Icon click, e.g. the arrow icon of a drop-down select.
    pub const BY_MOUSE_ON_ICON: u32 = 3;
}

/// What changed an edit control. Not an enum: the engine may report a reason
/// not listed here.
#[derive(Copy, Clone, Debug, PartialEq, Eq, Structural, Hash)]
pub struct EDIT_CHANGED_REASON(pub u32);

impl EDIT_CHANGED_REASON {
    /// Single char insertion.
    pub const BY_INS_CHAR: u32 = 0;

    /// Character range insertion, clipboard.
    pub const BY_INS_CHARS: u32 = 1;

    /// Single char deletion.
    pub const BY_DEL_CHAR: u32 = 2;

    /// Character range (selection) deletion.
    pub const BY_DEL_CHARS: u32 = 3;

    /// Undo/redo.
    pub const BY_UNDO_REDO: u32 = 4;

    /// Single char insertion, the previous character having been inserted just before.
    pub const CHANGE_BY_INS_CONSECUTIVE_CHAR: u32 = 5;

    /// Single char removal, the previous character having been removed just before.
    pub const CHANGE_BY_DEL_CONSECUTIVE_CHAR: u32 = 6;

    pub const CHANGE_BY_CODE: u32 = 7;
}

/// Behaviour event codes. Not an enum: the engine owns this code space and sends
/// codes that have no name here (application codes at or above
/// `FIRST_APPLICATION_EVENT_CODE`, codes of later engine versions).
#[derive(Copy, Clone, Debug, PartialEq, Eq, Structural, Hash)]
pub struct BEHAVIOR_EVENTS(pub u32);

impl BEHAVIOR_EVENTS {
    /// Click on button.
    pub const BUTTON_CLICK: u32 = 0x00;

    /// Mouse down or key down in button.
    pub const BUTTON_PRESS: u32 = 0x01;

    /// Checkbox/radio/slider changed its state/value.
    pub const BUTTON_STATE_CHANGED: u32 = 0x02;

    /// Before text change.
    pub const EDIT_VALUE_CHANGING: u32 = 0x03;

    /// After text change.
    pub const EDIT_VALUE_CHANGED: u32 = 0x04;

    /// Selection in `<select>` is changed.
    pub const SELECT_SELECTION_CHANGED: u32 = 0x05;

    /// Value of `<select>` is changed.
    pub const SELECT_VALUE_CHANGED: u32 = 0x06;

    /// Request to show a popup just received; the popup's DOM can be modified here.
    pub const POPUP_REQUEST: u32 = 0x07;

    /// The popup has been measured and is ready to be shown.
    pub const POPUP_READY: u32 = 0x08;

    /// The popup is closed; its DOM can be modified again.
    pub const POPUP_DISMISSED: u32 = 0x09;

    /// Menu item activated by mouse hover or by keyboard.
    pub const MENU_ITEM_ACTIVE: u32 = 0x0A;

    /// Menu item click.
    pub const MENU_ITEM_CLICK: u32 = 0x0B;

    /// Right-click: the element is the popup menu being processed, if any.
    pub const CONTEXT_MENU_REQUEST: u32 = 0x10;

    /// Broadcast to all elements of a container being shown or hidden.
    pub const VISIUAL_STATUS_CHANGED: u32 = 0x11;

    /// Broadcast to all elements of a container whose `:disabled` state changed.
    pub const DISABLED_STATUS_CHANGED: u32 = 0x12;

    /// The popup is about to be closed.
    pub const POPUP_DISMISSING: u32 = 0x13;

    /// Content has been changed; the reason is a combination of content-change bits.
    pub const CONTENT_CHANGED: u32 = 0x15;

    /// Generic click.
    pub const CLICK: u32 = 0x16;

    /// Generic change.
    pub const CHANGE: u32 = 0x17;

    /// Media changed (screen resolution, number of displays, etc.).
    pub const MEDIA_CHANGED: u32 = 0x18;

    /// Input language has changed; the data is the language-country string.
    pub const INPUT_LANGUAGE_CHANGED: u32 = 0x19;

    /// Editable content has changed.
    pub const CONTENT_MODIFIED: u32 = 0x1A;

    /// Broadcast to all elements of a container whose `:read-only` state changed.
    pub const READONLY_STATUS_CHANGED: u32 = 0x1B;

    /// Change in `aria-live="polite|assertive"`.
    pub const ARIA_LIVE_AREA_CHANGED: u32 = 0x1C;

    /// Hyperlink click.
    pub const HYPERLINK_CLICK: u32 = 0x80;

    pub const PASTE_TEXT: u32 = 0x8E;

    pub const PASTE_HTML: u32 = 0x8F;

    /// Element was collapsed.
    pub const ELEMENT_COLLAPSED: u32 = 0x90;

    /// Element was expanded.
    pub const ELEMENT_EXPANDED: u32 = 0x91;

    /// Activate (select) a child.
    pub const ACTIVATE_CHILD: u32 = 0x92;

    /// UI state changed; observers update their visual states.
    pub const UI_STATE_CHANGED: u32 = 0x95;

    /// A form is about to be submitted.
    pub const FORM_SUBMIT: u32 = 0x96;

    /// A form is about to be reset.
    pub const FORM_RESET: u32 = 0x97;

    /// Document in a frame, or the root document, is complete.
    pub const DOCUMENT_COMPLETE: u32 = 0x98;

    /// Request to the history behaviour.
    pub const HISTORY_PUSH: u32 = 0x99;

    pub const HISTORY_DROP: u32 = 0x9A;

    pub const HISTORY_PRIOR: u32 = 0x9B;

    pub const HISTORY_NEXT: u32 = 0x9C;

    /// The history stack has changed.
    pub const HISTORY_STATE_CHANGED: u32 = 0x9D;

    /// Close popup request.
    pub const CLOSE_POPUP: u32 = 0x9E;

    /// Request tooltip.
    pub const TOOLTIP_REQUEST: u32 = 0x9F;

    /// Animation started (reason 1) or ended (reason 0) on the element.
    pub const ANIMATION: u32 = 0xA0;

    /// Document created, script namespace initialized.
    pub const DOCUMENT_CREATED: u32 = 0xC0;

    /// Document is about to be closed.
    pub const DOCUMENT_CLOSE_REQUEST: u32 = 0xC1;

    /// Last notification before document removal from the DOM.
    pub const DOCUMENT_CLOSE: u32 = 0xC2;

    /// Document has its DOM, styles and behaviours; scripts have run.
    pub const DOCUMENT_READY: u32 = 0xC3;

    /// Document just finished parsing, before `DOCUMENT_READY`.
    pub const DOCUMENT_PARSED: u32 = 0xC4;

    /// `<video>` ready.
    pub const VIDEO_INITIALIZED: u32 = 0xD1;

    /// `<video>` playback started.
    pub const VIDEO_STARTED: u32 = 0xD2;

    /// `<video>` playback stopped or paused.
    pub const VIDEO_STOPPED: u32 = 0xD3;

    /// `<video>` request for frame source binding.
    pub const VIDEO_BIND_RQ: u32 = 0xD4;

    /// Pager starts pagination.
    pub const PAGINATION_STARTS: u32 = 0xE0;

    /// Pager paginated a page; the reason is its number.
    pub const PAGINATION_PAGE: u32 = 0xE1;

    /// Pager ends pagination; the reason is the total page count.
    pub const PAGINATION_ENDS: u32 = 0xE2;

    /// Event with a custom name.
    pub const CUSTOM: u32 = 0xF0;

    /// Delayed component mount.
    pub const MOUNT_COMPONENT: u32 = 0xF1;

    /// Custom event codes are above this number; the engine only dispatches them.
    pub const FIRST_APPLICATION_EVENT_CODE: u32 = 0x100;
}

impl core::ops::BitOr for EVENT_GROUPS {
    type Output = EVENT_GROUPS;

    /// The union of two sets of groups.
    fn bitor(self, rhs: EVENT_GROUPS) -> (r: EVENT_GROUPS) {
        EVENT_GROUPS(self.0 | rhs.0)
    }
}

impl vstd::std_specs::ops::BitOrSpecImpl for EVENT_GROUPS {
    open spec fn obeys_bitor_spec() -> bool {
        true
    }

    open spec fn bitor_req(self, rhs: EVENT_GROUPS) -> bool {
        true
    }

    open spec fn bitor_spec(self, rhs: EVENT_GROUPS) -> EVENT_GROUPS {
        EVENT_GROUPS(self.0 | rhs.0)
    }
}

/// Combining event groups with `|` is a set union of their bits: the order and
/// grouping of the operands do not matter, repeating a group adds nothing,
/// `HANDLE_INITIALIZATION` adds nothing, every operand's groups stay subscribed, and
/// `HANDLE_ALL` already holds every group below it.
pub proof fn lemma_event_groups_union(a: EVENT_GROUPS, b: EVENT_GROUPS, c: EVENT_GROUPS)
    ensures
        a.bitor_spec(b) == b.bitor_spec(a),
        a.bitor_spec(b).bitor_spec(c) == a.bitor_spec(b.bitor_spec(c)),
        a.bitor_spec(a) == a,
        a.bitor_spec(EVENT_GROUPS(EVENT_GROUPS::HANDLE_INITIALIZATION)) == a,
        a.bitor_spec(b).0 & a.0 == a.0,
        a.bitor_spec(b).0 & b.0 == b.0,
        a.0 <= EVENT_GROUPS::HANDLE_ALL ==> a.bitor_spec(EVENT_GROUPS(EVENT_GROUPS::HANDLE_ALL))
            == EVENT_GROUPS(EVENT_GROUPS::HANDLE_ALL),
{
    let (x, y, z) = (a.0, b.0, c.0);
    assert(x | y == y | x) by (bit_vector);
    assert((x | y) | z == x | (y | z)) by (bit_vector);
    assert(x | x == x) by (bit_vector);
    assert(x | 0u32 == x) by (bit_vector);
    assert((x | y) & x == x) by (bit_vector);
    assert((x | y) & y == y) by (bit_vector);
    assert(x <= 0xFFFFu32 ==> x | 0xFFFFu32 == 0xFFFFu32) by (bit_vector);
}

} // verus!
