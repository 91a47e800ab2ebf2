//! The events that the manager emits to a window's webview when the window, a file drop or
//! a menu reports something.
use vstd::prelude::*;
use vstd::string::*;

verus! {

/// The event emitted when a window is resized.
pub const WINDOW_RESIZED_EVENT: &'static str = "tauri://resize";
/// The event emitted when a window is moved.
pub const WINDOW_MOVED_EVENT: &'static str = "tauri://move";
/// The event emitted when the user asks to close a window.
pub const WINDOW_CLOSE_REQUESTED_EVENT: &'static str = "tauri://close-requested";
/// The event emitted when a window is destroyed.
pub const WINDOW_DESTROYED_EVENT: &'static str = "tauri://destroyed";
/// The event emitted when a window gains focus.
pub const WINDOW_FOCUS_EVENT: &'static str = "tauri://focus";
/// The event emitted when a window loses focus.
pub const WINDOW_BLUR_EVENT: &'static str = "tauri://blur";
/// The event emitted when a window's scale factor changes.
pub const WINDOW_SCALE_FACTOR_CHANGED_EVENT: &'static str = "tauri://scale-change";
/// The event emitted when a menu item is clicked.
pub const MENU_EVENT: &'static str = "tauri://menu";
/// The event emitted when files are dragged over a window.
pub const FILE_DROP_EVENT: &'static str = "tauri://file-drop";
/// The event emitted when files are dropped on a window.
pub const FILE_DROP_HOVER_EVENT: &'static str = "tauri://file-drop-hover";
/// The event emitted when a drag of files leaves a window.
pub const FILE_DROP_CANCELLED_EVENT: &'static str = "tauri://file-drop-cancelled";

/// What a window reports. The scale factor of a scale change is not held here: it is a float,
/// and it is passed through unchanged by the caller.
pub enum WindowEvent {
    Resized { width: u32, height: u32 },
    Moved { x: i32, y: i32 },
    CloseRequested,
    Destroyed,
    Focused(bool),
    ScaleFactorChanged { new_inner_width: u32, new_inner_height: u32 },
}

/// The payload that goes with an emitted window event.
pub enum EventPayload {
    /// A physical size.
    Size { width: u32, height: u32 },
    /// A physical position.
    Position { x: i32, y: i32 },
    /// The unit payload.
    Unit,
    /// The new inner size after a change of scale factor (with the scale factor beside it).
    ScaleChange { width: u32, height: u32 },
}

/// An event to emit to a window: its name and its payload.
pub struct Emission {
    pub event: String,
    pub payload: EventPayload,
}

/// The name of the event emitted for a window event.
pub open spec fn window_event_name(e: WindowEvent) -> Seq<char> {
    match e {
        WindowEvent::Resized { .. } => WINDOW_RESIZED_EVENT@,
        WindowEvent::Moved { .. } => WINDOW_MOVED_EVENT@,
        WindowEvent::CloseRequested => WINDOW_CLOSE_REQUESTED_EVENT@,
        WindowEvent::Destroyed => WINDOW_DESTROYED_EVENT@,
        WindowEvent::Focused(focused) => if focused {
            WINDOW_FOCUS_EVENT@
        } else {
            WINDOW_BLUR_EVENT@
        },
        WindowEvent::ScaleFactorChanged { .. } => WINDOW_SCALE_FACTOR_CHANGED_EVENT@,
    }
}

/// The payload emitted for a window event.
pub open spec fn window_event_payload(e: WindowEvent) -> EventPayload {
    match e {
        WindowEvent::Resized { width, height } => EventPayload::Size { width, height },
        WindowEvent::Moved { x, y } => EventPayload::Position { x, y },
        WindowEvent::ScaleFactorChanged { new_inner_width, new_inner_height } =>
            EventPayload::ScaleChange { width: new_inner_width, height: new_inner_height },
        _ => EventPayload::Unit,
    }
}

/// The event that the manager emits to a window's webview for a window event.
pub fn on_window_event(e: &WindowEvent) -> (r: Emission)
    ensures
        r.event@ == window_event_name(*e),
        r.payload == window_event_payload(*e),
{
    match e {
        WindowEvent::Resized { width, height } => Emission {
            event: String::from_str(WINDOW_RESIZED_EVENT),
            payload: EventPayload::Size { width: *width, height: *height },
        },
        WindowEvent::Moved { x, y } => Emission {
            event: String::from_str(WINDOW_MOVED_EVENT),
            payload: EventPayload::Position { x: *x, y: *y },
        },
        WindowEvent::CloseRequested => Emission {
            event: String::from_str(WINDOW_CLOSE_REQUESTED_EVENT),
            payload: EventPayload::Unit,
        },
        WindowEvent::Destroyed => Emission {
            event: String::from_str(WINDOW_DESTROYED_EVENT),
            payload: EventPayload::Unit,
        },
        WindowEvent::Focused(focused) => Emission {
            event: if *focused {
                String::from_str(WINDOW_FOCUS_EVENT)
            } else {
                String::from_str(WINDOW_BLUR_EVENT)
            },
            payload: EventPayload::Unit,
        },
        WindowEvent::ScaleFactorChanged { new_inner_width, new_inner_height } => Emission {
            event: String::from_str(WINDOW_SCALE_FACTOR_CHANGED_EVENT),
            payload: EventPayload::ScaleChange { width: *new_inner_width, height: *new_inner_height },
        },
    }
}

/// What a window reports of files dragged onto it.
pub enum FileDropEvent {
    Hovered(Vec<String>),
    Dropped(Vec<String>),
    Cancelled,
}

/// The event to emit for a file drop: its name, and the paths where the event has them.
pub struct FileDropEmission {
    pub event: String,
    pub paths: Option<Vec<String>>,
    /// Whether the drop counts as handled, which the manager always answers with `true`.
    pub handled: bool,
}

/// The name of the event emitted for a file drop. Hovering emits the file-drop event and
/// dropping the file-drop-hover event: the two are paired this way round.
pub open spec fn file_drop_event_name(e: FileDropEvent) -> Seq<char> {
    match e {
        FileDropEvent::Hovered(_) => FILE_DROP_EVENT@,
        FileDropEvent::Dropped(_) => FILE_DROP_HOVER_EVENT@,
        FileDropEvent::Cancelled => FILE_DROP_CANCELLED_EVENT@,
    }
}

/// The event that the manager emits for a file drop, with the paths of a hover or drop.
pub fn on_file_drop(e: FileDropEvent) -> (r: FileDropEmission)
    ensures
        r.event@ == file_drop_event_name(e),
        r.paths == match e {
            FileDropEvent::Hovered(paths) => Some(paths),
            FileDropEvent::Dropped(paths) => Some(paths),
            FileDropEvent::Cancelled => None::<Vec<String>>,
        },
        r.handled,
{
    match e {
        FileDropEvent::Hovered(paths) => FileDropEmission {
            event: String::from_str(FILE_DROP_EVENT),
            paths: Some(paths),
            handled: true,
        },
        FileDropEvent::Dropped(paths) => FileDropEmission {
            event: String::from_str(FILE_DROP_HOVER_EVENT),
            paths: Some(paths),
            handled: true,
        },
        FileDropEvent::Cancelled => FileDropEmission {
            event: String::from_str(FILE_DROP_CANCELLED_EVENT),
            paths: None,
            handled: true,
        },
    }
}

/// The event emitted when a menu item is clicked: the menu event, with the item's id.
pub fn on_menu_event(menu_item_id: &String) -> (r: (String, String))
    ensures
        r.0@ == MENU_EVENT@,
        r.1@ == menu_item_id@,
{
    (String::from_str(MENU_EVENT), menu_item_id.clone())
}

/// The event named by one of the manager's own event strings. Events are strings here, so
/// the name is the event.
pub fn tauri_event(name: &str) -> (r: String)
    ensures
        r@ == name@,
{
    String::from_str(name)
}

} // verus!
