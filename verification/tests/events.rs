use tauri_manager::events::{
    on_file_drop, on_menu_event, on_window_event, tauri_event, EventPayload, FileDropEvent,
    WindowEvent,
};
use tauri_manager::json::{labels_to_javascript_array, to_js_string};
use tauri_manager::scripts::{invoke_error_script, window_labels_script};
use tauri_manager::urls::{resolve_window_url, WindowUrl};

#[test]
fn window_events_are_named() {
    let cases = vec![
        (WindowEvent::Resized { width: 10, height: 20 }, "tauri://resize"),
        (WindowEvent::Moved { x: -1, y: 2 }, "tauri://move"),
        (WindowEvent::CloseRequested, "tauri://close-requested"),
        (WindowEvent::Destroyed, "tauri://destroyed"),
        (WindowEvent::Focused(true), "tauri://focus"),
        (WindowEvent::Focused(false), "tauri://blur"),
        (WindowEvent::ScaleFactorChanged { new_inner_width: 3, new_inner_height: 4 }, "tauri://scale-change"),
    ];
    for (event, name) in cases {
        assert_eq!(on_window_event(&event).event, name);
    }
}

#[test]
fn window_event_payloads() {
    match on_window_event(&WindowEvent::Resized { width: 10, height: 20 }).payload {
        EventPayload::Size { width, height } => assert_eq!((width, height), (10, 20)),
        _ => panic!("expected a size"),
    }
    match on_window_event(&WindowEvent::Moved { x: -5, y: 7 }).payload {
        EventPayload::Position { x, y } => assert_eq!((x, y), (-5, 7)),
        _ => panic!("expected a position"),
    }
    match on_window_event(&WindowEvent::ScaleFactorChanged { new_inner_width: 3, new_inner_height: 4 }).payload {
        EventPayload::ScaleChange { width, height } => assert_eq!((width, height), (3, 4)),
        _ => panic!("expected a scale change"),
    }
    assert!(matches!(on_window_event(&WindowEvent::Destroyed).payload, EventPayload::Unit));
}

#[test]
fn file_drop_events_are_named() {
    let hovered = on_file_drop(FileDropEvent::Hovered(vec!["a".to_string()]));
    assert_eq!(hovered.event, "tauri://file-drop");
    assert_eq!(hovered.paths, Some(vec!["a".to_string()]));
    assert!(hovered.handled);
    let dropped = on_file_drop(FileDropEvent::Dropped(vec!["b".to_string()]));
    assert_eq!(dropped.event, "tauri://file-drop-hover");
    let cancelled = on_file_drop(FileDropEvent::Cancelled);
    assert_eq!(cancelled.event, "tauri://file-drop-cancelled");
    assert_eq!(cancelled.paths, None);
}

#[test]
fn menu_event_carries_the_item_id() {
    let (event, id) = on_menu_event(&"quit".to_string());
    assert_eq!(event, "tauri://menu");
    assert_eq!(id, "quit");
    assert_eq!(tauri_event("tauri://resize"), "tauri://resize");
}

#[test]
fn javascript_array_matches_json() {
    let labels = vec!["main".to_string(), "with \"quote\"".to_string(), "back\\slash\n".to_string()];
    assert_eq!(labels_to_javascript_array(&labels), serde_json::to_string(&labels).unwrap());
    assert_eq!(labels_to_javascript_array(&vec![]), "[]");
    assert_eq!(to_js_string("a\"b"), "\"a\\\"b\"");
    let controls = "\u{1}\u{8}\t\n\u{c}\r\u{1f} é\u{7f}";
    assert_eq!(to_js_string(controls), serde_json::to_string(controls).unwrap());
    assert_eq!(to_js_string("\u{1}\u{1f}"), "\"\\u0001\\u001f\"");
}

#[test]
fn labels_script() {
    let script = window_labels_script(&vec!["a".to_string()], "a");
    assert_eq!(
        script,
        "\n              window.__TAURI__.__windows = [\"a\"].map(function (label) { return { label: label } });\n              window.__TAURI__.__currentWindow = { label: \"a\" }\n            "
    );
}

#[test]
fn invoke_error_is_logged_as_json_string() {
    assert_eq!(invoke_error_script("missing field `cmd`"), "console.error(\"missing field `cmd`\")");
    assert_eq!(invoke_error_script("a\"b"), "console.error(\"a\\\"b\")");
}

#[test]
fn window_urls_resolve() {
    let (local, url) = resolve_window_url("tauri://localhost", &WindowUrl::App("index.html".to_string()));
    assert!(local);
    assert_eq!(url, "tauri://localhost");
    let (local, url) = resolve_window_url("tauri://localhost", &WindowUrl::App("sub/page.html".to_string()));
    assert!(local);
    assert_eq!(url, "tauri://localhost/sub/page.html");
    let (local, url) = resolve_window_url("x", &WindowUrl::External("https://tauri.studio/".to_string()));
    assert!(!local);
    assert_eq!(url, "https://tauri.studio/");
}
