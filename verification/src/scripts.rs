//! The scripts injected into every webview: event delivery, initialization, the window
//! labels, and the report of a malformed command.
use vstd::prelude::*;
use vstd::string::*;
use crate::json::{json_array, json_text, labels_to_javascript_array, string_views, to_js_string};

verus! {

/// The script that sets up event delivery in a webview, over the names of its global objects.
pub open spec fn event_script_text(queue: Seq<char>, function: Seq<char>, listeners: Seq<char>) -> Seq<char> {
    "\n      window['"@ + queue + "'] = [];\n      window['"@ + function + "'] = function (eventData, salt, ignoreQueue) {\n      const listeners = (window['"@ + listeners + "'] && window['"@ + listeners + "'][eventData.event]) || []\n      if (!ignoreQueue && listeners.length === 0) {\n        window['"@ + queue + "'].push({\n          eventData: eventData,\n          salt: salt\n        })\n      }\n\n      if (listeners.length > 0) {\n        window.__TAURI__.invoke('tauri', {\n          __tauriModule: 'Internal',\n          message: {\n            cmd: 'validateSalt',\n            salt: salt\n          }\n        }).then(function (flag) {\n          if (flag) {\n            for (let i = listeners.length - 1; i >= 0; i--) {\n              const listener = listeners[i]\n              eventData.id = listener.id\n              listener.handler(eventData)\n            }\n          }\n        })\n      }\n    }\n    "@
}

/// The script that sets up event delivery: a queue for events that arrive before any listener,
/// and the function that hands an event to the listeners once its salt is validated.
pub fn event_initialization_script(function: &str, queue: &str, listeners: &str) -> (r: String)
    ensures
        r@ == event_script_text(queue@, function@, listeners@),
{
    let mut r = String::from_str("\n      window['");
    r.append(queue);
    r.append("'] = [];\n      window['");
    r.append(function);
    r.append("'] = function (eventData, salt, ignoreQueue) {\n      const listeners = (window['");
    r.append(listeners);
    r.append("'] && window['");
    r.append(listeners);
    r.append("'][eventData.event]) || []\n      if (!ignoreQueue && listeners.length === 0) {\n        window['");
    r.append(queue);
    r.append("'].push({\n          eventData: eventData,\n          salt: salt\n        })\n      }\n\n      if (listeners.length > 0) {\n        window.__TAURI__.invoke('tauri', {\n          __tauriModule: 'Internal',\n          message: {\n            cmd: 'validateSalt',\n            salt: salt\n          }\n        }).then(function (flag) {\n          if (flag) {\n            for (let i = listeners.length - 1; i >= 0; i--) {\n              const listener = listeners[i]\n              eventData.id = listener.id\n              listener.handler(eventData)\n            }\n          }\n        })\n      }\n    }\n    ");
    r
}

/// The initialization script of a webview, over its parts.
pub open spec fn initialization_text(bundle_script: Seq<char>, core_script: Seq<char>, event_initialization_script: Seq<char>, plugin_initialization_script: Seq<char>) -> Seq<char> {
    "\n      "@ + bundle_script + "\n      "@ + core_script + "\n      "@ + event_initialization_script + "\n      if (window.rpc) {\n        window.__TAURI__.invoke(\"__initialized\", { url: window.location.href })\n      } else {\n        window.addEventListener('DOMContentLoaded', function () {\n          window.__TAURI__.invoke(\"__initialized\", { url: window.location.href })\n        })\n      }\n      "@ + plugin_initialization_script + "\n    "@
}

/// The initialization script: the bundle script where the global API is wanted (and nothing
/// otherwise), the core script, the event script, the notice of initialization sent to the
/// core, and the plugins' script.
pub fn initialization_script(
    bundle_script: &str,
    core_script: &str,
    with_global_tauri: bool,
    event_initialization_script: &str,
    plugin_initialization_script: &str,
) -> (r: String)
    ensures
        r@ == initialization_text(
            if with_global_tauri {
                bundle_script@
            } else {
                Seq::empty()
            },
            core_script@,
            event_initialization_script@,
            plugin_initialization_script@,
        ),
{
    let bundle_script = if with_global_tauri {
        bundle_script
    } else {
        ""
    };
    proof {
        reveal_strlit("");
    }
    let mut r = String::from_str("\n      ");
    r.append(bundle_script);
    r.append("\n      ");
    r.append(core_script);
    r.append("\n      ");
    r.append(event_initialization_script);
    r.append("\n      if (window.rpc) {\n        window.__TAURI__.invoke(\"__initialized\", { url: window.location.href })\n      } else {\n        window.addEventListener('DOMContentLoaded', function () {\n          window.__TAURI__.invoke(\"__initialized\", { url: window.location.href })\n        })\n      }\n      ");
    r.append(plugin_initialization_script);
    r.append("\n    ");
    r
}

/// The script that tells a webview the labels of the windows and its own label.
pub open spec fn window_labels_text(window_labels_array: Seq<char>, current_window_label: Seq<char>) -> Seq<char> {
    "\n              window.__TAURI__.__windows = "@ + window_labels_array + ".map(function (label) { return { label: label } });\n              window.__TAURI__.__currentWindow = { label: "@ + current_window_label + " }\n            "@
}

/// The script that tells a webview the labels of the pending windows, as a JavaScript array,
/// and its own label, as a JSON string.
pub fn window_labels_script(pending_labels: &Vec<String>, label: &str) -> (r: String)
    ensures
        r@ == window_labels_text(json_array(string_views(pending_labels@)), json_text(label@)),
{
    let array = labels_to_javascript_array(pending_labels);
    let current = to_js_string(label);
    let window_labels_array = array.as_str();
    let current_window_label = current.as_str();
    let mut r = String::from_str("\n              window.__TAURI__.__windows = ");
    r.append(window_labels_array);
    r.append(".map(function (label) { return { label: label } });\n              window.__TAURI__.__currentWindow = { label: ");
    r.append(current_window_label);
    r.append(" }\n            ");
    r
}

/// The script that reports, in the webview's console, why a command could not be read.
pub open spec fn invoke_error_text(message: Seq<char>) -> Seq<char> {
    "console.error("@ + json_text(message) + ")"@
}

/// The script that logs `message` with `console.error`, the message as a JSON string.
pub fn invoke_error_script(message: &str) -> (r: String)
    ensures
        r@ == invoke_error_text(message@),
{
    let text = to_js_string(message);
    let mut r = String::from_str("console.error(");
    r.append(text.as_str());
    r.append(")");
    r
}

} // verus!
