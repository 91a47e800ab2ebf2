use tauri_manager::manager::{
    salt_text, ProtocolSource, BuildConfig, Config, PackageInfo, PendingWindow, WebviewAttributes, WindowBuilder,
    WindowManager,
};
use tauri_manager::error::ManagerError;
use tauri_manager::menu::{CustomMenuItem, Menu, MenuEntry, Submenu};
use tauri_manager::urls::{AppUrl, WindowUrl};

fn config(dev_path: AppUrl, dist_dir: AppUrl, with_global_tauri: bool) -> Config {
    Config {
        build: BuildConfig { dev_path, dist_dir, with_global_tauri },
        identifier: "com.tauri.dev".to_string(),
    }
}

fn fixture_config() -> Config {
    config(
        AppUrl::Url(WindowUrl::External("http://localhost:4000/".to_string())),
        AppUrl::Url(WindowUrl::App("../dist".to_string())),
        true,
    )
}

fn package() -> PackageInfo {
    PackageInfo { name: "test".to_string(), version: "0.1.0".to_string() }
}

fn manager_with(dev: bool, menu: Option<Menu>, icon: Option<Vec<u8>>) -> WindowManager<String> {
    WindowManager::new(
        fixture_config(),
        dev,
        package(),
        icon,
        menu,
        vec!["custom".to_string()],
        "CORE".to_string(),
        "BUNDLE".to_string(),
    )
}

fn manager(dev: bool) -> WindowManager<String> {
    manager_with(dev, None, None)
}

fn pending(label: &str, url: WindowUrl) -> PendingWindow {
    PendingWindow {
        label: label.to_string(),
        url: String::new(),
        webview_attributes: WebviewAttributes {
            url,
            initialization_scripts: Vec::new(),
            uri_scheme_protocols: Vec::new(),
            data_directory: None,
        },
        window_builder: WindowBuilder { icon: None, menu: None },
        rpc_handler: false,
        file_drop_handler: false,
    }
}

#[test]
fn check_get_url() {
    let custom_protocol = manager(false);
    assert_eq!(custom_protocol.get_url(), "tauri://localhost");

    let dev = manager(true);
    assert_eq!(dev.get_url(), "http://localhost:4000/");
}

#[test]
fn get_url_of_files_is_local_origin() {
    let m: WindowManager<String> = WindowManager::new(
        config(AppUrl::Files(vec!["a.html".to_string()]), AppUrl::Files(vec![]), false),
        true,
        package(),
        None,
        None,
        vec![],
        String::new(),
        String::new(),
    );
    assert_eq!(m.get_url(), "tauri://localhost");
}

#[test]
fn attached_window_is_found_and_listed() {
    let mut m = manager(false);
    assert!(m.get_window("main").is_none());
    assert_eq!(m.attach_window("main".to_string(), "first".to_string()), "first");
    m.attach_window("other".to_string(), "second".to_string());
    m.attach_window("main".to_string(), "third".to_string());
    assert_eq!(m.get_window("main"), Some("third".to_string()));
    assert_eq!(m.get_window("other"), Some("second".to_string()));
    let mut labels = m.labels();
    labels.sort();
    assert_eq!(labels, vec!["main".to_string(), "other".to_string()]);
    let mut windows = m.windows();
    windows.sort();
    assert_eq!(
        windows,
        vec![("main".to_string(), "third".to_string()), ("other".to_string(), "second".to_string())]
    );
}

#[test]
fn emit_targets_follow_the_filter() {
    let mut m = manager(false);
    m.attach_window("a".to_string(), "keep".to_string());
    m.attach_window("b".to_string(), "drop".to_string());
    m.attach_window("c".to_string(), "keep".to_string());
    let targets = m.emit_targets(|w: &String| w.as_str() == "keep");
    assert_eq!(targets, vec!["a".to_string(), "c".to_string()]);
}

#[test]
fn generated_salt_verifies_once() {
    let mut m = manager(false);
    let salt = m.generate_salt();
    let text = salt_text(salt);
    assert_eq!(text, uuid::Uuid::from_u128(salt).to_string());
    assert!(m.verify_salt(text.clone()));
    assert!(!m.verify_salt(text));
}

#[test]
fn malformed_or_unknown_salt_is_rejected() {
    let mut m = manager(false);
    let salt = m.generate_salt();
    assert!(!m.verify_salt("not a uuid".to_string()));
    assert!(!m.verify_salt("00000000-0000-0000-0000-000000000000".to_string()));
    assert!(m.verify_salt(uuid::Uuid::from_u128(salt).to_simple().to_string()));
}

#[test]
fn salt_text_is_hyphenated_lowercase() {
    assert_eq!(
        salt_text(0x0123_4567_89ab_cdef_0123_4567_89ab_cdefu128),
        "01234567-89ab-cdef-0123-456789abcdef"
    );
}

#[test]
fn listeners_reach_the_right_handlers() {
    let mut m = manager(false);
    let global = m.listen("evt".to_string(), None);
    let main = m.listen("evt".to_string(), Some("main".to_string()));
    let other_event = m.listen("other".to_string(), None);
    let single = m.once("evt".to_string(), Some("main".to_string()));

    assert_eq!(m.trigger("evt", &None), vec![global, main, single]);
    assert_eq!(m.trigger("evt", &Some("main".to_string())), vec![main]);
    assert_eq!(m.trigger("evt", &Some("side".to_string())), Vec::<u128>::new());

    m.unlisten(main);
    assert_eq!(m.trigger("evt", &None), vec![global]);
    assert_eq!(m.trigger("other", &None), vec![other_event]);
}

#[test]
fn handler_ids_follow_registration() {
    let mut m = manager(false);
    assert!(m.handler_ids().is_empty());
    let a = m.listen("x".to_string(), None);
    let b = m.once("y".to_string(), None);
    assert_eq!(m.handler_ids(), vec![a, b]);
    m.trigger("y", &None);
    assert_eq!(m.handler_ids(), vec![a]);
}

#[test]
fn once_handler_fires_once() {
    let mut m = manager(false);
    let id = m.once("ready".to_string(), None);
    assert_eq!(m.trigger("ready", &None), vec![id]);
    assert_eq!(m.trigger("ready", &None), Vec::<u128>::new());
}

#[test]
fn object_names_are_uuid_texts() {
    let m = manager(false);
    for name in [m.event_emit_function_name(), m.event_listeners_object_name(), m.event_queue_object_name()] {
        assert_eq!(name.len(), 36);
        assert!(uuid::Uuid::parse_str(&name).is_ok());
        assert_eq!(name, name.to_lowercase());
    }
    assert_ne!(m.event_emit_function_name(), m.event_queue_object_name());
}

#[test]
fn event_initialization_script_uses_the_names() {
    let m = manager(false);
    let script = m.event_initialization_script();
    let queue = m.event_queue_object_name();
    let function = m.event_emit_function_name();
    let listeners = m.event_listeners_object_name();
    assert!(script.starts_with(&format!("\n      window['{}'] = [];\n      window['{}'] = function", queue, function)));
    assert!(script.contains(&format!("(window['{}'] && window['{}'][eventData.event])", listeners, listeners)));
    assert!(script.contains(&format!("window['{}'].push({{", queue)));
}

#[test]
fn initialization_script_includes_bundle_only_with_global_api() {
    let m = manager(false);
    let event = m.event_initialization_script();
    let with_global = m.initialization_script("PLUGINS", true);
    let expected = format!(
        "\n      BUNDLE\n      CORE\n      {}\n      if (window.rpc) {{\n        window.__TAURI__.invoke(\"__initialized\", {{ url: window.location.href }})\n      }} else {{\n        window.addEventListener('DOMContentLoaded', function () {{\n          window.__TAURI__.invoke(\"__initialized\", {{ url: window.location.href }})\n        }})\n      }}\n      PLUGINS\n    ",
        event
    );
    assert_eq!(with_global, expected);
    let without = m.initialization_script("PLUGINS", false);
    assert!(without.starts_with("\n      \n      CORE\n"));
}

#[test]
fn prepare_window_of_app_path() {
    let m = manager_with(false, None, Some(vec![1, 2, 3]));
    let labels = vec!["main".to_string(), "second".to_string()];
    let p = m.prepare_window(
        pending("main", WindowUrl::App("page.html".to_string())),
        &labels,
        "PLUGINS",
        &Ok(()),
        Some("/data/dir".to_string()),
    )
    .unwrap();
    assert_eq!(p.url, "tauri://localhost/page.html");
    assert!(p.rpc_handler);
    assert!(p.file_drop_handler);
    assert_eq!(p.webview_attributes.initialization_scripts.len(), 2);
    assert_eq!(p.webview_attributes.initialization_scripts[0], m.initialization_script("PLUGINS", true));
    assert_eq!(
        p.webview_attributes.initialization_scripts[1],
        "\n              window.__TAURI__.__windows = [\"main\",\"second\"].map(function (label) { return { label: label } });\n              window.__TAURI__.__currentWindow = { label: \"main\" }\n            "
    );
    assert_eq!(p.webview_attributes.uri_scheme_protocols, vec!["custom".to_string(), "tauri".to_string()]);
    assert_eq!(p.webview_attributes.data_directory, Some("/data/dir".to_string()));
    assert_eq!(p.window_builder.icon, Some(vec![1, 2, 3]));
}

#[test]
fn prepare_window_of_index_page_uses_base_url() {
    let m = manager(true);
    let p = m.prepare_window(pending("main", WindowUrl::App("index.html".to_string())), &vec![], "", &Ok(()), None).unwrap();
    assert_eq!(p.url, "http://localhost:4000/");
    assert!(p.rpc_handler);
}

#[test]
fn prepare_window_keeps_registered_protocols_and_icon() {
    let m = manager_with(false, None, Some(vec![9]));
    let mut w = pending("main", WindowUrl::App("a".to_string()));
    w.webview_attributes.uri_scheme_protocols = vec!["tauri".to_string(), "x".to_string()];
    w.window_builder.icon = Some(vec![7]);
    let p = m.prepare_window(w, &vec![], "", &Err("bad".to_string()), None).unwrap();
    assert_eq!(
        p.webview_attributes.uri_scheme_protocols,
        vec!["tauri".to_string(), "x".to_string(), "custom".to_string()]
    );
    assert_eq!(p.window_builder.icon, Some(vec![7]));
    assert_eq!(p.webview_attributes.data_directory, None);
}

#[test]
fn prepare_window_of_external_url() {
    let m = manager(false);
    let p = m.prepare_window(
        pending("ext", WindowUrl::External("https://example.com/".to_string())),
        &vec![],
        "",
        &Ok(()),
        Some("/dir".to_string()),
    )
    .unwrap();
    assert_eq!(p.url, "https://example.com/");
    assert!(!p.rpc_handler);
    assert!(p.file_drop_handler);
    assert!(p.webview_attributes.initialization_scripts.is_empty());
    assert!(p.webview_attributes.uri_scheme_protocols.is_empty());
    assert_eq!(p.webview_attributes.data_directory, None);

    let local = m.prepare_window(pending("l", WindowUrl::External("tauri://localhost/x".to_string())), &vec![], "", &Ok(()), None).unwrap();
    assert!(local.rpc_handler);
    assert_eq!(local.url, "tauri://localhost/x");
}

fn sample_menu() -> Menu {
    Menu {
        items: vec![
            MenuEntry::CustomItem(CustomMenuItem { id: "open".to_string(), id_value: 1, title: "Open".to_string() }),
            MenuEntry::NativeItem,
            MenuEntry::Submenu(Submenu {
                title: "More".to_string(),
                inner: Menu {
                    items: vec![
                        MenuEntry::CustomItem(CustomMenuItem { id: "close".to_string(), id_value: 2, title: "Close".to_string() }),
                        MenuEntry::CustomItem(CustomMenuItem { id: "again".to_string(), id_value: 1, title: "Again".to_string() }),
                    ],
                },
            }),
        ],
    }
}

#[test]
fn menu_ids_cover_nested_items() {
    let m = manager_with(false, Some(sample_menu()), None);
    let ids = m.menu_ids();
    assert_eq!(ids.len(), 2);
    assert_eq!(ids.get(&1), Some(&"again".to_string()));
    assert_eq!(ids.get(&2), Some(&"close".to_string()));
}

#[test]
fn prepared_window_gets_the_menu() {
    let m = manager_with(false, Some(sample_menu()), None);
    let p = m.prepare_window(pending("main", WindowUrl::App("a".to_string())), &vec![], "", &Ok(()), None).unwrap();
    let menu = p.window_builder.menu.expect("menu");
    assert_eq!(menu.items.len(), 3);
    match &menu.items[2] {
        MenuEntry::Submenu(s) => assert_eq!(s.inner.items.len(), 2),
        _ => panic!("expected a submenu"),
    }
}

#[test]
fn config_and_package_info_are_kept() {
    let m = manager(false);
    assert_eq!(m.package_info().name, "test");
    assert_eq!(m.config().identifier, "com.tauri.dev");
    assert!(m.config().build.with_global_tauri);
}

#[test]
fn refused_default_icon_fails_served_windows_only() {
    let m = manager_with(false, None, Some(vec![1]));
    match m.prepare_window(pending("main", WindowUrl::App("a".to_string())), &vec![], "", &Err("not a png".to_string()), None) {
        Err(ManagerError::InvalidIcon(message)) => assert_eq!(message, "not a png"),
        _ => panic!("expected InvalidIcon"),
    }
    let external = m.prepare_window(
        pending("ext", WindowUrl::External("https://example.com/".to_string())),
        &vec![],
        "",
        &Err("not a png".to_string()),
        None,
    );
    assert!(external.is_ok());
    let no_default = manager(false);
    assert!(no_default.prepare_window(pending("main", WindowUrl::App("a".to_string())), &vec![], "", &Err("not a png".to_string()), None).is_ok());
}

#[test]
fn handler_ids_and_salts_are_version_4() {
    let mut m = manager(false);
    let id = m.listen("e".to_string(), None);
    let salt = m.generate_salt();
    for v in [id, salt] {
        assert_eq!((v >> 76) & 0xf, 4);
        assert_eq!((v >> 62) & 3, 2);
    }
}

#[test]
fn salts_parse_in_every_uuid_form() {
    let mut m = manager(false);
    let a = m.generate_salt();
    assert!(m.verify_salt(salt_text(a).to_uppercase()));
    let b = m.generate_salt();
    assert!(m.verify_salt(format!("urn:uuid:{}", salt_text(b))));
    let c = m.generate_salt();
    assert!(!m.verify_salt(format!("{{{}}}", salt_text(c))));
    assert!(!m.verify_salt(format!("{}-", salt_text(c))));
    assert!(m.verify_salt(salt_text(c)));
}

#[test]
fn protocol_sources_in_order() {
    let m = manager(false);
    let own = vec!["custom".to_string(), "mine".to_string()];
    assert_eq!(m.protocol_source("custom", &own), Some(ProtocolSource::Window));
    assert_eq!(m.protocol_source("custom", &vec![]), Some(ProtocolSource::Manager));
    assert_eq!(m.protocol_source("tauri", &vec![]), Some(ProtocolSource::Asset));
    assert_eq!(m.protocol_source("tauri", &vec!["tauri".to_string()]), Some(ProtocolSource::Window));
    assert_eq!(m.protocol_source("other", &own), None);
}
