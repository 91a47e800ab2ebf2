//! The window manager: the application's configuration, its windows, its event listeners,
//! its one-time salts, and the preparation of windows before they are created.
use vstd::prelude::*;
use vstd::string::*;
use std::collections::{HashMap, HashSet};
use std::marker::PhantomData;
use crate::error::ManagerError;
use crate::ids::{hyphenated, is_v4, lemma_hyphenated_parses_back, parse_uuid, random_uuid, uuid_parse, uuid_text};
use crate::json::{json_array, json_text, string_views};
use crate::listeners::{
    after_trigger, ids_distinct, opt_view, reached_ids, without_id, HandlerView, Listeners,
};
use crate::menu::{collect_ids, copy_menu, get_menu_ids, same_entries, Menu};
use crate::scripts::{
    event_initialization_script, event_script_text, initialization_script, initialization_text,
    window_labels_script, window_labels_text,
};
use crate::urls::{resolve_window_url, served_url, served_url_of, window_target, AppUrl, WindowUrl};
use crate::text::{lemma_occurs_between, occurs_in};
use crate::windows::{has_label, labels_distinct, WindowRegistry};

verus! {

broadcast use vstd::std_specs::hash::group_hash_axioms;

/// A zero-sized marker that names the type parameters of a manager: events, labels, menu ids,
/// tray menu ids, assets and runtime.
pub struct Args<E, L, MID, TID, A, R> {
    _event: PhantomData<E>,
    _label: PhantomData<L>,
    _menu_id: PhantomData<MID>,
    _tray_menu_id: PhantomData<TID>,
    _assets: PhantomData<A>,
    _runtime: PhantomData<R>,
}

impl<E, L, MID, TID, A, R> Args<E, L, MID, TID, A, R> {
    /// The marker: every field is the zero-sized `PhantomData`.
    pub closed spec fn marker() -> Self {
        Args {
            _event: PhantomData,
            _label: PhantomData,
            _menu_id: PhantomData,
            _tray_menu_id: PhantomData,
            _assets: PhantomData,
            _runtime: PhantomData,
        }
    }
}

impl<E, L, MID, TID, A, R> Default for Args<E, L, MID, TID, A, R> {
    fn default() -> (r: Self)
        ensures
            r == Self::marker(),
    {
        Args {
            _event: PhantomData,
            _label: PhantomData,
            _menu_id: PhantomData,
            _tray_menu_id: PhantomData,
            _assets: PhantomData,
            _runtime: PhantomData,
        }
    }
}

/// The name and version of the application.
#[derive(Clone)]
pub struct PackageInfo {
    pub name: String,
    pub version: String,
}

/// How the frontend is built and served.
#[derive(Clone)]
pub struct BuildConfig {
    /// Where the frontend is served while developing.
    pub dev_path: AppUrl,
    /// Where the built frontend is.
    pub dist_dir: AppUrl,
    /// Whether the global JavaScript API is injected into every webview.
    pub with_global_tauri: bool,
}

/// The configuration of the application, as far as the manager reads it.
#[derive(Clone)]
pub struct Config {
    pub build: BuildConfig,
    /// The bundle identifier, under which the application's data directory is found.
    pub identifier: String,
}

/// The attributes of the webview of a window that is about to be created.
pub struct WebviewAttributes {
    pub url: WindowUrl,
    /// The scripts run in the webview before the page, in order.
    pub initialization_scripts: Vec<String>,
    /// The URI schemes for which a protocol is registered, in the order of registration.
    pub uri_scheme_protocols: Vec<String>,
    /// The directory where the webview keeps its data.
    pub data_directory: Option<String>,
}

/// What the window itself is built with, as far as the manager sets it.
pub struct WindowBuilder {
    /// The window's icon, as raw image bytes.
    pub icon: Option<Vec<u8>>,
    pub menu: Option<Menu>,
}

/// A window that is about to be created.
pub struct PendingWindow {
    pub label: String,
    /// The URL that its webview loads.
    pub url: String,
    pub webview_attributes: WebviewAttributes,
    pub window_builder: WindowBuilder,
    /// Whether messages from the webview are handed to the command handler.
    pub rpc_handler: bool,
    /// Whether file drops on the window are reported as events.
    pub file_drop_handler: bool,
}

/// The bytes of an optional icon.
pub open spec fn icon_view(o: Option<Vec<u8>>) -> Option<Seq<u8>> {
    match o {
        Some(v) => Some(v@),
        None => None,
    }
}

/// The registered schemes after registering `s` where it is not registered yet.
pub open spec fn with_scheme(schemes: Seq<Seq<char>>, s: Seq<char>) -> Seq<Seq<char>> {
    if schemes.contains(s) {
        schemes
    } else {
        schemes.push(s)
    }
}

/// The registered schemes after registering each of `add`, in order, where it is not yet.
pub open spec fn with_schemes(schemes: Seq<Seq<char>>, add: Seq<Seq<char>>) -> Seq<Seq<char>>
    decreases add.len(),
{
    if add.len() == 0 {
        schemes
    } else {
        with_scheme(with_schemes(schemes, add.drop_last()), add.last())
    }
}

/// The scheme of the protocol that serves the application's own assets.
pub open spec fn asset_scheme() -> Seq<char> {
    "tauri"@
}

/// Whether the text `s` is one of `v`.
fn contains_text(v: &Vec<String>, s: &str) -> (r: bool)
    ensures
        r == string_views(v@).contains(s@),
{
    let target = String::from_str(s);
    let mut i: usize = 0;
    while i < v.len()
        invariant
            i <= v@.len(),
            target@ == s@,
            forall|j: int| 0 <= j < i ==> #[trigger] v@[j]@ != s@,
        decreases v@.len() - i,
    {
        if v[i].eq(&target) {
            proof {
                assert(string_views(v@)[i as int] == s@);
            }
            return true;
        }
        i = i + 1;
    }
    proof {
        if string_views(v@).contains(s@) {
            let k = choose|k: int| 0 <= k < string_views(v@).len() && string_views(v@)[k] == s@;
            assert(v@[k]@ == s@);
        }
    }
    false
}

/// Registers the scheme `s` in `schemes` where it is not registered yet.
fn register_scheme(schemes: &mut Vec<String>, s: &str)
    ensures
        string_views(final(schemes)@) == with_scheme(string_views(old(schemes)@), s@),
{
    if !contains_text(schemes, s) {
        let ghost before = schemes@;
        schemes.push(String::from_str(s));
        proof {
            assert(string_views(schemes@) =~= string_views(before).push(s@));
        }
    }
}

/// Who serves a registered URI scheme of a window.
#[derive(PartialEq, Eq, Structural, Debug)]
pub enum ProtocolSource {
    /// The protocol the window registered itself.
    Window,
    /// The manager's protocol for every window.
    Manager,
    /// The protocol that serves the application's assets.
    Asset,
}

/// The manager of an application's windows; `W` is the type of a window handle.
pub struct WindowManager<W> {
    config: Config,
    dev: bool,
    package_info: PackageInfo,
    default_window_icon: Option<Vec<u8>>,
    menu: Option<Menu>,
    menu_ids: HashMap<u32, String>,
    uri_scheme_protocols: Vec<String>,
    windows: WindowRegistry<W>,
    salts: HashSet<u128>,
    listeners: Listeners,
    core_script: String,
    bundle_script: String,
}

impl<W> WindowManager<W> {
    /// The manager is well formed: its window registry and its listeners are. Every manager
    /// keeps this invariant.
    #[verifier::type_invariant]
    pub closed spec fn wf(&self) -> bool {
        self.windows.wf() && self.listeners.wf()
    }

    /// The windows, by label.
    pub closed spec fn windows_view(&self) -> Map<Seq<char>, W> {
        self.windows@
    }

    /// The salts issued and not yet verified.
    pub closed spec fn salts_view(&self) -> Set<u128> {
        self.salts@
    }

    /// The registered event handlers, in the order of registration.
    pub closed spec fn handlers_view(&self) -> Seq<HandlerView> {
        self.listeners@
    }

    /// The names of the global objects of event delivery: the function, the listeners object,
    /// and the queue.
    pub closed spec fn object_names(&self) -> (Seq<char>, Seq<char>, Seq<char>) {
        self.listeners.names()
    }

    /// The configuration the manager was made with.
    pub closed spec fn config_view(&self) -> &Config {
        &self.config
    }

    /// Whether the frontend is served by a development server.
    pub closed spec fn dev_view(&self) -> bool {
        self.dev
    }

    /// The package information the manager was made with.
    pub closed spec fn package_info_view(&self) -> &PackageInfo {
        &self.package_info
    }

    /// The icon given to windows built without one.
    pub closed spec fn default_icon_view(&self) -> Option<Seq<u8>> {
        icon_view(self.default_window_icon)
    }

    /// The menu given to windows built without one.
    pub closed spec fn menu_view(&self) -> Option<Menu> {
        self.menu
    }

    /// The custom menu items' ids, by the runtime's numeric ids.
    pub closed spec fn menu_ids_view(&self) -> Map<u32, String> {
        self.menu_ids@
    }

    /// The schemes of the protocols registered for every window.
    pub closed spec fn schemes_view(&self) -> Seq<Seq<char>> {
        string_views(self.uri_scheme_protocols@)
    }

    /// The core script and the bundle script of the global API.
    pub closed spec fn scripts_view(&self) -> (Seq<char>, Seq<char>) {
        (self.core_script@, self.bundle_script@)
    }

    /// The base URL of the application's pages: the development URL while developing, the
    /// built frontend's otherwise.
    pub open spec fn base_url(&self) -> Seq<char> {
        if self.dev_view() {
            served_url(self.config_view().build.dev_path)
        } else {
            served_url(self.config_view().build.dist_dir)
        }
    }

    /// The event script of this manager's webviews.
    pub open spec fn event_script(&self) -> Seq<char> {
        event_script_text(self.object_names().2, self.object_names().0, self.object_names().1)
    }

    /// The initialization script of this manager's webviews.
    pub open spec fn initialization_text_of(&self, plugin_script: Seq<char>, with_global_tauri: bool) -> Seq<char> {
        initialization_text(
            if with_global_tauri {
                self.scripts_view().1
            } else {
                Seq::empty()
            },
            self.scripts_view().0,
            self.event_script(),
            plugin_script,
        )
    }

    /// What preparing the content of the pending window `p` into `r` does: the initialization
    /// script and the window labels script are added to the webview's scripts; every protocol of
    /// the manager and then the asset protocol are registered where not registered yet; the data
    /// directory is set where one is given; a window built without an icon or a menu gets the
    /// manager's; the label and the webview's URL stay.
    pub open spec fn content_prepared(
        &self,
        p: PendingWindow,
        r: PendingWindow,
        label: Seq<char>,
        pending_labels: Seq<Seq<char>>,
        plugin_script: Seq<char>,
        data_directory: Option<Seq<char>>,
    ) -> bool {
        &&& r.label == p.label
        &&& r.webview_attributes.url == p.webview_attributes.url
        &&& string_views(r.webview_attributes.initialization_scripts@) == string_views(
            p.webview_attributes.initialization_scripts@,
        ).push(self.initialization_text_of(plugin_script, self.config_view().build.with_global_tauri)).push(
            window_labels_text(json_array(pending_labels), json_text(label)),
        )
        &&& string_views(r.webview_attributes.uri_scheme_protocols@) == with_scheme(
            with_schemes(string_views(p.webview_attributes.uri_scheme_protocols@), self.schemes_view()),
            asset_scheme(),
        )
        &&& opt_view(r.webview_attributes.data_directory) == match data_directory {
            Some(d) => Some(d),
            None => opt_view(p.webview_attributes.data_directory),
        }
        &&& icon_view(r.window_builder.icon) == if p.window_builder.icon is None {
            self.default_icon_view()
        } else {
            icon_view(p.window_builder.icon)
        }
        &&& match p.window_builder.menu {
            Some(_) => r.window_builder.menu == p.window_builder.menu,
            None => match self.menu_view() {
                Some(m) => r.window_builder.menu is Some && same_entries(
                    m.items@,
                    r.window_builder.menu->0.items@,
                ),
                None => r.window_builder.menu is None,
            },
        }
    }

    /// Whether preparing `p` fails on its icon: the window is built without one, the manager has
    /// a default icon, and the runtime does not accept that icon (`default_icon_check` is its
    /// answer on the default icon).
    pub open spec fn icon_refused(&self, p: PendingWindow, default_icon_check: Result<(), String>) -> bool {
        p.window_builder.icon is None && self.default_icon_view() is Some && default_icon_check is Err
    }

    /// Whether two managers have the same settings: configuration, package information, default
    /// icon and menu, menu ids, protocols, scripts, and names of the event delivery objects.
    pub open spec fn same_settings(&self, other: &Self) -> bool {
        &&& self.config_view() == other.config_view()
        &&& self.dev_view() == other.dev_view()
        &&& self.package_info_view() == other.package_info_view()
        &&& self.default_icon_view() == other.default_icon_view()
        &&& self.menu_view() == other.menu_view()
        &&& self.menu_ids_view() == other.menu_ids_view()
        &&& self.schemes_view() == other.schemes_view()
        &&& self.scripts_view() == other.scripts_view()
        &&& self.object_names() == other.object_names()
    }

    /// A manager with no window, no handler and no salt. The custom items of `menu` are mapped
    /// from their numeric ids, and the event delivery objects get fresh random names.
    pub fn new(
        config: Config,
        dev: bool,
        package_info: PackageInfo,
        default_window_icon: Option<Vec<u8>>,
        menu: Option<Menu>,
        uri_scheme_protocols: Vec<String>,
        core_script: String,
        bundle_script: String,
    ) -> (r: Self)
        ensures
            r.wf(),
            r.windows_view() == Map::<Seq<char>, W>::empty(),
            r.salts_view() == Set::<u128>::empty(),
            r.handlers_view() == Seq::<HandlerView>::empty(),
            exists|a: u128, b: u128, c: u128| is_v4(a) && is_v4(b) && is_v4(c) && r.object_names() == (hyphenated(a), hyphenated(b), hyphenated(c)),
            r.config_view() == config,
            r.dev_view() == dev,
            r.package_info_view() == package_info,
            r.default_icon_view() == icon_view(default_window_icon),
            r.menu_view() == menu,
            r.menu_ids_view() == match menu {
                Some(m) => collect_ids(m.items@, Map::empty()),
                None => Map::<u32, String>::empty(),
            },
            r.schemes_view() == string_views(uri_scheme_protocols@),
            r.scripts_view() == (core_script@, bundle_script@),
    {
        let mut menu_ids: HashMap<u32, String> = HashMap::new();
        match &menu {
            Some(m) => get_menu_ids(&mut menu_ids, m),
            None => {},
        }
        WindowManager {
            config,
            dev,
            package_info,
            default_window_icon,
            menu,
            menu_ids,
            uri_scheme_protocols,
            windows: WindowRegistry::new(),
            salts: HashSet::new(),
            listeners: Listeners::new(),
            core_script,
            bundle_script,
        }
    }

    /// The base URL of the application's pages: where the frontend is served while developing,
    /// and where the built frontend is otherwise; an external URL where one is configured, the
    /// local origin otherwise.
    pub fn get_url(&self) -> (r: String)
        ensures
            r@ == self.base_url(),
    {
        if self.dev {
            served_url_of(&self.config.build.dev_path)
        } else {
            served_url_of(&self.config.build.dist_dir)
        }
    }

    /// The script that sets up event delivery in this manager's webviews.
    pub fn event_initialization_script(&self) -> (r: String)
        ensures
            r@ == self.event_script(),
    {
        let function = self.listeners.function_name();
        let queue = self.listeners.queue_object_name();
        let listeners = self.listeners.listeners_object_name();
        event_initialization_script(function.as_str(), queue.as_str(), listeners.as_str())
    }

    /// The initialization script of this manager's webviews, with the plugins' script.
    pub fn initialization_script(&self, plugin_initialization_script: &str, with_global_tauri: bool) -> (r: String)
        ensures
            r@ == self.initialization_text_of(plugin_initialization_script@, with_global_tauri),
    {
        let event_script = self.event_initialization_script();
        initialization_script(
            self.bundle_script.as_str(),
            self.core_script.as_str(),
            with_global_tauri,
            event_script.as_str(),
            plugin_initialization_script,
        )
    }

    /// Prepares a pending window whose content the application serves: adds the scripts,
    /// gives it the default icon and menu where it has none, registers the protocols and sets
    /// the data directory (`data_directory` is the application's data directory where it could
    /// be resolved and created). Fails where the default icon is due and the runtime does not
    /// accept it (`default_icon_check` is its answer), with the runtime's error.
    fn prepare_pending_window(
        &self,
        pending: PendingWindow,
        label: &str,
        pending_labels: &Vec<String>,
        plugin_initialization_script: &str,
        default_icon_check: &Result<(), String>,
        data_directory: Option<String>,
    ) -> (r: Result<PendingWindow, ManagerError>)
        ensures
            r is Err <==> self.icon_refused(pending, *default_icon_check),
            r matches Err(e) ==> default_icon_check is Err && e == ManagerError::InvalidIcon(default_icon_check->Err_0),
            r matches Ok(q) ==> {
                &&& self.content_prepared(
                    pending,
                    q,
                    label@,
                    string_views(pending_labels@),
                    plugin_initialization_script@,
                    opt_view(data_directory),
                )
                &&& q.url == pending.url
                &&& q.rpc_handler == pending.rpc_handler
                &&& q.file_drop_handler == pending.file_drop_handler
            },
    {
        let PendingWindow { label: own_label, url, webview_attributes, window_builder, rpc_handler, file_drop_handler } =
            pending;
        let WebviewAttributes { url: content_url, initialization_scripts, uri_scheme_protocols, data_directory: old_dir } =
            webview_attributes;
        let mut scripts = initialization_scripts;
        let ghost scripts0 = string_views(scripts@);
        let is_init_global = self.config.build.with_global_tauri;
        let init = self.initialization_script(plugin_initialization_script, is_init_global);
        scripts.push(init);
        let labels_script = window_labels_script(pending_labels, label);
        scripts.push(labels_script);
        proof {
            assert(string_views(scripts@) =~= scripts0.push(init@).push(labels_script@));
        }

        let WindowBuilder { icon, menu } = window_builder;
        let icon = if icon.is_none() {
            match &self.default_window_icon {
                Some(i) => {
                    match default_icon_check {
                        Ok(()) => {},
                        Err(message) => return Err(ManagerError::InvalidIcon(message.clone())),
                    }
                    let c = i.clone();
                    proof {
                        assert(c@ =~= i@);
                    }
                    Some(c)
                },
                None => None,
            }
        } else {
            icon
        };
        let menu = match menu {
            Some(m) => Some(m),
            None => match &self.menu {
                Some(m) => Some(copy_menu(m)),
                None => None,
            },
        };

        let mut schemes = uri_scheme_protocols;
        let ghost schemes0 = string_views(schemes@);
        let mut i: usize = 0;
        while i < self.uri_scheme_protocols.len()
            invariant
                i <= self.uri_scheme_protocols@.len(),
                string_views(schemes@) == with_schemes(
                    schemes0,
                    string_views(self.uri_scheme_protocols@).take(i as int),
                ),
            decreases self.uri_scheme_protocols@.len() - i,
        {
            proof {
                let all = string_views(self.uri_scheme_protocols@);
                assert(all.take(i + 1).drop_last() =~= all.take(i as int));
                assert(all.take(i + 1).last() == self.uri_scheme_protocols@[i as int]@);
            }
            register_scheme(&mut schemes, self.uri_scheme_protocols[i].as_str());
            i = i + 1;
        }
        proof {
            assert(string_views(self.uri_scheme_protocols@).take(i as int) =~= self.schemes_view());
            reveal_strlit("tauri");
        }
        register_scheme(&mut schemes, "tauri");

        let dir = match data_directory {
            Some(d) => Some(d),
            None => old_dir,
        };
        Ok(PendingWindow {
            label: own_label,
            url,
            webview_attributes: WebviewAttributes {
                url: content_url,
                initialization_scripts: scripts,
                uri_scheme_protocols: schemes,
                data_directory: dir,
            },
            window_builder: WindowBuilder { icon, menu },
            rpc_handler,
            file_drop_handler,
        })
    }

    /// Prepares a window before it is created. Its URL is resolved against the base URL of the
    /// application's pages; a window whose content the application serves has its content
    /// prepared (see `content_prepared`) and its messages handed to the command handler; every
    /// window reports file drops. The preparation fails with `InvalidIcon` and the runtime's error where a served window
    /// would get the default icon and the runtime does not accept it.
    pub fn prepare_window(
        &self,
        pending: PendingWindow,
        pending_labels: &Vec<String>,
        plugin_initialization_script: &str,
        default_icon_check: &Result<(), String>,
        data_directory: Option<String>,
    ) -> (r: Result<PendingWindow, ManagerError>)
        ensures
            r is Err <==> window_target(self.base_url(), pending.webview_attributes.url).0
                && self.icon_refused(pending, *default_icon_check),
            r matches Err(e) ==> default_icon_check is Err && e == ManagerError::InvalidIcon(default_icon_check->Err_0),
            r matches Ok(q) ==> {
                &&& q.url@ == window_target(self.base_url(), pending.webview_attributes.url).1
                &&& q.file_drop_handler
                &&& q.rpc_handler == (window_target(self.base_url(), pending.webview_attributes.url).0
                    || pending.rpc_handler)
                &&& window_target(self.base_url(), pending.webview_attributes.url).0 ==> self.content_prepared(
                    pending,
                    q,
                    pending.label@,
                    string_views(pending_labels@),
                    plugin_initialization_script@,
                    opt_view(data_directory),
                )
                &&& !window_target(self.base_url(), pending.webview_attributes.url).0 ==> {
                    &&& q.label == pending.label
                    &&& q.webview_attributes == pending.webview_attributes
                    &&& q.window_builder == pending.window_builder
                }
            },
    {
        let base = self.get_url();
        let (is_local, url) = resolve_window_url(base.as_str(), &pending.webview_attributes.url);
        let mut pending = pending;
        if is_local {
            let label = pending.label.clone();
            pending = match self.prepare_pending_window(
                pending,
                label.as_str(),
                pending_labels,
                plugin_initialization_script,
                default_icon_check,
                data_directory,
            ) {
                Ok(q) => q,
                Err(e) => return Err(e),
            };
            pending.rpc_handler = true;
        }
        pending.file_drop_handler = true;
        pending.url = url;
        Ok(pending)
    }

    /// Who serves `scheme` on a window that registered `window_schemes` itself: the window's
    /// own protocol wins, then the manager's, then, for the asset scheme, the asset protocol;
    /// no one serves any other scheme. This is the order in which `prepare_window` registers
    /// them where missing.
    pub fn protocol_source(&self, scheme: &str, window_schemes: &Vec<String>) -> (r: Option<ProtocolSource>)
        ensures
            r == if string_views(window_schemes@).contains(scheme@) {
                Some(ProtocolSource::Window)
            } else if self.schemes_view().contains(scheme@) {
                Some(ProtocolSource::Manager)
            } else if scheme@ == asset_scheme() {
                Some(ProtocolSource::Asset)
            } else {
                None::<ProtocolSource>
            },
    {
        if contains_text(window_schemes, scheme) {
            Some(ProtocolSource::Window)
        } else if contains_text(&self.uri_scheme_protocols, scheme) {
            Some(ProtocolSource::Manager)
        } else if String::from_str(scheme).eq(&String::from_str("tauri")) {
            Some(ProtocolSource::Asset)
        } else {
            None
        }
    }

    /// Adds a window under `label`, in place of any window with that label, and returns a clone
    /// of the window.
    pub fn attach_window(&mut self, label: String, window: W) -> (r: W)
        where
            W: Clone,
        ensures
            final(self).wf(),
            final(self).windows_view() == old(self).windows_view().insert(label@, window),
            cloned(window, r),
            final(self).same_settings(old(self)),
            final(self).salts_view() == old(self).salts_view(),
            final(self).handlers_view() == old(self).handlers_view(),
    {
        proof {
            use_type_invariant(&*self);
        }
        let r = window.clone();
        let mut windows = WindowRegistry::new();
        std::mem::swap(&mut windows, &mut self.windows);
        windows.insert(label, window);
        self.windows = windows;
        r
    }

    /// The labels of the windows, each once.
    pub fn labels(&self) -> (r: Vec<String>)
        ensures
            r@.len() == self.windows_view().dom().len(),
            forall|i: int, j: int| 0 <= i < r@.len() && 0 <= j < r@.len() && i != j ==> #[trigger] r@[i]@ != #[trigger] r@[j]@,
            forall|i: int| 0 <= i < r@.len() ==> self.windows_view().contains_key(#[trigger] r@[i]@),
            forall|label: Seq<char>| #[trigger] self.windows_view().contains_key(label) ==> exists|i: int| 0 <= i < r@.len() && #[trigger] r@[i]@ == label,
    {
        proof {
            use_type_invariant(&*self);
        }
        self.windows.labels()
    }

    /// The window under `label`, cloned, if there is one.
    pub fn get_window(&self, label: &str) -> (r: Option<W>)
        where
            W: Clone,
        ensures
            match r {
                Some(w) => self.windows_view().contains_key(label@) && cloned(self.windows_view()[label@], w),
                None => !self.windows_view().contains_key(label@),
            },
    {
        proof {
            use_type_invariant(&*self);
        }
        match self.windows.get(label) {
            Some(w) => Some(w.clone()),
            None => None,
        }
    }

    /// Every window with its label, the windows cloned.
    pub fn windows(&self) -> (r: Vec<(String, W)>)
        where
            W: Clone,
        ensures
            r@.len() == self.windows_view().dom().len(),
            labels_distinct(r@),
            forall|i: int| 0 <= i < r@.len() ==> self.windows_view().contains_key(#[trigger] r@[i].0@)
                && cloned(self.windows_view()[r@[i].0@], r@[i].1),
            forall|label: Seq<char>| #[trigger] self.windows_view().contains_key(label) ==> has_label(r@, label),
    {
        proof {
            use_type_invariant(&*self);
        }
        self.windows.snapshot()
    }

    /// The labels of the windows that an event emitted with `filter` goes to: those `filter`
    /// accepts, each once.
    pub fn emit_targets<F: Fn(&W) -> bool>(&self, filter: F) -> (r: Vec<String>)
        requires
            forall|w: &W| #[trigger] filter.requires((w,)),
        ensures
            forall|i: int, j: int| 0 <= i < r@.len() && 0 <= j < r@.len() && i != j ==> #[trigger] r@[i]@ != #[trigger] r@[j]@,
            forall|i: int| 0 <= i < r@.len() ==> self.windows_view().contains_key(#[trigger] r@[i]@)
                && filter.ensures((&self.windows_view()[r@[i]@],), true),
            forall|label: Seq<char>| #[trigger] self.windows_view().contains_key(label)
                && !(exists|i: int| 0 <= i < r@.len() && #[trigger] r@[i]@ == label)
                ==> filter.ensures((&self.windows_view()[label],), false),
    {
        proof {
            use_type_invariant(&*self);
        }
        self.windows.labels_where(filter)
    }

    /// The configuration of the application.
    pub fn config(&self) -> (r: &Config)
        ensures
            r == self.config_view(),
    {
        &self.config
    }

    /// The name and version of the application.
    pub fn package_info(&self) -> (r: &PackageInfo)
        ensures
            r == self.package_info_view(),
    {
        &self.package_info
    }

    /// A copy of the map from the runtime's numeric ids of custom menu items to their ids.
    pub fn menu_ids(&self) -> (r: HashMap<u32, String>)
        ensures
            r@ == self.menu_ids_view(),
    {
        self.menu_ids.clone()
    }

    /// Removes the event handler with id `handler_id`.
    pub fn unlisten(&mut self, handler_id: u128)
        ensures
            final(self).wf(),
            final(self).handlers_view() == without_id(old(self).handlers_view(), handler_id),
            final(self).same_settings(old(self)),
            final(self).windows_view() == old(self).windows_view(),
            final(self).salts_view() == old(self).salts_view(),
    {
        proof {
            use_type_invariant(&*self);
        }
        let mut listeners = Listeners::placeholder();
        std::mem::swap(&mut listeners, &mut self.listeners);
        listeners.unlisten(handler_id);
        self.listeners = listeners;
    }

    /// Triggers `event` for `window` (none: for every window): returns the ids of the handlers
    /// it reaches, in the order they were registered, and removes the once-handlers among them.
    pub fn trigger(&mut self, event: &str, window: &Option<String>) -> (fired: Vec<u128>)
        ensures
            final(self).wf(),
            fired@ == reached_ids(old(self).handlers_view(), event@, opt_view(*window)),
            final(self).handlers_view() == after_trigger(old(self).handlers_view(), event@, opt_view(*window)),
            final(self).same_settings(old(self)),
            final(self).windows_view() == old(self).windows_view(),
            final(self).salts_view() == old(self).salts_view(),
    {
        proof {
            use_type_invariant(&*self);
        }
        let mut listeners = Listeners::placeholder();
        std::mem::swap(&mut listeners, &mut self.listeners);
        let r = listeners.trigger(event, window);
        self.listeners = listeners;
        r
    }

    /// Registers a handler for `event` in `window` (none: a handler of the whole application)
    /// and returns its id.
    pub fn listen(&mut self, event: String, window: Option<String>) -> (id: u128)
        ensures
            is_v4(id),
            final(self).wf(),
            final(self).handlers_view() == without_id(old(self).handlers_view(), id).push(
                HandlerView { id, event: event@, window: opt_view(window), once: false },
            ),
            final(self).same_settings(old(self)),
            final(self).windows_view() == old(self).windows_view(),
            final(self).salts_view() == old(self).salts_view(),
    {
        proof {
            use_type_invariant(&*self);
        }
        let mut listeners = Listeners::placeholder();
        std::mem::swap(&mut listeners, &mut self.listeners);
        let r = listeners.listen(event, window);
        self.listeners = listeners;
        r
    }

    /// Registers a handler that is removed once an event has reached it, and returns its id.
    pub fn once(&mut self, event: String, window: Option<String>) -> (id: u128)
        ensures
            is_v4(id),
            final(self).wf(),
            final(self).handlers_view() == without_id(old(self).handlers_view(), id).push(
                HandlerView { id, event: event@, window: opt_view(window), once: true },
            ),
            final(self).same_settings(old(self)),
            final(self).windows_view() == old(self).windows_view(),
            final(self).salts_view() == old(self).salts_view(),
    {
        proof {
            use_type_invariant(&*self);
        }
        let mut listeners = Listeners::placeholder();
        std::mem::swap(&mut listeners, &mut self.listeners);
        let r = listeners.once(event, window);
        self.listeners = listeners;
        r
    }

    /// In a well-formed manager no two handlers share an id.
    pub proof fn lemma_handler_ids_distinct(&self)
        requires
            self.wf(),
        ensures
            ids_distinct(self.handlers_view()),
    {
        self.listeners.lemma_ids_distinct();
    }

    /// The ids of the registered event handlers, in the order of registration.
    pub fn handler_ids(&self) -> (r: Vec<u128>)
        ensures
            r@ == self.handlers_view().map_values(|h: HandlerView| h.id),
    {
        self.listeners.ids()
    }

    /// The name of the object that holds a webview's listeners.
    pub fn event_listeners_object_name(&self) -> (r: String)
        ensures
            r@ == self.object_names().1,
    {
        self.listeners.listeners_object_name()
    }

    /// The name of the queue of events that arrive before any listener.
    pub fn event_queue_object_name(&self) -> (r: String)
        ensures
            r@ == self.object_names().2,
    {
        self.listeners.queue_object_name()
    }

    /// The name of the function through which a webview receives events.
    pub fn event_emit_function_name(&self) -> (r: String)
        ensures
            r@ == self.object_names().0,
    {
        self.listeners.function_name()
    }

    /// Issues a fresh random salt and keeps it until it is verified.
    pub fn generate_salt(&mut self) -> (salt: u128)
        ensures
            is_v4(salt),
            final(self).wf(),
            final(self).salts_view() == old(self).salts_view().insert(salt),
            final(self).same_settings(old(self)),
            final(self).windows_view() == old(self).windows_view(),
            final(self).handlers_view() == old(self).handlers_view(),
    {
        proof {
            use_type_invariant(&*self);
        }
        let salt = random_uuid();
        let mut salts = HashSet::new();
        std::mem::swap(&mut salts, &mut self.salts);
        salts.insert(salt);
        self.salts = salts;
        salt
    }

    /// Whether `salt` is the text of a salt that was issued and not yet verified; such a salt
    /// is used up. A text that is not a UUID is rejected.
    pub fn verify_salt(&mut self, salt: String) -> (valid: bool)
        ensures
            final(self).wf(),
            valid == salt_verifies(old(self).salts_view(), salt@),
            final(self).salts_view() == salts_after_verify(old(self).salts_view(), salt@),
            final(self).same_settings(old(self)),
            final(self).windows_view() == old(self).windows_view(),
            final(self).handlers_view() == old(self).handlers_view(),
    {
        proof {
            use_type_invariant(&*self);
        }
        let uuid = match parse_uuid(salt.as_str()) {
            Some(u) => u,
            None => return false,
        };
        let mut salts = HashSet::new();
        std::mem::swap(&mut salts, &mut self.salts);
        let found = salts.remove(&uuid);
        self.salts = salts;
        found
    }
}

/// Whether the text `salt` names a salt in `salts`.
pub open spec fn salt_verifies(salts: Set<u128>, salt: Seq<char>) -> bool {
    match uuid_parse(salt) {
        Some(u) => salts.contains(u),
        None => false,
    }
}

/// The salts left after verifying the text `salt`: the salt it names is used up.
pub open spec fn salts_after_verify(salts: Set<u128>, salt: Seq<char>) -> Set<u128> {
    match uuid_parse(salt) {
        Some(u) => salts.remove(u),
        None => salts,
    }
}

/// The text of a salt, as the webview receives it: the hyphenated lowercase UUID.
pub fn salt_text(salt: u128) -> (r: String)
    ensures
        r@ == hyphenated(salt),
        uuid_parse(r@) == Some(salt),
{
    proof {
        lemma_hyphenated_parses_back(salt);
    }
    uuid_text(salt)
}

/// A salt is accepted exactly once: the text of an issued salt verifies, and after that it
/// no longer does.
pub proof fn law_salt_verifies_once(salts: Set<u128>, salt: u128, text: Seq<char>)
    requires
        uuid_parse(text) == Some(salt),
    ensures
        salt_verifies(salts.insert(salt), text),
        !salt_verifies(salts_after_verify(salts.insert(salt), text), text),
{
}

/// A text that is not a UUID verifies no salt and uses none up.
pub proof fn law_malformed_salt_is_rejected(salts: Set<u128>, text: Seq<char>)
    requires
        uuid_parse(text) is None,
    ensures
        !salt_verifies(salts, text),
        salts_after_verify(salts, text) == salts,
{
}

/// Registering protocols on a webview keeps the protocols it had, first and in order, and
/// leaves every given scheme registered.
pub proof fn law_protocols_are_registered(schemes: Seq<Seq<char>>, add: Seq<Seq<char>>)
    ensures
        with_schemes(schemes, add).take(schemes.len() as int) == schemes,
        with_schemes(schemes, add).len() >= schemes.len(),
        forall|i: int| 0 <= i < add.len() ==> with_schemes(schemes, add).contains(#[trigger] add[i]),
        forall|s: Seq<char>| #[trigger] schemes.contains(s) ==> with_schemes(schemes, add).contains(s),
    decreases add.len(),
{
    if add.len() > 0 {
        let init = add.drop_last();
        law_protocols_are_registered(schemes, init);
        let before = with_schemes(schemes, init);
        let after = with_scheme(before, add.last());
        assert(after.take(schemes.len() as int) =~= before.take(schemes.len() as int));
        assert forall|i: int| 0 <= i < add.len() implies after.contains(#[trigger] add[i]) by {
            if i < add.len() - 1 {
                assert(init[i] == add[i]);
                assert(before.contains(init[i]));
                let k = choose|k: int| 0 <= k < before.len() && before[k] == init[i];
                assert(after[k] == before[k]);
            } else if !before.contains(add.last()) {
                assert(after[before.len() as int] == add.last());
            }
        }
        assert forall|s: Seq<char>| #[trigger] schemes.contains(s) implies after.contains(s) by {
            let k = choose|k: int| 0 <= k < before.len() && before[k] == s;
            assert(after[k] == before[k]);
        }
    } else {
        assert(schemes.take(schemes.len() as int) =~= schemes);
    }
}

/// A window attached under a label is the one found under that label, and the windows under
/// other labels stay as they were.
pub proof fn law_attached_window_is_found<W>(windows: Map<Seq<char>, W>, label: Seq<char>, window: W, other: Seq<char>)
    requires
        other != label,
    ensures
        windows.insert(label, window).contains_key(label),
        windows.insert(label, window)[label] == window,
        windows.insert(label, window).contains_key(other) == windows.contains_key(other),
        windows.contains_key(other) ==> windows.insert(label, window)[other] == windows[other],
{
}

/// The settings of a manager (its configuration, package information, default icon and menu,
/// menu ids, protocols, scripts and object names) stay what they were made with over its whole
/// life: in any run of managers where each is the one before after a method call (every method
/// keeps `same_settings`), every manager has the settings of the first.
pub proof fn law_settings_never_change<W>(run: Seq<WindowManager<W>>)
    requires
        forall|i: int| 0 <= i < run.len() - 1 ==> #[trigger] run[i + 1].same_settings(&run[i]),
    ensures
        forall|i: int| 0 <= i < run.len() ==> #[trigger] run[i].same_settings(&run[0]),
        forall|i: int| 0 <= i < run.len() ==> #[trigger] run[i].config_view() == run[0].config_view()
            && run[i].package_info_view() == run[0].package_info_view(),
    decreases run.len(),
{
    if run.len() > 1 {
        let init = run.drop_last();
        assert forall|i: int| 0 <= i < init.len() - 1 implies #[trigger] init[i + 1].same_settings(&init[i]) by {
            assert(init[i + 1] == run[i + 1] && init[i] == run[i]);
        }
        law_settings_never_change(init);
        assert forall|i: int| 0 <= i < run.len() implies #[trigger] run[i].same_settings(&run[0]) by {
            if i < run.len() - 1 {
                assert(init[i] == run[i]);
                assert(init[i].same_settings(&init[0]));
            } else {
                assert(init[i - 1] == run[i - 1]);
                assert(init[i - 1].same_settings(&init[0]));
                let j = i - 1;
                assert(run[j + 1].same_settings(&run[j]));
                assert(j + 1 == i);
            }
        }
    }
    assert forall|i: int| 0 <= i < run.len() implies #[trigger] run[i].config_view() == run[0].config_view()
        && run[i].package_info_view() == run[0].package_info_view() by {
        assert(run[i].same_settings(&run[0]));
    }
}

/// The base URL of a manager's pages: while developing, the development URL where it is an
/// external URL; otherwise the built frontend's URL where it is an external URL; the local
/// origin in every other case.
pub proof fn law_base_url<W>(m: WindowManager<W>)
    ensures
        m.dev_view() ==> (m.config_view().build.dev_path matches AppUrl::Url(WindowUrl::External(u))
            ==> m.base_url() == u@),
        !m.dev_view() ==> (m.config_view().build.dist_dir matches AppUrl::Url(WindowUrl::External(u))
            ==> m.base_url() == u@),
        m.dev_view() && !(m.config_view().build.dev_path matches AppUrl::Url(WindowUrl::External(_)))
            ==> m.base_url() == "tauri://localhost"@,
        !m.dev_view() && !(m.config_view().build.dist_dir matches AppUrl::Url(WindowUrl::External(_)))
            ==> m.base_url() == "tauri://localhost"@,
{
}

/// The event script sets up delivery through the manager's three objects: it names the queue,
/// the emit function and the listeners object.
pub proof fn law_event_script_names_the_objects<W>(m: WindowManager<W>)
    ensures
        occurs_in(m.object_names().0, m.event_script()),
        occurs_in(m.object_names().1, m.event_script()),
        occurs_in(m.object_names().2, m.event_script()),
{
    let (f, l, q) = m.object_names();
    let ev = m.event_script();
    assert(ev == event_script_text(q, f, l));
    let a = "\n      window['"@;
    let b = "'] = [];\n      window['"@;
    let c = "'] = function (eventData, salt, ignoreQueue) {\n      const listeners = (window['"@;
    let rest_after_l = ev.skip((a + q + b + f + c + l).len() as int);
    assert(ev =~= (a + q) + (b + f + c + l) + rest_after_l) by {
        assert(ev.take((a + q + b + f + c + l).len() as int) =~= a + q + b + f + c + l);
    }
    assert(ev =~= a + q + (b + f + c + l + rest_after_l));
    lemma_occurs_between(a, q, b + f + c + l + rest_after_l);
    assert(ev =~= (a + q + b) + f + (c + l + rest_after_l));
    lemma_occurs_between(a + q + b, f, c + l + rest_after_l);
    assert(ev =~= (a + q + b + f + c) + l + rest_after_l);
    lemma_occurs_between(a + q + b + f + c, l, rest_after_l);
}

/// The initialization script sets up event delivery whether or not the global API is wanted: it
/// holds the manager's event script either way, with the core script and the plugins' script.
#[verifier::rlimit(30)]
pub proof fn law_initialization_holds_event_script<W>(m: WindowManager<W>, plugin_script: Seq<char>, with_global_tauri: bool)
    ensures
        occurs_in(m.event_script(), m.initialization_text_of(plugin_script, with_global_tauri)),
        occurs_in(m.scripts_view().0, m.initialization_text_of(plugin_script, with_global_tauri)),
        occurs_in(plugin_script, m.initialization_text_of(plugin_script, with_global_tauri)),
{
    let nl = "\n      "@;
    let mid = "\n      if (window.rpc) {\n        window.__TAURI__.invoke(\"__initialized\", { url: window.location.href })\n      } else {\n        window.addEventListener('DOMContentLoaded', function () {\n          window.__TAURI__.invoke(\"__initialized\", { url: window.location.href })\n        })\n      }\n      "@;
    let end = "\n    "@;
    let core = m.scripts_view().0;
    let ev = m.event_script();
    let b = if with_global_tauri { m.scripts_view().1 } else { Seq::empty() };
    let t = m.initialization_text_of(plugin_script, with_global_tauri);
    assert(t == nl + b + nl + core + nl + ev + mid + plugin_script + end);
    assert(occurs_in(ev, t)) by {
        assert(t =~= (nl + b + nl + core + nl) + ev + (mid + plugin_script + end));
        lemma_occurs_between(nl + b + nl + core + nl, ev, mid + plugin_script + end);
    }
    assert(occurs_in(core, t)) by {
        assert(t =~= (nl + b + nl) + core + (nl + ev + mid + plugin_script + end));
        lemma_occurs_between(nl + b + nl, core, nl + ev + mid + plugin_script + end);
    }
    assert(occurs_in(plugin_script, t)) by {
        assert(t =~= (nl + b + nl + core + nl + ev + mid) + plugin_script + end);
        lemma_occurs_between(nl + b + nl + core + nl + ev + mid, plugin_script, end);
    }
}

/// The global API only adds the bundle script: the initialization script with it is the script
/// without it with the bundle script put after its first line break and indentation.
#[verifier::rlimit(30)]
pub proof fn law_global_api_only_adds_bundle<W>(m: WindowManager<W>, plugin_script: Seq<char>)
    ensures
        occurs_in(m.scripts_view().1, m.initialization_text_of(plugin_script, true)),
        m.initialization_text_of(plugin_script, true) == m.initialization_text_of(plugin_script, false).take(
            "\n      "@.len() as int,
        ) + m.scripts_view().1 + m.initialization_text_of(plugin_script, false).skip("\n      "@.len() as int),
{
    let nl = "\n      "@;
    let mid = "\n      if (window.rpc) {\n        window.__TAURI__.invoke(\"__initialized\", { url: window.location.href })\n      } else {\n        window.addEventListener('DOMContentLoaded', function () {\n          window.__TAURI__.invoke(\"__initialized\", { url: window.location.href })\n        })\n      }\n      "@;
    let end = "\n    "@;
    let bundle = m.scripts_view().1;
    let x = nl + m.scripts_view().0 + nl + m.event_script() + mid + plugin_script + end;
    let t0 = m.initialization_text_of(plugin_script, false);
    let t1 = m.initialization_text_of(plugin_script, true);
    assert(t0 =~= nl + x);
    assert(t1 =~= nl + bundle + x);
    assert(t0.take(nl.len() as int) =~= nl);
    assert(t0.skip(nl.len() as int) =~= x);
    lemma_occurs_between(nl, bundle, x);
}

/// Preparing a window keeps a menu it already has; only a window without a menu gets the
/// manager's (a copy of it), and without a manager's menu it stays without one.
pub proof fn law_own_menu_is_kept<W>(
    m: WindowManager<W>,
    p: PendingWindow,
    r: PendingWindow,
    label: Seq<char>,
    pending_labels: Seq<Seq<char>>,
    plugin_script: Seq<char>,
    data_directory: Option<Seq<char>>,
)
    requires
        m.content_prepared(p, r, label, pending_labels, plugin_script, data_directory),
    ensures
        p.window_builder.menu is Some ==> r.window_builder.menu == p.window_builder.menu,
        p.window_builder.menu is None && m.menu_view() is None ==> r.window_builder.menu is None,
        p.window_builder.menu is None && m.menu_view() is Some ==> r.window_builder.menu is Some
            && same_entries(m.menu_view()->0.items@, r.window_builder.menu->0.items@),
{
}

/// Verifying a salt text uses up only the salt it names: the salts left are the old ones
/// without that salt, so every other issued salt still verifies afterwards; a text that names
/// no UUID changes nothing.
pub proof fn law_verify_removes_only_its_salt(salts: Set<u128>, text: Seq<char>, other: Seq<char>)
    ensures
        uuid_parse(text) matches Some(u) ==> salts_after_verify(salts, text) == salts.remove(u)
            && salt_verifies(salts, text) == salts.contains(u),
        uuid_parse(text) is None ==> salts_after_verify(salts, text) == salts && !salt_verifies(salts, text),
        uuid_parse(text) != uuid_parse(other) && salt_verifies(salts, other)
            ==> salt_verifies(salts_after_verify(salts, text), other),
{
}

} // verus!
