//! Where a window's content comes from, and the URL a webview is pointed at.
use vstd::prelude::*;
use vstd::string::*;
use crate::protocol::{index_page, local_origin};
use crate::text::{has_prefix, starts_with};

verus! {

/// The URL of a window's content: a path inside the application, or an external URL
/// (held in its serialized form).
#[derive(Clone)]
pub enum WindowUrl {
    App(String),
    External(String),
}

/// Where the application's frontend is found: at a URL, or in a list of files.
#[derive(Clone)]
pub enum AppUrl {
    Url(WindowUrl),
    Files(Vec<String>),
}

/// The base URL of the application's own pages: an external URL where one is configured,
/// and the local origin otherwise.
pub open spec fn served_url(app_url: AppUrl) -> Seq<char> {
    match app_url {
        AppUrl::Url(WindowUrl::External(url)) => url@,
        _ => local_origin(),
    }
}

/// The base URL of the application's own pages, for the configured frontend location.
pub fn served_url_of(app_url: &AppUrl) -> (r: String)
    ensures
        r@ == served_url(*app_url),
{
    match app_url {
        AppUrl::Url(WindowUrl::External(url)) => url.clone(),
        _ => String::from_str("tauri://localhost"),
    }
}

/// The scheme of the application's own protocol.
pub open spec fn local_scheme() -> Seq<char> {
    "tauri://"@
}

/// Whether a window with this URL is served by the application itself, and the URL its webview
/// loads. An application path is local, and is appended to the base URL with a `/` (the index
/// page is the base URL itself); an external URL is local where it uses the application's scheme.
pub open spec fn window_target(base: Seq<char>, url: WindowUrl) -> (bool, Seq<char>) {
    match url {
        WindowUrl::App(path) => (
            true,
            if path@ != index_page() {
                base + "/"@ + path@
            } else {
                base
            },
        ),
        WindowUrl::External(u) => (has_prefix(u@, local_scheme()), u@),
    }
}

/// Whether a window with this URL is local, and the URL its webview loads; `base` is the base
/// URL of the application's pages.
pub fn resolve_window_url(base: &str, url: &WindowUrl) -> (r: (bool, String))
    ensures
        (r.0, r.1@) == window_target(base@, *url),
{
    match url {
        WindowUrl::App(path) => {
            if !path.eq(&String::from_str("index.html")) {
                let mut u = String::from_str(base);
                u.append("/");
                u.append(path.as_str());
                (true, u)
            } else {
                (true, String::from_str(base))
            }
        },
        WindowUrl::External(u) => {
            let local = starts_with(u.as_str(), "tauri://");
            (local, u.clone())
        },
    }
}

/// An application path other than the index page is loaded from the given base URL: the URL
/// begins with the base, then a `/`, then the path. The index page is the base URL itself.
/// Either way the window is served by the application.
pub proof fn law_app_path_is_loaded_from_base(base: Seq<char>, path: String)
    ensures
        window_target(base, WindowUrl::App(path)).0,
        path@ != index_page() ==> {
            let url = window_target(base, WindowUrl::App(path)).1;
            &&& url.len() == base.len() + 1 + path@.len()
            &&& url.take(base.len() as int) == base
            &&& url[base.len() as int] == '/'
            &&& url.skip(base.len() + 1int) == path@
        },
        path@ == index_page() ==> window_target(base, WindowUrl::App(path)).1 == base,
{
    reveal_strlit("/");
    if path@ != index_page() {
        let url = base + "/"@ + path@;
        assert(url.take(base.len() as int) =~= base);
        assert(url.skip(base.len() + 1int) =~= path@);
    }
}

/// An external URL is loaded as it is, whatever the base URL, and is served by the application
/// exactly when it uses the application's scheme.
pub proof fn law_external_url_is_loaded_as_is(base: Seq<char>, url: String)
    ensures
        window_target(base, WindowUrl::External(url)).1 == url@,
        window_target(base, WindowUrl::External(url)).0 == (url@.len() >= 8 && url@.take(8) == "tauri://"@),
{
    reveal_strlit("tauri://");
}

/// The base URL is the configured URL where it is an external URL, and the local origin for an
/// application path or a list of files.
pub proof fn law_served_url(app_url: AppUrl)
    ensures
        app_url matches AppUrl::Url(WindowUrl::External(u)) ==> served_url(app_url) == u@,
        !(app_url matches AppUrl::Url(WindowUrl::External(_))) ==> served_url(app_url) == "tauri://localhost"@,
{
}

} // verus!
