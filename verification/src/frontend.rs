//! The web frontend's routes: which request paths it serves, and with what file
//! and content type.
use vstd::prelude::*;
use crate::strutil::{str_eq, trim_end_char, trim_end_spec};

verus! {

/// The frontend component; it depends on the API and on the websockets.
#[derive(Clone, Copy, Debug, PartialEq, Eq)]
pub struct Frontend;

/// Whether `p` is one of the paths the frontend serves (after trailing slashes are cut).
pub open spec fn frontend_path(p: Seq<char>) -> bool {
    ||| p == "/"@
    ||| p == ""@
    ||| p == "/static/style.css"@
    ||| p == "/static/wasm/frontend.js"@
    ||| p == "/static/wasm/frontend_bg.wasm"@
}

/// Checks whether the frontend handles a request to `url`.
pub fn should_handle(url: &str) -> (r: bool)
    ensures
        r == frontend_path(trim_end_spec(url@, '/')),
{
    let url = trim_end_char(url, '/');
    str_eq(url, "/") || str_eq(url, "") || str_eq(url, "/static/style.css") || str_eq(url, "/static/wasm/frontend.js")
        || str_eq(url, "/static/wasm/frontend_bg.wasm")
}

/// A file that the frontend serves.
#[derive(Clone, Copy, Debug, PartialEq, Eq, Structural)]
pub enum Asset {
    /// The HTML page.
    Index,
    /// The style sheet.
    Style,
    /// The JavaScript glue of the web assembly.
    Script,
    /// The web assembly.
    Wasm,
}

impl Asset {
    /// The path of the file below the server's working directory.
    pub open spec fn file_path_spec(self) -> Seq<char> {
        match self {
            Asset::Index => "static/index.html"@,
            Asset::Style => "static/style.css"@,
            Asset::Script => "static/wasm/frontend.js"@,
            Asset::Wasm => "static/wasm/frontend_bg.wasm"@,
        }
    }

    /// The path of the file below the server's working directory.
    pub fn file_path(&self) -> (r: &'static str)
        ensures
            r@ == self.file_path_spec(),
    {
        match self {
            Asset::Index => "static/index.html",
            Asset::Style => "static/style.css",
            Asset::Script => "static/wasm/frontend.js",
            Asset::Wasm => "static/wasm/frontend_bg.wasm",
        }
    }

    /// The content type the file is sent with.
    pub fn content_type(&self) -> (r: &'static str)
        ensures
            r@ == match *self {
                Asset::Index => "text/html; charset=utf-8"@,
                Asset::Style => "text/css; charset=utf-8"@,
                Asset::Script => "text/javascript; charset=utf-8"@,
                Asset::Wasm => "application/wasm"@,
            },
    {
        match self {
            Asset::Index => "text/html; charset=utf-8",
            Asset::Style => "text/css; charset=utf-8",
            Asset::Script => "text/javascript; charset=utf-8",
            Asset::Wasm => "application/wasm",
        }
    }
}

/// The asset served for a request to exactly `path`, if any.
pub open spec fn asset_for(path: Seq<char>) -> Option<Asset> {
    if path == "/"@ || path == ""@ {
        Some(Asset::Index)
    } else if path == "/static/style.css"@ {
        Some(Asset::Style)
    } else if path == "/static/wasm/frontend.js"@ {
        Some(Asset::Script)
    } else if path == "/static/wasm/frontend_bg.wasm"@ {
        Some(Asset::Wasm)
    } else {
        None
    }
}

/// The asset served for a request to `path`: none unless the frontend handles it.
pub open spec fn route_spec(path: Seq<char>) -> Option<Asset> {
    if frontend_path(trim_end_spec(path, '/')) {
        asset_for(path)
    } else {
        None
    }
}

/// A request is served the file it names: the index page for `/` (or the empty
/// path), and otherwise the asset whose file path is the request path without its
/// leading `/`; and a request naming an asset's file (other than the index page)
/// is served that asset.
pub proof fn law_route_serves_the_named_file(path: Seq<char>, a: Asset)
    ensures
        route_spec(path) == Some(a) ==> if a == Asset::Index {
            path == "/"@ || path == ""@
        } else {
            "/"@ + a.file_path_spec() == path
        },
        a != Asset::Index ==> route_spec("/"@ + a.file_path_spec()) == Some(a),
{
    reveal_strlit("/");
    reveal_strlit("");
    reveal_strlit("static/style.css");
    reveal_strlit("static/wasm/frontend.js");
    reveal_strlit("static/wasm/frontend_bg.wasm");
    reveal_strlit("/static/style.css");
    reveal_strlit("/static/wasm/frontend.js");
    reveal_strlit("/static/wasm/frontend_bg.wasm");
    assert("/"@ + "static/style.css"@ =~= "/static/style.css"@);
    assert("/"@ + "static/wasm/frontend.js"@ =~= "/static/wasm/frontend.js"@);
    assert("/"@ + "static/wasm/frontend_bg.wasm"@ =~= "/static/wasm/frontend_bg.wasm"@);
    let p = "/"@ + a.file_path_spec();
    if a != Asset::Index {
        assert(p.last() != '/');
        assert(trim_end_spec(p, '/') == p);
    }
    if route_spec(path) == Some(a) && a != Asset::Index {
        assert(path != "/"@ && path != ""@);
    }
}

/// The asset to serve for a request to `path`; `None` when the frontend does not
/// handle the request (and also for a handled path with trailing slashes other
/// than `/`, which is not served).
pub fn route(path: &str) -> (r: Option<Asset>)
    ensures
        r == route_spec(path@),
{
    if !should_handle(path) {
        return None;
    }
    if str_eq(path, "/") || str_eq(path, "") {
        Some(Asset::Index)
    } else if str_eq(path, "/static/style.css") {
        Some(Asset::Style)
    } else if str_eq(path, "/static/wasm/frontend.js") {
        Some(Asset::Script)
    } else if str_eq(path, "/static/wasm/frontend_bg.wasm") {
        Some(Asset::Wasm)
    } else {
        None
    }
}

} // verus!
