use vstd::prelude::*;

verus! {

// ---------------------------------------------------------------------------
// The HTTP surface: four fixed routes. Three serve one hardcoded payload
// each with a fixed content type; the fourth upgrades the connection to the
// realtime push channel. No other path is served.
// ---------------------------------------------------------------------------
/// One of the four routes the server answers.
#[derive(Clone, Copy, Debug, PartialEq, Eq)]
pub enum Route {
    /// `/` — the dashboard page.
    Dashboard,
    /// `/index.mjs` — the script resource.
    Script,
    /// `/index.css` — the style resource.
    Style,
    /// `/realtime/cpus` — the push-channel upgrade endpoint.
    RealtimeCpus,
}

/// The path of the dashboard page, `/`.
pub open spec fn dashboard_path() -> Seq<u8> {
    seq![47u8]
}

/// The path of the script resource, `/index.mjs`.
pub open spec fn script_path() -> Seq<u8> {
    seq![47u8, 105u8, 110u8, 100u8, 101u8, 120u8, 46u8, 109u8, 106u8, 115u8]
}

/// The path of the style resource, `/index.css`.
pub open spec fn style_path() -> Seq<u8> {
    seq![47u8, 105u8, 110u8, 100u8, 101u8, 120u8, 46u8, 99u8, 115u8, 115u8]
}

/// The path of the upgrade endpoint, `/realtime/cpus`.
pub open spec fn realtime_path() -> Seq<u8> {
    seq![
        47u8,
        114u8,
        101u8,
        97u8,
        108u8,
        116u8,
        105u8,
        109u8,
        101u8,
        47u8,
        99u8,
        112u8,
        117u8,
        115u8,
    ]
}

/// Which route a request path hits: exactly one of the four fixed paths, or
/// none.
pub open spec fn route_spec(p: Seq<u8>) -> Option<Route> {
    if p == dashboard_path() {
        Some(Route::Dashboard)
    } else if p == script_path() {
        Some(Route::Script)
    } else if p == style_path() {
        Some(Route::Style)
    } else if p == realtime_path() {
        Some(Route::RealtimeCpus)
    } else {
        None
    }
}

/// Compares two byte strings.
fn bytes_eq(a: &Vec<u8>, b: &Vec<u8>) -> (r: bool)
    ensures
        r == (a@ == b@),
{
    if a.len() != b.len() {
        return false;
    }
    let n = a.len();
    let mut i: usize = 0;
    while i < n
        invariant
            n == a@.len(),
            n == b@.len(),
            i <= n,
            forall|j: int| 0 <= j < i as int ==> a@[j] == b@[j],
        decreases n - i,
    {
        if a[i] != b[i] {
            return false;
        }
        i = i + 1;
    }
    proof {
        assert(a@ =~= b@);
    }
    true
}

/// Builds the byte string of one of the four route paths.
fn path_bytes(r: Route) -> (p: Vec<u8>)
    ensures
        p@ == match r {
            Route::Dashboard => dashboard_path(),
            Route::Script => script_path(),
            Route::Style => style_path(),
            Route::RealtimeCpus => realtime_path(),
        },
{
    let mut p: Vec<u8> = Vec::new();
    match r {
        Route::Dashboard => {
            p.push(47);
            proof {
                assert(p@ =~= dashboard_path());
            }
        },
        Route::Script => {
            p.push(47);
            p.push(105);
            p.push(110);
            p.push(100);
            p.push(101);
            p.push(120);
            p.push(46);
            p.push(109);
            p.push(106);
            p.push(115);
            proof {
                assert(p@ =~= script_path());
            }
        },
        Route::Style => {
            p.push(47);
            p.push(105);
            p.push(110);
            p.push(100);
            p.push(101);
            p.push(120);
            p.push(46);
            p.push(99);
            p.push(115);
            p.push(115);
            proof {
                assert(p@ =~= style_path());
            }
        },
        Route::RealtimeCpus => {
            p.push(47);
            p.push(114);
            p.push(101);
            p.push(97);
            p.push(108);
            p.push(116);
            p.push(105);
            p.push(109);
            p.push(101);
            p.push(47);
            p.push(99);
            p.push(112);
            p.push(117);
            p.push(115);
            proof {
                assert(p@ =~= realtime_path());
            }
        },
    }
    p
}

/// Dispatches a request path to its route, exactly as `route_spec`
/// describes: the four fixed paths and nothing else.
pub fn route_of(path: &Vec<u8>) -> (r: Option<Route>)
    ensures
        r == route_spec(path@),
{
    let dashboard = path_bytes(Route::Dashboard);
    if bytes_eq(path, &dashboard) {
        return Some(Route::Dashboard);
    }
    let script = path_bytes(Route::Script);
    if bytes_eq(path, &script) {
        return Some(Route::Script);
    }
    let style = path_bytes(Route::Style);
    if bytes_eq(path, &style) {
        return Some(Route::Style);
    }
    let realtime = path_bytes(Route::RealtimeCpus);
    if bytes_eq(path, &realtime) {
        return Some(Route::RealtimeCpus);
    }
    None
}

/// The fixed content type of each asset route; the upgrade endpoint has
/// none — it answers with a protocol switch, not a payload.
pub fn content_type_of(r: Route) -> (c: Option<&'static str>)
    ensures
        match r {
            Route::Dashboard => c matches Some(s) && s@ == "text/html"@,
            Route::Script => c matches Some(s) && s@ == "application/javascript;charset=utf-8"@,
            Route::Style => c matches Some(s) && s@ == "text/css;charset=utf-8"@,
            Route::RealtimeCpus => c is None,
        },
{
    match r {
        Route::Dashboard => Some("text/html"),
        Route::Script => Some("application/javascript;charset=utf-8"),
        Route::Style => Some("text/css;charset=utf-8"),
        Route::RealtimeCpus => None,
    }
}

} // verus!
