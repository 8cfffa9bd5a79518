use crate::routes::Route;
use vstd::prelude::*;

verus! {

// ---------------------------------------------------------------------------
// The fixed asset payloads. Each asset route answers with one hardcoded
// body, served verbatim: the response is a function of the route alone, so
// repeated requests get byte-identical answers.
// ---------------------------------------------------------------------------
/// The dashboard page served at `/`.
pub const DASHBOARD_PAGE: &'static str = "<!doctype html>\n<html lang='en'>\n<head>\n<meta charset='utf-8'>\n<title>CPU dashboard</title>\n<link rel='stylesheet' href='/index.css'>\n</head>\n<body>\n<h1>CPU usage</h1>\n<div id='chart'></div>\n<script type='module' src='/index.mjs'></script>\n</body>\n</html>\n";

/// The script served at `/index.mjs`: it opens the push channel and renders
/// one bar per core from each received snapshot.
pub const SCRIPT_BODY: &'static str = "const chart = document.getElementById('chart');\nconst ws = new WebSocket(`ws://${location.host}/realtime/cpus`);\nws.onmessage = (ev) => {\n  const cpus = JSON.parse(ev.data);\n  chart.innerHTML = cpus\n    .map((u, i) => `<div class='row'><span>core ${i}</span><div class='bar' style='width:${u}%'></div><span>${u.toFixed(1)}%</span></div>`)\n    .join('');\n};\n";

/// The stylesheet served at `/index.css`.
pub const STYLE_BODY: &'static str = "body { font-family: sans-serif; margin: 2rem; }\n.row { display: flex; align-items: center; gap: 0.5rem; }\n.bar { height: 1rem; background: steelblue; }\n";

/// The fixed body of each asset route; the upgrade endpoint serves no
/// payload. The body depends on the route alone, so repeated requests for
/// the same asset are answered byte for byte identically.
pub fn asset_body(r: Route) -> (b: Option<&'static str>)
    ensures
        match r {
            Route::Dashboard => b matches Some(s) && s@ == DASHBOARD_PAGE@,
            Route::Script => b matches Some(s) && s@ == SCRIPT_BODY@,
            Route::Style => b matches Some(s) && s@ == STYLE_BODY@,
            Route::RealtimeCpus => b is None,
        },
{
    match r {
        Route::Dashboard => Some(DASHBOARD_PAGE),
        Route::Script => Some(SCRIPT_BODY),
        Route::Style => Some(STYLE_BODY),
        Route::RealtimeCpus => None,
    }
}

} // verus!
