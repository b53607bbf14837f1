//! The page on which the wearer changes the settings.

use vstd::prelude::*;

use crate::tune::{server_views, servers_html, servers_html_of, TuneState};

verus! {

/// The page up to the address of the server.
pub const UP_TO_SERVER_IP: &'static str = r#"<!DOCTYPE html>
<html lang="en">
<head>
<meta charset="utf-8">
<meta name="viewport" content="width=device-width,initial-scale=1">
<title>Pimax ALVR Settings</title>
<style>
  body { font-family: monospace; max-width: 600px; margin: 40px auto; padding: 0 16px; background: #111; color: #eee; }
  h1 { font-size: 1.2em; color: #7cf; margin-bottom: 4px; }
  .subtitle { color: #888; font-size: .85em; margin-bottom: 24px; }
  h2 { font-size: 1em; color: #fa0; margin-top: 28px; margin-bottom: 12px; border-bottom: 1px solid #333; padding-bottom: 6px; }
  .param { margin-bottom: 16px; }
  label { display: flex; justify-content: space-between; margin-bottom: 4px; }
  label span { color: #fa0; }
  input[type=range] { width: 100%; accent-color: #7cf; }
  input[type=text] { width: 100%; padding: 8px; background: #222; border: 1px solid #444; color: #eee; font-family: monospace; font-size: 0.9em; }
  .desc { font-size: .8em; color: #888; margin-top: 2px; }
  .btn { background: #357; border: none; color: #fff; padding: 8px 16px; cursor: pointer; font-family: monospace; margin-top: 8px; }
  .btn:hover { background: #468; }
  #status { margin-top: 20px; color: #4c4; font-size: .85em; height: 1.2em; }
  .server-list { margin-top: 12px; }
  .server-item { display: flex; align-items: center; gap: 12px; padding: 6px 0; border-bottom: 1px solid #222; }
  .server-btn { background: #246; border: 1px solid #468; color: #8cf; padding: 4px 10px; cursor: pointer; font-family: monospace; font-size: 0.85em; }
  .server-btn:hover { background: #357; }
  .server-ip { color: #888; font-size: 0.85em; }
  .server-status { color: #fa0; font-size: 0.9em; margin-top: 8px; }
</style>
</head>
<body>
<h1>Pimax ALVR — Settings</h1>
<div class="subtitle">Changes take effect immediately. Refresh page to load current values.</div>

<h2>Server Connection</h2>
<div class="param">
  <label>Server IP Address</label>
  <input type="text" id="server_ip" value=""#;

/// From the address of the server to how the connection stands.
pub const UP_TO_SERVER_STATUS: &'static str = r#"" placeholder="e.g., 192.168.1.100">
  <button class="btn" onclick="setServerIp()">Connect</button>
</div>
<div class="param">
  <button class="btn" onclick="discoverServers()">Scan for Servers</button>
  <div id="server_status" class="server-status">"#;

/// From how the connection stands to the servers that were found.
pub const UP_TO_SERVER_LIST: &'static str = r#"</div>
  <div id="server_list" class="server-list">"#;

/// From the servers that were found to the shift of the pictures.
pub const UP_TO_CONVERGENCE_SHIFT: &'static str = r#"</div>
</div>

<h2>Video Tuning</h2>
<div class="param">
  <label>Convergence shift (NDC) <span id="v_cs">"#;

/// From the shift to its slider's position.
pub const CONVERGENCE_SHIFT_SLIDER: &'static str = r#"</span></label>
  <input type="range" id="convergence_shift_ndc" min="0" max="0.5" step="0.004" value=""#;

/// From the shift's slider to the scale of the eyes' distance.
pub const UP_TO_IPD_SCALE: &'static str = r#"">
  <div class="desc">Pre-shift to cancel Pimax compositor divergent warp. Default 0.248.</div>
</div>

<div class="param">
  <label>IPD scale <span id="v_is">"#;

/// From the scale to its slider's position.
pub const IPD_SCALE_SLIDER: &'static str = r#"</span></label>
  <input type="range" id="ipd_scale" min="0" max="1.5" step="0.01" value=""#;

/// From the scale's slider to the black level.
pub const UP_TO_BLACK_CRUSH: &'static str = r#"">
  <div class="desc">ALVR stereo strength. 0 = monoscopic, 1.0 = full physical IPD.</div>
</div>

<div class="param">
  <label>Color black crush <span id="v_bc">"#;

/// From the black level to its slider's position.
pub const BLACK_CRUSH_SLIDER: &'static str = r#"</span></label>
  <input type="range" id="color_black_crush" min="0" max="0.3" step="0.002" value=""#;

/// From the black level's slider to the contrast.
pub const UP_TO_COLOR_GAIN: &'static str = r#"">
  <div class="desc">BT.709 black level. Default 0.072. Higher = more black crush.</div>
</div>

<div class="param">
  <label>Color gain <span id="v_cg">"#;

/// From the contrast to its slider's position.
pub const COLOR_GAIN_SLIDER: &'static str = r#"</span></label>
  <input type="range" id="color_gain" min="0.5" max="2.0" step="0.01" value=""#;

/// From the contrast's slider to the end.
pub const PAGE_END: &'static str = r#"">
  <div class="desc">BT.709 contrast gain. Default 1.22. Higher = more contrast.</div>
</div>

<div id="status"></div>

<script>
const tuningIds = ['convergence_shift_ndc','ipd_scale','color_black_crush','color_gain'];
const tuningLabels = {'convergence_shift_ndc':'v_cs','ipd_scale':'v_is','color_black_crush':'v_bc','color_gain':'v_cg'};
let debounce = {};

// Tuning sliders with debouncing
tuningIds.forEach(id => {
  const el = document.getElementById(id);
  el.addEventListener('input', () => {
    document.getElementById(tuningLabels[id]).textContent = parseFloat(el.value).toFixed(4);
    clearTimeout(debounce[id]);
    debounce[id] = setTimeout(() => {
      fetch('/set?' + id + '=' + el.value)
        .then(() => { document.getElementById('status').textContent = id + ' = ' + el.value + ' ✓'; })
        .catch(() => { document.getElementById('status').textContent = 'send failed'; });
    }, 80);
  });
});

function refreshServerStatus() {
  fetch('/values')
    .then(r => r.json())
    .then(data => {
      document.getElementById('server_status').textContent = data.server_status;
    })
    .catch(() => {});
}

// Server IP connection
function setServerIp() {
  const ip = document.getElementById('server_ip').value.trim();
  if (ip) {
    document.getElementById('server_status').textContent = 'Connecting to ' + ip + '...';
    fetch('/set?server_ip=' + encodeURIComponent(ip))
      .then(() => {
        document.getElementById('status').textContent = 'Server IP set to ' + ip + ' ✓';
        refreshServerStatus();
      })
      .catch(() => { document.getElementById('status').textContent = 'Failed to set server IP'; });
  }
}

// Server discovery
function discoverServers() {
  document.getElementById('server_status').textContent = 'Discovering...';
  fetch('/set?discover_servers=1')
    .then(() => { setTimeout(loadServers, 3500); })
    .catch(() => { document.getElementById('server_status').textContent = 'Discovery failed'; });
}

function loadServers() {
  fetch('/servers')
    .then(r => r.json())
    .then(data => {
      const list = document.getElementById('server_list');
      list.innerHTML = data.servers.map(s =>
        '<div class="server-item"><button class="server-btn" onclick="selectServer(\'' + s.ip + '\')">' + s.hostname + '</button><span class="server-ip">' + s.ip + '</span></div>'
      ).join('');
      document.getElementById('server_status').textContent = 'Found ' + data.servers.length + ' server(s)';
    })
    .catch(() => { document.getElementById('server_status').textContent = 'Failed to load servers'; });
}

function selectServer(ip) {
  document.getElementById('server_ip').value = ip;
  setServerIp();
}

// Load servers on page load
loadServers();
refreshServerStatus();
setInterval(refreshServerStatus, 1500);
</script>
</body>
</html>
"#;

/// The page: the parts that never change, with the settings between them.
pub open spec fn page_text(
    server_ip: Seq<char>,
    server_status: Seq<char>,
    servers: Seq<char>,
    convergence_shift: Seq<char>,
    ipd_scale: Seq<char>,
    black_crush: Seq<char>,
    gain: Seq<char>,
) -> Seq<char> {
    UP_TO_SERVER_IP@ + server_ip + UP_TO_SERVER_STATUS@ + server_status + UP_TO_SERVER_LIST@
        + servers + UP_TO_CONVERGENCE_SHIFT@ + convergence_shift + CONVERGENCE_SHIFT_SLIDER@
        + convergence_shift + UP_TO_IPD_SCALE@ + ipd_scale + IPD_SCALE_SLIDER@ + ipd_scale
        + UP_TO_BLACK_CRUSH@ + black_crush + BLACK_CRUSH_SLIDER@ + black_crush + UP_TO_COLOR_GAIN@
        + gain + COLOR_GAIN_SLIDER@ + gain + PAGE_END@
}

/// Writes the page. The numbers come written with four decimals.
pub fn build_html(
    state: &TuneState,
    convergence_shift: &str,
    ipd_scale: &str,
    black_crush: &str,
    gain: &str,
) -> (html: String)
    ensures
        html@ == page_text(
            state.server_ip@,
            state.server_status@,
            servers_html_of(server_views(state.discovered_servers@)),
            convergence_shift@,
            ipd_scale@,
            black_crush@,
            gain@,
        ),
{
    let servers: String = servers_html(state);
    let mut html: String = UP_TO_SERVER_IP.to_owned();
    html.append(state.server_ip.as_str());
    html.append(UP_TO_SERVER_STATUS);
    html.append(state.server_status.as_str());
    html.append(UP_TO_SERVER_LIST);
    html.append(servers.as_str());
    html.append(UP_TO_CONVERGENCE_SHIFT);
    html.append(convergence_shift);
    html.append(CONVERGENCE_SHIFT_SLIDER);
    html.append(convergence_shift);
    html.append(UP_TO_IPD_SCALE);
    html.append(ipd_scale);
    html.append(IPD_SCALE_SLIDER);
    html.append(ipd_scale);
    html.append(UP_TO_BLACK_CRUSH);
    html.append(black_crush);
    html.append(BLACK_CRUSH_SLIDER);
    html.append(black_crush);
    html.append(UP_TO_COLOR_GAIN);
    html.append(gain);
    html.append(COLOR_GAIN_SLIDER);
    html.append(gain);
    html.append(PAGE_END);
    html
}

/// Every setting stands between the parts of the page that belong to it: the address and the state
/// of the server at its top, then the servers that were found, then each number twice, as text and
/// as the position of its own slider.
pub proof fn law_settings_stand_in_their_place(
    server_ip: Seq<char>,
    server_status: Seq<char>,
    servers: Seq<char>,
    convergence_shift: Seq<char>,
    ipd_scale: Seq<char>,
    black_crush: Seq<char>,
    gain: Seq<char>,
)
    ensures
        ({
            let page = page_text(
                server_ip,
                server_status,
                servers,
                convergence_shift,
                ipd_scale,
                black_crush,
                gain,
            );
            let top = UP_TO_SERVER_IP@ + server_ip + UP_TO_SERVER_STATUS@ + server_status
                + UP_TO_SERVER_LIST@ + servers + UP_TO_CONVERGENCE_SHIFT@;
            let shift = convergence_shift + CONVERGENCE_SHIFT_SLIDER@ + convergence_shift
                + UP_TO_IPD_SCALE@;
            let scale = ipd_scale + IPD_SCALE_SLIDER@ + ipd_scale + UP_TO_BLACK_CRUSH@;
            let black = black_crush + BLACK_CRUSH_SLIDER@ + black_crush + UP_TO_COLOR_GAIN@;
            let contrast = gain + COLOR_GAIN_SLIDER@ + gain + PAGE_END@;
            page == top + (shift + (scale + (black + contrast)))
        }),
{
    let top = UP_TO_SERVER_IP@ + server_ip + UP_TO_SERVER_STATUS@ + server_status
        + UP_TO_SERVER_LIST@ + servers + UP_TO_CONVERGENCE_SHIFT@;
    let s1 = convergence_shift;
    let s2 = ipd_scale;
    let s3 = black_crush;
    lemma_grouped(top, s1, CONVERGENCE_SHIFT_SLIDER@, s1, UP_TO_IPD_SCALE@);
    let shift = s1 + CONVERGENCE_SHIFT_SLIDER@ + s1 + UP_TO_IPD_SCALE@;
    lemma_grouped(top + shift, s2, IPD_SCALE_SLIDER@, s2, UP_TO_BLACK_CRUSH@);
    let scale = s2 + IPD_SCALE_SLIDER@ + s2 + UP_TO_BLACK_CRUSH@;
    lemma_grouped(top + shift + scale, s3, BLACK_CRUSH_SLIDER@, s3, UP_TO_COLOR_GAIN@);
    let black = s3 + BLACK_CRUSH_SLIDER@ + s3 + UP_TO_COLOR_GAIN@;
    lemma_grouped(top + shift + scale + black, gain, COLOR_GAIN_SLIDER@, gain, PAGE_END@);
    let contrast = gain + COLOR_GAIN_SLIDER@ + gain + PAGE_END@;
    lemma_nested(top, shift, scale, black, contrast);
}

proof fn lemma_grouped(
    head: Seq<char>,
    a: Seq<char>,
    b: Seq<char>,
    c: Seq<char>,
    d: Seq<char>,
)
    ensures
        head + a + b + c + d == head + (a + b + c + d),
{
    assert(head + a + b + c + d =~= head + (a + b + c + d));
}

proof fn lemma_nested(
    head: Seq<char>,
    a: Seq<char>,
    b: Seq<char>,
    c: Seq<char>,
    d: Seq<char>,
)
    ensures
        head + a + b + c + d == head + (a + (b + (c + d))),
{
    assert(head + a + b + c + d =~= head + (a + (b + (c + d))));
}

} // verus!
