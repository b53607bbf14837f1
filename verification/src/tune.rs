//! Settings that the wearer changes while the client runs, from a page in a browser.

use vstd::prelude::*;

use crate::config::ClientConfig;
use crate::decoder::same_text;
use crate::float::{clamp_float, clamped, float_order, is_finite, is_finite_float};
use crate::scan::{
    behind_prefix, find_char, find_second_word, law_trimming_takes_white_space_only, lemma_position,
    position, second_word, split_from, split_text, strip_prefix, trim, trimmed, whitespace,
};
use crate::text::{
    decimal, format_decimal, law_separators_stand_between, lemma_mentions_itself,
    lemma_mentions_within, mentions,
};

verus! {

/// Port of the page.
pub const TUNE_PORT: u16 = 7878;

/// The server that is assumed where none is configured.
pub const FALLBACK_SERVER_IP: &'static str = "192.168.1.100";

// ---------------------------------------------------------------------------
// Numbers
// ---------------------------------------------------------------------------

/// A number that the wearer can change.
#[derive(Clone, Copy, Debug, PartialEq, Eq, Structural)]
pub enum TuneParameter {
    ConvergenceShift,
    IpdScale,
    ColorBlackCrush,
    ColorGain,
}

impl TuneParameter {
    /// The range of the number, as bits of floats: 0 to 0.5 for the shift, 0 to 2 for the scale,
    /// 0 to 0.3 for the black level, and 0.5 to 2 for the contrast.
    pub open spec fn spec_range(self) -> (u32, u32) {
        match self {
            TuneParameter::ConvergenceShift => (0, 0x3f00_0000),
            TuneParameter::IpdScale => (0, 0x4000_0000),
            TuneParameter::ColorBlackCrush => (0, 0x3e99_999a),
            TuneParameter::ColorGain => (0x3f00_0000, 0x4000_0000),
        }
    }

    /// The range of the number, as bits of floats.
    pub fn range(self) -> (range: (u32, u32))
        ensures
            range == self.spec_range(),
    {
        match self {
            TuneParameter::ConvergenceShift => (0, 0x3f00_0000),
            TuneParameter::IpdScale => (0, 0x4000_0000),
            TuneParameter::ColorBlackCrush => (0, 0x3e99_999a),
            TuneParameter::ColorGain => (0x3f00_0000, 0x4000_0000),
        }
    }

    /// The number's name on the page.
    pub open spec fn name(self) -> Seq<char> {
        match self {
            TuneParameter::ConvergenceShift => "convergence_shift_ndc"@,
            TuneParameter::IpdScale => "ipd_scale"@,
            TuneParameter::ColorBlackCrush => "color_black_crush"@,
            TuneParameter::ColorGain => "color_gain"@,
        }
    }
}

// ---------------------------------------------------------------------------
// State
// ---------------------------------------------------------------------------

/// The settings in force, the server, and the servers that were found. Numbers are the bits of
/// 32-bit floats.
#[derive(Clone, Debug, PartialEq, Eq)]
pub struct TuneState {
    pub convergence_shift_ndc: u32,
    pub ipd_scale: u32,
    pub color_black_crush: u32,
    pub color_gain: u32,
    pub server_ip: String,
    pub server_status: String,
    /// Name and address of each server that was found.
    pub discovered_servers: Vec<(String, String)>,
}

/// The names and addresses of servers.
pub open spec fn server_views(servers: Seq<(String, String)>) -> Seq<(Seq<char>, Seq<char>)> {
    servers.map_values(|server: (String, String)| (server.0@, server.1@))
}

/// A server of this name or address was found.
pub open spec fn is_known(
    servers: Seq<(Seq<char>, Seq<char>)>,
    hostname: Seq<char>,
    ip: Seq<char>,
) -> bool {
    exists|i: int|
        0 <= i < servers.len() && ((#[trigger] servers[i]).0 == hostname || servers[i].1 == ip)
}

/// No two servers share their name or their address.
pub open spec fn all_distinct(servers: Seq<(Seq<char>, Seq<char>)>) -> bool {
    forall|i: int, j: int|
        0 <= i < j < servers.len() ==> (#[trigger] servers[i]).0 != (#[trigger] servers[j]).0
            && servers[i].1 != servers[j].1
}

impl TuneState {
    /// Servers are listed once.
    pub open spec fn well_formed(&self) -> bool {
        all_distinct(server_views(self.discovered_servers@))
    }

    /// The number in force.
    pub open spec fn value(&self, parameter: TuneParameter) -> u32 {
        match parameter {
            TuneParameter::ConvergenceShift => self.convergence_shift_ndc,
            TuneParameter::IpdScale => self.ipd_scale,
            TuneParameter::ColorBlackCrush => self.color_black_crush,
            TuneParameter::ColorGain => self.color_gain,
        }
    }
}

impl Default for TuneState {
    /// The state before the configuration is read.
    fn default() -> (state: Self)
        ensures
            state.well_formed(),
            forall|parameter: TuneParameter| #[trigger] state.value(parameter) == 0,
            state.server_ip@ == FALLBACK_SERVER_IP@,
            state.server_status@ == "Not connected"@,
            state.discovered_servers@.len() == 0,
    {
        TuneState {
            convergence_shift_ndc: 0,
            ipd_scale: 0,
            color_black_crush: 0,
            color_gain: 0,
            server_ip: FALLBACK_SERVER_IP.to_owned(),
            server_status: "Not connected".to_owned(),
            discovered_servers: Vec::new(),
        }
    }
}

/// A configured number, or else the default.
pub open spec fn number_or_default(configured: Option<u32>, default: u32) -> u32 {
    match configured {
        Some(value) => value,
        None => default,
    }
}

fn or_default(configured: Option<u32>, default: u32) -> (value: u32)
    ensures
        value == number_or_default(configured, default),
{
    match configured {
        Some(value) => value,
        None => default,
    }
}

/// The configured setting, where there is a configuration.
pub open spec fn configured(config: Option<&ClientConfig>, parameter: TuneParameter) -> Option<u32> {
    match config {
        Some(config) => match parameter {
            TuneParameter::ConvergenceShift => config.convergence_shift_ndc,
            TuneParameter::IpdScale => config.ipd_scale,
            TuneParameter::ColorBlackCrush => config.color_black_crush,
            TuneParameter::ColorGain => config.color_gain,
        },
        None => None,
    }
}

/// The server that the configuration names.
pub open spec fn configured_server(config: Option<&ClientConfig>) -> Seq<char> {
    match config {
        Some(config) => match config.last_server_ip {
            Some(ip) => ip@,
            None => FALLBACK_SERVER_IP@,
        },
        None => FALLBACK_SERVER_IP@,
    }
}

/// Takes over the configured settings. What is not configured has its default.
pub fn init(
    config: Option<&ClientConfig>,
    convergence_shift_ndc: u32,
    ipd_scale: u32,
    color_black_crush: u32,
    color_gain: u32,
) -> (state: TuneState)
    ensures
        state.well_formed(),
        state.convergence_shift_ndc == number_or_default(
            configured(config, TuneParameter::ConvergenceShift),
            convergence_shift_ndc,
        ),
        state.ipd_scale == number_or_default(
            configured(config, TuneParameter::IpdScale),
            ipd_scale,
        ),
        state.color_black_crush == number_or_default(
            configured(config, TuneParameter::ColorBlackCrush),
            color_black_crush,
        ),
        state.color_gain == number_or_default(
            configured(config, TuneParameter::ColorGain),
            color_gain,
        ),
        state.server_ip@ == configured_server(config),
        state.server_status@ == "Not connected - configure below"@,
        state.discovered_servers@.len() == 0,
{
    let status: String = "Not connected - configure below".to_owned();
    match config {
        Some(config) => TuneState {
            convergence_shift_ndc: or_default(config.convergence_shift_ndc, convergence_shift_ndc),
            ipd_scale: or_default(config.ipd_scale, ipd_scale),
            color_black_crush: or_default(config.color_black_crush, color_black_crush),
            color_gain: or_default(config.color_gain, color_gain),
            server_ip: match &config.last_server_ip {
                Some(ip) => ip.clone(),
                None => FALLBACK_SERVER_IP.to_owned(),
            },
            server_status: status,
            discovered_servers: Vec::new(),
        },
        None => TuneState {
            convergence_shift_ndc,
            ipd_scale,
            color_black_crush,
            color_gain,
            server_ip: FALLBACK_SERVER_IP.to_owned(),
            server_status: status,
            discovered_servers: Vec::new(),
        },
    }
}

/// The shift that makes both eyes' pictures meet.
pub fn convergence_shift_ndc(state: &TuneState) -> (bits: u32)
    ensures
        bits == state.value(TuneParameter::ConvergenceShift),
{
    state.convergence_shift_ndc
}

/// The scale of the distance between the eyes.
pub fn ipd_scale(state: &TuneState) -> (bits: u32)
    ensures
        bits == state.value(TuneParameter::IpdScale),
{
    state.ipd_scale
}

/// The level below which the picture is black.
pub fn color_black_crush(state: &TuneState) -> (bits: u32)
    ensures
        bits == state.value(TuneParameter::ColorBlackCrush),
{
    state.color_black_crush
}

/// The contrast.
pub fn color_gain(state: &TuneState) -> (bits: u32)
    ensures
        bits == state.value(TuneParameter::ColorGain),
{
    state.color_gain
}

/// What follows the change of a number.
#[derive(Clone, Copy, Debug, PartialEq, Eq, Structural)]
pub enum TuneEffect {
    /// Nothing was changed.
    Rejected,
    /// The settings are to be saved.
    Save,
    /// The settings are to be saved, and the view is to be sent with the new distance.
    SaveAndResendViews,
}

/// Changes a number. It is brought into its range; a number that is not finite is rejected.
pub fn set_parameter(state: &mut TuneState, parameter: TuneParameter, bits: u32) -> (effect:
    TuneEffect)
    ensures
        effect == if !is_finite_float(bits) {
            TuneEffect::Rejected
        } else if parameter == TuneParameter::IpdScale {
            TuneEffect::SaveAndResendViews
        } else {
            TuneEffect::Save
        },
        final(state).value(parameter) == if is_finite_float(bits) {
            clamped(bits, parameter.spec_range().0, parameter.spec_range().1)
        } else {
            old(state).value(parameter)
        },
        forall|other: TuneParameter|
            other != parameter ==> #[trigger] final(state).value(other) == old(state).value(other),
        final(state).server_ip == old(state).server_ip,
        final(state).server_status == old(state).server_status,
        final(state).discovered_servers == old(state).discovered_servers,
{
    if !is_finite(bits) {
        return TuneEffect::Rejected;
    }
    let (low, high): (u32, u32) = parameter.range();
    let value: u32 = clamp_float(bits, low, high);
    match parameter {
        TuneParameter::ConvergenceShift => {
            state.convergence_shift_ndc = value;
            TuneEffect::Save
        },
        TuneParameter::IpdScale => {
            state.ipd_scale = value;
            TuneEffect::SaveAndResendViews
        },
        TuneParameter::ColorBlackCrush => {
            state.color_black_crush = value;
            TuneEffect::Save
        },
        TuneParameter::ColorGain => {
            state.color_gain = value;
            TuneEffect::Save
        },
    }
}

/// Writes the settings in force into a configuration.
pub fn save_tuning_settings(state: &TuneState, config: &mut ClientConfig)
    ensures
        *final(config) == (ClientConfig {
            convergence_shift_ndc: Some(state.convergence_shift_ndc),
            ipd_scale: Some(state.ipd_scale),
            color_black_crush: Some(state.color_black_crush),
            color_gain: Some(state.color_gain),
            ..*old(config)
        }),
{
    config.convergence_shift_ndc = Some(state.convergence_shift_ndc);
    config.ipd_scale = Some(state.ipd_scale);
    config.color_black_crush = Some(state.color_black_crush);
    config.color_gain = Some(state.color_gain);
}

/// Writes the server into a configuration.
pub fn save_server_ip_to_config(ip: &str, config: &mut ClientConfig)
    ensures
        final(config).last_server_ip is Some,
        final(config).last_server_ip->0@ == ip@,
        *final(config) == (ClientConfig {
            last_server_ip: final(config).last_server_ip,
            ..*old(config)
        }),
{
    config.last_server_ip = Some(ip.to_owned());
}

// ---------------------------------------------------------------------------
// Servers
// ---------------------------------------------------------------------------

/// Takes over the server's address.
pub fn set_server_ip(state: &mut TuneState, ip: String)
    ensures
        *final(state) == (TuneState { server_ip: ip, ..*old(state) }),
{
    state.server_ip = ip;
}

/// The server's address.
pub fn get_server_ip(state: &TuneState) -> (ip: String)
    ensures
        ip@ == state.server_ip@,
{
    state.server_ip.clone()
}

/// Takes over what the page says of the connection.
pub fn set_server_status(state: &mut TuneState, status: String)
    ensures
        *final(state) == (TuneState { server_status: status, ..*old(state) }),
{
    state.server_status = status;
}

/// What the page says of the connection.
pub fn get_server_status(state: &TuneState) -> (status: String)
    ensures
        status@ == state.server_status@,
{
    state.server_status.clone()
}

/// Adds a server that was found, unless one of the same name or address is listed.
pub fn add_discovered_server(state: &mut TuneState, hostname: String, ip: String)
    requires
        old(state).well_formed(),
    ensures
        final(state).well_formed(),
        server_views(final(state).discovered_servers@) == if is_known(
            server_views(old(state).discovered_servers@),
            hostname@,
            ip@,
        ) {
            server_views(old(state).discovered_servers@)
        } else {
            server_views(old(state).discovered_servers@).push((hostname@, ip@))
        },
        *final(state) == (TuneState {
            discovered_servers: final(state).discovered_servers,
            ..*old(state)
        }),
{
    let ghost before = server_views(state.discovered_servers@);
    let mut index: usize = 0;
    while index < state.discovered_servers.len()
        invariant
            index <= state.discovered_servers@.len(),
            *state == *old(state),
            state.well_formed(),
            before == server_views(state.discovered_servers@),
            forall|i: int|
                0 <= i < index ==> (#[trigger] before[i]).0 != hostname@ && before[i].1 != ip@,
        decreases state.discovered_servers@.len() - index,
    {
        let server = &state.discovered_servers[index];
        assert(before[index as int] == (server.0@, server.1@));
        if same_text(server.0.as_str(), hostname.as_str()) || same_text(
            server.1.as_str(),
            ip.as_str(),
        ) {
            assert(is_known(before, hostname@, ip@));
            return;
        }
        index = index + 1;
    }
    let ghost added = (hostname@, ip@);
    state.discovered_servers.push((hostname, ip));
    assert(server_views(state.discovered_servers@) =~= before.push(added));
}

/// The servers that were found.
pub fn get_discovered_servers(state: &TuneState) -> (servers: Vec<(String, String)>)
    ensures
        server_views(servers@) == server_views(state.discovered_servers@),
{
    let mut servers: Vec<(String, String)> = Vec::new();
    let mut index: usize = 0;
    while index < state.discovered_servers.len()
        invariant
            index <= state.discovered_servers@.len(),
            server_views(servers@) =~= server_views(state.discovered_servers@).take(index as int),
        decreases state.discovered_servers@.len() - index,
    {
        let server = &state.discovered_servers[index];
        let ghost before = servers@;
        servers.push((server.0.clone(), server.1.clone()));
        proof {
            assert(server_views(servers@) =~= server_views(before).push((server.0@, server.1@)));
            assert(server_views(state.discovered_servers@)[index as int] == (server.0@, server.1@));
        }
        index = index + 1;
    }
    assert(server_views(servers@) =~= server_views(state.discovered_servers@));
    servers
}

/// Forgets the servers that were found.
pub fn clear_discovered_servers(state: &mut TuneState)
    ensures
        final(state).well_formed(),
        final(state).discovered_servers@.len() == 0,
        *final(state) == (TuneState {
            discovered_servers: final(state).discovered_servers,
            ..*old(state)
        }),
{
    state.discovered_servers.clear();
}

/// How a connection or a search goes on.
#[derive(Clone, Debug, PartialEq, Eq)]
pub enum ServerProgress {
    Connecting(String),
    InvalidAddress(String),
    NoConfig,
    NoRuntime,
    Connected,
    Failed(String),
    Discovering,
    DiscoveryFailed,
    Found(usize),
}

impl ServerProgress {
    /// What the page says of it.
    pub open spec fn spec_text(self) -> Seq<char> {
        match self {
            ServerProgress::Connecting(ip) => "Connecting to "@ + ip@ + "..."@,
            ServerProgress::InvalidAddress(ip) => "Invalid IP: "@ + ip@,
            ServerProgress::NoConfig => "Failed to load config"@,
            ServerProgress::NoRuntime => "Failed to create runtime"@,
            ServerProgress::Connected => "Connected"@,
            ServerProgress::Failed(error) => "Connection failed: "@ + error@,
            ServerProgress::Discovering => "Discovering..."@,
            ServerProgress::DiscoveryFailed => "Discovery failed"@,
            ServerProgress::Found(count) => "Found "@ + decimal(count as nat) + " server(s)"@,
        }
    }

    /// What the page says of it.
    pub fn text(&self) -> (text: String)
        ensures
            text@ == self.spec_text(),
    {
        match self {
            ServerProgress::Connecting(ip) => {
                let mut text: String = "Connecting to ".to_owned();
                text.append(ip.as_str());
                text.append("...");
                text
            },
            ServerProgress::InvalidAddress(ip) => {
                let mut text: String = "Invalid IP: ".to_owned();
                text.append(ip.as_str());
                text
            },
            ServerProgress::NoConfig => "Failed to load config".to_owned(),
            ServerProgress::NoRuntime => "Failed to create runtime".to_owned(),
            ServerProgress::Connected => "Connected".to_owned(),
            ServerProgress::Failed(error) => {
                let mut text: String = "Connection failed: ".to_owned();
                text.append(error.as_str());
                text
            },
            ServerProgress::Discovering => "Discovering...".to_owned(),
            ServerProgress::DiscoveryFailed => "Discovery failed".to_owned(),
            ServerProgress::Found(count) => {
                let mut text: String = "Found ".to_owned();
                let number: String = format_decimal(*count as u128);
                text.append(number.as_str());
                text.append(" server(s)");
                text
            },
        }
    }
}

// ---------------------------------------------------------------------------
// Answers to a search
// ---------------------------------------------------------------------------

/// Where the name stands in an answer.
pub const ANSWER_NAME_START: usize = 18;

/// Where the name ends in an answer.
pub const ANSWER_NAME_END: usize = 50;

/// The text that bytes stand for, with a replacement for what is no UTF-8.
pub uninterp spec fn lossy_text(bytes: Seq<u8>) -> Seq<char>;

/// Calls `String::from_utf8_lossy`. Claims that the text is a function of the bytes, and the text
/// that they encode where they are valid UTF-8.
#[verifier::external_body]
fn text_from_utf8_lossy(bytes: &[u8]) -> (text: String)
    ensures
        text@ == lossy_text(bytes@),
        vstd::utf8::valid_utf8(bytes@) ==> text@ == vstd::utf8::decode_utf8(bytes@),
{
    String::from_utf8_lossy(bytes).into_owned()
}

/// The text without the zeros at its end.
pub open spec fn without_zeros(text: Seq<char>) -> Seq<char>
    decreases text.len(),
{
    if text.len() > 0 && text.last() == '\0' {
        without_zeros(text.drop_last())
    } else {
        text
    }
}

/// Takes the zeros from the end of a text.
pub fn trim_zeros(text: &str) -> (result: String)
    ensures
        result@ == without_zeros(text@),
{
    let mut length: usize = text.unicode_len();
    assert(text@.take(length as int) =~= text@);
    while length > 0 && text.get_char(length - 1) == '\0'
        invariant
            length <= text@.len(),
            without_zeros(text@.take(length as int)) == without_zeros(text@),
        decreases length,
    {
        assert(text@.take(length as int).drop_last() =~= text@.take(length - 1));
        length = length - 1;
    }
    let result: String = text.substring_char(0, length).to_owned();
    assert(result@ =~= text@.take(length as int));
    result
}

/// The bytes of the name in an answer, which may end before the field does.
pub open spec fn answer_name(answer: Seq<u8>) -> Seq<u8> {
    answer.subrange(
        ANSWER_NAME_START as int,
        if answer.len() < ANSWER_NAME_END {
            answer.len() as int
        } else {
            ANSWER_NAME_END as int
        },
    )
}

/// Reads the server's name from an answer to a search. An answer that is too short names none.
pub fn discovered_hostname(answer: &[u8]) -> (hostname: Option<String>)
    ensures
        match hostname {
            Some(hostname) => {
                &&& answer@.len() > ANSWER_NAME_START
                &&& hostname@ == without_zeros(lossy_text(answer_name(answer@)))
                &&& vstd::utf8::valid_utf8(answer_name(answer@)) ==> hostname@ == without_zeros(
                    vstd::utf8::decode_utf8(answer_name(answer@)),
                )
            },
            None => answer@.len() <= ANSWER_NAME_START,
        },
{
    if answer.len() <= ANSWER_NAME_START {
        return None;
    }
    let end: usize = if answer.len() < ANSWER_NAME_END {
        answer.len()
    } else {
        ANSWER_NAME_END
    };
    let text: String = text_from_utf8_lossy(
        vstd::slice::slice_subrange(answer, ANSWER_NAME_START, end),
    );
    Some(trim_zeros(text.as_str()))
}

// ---------------------------------------------------------------------------
// Requests
// ---------------------------------------------------------------------------

/// What a browser asks for.
#[derive(Clone, Debug, PartialEq, Eq)]
pub enum Route {
    /// To change settings.
    Change(String),
    /// The settings.
    Values,
    /// The servers that were found.
    Servers,
    /// The page.
    Page,
}

/// The path of a request: the second word of its first line.
pub open spec fn request_path(line: Seq<char>) -> Seq<char> {
    match second_word(line) {
        Some(path) => path,
        None => "/"@,
    }
}

/// Decides what a request is for by its first line.
pub fn route_request(line: &str) -> (route: Route)
    ensures
        match route {
            Route::Change(query) => behind_prefix(request_path(line@), "/set?"@) == Some(query@),
            Route::Values => {
                &&& behind_prefix(request_path(line@), "/set?"@) is None
                &&& request_path(line@) == "/values"@
            },
            Route::Servers => {
                &&& behind_prefix(request_path(line@), "/set?"@) is None
                &&& request_path(line@) == "/servers"@
                &&& request_path(line@) != "/values"@
            },
            Route::Page => {
                &&& behind_prefix(request_path(line@), "/set?"@) is None
                &&& request_path(line@) != "/values"@
                &&& request_path(line@) != "/servers"@
            },
        },
{
    let path: &str = match find_second_word(line) {
        Some(path) => path,
        None => "/",
    };
    match strip_prefix(path, "/set?") {
        Some(query) => Route::Change(query.to_owned()),
        None => if same_text(path, "/values") {
            Route::Values
        } else if same_text(path, "/servers") {
            Route::Servers
        } else {
            Route::Page
        },
    }
}

/// A change that a browser asks for.
#[derive(Clone, Debug, PartialEq, Eq)]
pub enum TuneCommand {
    /// Set a number to the float that the text stands for.
    SetNumber(TuneParameter, String),
    /// Connect to a server.
    SetServerIp(String),
    /// Search for servers.
    DiscoverServers,
}

/// What a command holds.
pub enum TuneRequest {
    Number(TuneParameter, Seq<char>),
    ServerIp(Seq<char>),
    Discover,
}

impl View for TuneCommand {
    type V = TuneRequest;

    open spec fn view(&self) -> TuneRequest {
        match *self {
            TuneCommand::SetNumber(parameter, text) => TuneRequest::Number(parameter, text@),
            TuneCommand::SetServerIp(ip) => TuneRequest::ServerIp(ip@),
            TuneCommand::DiscoverServers => TuneRequest::Discover,
        }
    }
}

/// Name and value of one setting in a query.
pub open spec fn key_and_value(part: Seq<char>) -> (Seq<char>, Seq<char>) {
    let at = position(part, '=', 0);
    if at < part.len() {
        (trimmed(part.take(at)), trimmed(part.skip(at + 1)))
    } else {
        (trimmed(part), trimmed(Seq::empty()))
    }
}

/// The change that one setting asks for. Unknown names ask for none.
pub open spec fn request_of(part: Seq<char>) -> Option<TuneRequest> {
    let (key, value) = key_and_value(part);
    if key == TuneParameter::ConvergenceShift.name() {
        Some(TuneRequest::Number(TuneParameter::ConvergenceShift, value))
    } else if key == TuneParameter::IpdScale.name() {
        Some(TuneRequest::Number(TuneParameter::IpdScale, value))
    } else if key == TuneParameter::ColorBlackCrush.name() {
        Some(TuneRequest::Number(TuneParameter::ColorBlackCrush, value))
    } else if key == TuneParameter::ColorGain.name() {
        Some(TuneRequest::Number(TuneParameter::ColorGain, value))
    } else if key == "server_ip"@ {
        Some(TuneRequest::ServerIp(value))
    } else if key == "discover_servers"@ {
        Some(TuneRequest::Discover)
    } else {
        None
    }
}

/// The changes that settings ask for, in their order.
pub open spec fn requests_of(parts: Seq<Seq<char>>) -> Seq<TuneRequest>
    decreases parts.len(),
{
    if parts.len() == 0 {
        Seq::empty()
    } else {
        let before = requests_of(parts.drop_last());
        match request_of(parts.last()) {
            Some(request) => before.push(request),
            None => before,
        }
    }
}

fn read_setting(part: &str) -> (command: Option<TuneCommand>)
    ensures
        match command {
            Some(command) => request_of(part@) == Some(command@),
            None => request_of(part@) is None,
        },
{
    let length: usize = part.unicode_len();
    let at: usize = find_char(part, '=', 0);
    let (key, value): (&str, &str) = if at < length {
        let key: &str = part.substring_char(0, at);
        let value: &str = part.substring_char(at + 1, length);
        assert(key@ =~= part@.take(at as int));
        assert(value@ =~= part@.skip(at + 1));
        (trim(key), trim(value))
    } else {
        let nothing: &str = part.substring_char(0, 0);
        assert(nothing@ =~= Seq::empty());
        (trim(part), trim(nothing))
    };
    if same_text(key, "convergence_shift_ndc") {
        Some(TuneCommand::SetNumber(TuneParameter::ConvergenceShift, value.to_owned()))
    } else if same_text(key, "ipd_scale") {
        Some(TuneCommand::SetNumber(TuneParameter::IpdScale, value.to_owned()))
    } else if same_text(key, "color_black_crush") {
        Some(TuneCommand::SetNumber(TuneParameter::ColorBlackCrush, value.to_owned()))
    } else if same_text(key, "color_gain") {
        Some(TuneCommand::SetNumber(TuneParameter::ColorGain, value.to_owned()))
    } else if same_text(key, "server_ip") {
        Some(TuneCommand::SetServerIp(value.to_owned()))
    } else if same_text(key, "discover_servers") {
        Some(TuneCommand::DiscoverServers)
    } else {
        None
    }
}

/// Reads the changes that a query asks for. Settings are separated by `&`, and each is a name and
/// a value with `=` between them.
pub fn handle_set(query: &str) -> (commands: Vec<TuneCommand>)
    ensures
        commands@.map_values(|command: TuneCommand| command@) == requests_of(
            split_from(query@, '&', 0),
        ),
{
    let parts: Vec<&str> = split_text(query, '&');
    let ghost texts = parts@.map_values(|part: &str| part@);
    let ghost view = |command: TuneCommand| command@;
    let mut commands: Vec<TuneCommand> = Vec::new();
    let mut index: usize = 0;
    assert(commands@.map_values(view) =~= requests_of(texts.take(0)));
    while index < parts.len()
        invariant
            index <= parts@.len(),
            texts == parts@.map_values(|part: &str| part@),
            view == (|command: TuneCommand| command@),
            commands@.map_values(view) == requests_of(texts.take(index as int)),
        decreases parts@.len() - index,
    {
        let ghost before = commands@;
        proof {
            assert(texts.take(index + 1).drop_last() =~= texts.take(index as int));
            assert(texts.take(index + 1).last() == parts@[index as int]@);
        }
        match read_setting(parts[index]) {
            Some(command) => {
                let ghost request = command@;
                commands.push(command);
                assert(commands@.map_values(view) =~= before.map_values(view).push(request));
            },
            None => {},
        }
        index = index + 1;
    }
    assert(texts.take(texts.len() as int) =~= texts);
    commands
}

// ---------------------------------------------------------------------------
// Answers
// ---------------------------------------------------------------------------

/// An answer to a browser that pages from elsewhere may read.
pub open spec fn response_text(content_type: Seq<char>, body: Seq<char>) -> Seq<char> {
    "HTTP/1.1 200 OK\r\nContent-Type: "@ + content_type
        + "\r\nAccess-Control-Allow-Origin: *\r\nContent-Length: "@ + decimal(
        vstd::utf8::encode_utf8(body).len(),
    ) + "\r\n\r\n"@ + body
}

/// The answer that is the page itself.
pub open spec fn page_response_text(body: Seq<char>) -> Seq<char> {
    "HTTP/1.1 200 OK\r\nContent-Type: text/html\r\nContent-Length: "@ + decimal(
        vstd::utf8::encode_utf8(body).len(),
    ) + "\r\n\r\n"@ + body
}

/// Writes the answer that is the page itself. The length counts the body's bytes.
pub fn page_response(body: &str) -> (text: String)
    ensures
        text@ == page_response_text(body@),
{
    let mut text: String = "HTTP/1.1 200 OK\r\nContent-Type: text/html\r\nContent-Length: ".to_owned();
    let bytes = body.as_bytes();
    let length: String = format_decimal(bytes.len() as u128);
    text.append(length.as_str());
    text.append("\r\n\r\n");
    text.append(body);
    text
}

/// Writes an answer to a browser, which any page may read. The length counts the body's bytes.
pub fn http_response(content_type: &str, body: &str) -> (text: String)
    ensures
        text@ == response_text(content_type@, body@),
{
    let mut text: String = "HTTP/1.1 200 OK\r\nContent-Type: ".to_owned();
    text.append(content_type);
    text.append("\r\nAccess-Control-Allow-Origin: *\r\nContent-Length: ");
    let bytes = body.as_bytes();
    let length: String = format_decimal(bytes.len() as u128);
    text.append(length.as_str());
    text.append("\r\n\r\n");
    text.append(body);
    text
}

/// Writes the settings for the page. The numbers come written with four decimals.
pub fn values_body(
    state: &TuneState,
    convergence_shift: &str,
    ipd_scale: &str,
    color_black_crush: &str,
    color_gain: &str,
) -> (body: String)
    ensures
        body@ == "{\"convergence_shift_ndc\":"@ + convergence_shift@ + ",\"ipd_scale\":"@
            + ipd_scale@ + ",\"color_black_crush\":"@ + color_black_crush@ + ",\"color_gain\":"@
            + color_gain@ + ",\"server_ip\":\""@ + state.server_ip@ + "\",\"server_status\":\""@
            + state.server_status@ + "\"}"@,
{
    let mut body: String = "{\"convergence_shift_ndc\":".to_owned();
    body.append(convergence_shift);
    body.append(",\"ipd_scale\":");
    body.append(ipd_scale);
    body.append(",\"color_black_crush\":");
    body.append(color_black_crush);
    body.append(",\"color_gain\":");
    body.append(color_gain);
    body.append(",\"server_ip\":\"");
    body.append(state.server_ip.as_str());
    body.append("\",\"server_status\":\"");
    body.append(state.server_status.as_str());
    body.append("\"}");
    body
}

/// One server as the page reads it.
pub open spec fn server_json(server: (Seq<char>, Seq<char>)) -> Seq<char> {
    "{\"hostname\":\""@ + server.0 + "\",\"ip\":\""@ + server.1 + "\"}"@
}

/// The servers as the page reads them, with a comma between two of them.
pub open spec fn servers_json(servers: Seq<(Seq<char>, Seq<char>)>) -> Seq<char> {
    crate::text::joined(servers.map_values(|server: (Seq<char>, Seq<char>)| server_json(server)), ","@)
}

/// Writes the servers that were found for the page.
pub fn servers_body(state: &TuneState) -> (body: String)
    ensures
        body@ == "{\"servers\":["@ + servers_json(server_views(state.discovered_servers@)) + "]}"@,
{
    let ghost servers = server_views(state.discovered_servers@);
    let ghost all = servers.map_values(|server: (Seq<char>, Seq<char>)| server_json(server));
    let mut parts: Vec<String> = Vec::new();
    let mut index: usize = 0;
    while index < state.discovered_servers.len()
        invariant
            index <= state.discovered_servers@.len(),
            servers == server_views(state.discovered_servers@),
            all == servers.map_values(|server: (Seq<char>, Seq<char>)| server_json(server)),
            crate::text::views(parts@) =~= all.take(index as int),
        decreases state.discovered_servers@.len() - index,
    {
        let server = &state.discovered_servers[index];
        let mut part: String = "{\"hostname\":\"".to_owned();
        part.append(server.0.as_str());
        part.append("\",\"ip\":\"");
        part.append(server.1.as_str());
        part.append("\"}");
        let ghost before = parts@;
        let ghost written = part@;
        assert(servers[index as int] == (server.0@, server.1@));
        assert(part@ == all[index as int]);
        parts.push(part);
        assert(crate::text::views(parts@) =~= crate::text::views(before).push(written));
        index = index + 1;
    }
    assert(crate::text::views(parts@) =~= all);
    let list: String = crate::text::join_text(&parts, ",");
    let mut body: String = "{\"servers\":[".to_owned();
    body.append(list.as_str());
    body.append("]}");
    body
}

/// The server's entry on the page.
pub open spec fn server_html(server: (Seq<char>, Seq<char>)) -> Seq<char> {
    "<div class=\"server-item\"><button class=\"server-btn\" onclick=\"selectServer('"@ + server.1
        + "')\">"@ + server.0 + "</button><span class=\"server-ip\">"@ + server.1 + "</span></div>"@
}

/// The servers' entries on the page, one behind the other.
pub open spec fn servers_html_of(servers: Seq<(Seq<char>, Seq<char>)>) -> Seq<char>
    decreases servers.len(),
{
    if servers.len() == 0 {
        Seq::empty()
    } else {
        servers_html_of(servers.drop_last()) + server_html(servers.last())
    }
}

/// Writes the entries of the servers that were found.
pub fn servers_html(state: &TuneState) -> (html: String)
    ensures
        html@ == servers_html_of(server_views(state.discovered_servers@)),
{
    let ghost servers = server_views(state.discovered_servers@);
    let mut html: String = String::new();
    let mut index: usize = 0;
    while index < state.discovered_servers.len()
        invariant
            index <= state.discovered_servers@.len(),
            servers == server_views(state.discovered_servers@),
            html@ == servers_html_of(servers.take(index as int)),
        decreases state.discovered_servers@.len() - index,
    {
        let server = &state.discovered_servers[index];
        let ghost before = html@;
        html.append("<div class=\"server-item\"><button class=\"server-btn\" onclick=\"selectServer('");
        html.append(server.1.as_str());
        html.append("')\">");
        html.append(server.0.as_str());
        html.append("</button><span class=\"server-ip\">");
        html.append(server.1.as_str());
        html.append("</span></div>");
        proof {
            assert(servers.take(index + 1).drop_last() =~= servers.take(index as int));
            assert(html@ =~= before + server_html(servers[index as int]));
        }
        index = index + 1;
    }
    assert(servers.take(servers.len() as int) =~= servers);
    html
}

// ---------------------------------------------------------------------------
// Laws
// ---------------------------------------------------------------------------

/// A number in force lies in its range once it was set, whatever float was asked for.
pub proof fn law_numbers_stay_in_range(parameter: TuneParameter, bits: u32)
    ensures
        ({
            let (low, high) = parameter.spec_range();
            let value = clamped(bits, low, high);
            &&& float_order(low) <= float_order(value) <= float_order(high)
            &&& float_order(low) <= float_order(bits) <= float_order(high) ==> value == bits
        }),
{
}

/// A scan for servers is started however the page asks for it, with a value or without.
pub proof fn law_every_scan_request_counts(part: Seq<char>)
    requires
        key_and_value(part).0 == "discover_servers"@,
    ensures
        request_of(part) == Some(TuneRequest::Discover),
{
    reveal_strlit("discover_servers");
    reveal_strlit("convergence_shift_ndc");
    reveal_strlit("ipd_scale");
    reveal_strlit("color_black_crush");
    reveal_strlit("color_gain");
    reveal_strlit("server_ip");
    assert("discover_servers"@.len() == 16);
    assert("convergence_shift_ndc"@.len() == 21);
    assert("ipd_scale"@.len() == 9);
    assert("color_black_crush"@.len() == 17);
    assert("color_gain"@.len() == 10);
    assert("server_ip"@.len() == 9);
}

/// Adding a server that is listed changes nothing, so servers may answer more than once.
pub proof fn law_servers_are_listed_once(
    servers: Seq<(Seq<char>, Seq<char>)>,
    hostname: Seq<char>,
    ip: Seq<char>,
)
    requires
        !is_known(servers, hostname, ip),
    ensures
        is_known(servers.push((hostname, ip)), hostname, ip),
        all_distinct(servers) ==> all_distinct(servers.push((hostname, ip))),
{
    assert(servers.push((hostname, ip))[servers.len() as int] == (hostname, ip));
}

/// The numbers have the ranges that the page offers: up to half the picture for the shift, up to
/// twice the distance between the eyes, up to three tenths for the black level, and from half to
/// twice the contrast. A number within its range is kept as it is.
pub proof fn law_ranges_are_those_of_the_page(bits: u32)
    ensures
        TuneParameter::ConvergenceShift.spec_range() == (0x0000_0000u32, 0x3f00_0000u32),
        TuneParameter::IpdScale.spec_range() == (0x0000_0000u32, 0x4000_0000u32),
        TuneParameter::ColorBlackCrush.spec_range() == (0x0000_0000u32, 0x3e99_999au32),
        TuneParameter::ColorGain.spec_range() == (0x3f00_0000u32, 0x4000_0000u32),
        float_order(bits) > float_order(0x4000_0000) ==> clamped(
            bits,
            TuneParameter::IpdScale.spec_range().0,
            TuneParameter::IpdScale.spec_range().1,
        ) == 0x4000_0000,
        float_order(bits) < float_order(0x3f00_0000) ==> clamped(
            bits,
            TuneParameter::ColorGain.spec_range().0,
            TuneParameter::ColorGain.spec_range().1,
        ) == 0x3f00_0000,
{
}

/// Numbers that were saved are in force again after the next start, each for itself, and so is
/// the server. Without a configuration the defaults are.
pub proof fn law_settings_survive_a_restart(
    before: TuneState,
    config: ClientConfig,
    defaults: (u32, u32, u32, u32),
    restarted: TuneState,
    fresh: TuneState,
)
    requires
        config.convergence_shift_ndc == Some(before.convergence_shift_ndc),
        config.ipd_scale == Some(before.ipd_scale),
        config.color_black_crush == Some(before.color_black_crush),
        config.color_gain == Some(before.color_gain),
        config.last_server_ip == Some(before.server_ip),
        call_ensures(
            init,
            (Some(&config), defaults.0, defaults.1, defaults.2, defaults.3),
            restarted,
        ),
        call_ensures(
            init,
            (None::<&ClientConfig>, defaults.0, defaults.1, defaults.2, defaults.3),
            fresh,
        ),
    ensures
        restarted.convergence_shift_ndc == before.convergence_shift_ndc,
        restarted.ipd_scale == before.ipd_scale,
        restarted.color_black_crush == before.color_black_crush,
        restarted.color_gain == before.color_gain,
        restarted.server_ip@ == before.server_ip@,
        fresh.convergence_shift_ndc == defaults.0,
        fresh.ipd_scale == defaults.1,
        fresh.color_black_crush == defaults.2,
        fresh.color_gain == defaults.3,
        fresh.server_ip@ == "192.168.1.100"@,
{
}

/// Each number is read from its own field.
pub proof fn law_numbers_are_read_for_themselves(
    state: TuneState,
    shift: u32,
    scale: u32,
    black: u32,
    gain: u32,
)
    requires
        call_ensures(convergence_shift_ndc, (&state,), shift),
        call_ensures(ipd_scale, (&state,), scale),
        call_ensures(color_black_crush, (&state,), black),
        call_ensures(color_gain, (&state,), gain),
    ensures
        shift == state.convergence_shift_ndc,
        scale == state.ipd_scale,
        black == state.color_black_crush,
        gain == state.color_gain,
{
}

/// The text begins and ends with what is no white space.
pub open spec fn has_solid_ends(text: Seq<char>) -> bool {
    text.len() > 0 && !whitespace(text[0]) && !whitespace(text.last())
}

/// What stands before the first `=` is the name, what stands behind it is the value. White space
/// around them does not count.
pub proof fn law_names_and_values_are_told_apart(
    name: Seq<char>,
    gap: Seq<char>,
    value: Seq<char>,
)
    requires
        has_solid_ends(name),
        !name.contains('='),
        has_solid_ends(value) || value.len() == 0,
        forall|i: int| 0 <= i < gap.len() ==> whitespace(#[trigger] gap[i]),
    ensures
        key_and_value(gap + name + gap + seq!['='] + gap + value + gap) == (name, value),
        key_and_value(gap + name + gap) == (name, Seq::<char>::empty()),
{
    let head = gap + name + gap;
    let tail = gap + value + gap;
    let part = gap + name + gap + seq!['='] + gap + value + gap;
    assert(part =~= head + seq!['='] + tail);
    assert(!whitespace('='));
    assert forall|i: int| 0 <= i < head.len() implies #[trigger] head[i] != '=' by {
        if i < gap.len() {
            assert(head[i] == gap[i]);
        } else if i < gap.len() + name.len() {
            assert(head[i] == name[i - gap.len()]);
        } else {
            assert(head[i] == gap[i - gap.len() - name.len()]);
        }
    }
    lemma_position(part, '=', 0);
    lemma_position(head, '=', 0);
    let at = position(part, '=', 0);
    assert(part[head.len() as int] == '=');
    assert(at == head.len()) by {
        if at < head.len() {
            assert(part[at] == head[at]);
        }
    }
    assert(part.take(at) =~= head);
    assert(part.skip(at + 1) =~= tail);
    law_trimming_takes_white_space_only(gap, name, gap);
    law_trimming_takes_white_space_only(gap, value, gap);
    law_trimming_takes_white_space_only(Seq::empty(), Seq::empty(), Seq::empty());
    assert(Seq::<char>::empty() + Seq::<char>::empty() + Seq::<char>::empty() =~= Seq::empty());
}

/// Each setting is changed under its own name, and other names change nothing.
pub proof fn law_settings_are_changed_by_name(part: Seq<char>, name: Seq<char>, value: Seq<char>)
    requires
        key_and_value(part) == (name, value),
    ensures
        name == "convergence_shift_ndc"@ ==> request_of(part) == Some(
            TuneRequest::Number(TuneParameter::ConvergenceShift, value),
        ),
        name == "ipd_scale"@ ==> request_of(part) == Some(
            TuneRequest::Number(TuneParameter::IpdScale, value),
        ),
        name == "color_black_crush"@ ==> request_of(part) == Some(
            TuneRequest::Number(TuneParameter::ColorBlackCrush, value),
        ),
        name == "color_gain"@ ==> request_of(part) == Some(
            TuneRequest::Number(TuneParameter::ColorGain, value),
        ),
        name == "server_ip"@ ==> request_of(part) == Some(TuneRequest::ServerIp(value)),
        request_of(part) is None <==> !(name == "convergence_shift_ndc"@ || name == "ipd_scale"@
            || name == "color_black_crush"@ || name == "color_gain"@ || name == "server_ip"@ || name
            == "discover_servers"@),
{
    reveal_strlit("discover_servers");
    reveal_strlit("convergence_shift_ndc");
    reveal_strlit("ipd_scale");
    reveal_strlit("color_black_crush");
    reveal_strlit("color_gain");
    reveal_strlit("server_ip");
    assert("discover_servers"@.len() == 16);
    assert("convergence_shift_ndc"@.len() == 21);
    assert("color_black_crush"@.len() == 17);
    assert("color_gain"@.len() == 10);
    assert("ipd_scale"@[0] == 'i');
    assert("server_ip"@[0] == 's');
    assert("ipd_scale"@.len() == 9);
    assert("server_ip"@.len() == 9);
}

/// A query asks for what its settings ask for, one after the other: none is lost, and none is
/// asked for twice.
pub proof fn law_every_setting_of_a_query_counts(left: Seq<Seq<char>>, right: Seq<Seq<char>>)
    ensures
        requests_of(left + right) == requests_of(left) + requests_of(right),
        left.len() == 1 ==> requests_of(left) == match request_of(left[0]) {
            Some(request) => seq![request],
            None => Seq::empty(),
        },
    decreases right.len(),
{
    if left.len() == 1 {
        assert(requests_of(left.drop_last()) =~= Seq::<TuneRequest>::empty());
    }
    if right.len() == 0 {
        assert(left + right =~= left);
        assert(requests_of(left + right) =~= requests_of(left) + requests_of(right));
    } else {
        law_every_setting_of_a_query_counts(left, right.drop_last());
        assert((left + right).drop_last() =~= left + right.drop_last());
        assert((left + right).last() == right.last());
        assert(requests_of(left + right) =~= requests_of(left) + requests_of(right));
    }
}

/// Two settings of a query are told apart by `&`.
pub proof fn law_queries_hold_settings_between_ampersands(first: Seq<char>, second: Seq<char>)
    requires
        !first.contains('&'),
        !second.contains('&'),
    ensures
        requests_of(split_from(first + seq!['&'] + second, '&', 0)) == requests_of(seq![first])
            + requests_of(seq![second]),
{
    let query = first + seq!['&'] + second;
    let at = first.len() as int;
    lemma_position(query, '&', 0);
    lemma_position(query, '&', at + 1);
    assert(query[at] == '&');
    assert(position(query, '&', 0) == at) by {
        let found = position(query, '&', 0);
        if found < at {
            assert(query[found] == first[found]);
        }
    }
    assert(position(query, '&', at + 1) == query.len()) by {
        let found = position(query, '&', at + 1);
        if found < query.len() {
            assert(query[found] == second[found - at - 1]);
        }
    }
    assert(query.subrange(0, at) =~= first);
    assert(query.skip(at + 1) =~= second);
    assert(split_from(query, '&', at + 1) =~= seq![second]);
    assert(split_from(query, '&', 0) =~= seq![first] + seq![second]);
    law_every_setting_of_a_query_counts(seq![first], seq![second]);
}

/// A request is answered by its path: the settings, the servers, a change with all that follows
/// the question mark, and the page for everything else, a request without a path among it.
pub proof fn law_requests_are_told_by_their_path(
    line: &str,
    route: Route,
    path: Seq<char>,
    query: Seq<char>,
)
    requires
        call_ensures(route_request, (line,), route),
    ensures
        second_word(line@) == Some("/values"@) ==> route is Values,
        second_word(line@) == Some("/servers"@) ==> route is Servers,
        second_word(line@) == Some("/set?"@ + query) ==> route is Change && route->Change_0@
            == query,
        second_word(line@) == Some("/"@) ==> route is Page,
        second_word(line@) is None ==> route is Page,
        second_word(line@) == Some(path) && path != "/values"@ && path != "/servers"@
            && !"/set?"@.is_prefix_of(path) ==> route is Page,
{
    reveal_strlit("/values");
    reveal_strlit("/servers");
    reveal_strlit("/set?");
    reveal_strlit("/");
    assert("/values"@.len() == 7);
    assert("/servers"@.len() == 8);
    assert("/set?"@.len() == 5);
    assert("/"@.len() == 1);
    assert("/values"@[1] == 'v');
    assert("/servers"@[2] == 'e');
    assert("/servers"@[3] == 'r');
    assert("/set?"@[1] == 's');
    assert("/set?"@[3] == 't');
    assert("/values"@.take(5)[1] == 'v');
    assert("/servers"@.take(5)[3] == 'r');
    let asked = "/set?"@ + query;
    assert(asked.take(5) =~= "/set?"@);
    assert(asked.skip(5) =~= query);
    assert(asked[1] == 's');
    assert(asked[3] == 't');
    if "/set?"@.len() <= path.len() && path.take(5) == "/set?"@ {
        assert(path.subrange(0, 5) =~= path.take(5));
        assert("/set?"@.is_prefix_of(path));
    }
}

/// An answer ends with its body, and says of which kind it is and how many bytes the body has.
pub proof fn law_answers_describe_their_body(content_type: Seq<char>, body: Seq<char>)
    ensures
        ({
            let length = decimal(vstd::utf8::encode_utf8(body).len());
            let answer = response_text(content_type, body);
            let page = page_response_text(body);
            &&& answer.skip(answer.len() - body.len()) == body
            &&& mentions(answer, "HTTP/1.1 200 OK\r\nContent-Type: "@ + content_type)
            &&& mentions(answer, "Content-Length: "@ + length + "\r\n\r\n"@ + body)
            &&& page.skip(page.len() - body.len()) == body
            &&& mentions(page, "Content-Type: text/html\r\n"@)
            &&& mentions(page, "Content-Length: "@ + length + "\r\n\r\n"@ + body)
        }),
{
    let length = decimal(vstd::utf8::encode_utf8(body).len());
    let answer = response_text(content_type, body);
    let page = page_response_text(body);
    assert(answer.skip(answer.len() - body.len()) =~= body);
    assert(page.skip(page.len() - body.len()) =~= body);
    reveal_strlit("HTTP/1.1 200 OK\r\nContent-Type: ");
    reveal_strlit("HTTP/1.1 200 OK\r\nContent-Type: text/html\r\nContent-Length: ");
    reveal_strlit("\r\nAccess-Control-Allow-Origin: *\r\nContent-Length: ");
    reveal_strlit("Content-Length: ");
    reveal_strlit("Content-Type: text/html\r\n");
    reveal_strlit("\r\n\r\n");
    let kind = "HTTP/1.1 200 OK\r\nContent-Type: "@ + content_type;
    let rest = "Content-Length: "@ + length + "\r\n\r\n"@ + body;
    let allowed = "\r\nAccess-Control-Allow-Origin: *\r\nContent-Length: "@;
    let opening = "HTTP/1.1 200 OK\r\nContent-Type: text/html\r\nContent-Length: "@;
    let allowed_head = allowed.take(allowed.len() - 16);
    let opening_head = opening.take(opening.len() - 16);
    assert(allowed =~= allowed_head + "Content-Length: "@);
    assert(opening =~= opening_head + "Content-Length: "@);
    assert(answer =~= Seq::<char>::empty() + kind + (allowed + length + "\r\n\r\n"@ + body));
    assert(answer =~= (kind + allowed_head) + rest + Seq::<char>::empty());
    assert(page =~= opening_head + rest + Seq::<char>::empty());
    assert(opening_head =~= opening.take(17) + "Content-Type: text/html\r\n"@);
    assert(page =~= opening.take(17) + "Content-Type: text/html\r\n"@ + rest);
    lemma_shown(Seq::empty(), kind, allowed + length + "\r\n\r\n"@ + body);
    lemma_shown(kind + allowed_head, rest, Seq::empty());
    lemma_shown(opening_head, rest, Seq::empty());
    lemma_shown(opening.take(17), "Content-Type: text/html\r\n"@, rest);
}

proof fn lemma_shown(before: Seq<char>, part: Seq<char>, after: Seq<char>)
    ensures
        mentions(before + part + after, part),
{
    lemma_mentions_itself(part);
    lemma_mentions_within(before, part, after, part);
}

/// The page gets each setting under its own name.
pub proof fn law_values_stand_under_their_names(
    state: TuneState,
    shift: &str,
    scale: &str,
    black: &str,
    gain: &str,
    body: String,
)
    requires
        call_ensures(values_body, (&state, shift, scale, black, gain), body),
    ensures
        mentions(body@, "{\"convergence_shift_ndc\":"@ + shift@),
        mentions(body@, ",\"ipd_scale\":"@ + scale@),
        mentions(body@, ",\"color_black_crush\":"@ + black@),
        mentions(body@, ",\"color_gain\":"@ + gain@),
        mentions(body@, ",\"server_ip\":\""@ + state.server_ip@),
        mentions(body@, "\",\"server_status\":\""@ + state.server_status@ + "\"}"@),
{
    let a = "{\"convergence_shift_ndc\":"@ + shift@;
    let b = ",\"ipd_scale\":"@ + scale@;
    let c = ",\"color_black_crush\":"@ + black@;
    let d = ",\"color_gain\":"@ + gain@;
    let e = ",\"server_ip\":\""@ + state.server_ip@;
    let f = "\",\"server_status\":\""@ + state.server_status@ + "\"}"@;
    assert(body@ =~= a + b + c + d + e + f);
    lemma_shown(Seq::empty(), a, b + c + d + e + f);
    lemma_shown(a, b, c + d + e + f);
    lemma_shown(a + b, c, d + e + f);
    lemma_shown(a + b + c, d, e + f);
    lemma_shown(a + b + c + d, e, f);
    lemma_shown(a + b + c + d + e, f, Seq::empty());
    assert(Seq::<char>::empty() + a + (b + c + d + e + f) =~= body@);
    assert(a + b + (c + d + e + f) =~= body@);
    assert(a + b + c + (d + e + f) =~= body@);
    assert(a + b + c + d + (e + f) =~= body@);
    assert(a + b + c + d + e + f + Seq::<char>::empty() =~= body@);
}

/// An entry names the server by its name and sends the wearer to its address.
pub proof fn law_entries_lead_to_their_server(server: (Seq<char>, Seq<char>))
    ensures
        mentions(server_json(server), "{\"hostname\":\""@ + server.0),
        mentions(server_json(server), "\",\"ip\":\""@ + server.1),
        mentions(
            server_html(server),
            "<div class=\"server-item\"><button class=\"server-btn\" onclick=\"selectServer('"@
                + server.1,
        ),
        mentions(server_html(server), "')\">"@ + server.0 + "</button>"@),
        mentions(server_html(server), "<span class=\"server-ip\">"@ + server.1),
{
    let name = "{\"hostname\":\""@ + server.0;
    let address = "\",\"ip\":\""@ + server.1;
    assert(server_json(server) =~= Seq::<char>::empty() + name + (address + "\"}"@));
    assert(server_json(server) =~= name + address + "\"}"@);
    lemma_shown(Seq::empty(), name, address + "\"}"@);
    lemma_shown(name, address, "\"}"@);
    reveal_strlit("</button><span class=\"server-ip\">");
    reveal_strlit("</button>");
    reveal_strlit("<span class=\"server-ip\">");
    let link =
        "<div class=\"server-item\"><button class=\"server-btn\" onclick=\"selectServer('"@
        + server.1;
    let shown = "')\">"@ + server.0 + "</button>"@;
    let place = "<span class=\"server-ip\">"@ + server.1;
    assert("</button><span class=\"server-ip\">"@ =~= "</button>"@ + "<span class=\"server-ip\">"@);
    let html = server_html(server);
    assert(html =~= Seq::<char>::empty() + link + (shown + place + "</span></div>"@));
    assert(html =~= link + shown + (place + "</span></div>"@));
    assert(html =~= (link + shown) + place + "</span></div>"@);
    lemma_shown(Seq::empty(), link, shown + place + "</span></div>"@);
    lemma_shown(link, shown, place + "</span></div>"@);
    lemma_shown(link + shown, place, "</span></div>"@);
}

/// A list of servers is that of the first ones, followed by that of the others.
pub proof fn law_servers_are_listed_in_order(
    left: Seq<(Seq<char>, Seq<char>)>,
    right: Seq<(Seq<char>, Seq<char>)>,
)
    ensures
        servers_html_of(left + right) == servers_html_of(left) + servers_html_of(right),
        left.len() == 1 ==> servers_html_of(left) == server_html(left[0]),
        left.len() == 1 ==> servers_json(left) == server_json(left[0]),
        left.len() > 0 && right.len() > 0 ==> servers_json(left + right) == servers_json(left)
            + ","@ + servers_json(right),
    decreases right.len(),
{
    let json = |server: (Seq<char>, Seq<char>)| server_json(server);
    if left.len() == 1 {
        assert(servers_html_of(left.drop_last()) =~= Seq::<char>::empty());
        assert(servers_html_of(left) =~= server_html(left[0]));
        assert(left.map_values(json) =~= seq![server_json(left[0])]);
        law_separators_stand_between(left.map_values(json), left.map_values(json), ","@);
    }
    if left.len() > 0 && right.len() > 0 {
        law_separators_stand_between(left.map_values(json), right.map_values(json), ","@);
        assert((left + right).map_values(json) =~= left.map_values(json) + right.map_values(json));
    }
    if right.len() == 0 {
        assert(left + right =~= left);
        assert(servers_html_of(left + right) =~= servers_html_of(left) + servers_html_of(right));
    } else {
        law_servers_are_listed_in_order(left, right.drop_last());
        assert((left + right).drop_last() =~= left + right.drop_last());
        assert((left + right).last() == right.last());
        assert(servers_html_of(left + right) =~= servers_html_of(left) + servers_html_of(right));
    }
}

/// A server's name fills the 32 bytes behind the first 18 of its answer, and only the zeros at its
/// end are left out.
pub proof fn law_answers_hold_the_name(head: Seq<u8>, name: Seq<u8>, rest: Seq<u8>, text: Seq<char>)
    requires
        head.len() == 18,
        name.len() == 32 || (0 < name.len() < 32 && rest.len() == 0),
    ensures
        answer_name(head + name + rest) == name,
        text.len() > 0 && text.last() != '\0' ==> without_zeros(text) == text,
        without_zeros(text.push('\0')) == without_zeros(text),
        without_zeros(Seq::empty()) == Seq::<char>::empty(),
{
    let answer = head + name + rest;
    assert(answer_name(answer) =~= name);
    assert(text.push('\0').drop_last() =~= text);
}

/// The page says whom the client connects to, what went wrong, and how many servers it found.
pub proof fn law_progress_says_what_happens(ip: String, error: String, count: usize)
    ensures
        mentions(ServerProgress::Connecting(ip).spec_text(), "Connecting to "@ + ip@),
        mentions(ServerProgress::InvalidAddress(ip).spec_text(), "Invalid IP: "@ + ip@),
        mentions(ServerProgress::Failed(error).spec_text(), "Connection failed: "@ + error@),
        mentions(
            ServerProgress::Found(count).spec_text(),
            "Found "@ + decimal(count as nat) + " server(s)"@,
        ),
        ServerProgress::Connected.spec_text() == "Connected"@,
        ServerProgress::Discovering.spec_text() == "Discovering..."@,
        ServerProgress::DiscoveryFailed.spec_text() == "Discovery failed"@,
        ServerProgress::NoConfig.spec_text() == "Failed to load config"@,
        ServerProgress::NoRuntime.spec_text() == "Failed to create runtime"@,
{
    let connecting = "Connecting to "@ + ip@;
    assert(Seq::<char>::empty() + connecting + "..."@ =~= ServerProgress::Connecting(
        ip,
    ).spec_text());
    lemma_shown(Seq::empty(), connecting, "..."@);
    lemma_mentions_itself("Invalid IP: "@ + ip@);
    lemma_mentions_itself("Connection failed: "@ + error@);
    lemma_mentions_itself("Found "@ + decimal(count as nat) + " server(s)"@);
}

/// A number that is set comes into force within its range and changes no other. One that is not
/// finite changes nothing. Only the scale of the eyes' distance has the views sent again.
pub proof fn law_numbers_are_set_one_by_one(parameter: TuneParameter, bits: u32, effect: TuneEffect)
    ensures
        forall|state: &mut TuneState|
            #[trigger] call_ensures(set_parameter, (state, parameter, bits), effect) ==> {
                &&& (effect is Rejected) == !is_finite_float(bits)
                &&& (effect is SaveAndResendViews) == (is_finite_float(bits) && parameter
                    is IpdScale)
                &&& effect is Rejected ==> final(state).convergence_shift_ndc
                    == (*state).convergence_shift_ndc && final(state).ipd_scale
                    == (*state).ipd_scale && final(state).color_black_crush
                    == (*state).color_black_crush && final(state).color_gain
                    == (*state).color_gain
                &&& !(effect is Rejected) && parameter is ConvergenceShift
                    ==> final(state).convergence_shift_ndc == clamped(bits, 0, 0x3f00_0000)
                &&& !(effect is Rejected) && parameter is IpdScale ==> final(state).ipd_scale
                    == clamped(bits, 0, 0x4000_0000)
                &&& !(effect is Rejected) && parameter is ColorBlackCrush
                    ==> final(state).color_black_crush == clamped(bits, 0, 0x3e99_999a)
                &&& !(effect is Rejected) && parameter is ColorGain ==> final(state).color_gain
                    == clamped(bits, 0x3f00_0000, 0x4000_0000)
                &&& !(parameter is ConvergenceShift) ==> final(state).convergence_shift_ndc
                    == (*state).convergence_shift_ndc
                &&& !(parameter is IpdScale) ==> final(state).ipd_scale == (*state).ipd_scale
                &&& !(parameter is ColorBlackCrush) ==> final(state).color_black_crush
                    == (*state).color_black_crush
                &&& !(parameter is ColorGain) ==> final(state).color_gain == (*state).color_gain
                &&& final(state).server_ip == (*state).server_ip
            },
{
    assert forall|state: &mut TuneState|
        #[trigger] call_ensures(set_parameter, (state, parameter, bits), effect) implies {
        &&& !(parameter is ConvergenceShift) ==> final(state).convergence_shift_ndc
            == (*state).convergence_shift_ndc
        &&& !(parameter is IpdScale) ==> final(state).ipd_scale == (*state).ipd_scale
        &&& !(parameter is ColorBlackCrush) ==> final(state).color_black_crush
            == (*state).color_black_crush
        &&& !(parameter is ColorGain) ==> final(state).color_gain == (*state).color_gain
    } by {
        assert(final(state).value(TuneParameter::ConvergenceShift)
            == final(state).convergence_shift_ndc);
        assert(final(state).value(TuneParameter::IpdScale) == final(state).ipd_scale);
        assert(final(state).value(TuneParameter::ColorBlackCrush)
            == final(state).color_black_crush);
        assert(final(state).value(TuneParameter::ColorGain) == final(state).color_gain);
    }
}

/// What was saved is found again at the next start, whatever the configuration held before.
pub proof fn law_saved_settings_are_found_again(
    state: TuneState,
    restarted: TuneState,
    defaults: (u32, u32, u32, u32),
)
    ensures
        forall|config: &mut ClientConfig|
            #[trigger] call_ensures(save_tuning_settings, (&state, config), ()) && call_ensures(
                init,
                (Some(final(config)), defaults.0, defaults.1, defaults.2, defaults.3),
                restarted,
            ) ==> {
                &&& restarted.convergence_shift_ndc == state.convergence_shift_ndc
                &&& restarted.ipd_scale == state.ipd_scale
                &&& restarted.color_black_crush == state.color_black_crush
                &&& restarted.color_gain == state.color_gain
                &&& final(config).client_name == (*config).client_name
                &&& final(config).last_server_ip == (*config).last_server_ip
            },
{
}

/// A server's address that was saved is found again at the next start. The numbers stay.
pub proof fn law_saved_server_is_found_again(
    ip: &str,
    restarted: TuneState,
    defaults: (u32, u32, u32, u32),
)
    ensures
        forall|config: &mut ClientConfig|
            #[trigger] call_ensures(save_server_ip_to_config, (ip, config), ()) && call_ensures(
                init,
                (Some(final(config)), defaults.0, defaults.1, defaults.2, defaults.3),
                restarted,
            ) ==> {
                &&& restarted.server_ip@ == ip@
                &&& final(config).ipd_scale == (*config).ipd_scale
                &&& final(config).color_gain == (*config).color_gain
            },
{
}

/// What is set of the server is read back: its address as the address, the status as the status.
pub proof fn law_server_is_read_back(text: String, shown: String)
    ensures
        forall|state: &mut TuneState|
            #[trigger] call_ensures(set_server_ip, (state, text), ()) && call_ensures(
                get_server_ip,
                (final(state),),
                shown,
            ) ==> shown@ == text@ && final(state).server_status == (*state).server_status,
        forall|state: &mut TuneState|
            #[trigger] call_ensures(set_server_status, (state, text), ()) && call_ensures(
                get_server_status,
                (final(state),),
                shown,
            ) ==> shown@ == text@ && final(state).server_ip == (*state).server_ip,
{
}

/// A server that was found is listed with its name and its address behind those that were found
/// before, unless one of that name or address is listed. Forgetting leaves none.
pub proof fn law_found_servers_are_listed(hostname: String, ip: String, at: int)
    ensures
        forall|state: &mut TuneState|
            (*state).well_formed() && #[trigger] call_ensures(
                add_discovered_server,
                (state, hostname, ip),
                (),
            ) ==> {
                let before = (*state).discovered_servers@;
                let after = final(state).discovered_servers@;
                let listed = exists|i: int|
                    0 <= i < before.len() && ((#[trigger] before[i]).0@ == hostname@ || before[i].1@ == ip@);
                &&& !listed ==> after.len() == before.len() + 1 && after.last().0@ == hostname@
                    && after.last().1@ == ip@
                &&& listed ==> after.len() == before.len()
                &&& 0 <= at < before.len() ==> after[at].0@ == before[at].0@ && after[at].1@
                    == before[at].1@
            },
        forall|state: &mut TuneState| #[trigger]
            call_ensures(clear_discovered_servers, (state,), ()) ==> {
                &&& final(state).discovered_servers@.len() == 0
                &&& final(state).server_ip == (*state).server_ip
            },
{
    assert forall|state: &mut TuneState|
        (*state).well_formed() && #[trigger] call_ensures(
            add_discovered_server,
            (state, hostname, ip),
            (),
        ) implies {
        let before = (*state).discovered_servers@;
        let after = final(state).discovered_servers@;
        let listed = exists|i: int|
            0 <= i < before.len() && ((#[trigger] before[i]).0@ == hostname@ || before[i].1@ == ip@);
        &&& !listed ==> after.len() == before.len() + 1 && after.last().0@ == hostname@
            && after.last().1@ == ip@
        &&& listed ==> after.len() == before.len()
        &&& 0 <= at < before.len() ==> after[at].0@ == before[at].0@ && after[at].1@
            == before[at].1@
    } by {
        let before = (*state).discovered_servers@;
        let after = final(state).discovered_servers@;
        let views = server_views(before);
        let listed = exists|i: int|
            0 <= i < before.len() && ((#[trigger] before[i]).0@ == hostname@ || before[i].1@ == ip@);
        if listed {
            let i = choose|i: int|
                0 <= i < before.len() && ((#[trigger] before[i]).0@ == hostname@ || before[i].1@ == ip@);
            assert(views[i] == (before[i].0@, before[i].1@));
            assert(is_known(views, hostname@, ip@));
        } else {
            assert(!is_known(views, hostname@, ip@)) by {
                if is_known(views, hostname@, ip@) {
                    let i = choose|i: int|
                        0 <= i < views.len() && ((#[trigger] views[i]).0 == hostname@ || views[i].1
                            == ip@);
                    assert(before[i].0@ == hostname@ || before[i].1@ == ip@);
                }
            }
        }
        assert(server_views(after).len() == after.len());
        if 0 <= at < before.len() {
            assert(server_views(after)[at] == views[at]);
        }
        if !listed {
            assert(server_views(after)[before.len() as int] == (hostname@, ip@));
        }
    }
}

/// Before the configuration is read there is no server, and every number is zero.
pub proof fn law_nothing_is_set_at_first(state: TuneState)
    requires
        call_ensures(TuneState::default, (), state),
    ensures
        state.convergence_shift_ndc == 0,
        state.ipd_scale == 0,
        state.color_black_crush == 0,
        state.color_gain == 0,
        state.server_ip@ == "192.168.1.100"@,
        state.server_status@ == "Not connected"@,
        state.discovered_servers@.len() == 0,
{
    assert(state.value(TuneParameter::ConvergenceShift) == 0);
    assert(state.value(TuneParameter::IpdScale) == 0);
    assert(state.value(TuneParameter::ColorBlackCrush) == 0);
    assert(state.value(TuneParameter::ColorGain) == 0);
}

/// A query is read as the settings between its ampersands, in their order.
pub proof fn law_queries_are_read_setting_by_setting(
    query: &str,
    first: Seq<char>,
    second: Seq<char>,
    commands: Vec<TuneCommand>,
)
    requires
        !first.contains('&'),
        !second.contains('&'),
        query@ == first + seq!['&'] + second,
        request_of(first) is Some,
        request_of(second) is Some,
        call_ensures(handle_set, (query,), commands),
    ensures
        commands@.len() == 2,
        commands@[0]@ == request_of(first)->0,
        commands@[1]@ == request_of(second)->0,
{
    law_queries_hold_settings_between_ampersands(first, second);
    law_every_setting_of_a_query_counts(seq![first], seq![first]);
    law_every_setting_of_a_query_counts(seq![second], seq![second]);
    let views = commands@.map_values(|command: TuneCommand| command@);
    assert(views =~= seq![request_of(first)->0, request_of(second)->0]);
    assert(views[0] == commands@[0]@);
    assert(views[1] == commands@[1]@);
}

/// An answer with more than its first 18 bytes names the server by the bytes that follow.
pub proof fn law_names_are_read_from_answers(
    answer: &[u8],
    head: Seq<u8>,
    name: Seq<u8>,
    rest: Seq<u8>,
    hostname: Option<String>,
)
    requires
        head.len() == 18,
        name.len() == 32 || (name.len() < 32 && rest.len() == 0),
        answer@ == head + name + rest,
        vstd::utf8::valid_utf8(name),
        call_ensures(discovered_hostname, (answer,), hostname),
    ensures
        hostname is Some == (name.len() > 0),
        hostname is Some ==> hostname->0@ == without_zeros(vstd::utf8::decode_utf8(name)),
{
    if name.len() > 0 {
        law_answers_hold_the_name(head, name, rest, Seq::empty());
    }
}

/// The page has its own port, and says that nothing is connected until it is.
pub proof fn law_page_has_its_own_port(
    config: Option<&ClientConfig>,
    defaults: (u32, u32, u32, u32),
    state: TuneState,
)
    requires
        call_ensures(init, (config, defaults.0, defaults.1, defaults.2, defaults.3), state),
    ensures
        TUNE_PORT == 7878,
        state.server_status@ == "Not connected - configure below"@,
        state.discovered_servers@.len() == 0,
{
}

/// What a browser gets says how long it is and ends with what it asked for.
pub proof fn law_browsers_get_what_they_asked_for(
    content_type: &str,
    body: &str,
    answer: String,
    page: String,
)
    requires
        call_ensures(http_response, (content_type, body), answer),
        call_ensures(page_response, (body,), page),
    ensures
        ({
            let length = decimal(vstd::utf8::encode_utf8(body@).len());
            &&& answer@.skip(answer@.len() - body@.len()) == body@
            &&& mentions(answer@, "HTTP/1.1 200 OK\r\nContent-Type: "@ + content_type@)
            &&& mentions(answer@, "Content-Length: "@ + length + "\r\n\r\n"@ + body@)
            &&& page@.skip(page@.len() - body@.len()) == body@
            &&& mentions(page@, "Content-Length: "@ + length + "\r\n\r\n"@ + body@)
        }),
{
    law_answers_describe_their_body(content_type@, body@);
}

/// The list of servers holds each that was found, by its name and its address.
pub proof fn law_found_servers_are_shown(
    state: TuneState,
    json: String,
    html: String,
    given: Vec<(String, String)>,
)
    requires
        state.discovered_servers@.len() == 1,
        call_ensures(servers_body, (&state,), json),
        call_ensures(servers_html, (&state,), html),
        call_ensures(get_discovered_servers, (&state,), given),
    ensures
        ({
            let server = (state.discovered_servers@[0].0@, state.discovered_servers@[0].1@);
            &&& json@ == "{\"servers\":["@ + server_json(server) + "]}"@
            &&& html@ == server_html(server)
            &&& given@.len() == 1 && given@[0].0@ == server.0 && given@[0].1@ == server.1
        }),
{
    let server = (state.discovered_servers@[0].0@, state.discovered_servers@[0].1@);
    let views = server_views(state.discovered_servers@);
    assert(views =~= seq![server]);
    law_servers_are_listed_in_order(seq![server], seq![server]);
    assert(server_views(given@).len() == given@.len());
    assert(server_views(given@)[0] == server);
}

} // verus!
