//! Settings of a stream, as the server's session document gives them.

use vstd::prelude::*;

use crate::decoder::same_text;

verus! {

// ---------------------------------------------------------------------------
// Documents
// ---------------------------------------------------------------------------

/// A parsed document.
#[verifier::external_type_specification]
#[verifier::external_body]
pub struct ExJsonDocument(serde_json::Value);

/// Why a text is no document.
#[verifier::external_type_specification]
#[verifier::external_body]
pub struct ExJsonError(serde_json::Error);

/// A value in a document.
#[derive(Clone, Debug, PartialEq, Eq)]
pub enum JsonValue {
    Null,
    Bool(bool),
    /// A number: its value where it is an unsigned integer, and the bits of the 64-bit float
    /// nearest to it.
    Number { unsigned: Option<u64>, float_bits: Option<u64> },
    Text(String),
    List,
    Object,
}

/// What a value in a document holds.
pub enum JsonNode {
    Null,
    Bool(bool),
    Number { unsigned: Option<u64>, float_bits: Option<u64> },
    Text(Seq<char>),
    List,
    Object,
}

impl View for JsonValue {
    type V = JsonNode;

    open spec fn view(&self) -> JsonNode {
        match *self {
            JsonValue::Null => JsonNode::Null,
            JsonValue::Bool(value) => JsonNode::Bool(value),
            JsonValue::Number { unsigned, float_bits } => JsonNode::Number { unsigned, float_bits },
            JsonValue::Text(text) => JsonNode::Text(text@),
            JsonValue::List => JsonNode::List,
            JsonValue::Object => JsonNode::Object,
        }
    }
}

/// What a value holds, where there is one.
pub open spec fn node_of(value: Option<JsonValue>) -> Option<JsonNode> {
    match value {
        Some(value) => Some(value@),
        None => None,
    }
}

/// The values of a document, each under the pointer that leads to it.
pub uninterp spec fn json_nodes(document: serde_json::Value) -> Map<Seq<char>, JsonNode>;

/// The values of the document that a text is, each under the pointer that leads to it.
pub uninterp spec fn json_document(text: Seq<char>) -> Option<Map<Seq<char>, JsonNode>>;

/// Calls `serde_json::from_str`. Claims that whether the text is a document, and what the
/// document holds, are functions of the text.
#[verifier::external_body]
fn parse_json(text: &str) -> (document: Result<serde_json::Value, serde_json::Error>)
    ensures
        match document {
            Ok(document) => json_document(text@) == Some(json_nodes(document)),
            Err(_) => json_document(text@) is None,
        },
{
    serde_json::from_str(text)
}

/// Calls `serde_json::Value::pointer`, and hands out the value that it finds. Claims that the
/// document holds that value under the pointer, and holds none there where nothing is found.
#[verifier::external_body]
fn json_at(document: &serde_json::Value, pointer: &str) -> (value: Option<JsonValue>)
    ensures
        match value {
            Some(value) => {
                &&& json_nodes(*document).contains_key(pointer@)
                &&& json_nodes(*document)[pointer@] == value@
            },
            None => !json_nodes(*document).contains_key(pointer@),
        },
{
    document.pointer(pointer).map(|value| match value {
        serde_json::Value::Null => JsonValue::Null,
        serde_json::Value::Bool(flag) => JsonValue::Bool(*flag),
        serde_json::Value::Number(number) => JsonValue::Number {
            unsigned: number.as_u64(),
            float_bits: number.as_f64().map(|value| value.to_bits()),
        },
        serde_json::Value::String(text) => JsonValue::Text(text.clone()),
        serde_json::Value::Array(_) => JsonValue::List,
        serde_json::Value::Object(_) => JsonValue::Object,
    })
}

/// The value under a pointer.
pub open spec fn node_at(nodes: Map<Seq<char>, JsonNode>, pointer: Seq<char>) -> Option<JsonNode> {
    if nodes.contains_key(pointer) {
        Some(nodes[pointer])
    } else {
        None
    }
}

/// The unsigned integer that a value is.
pub open spec fn unsigned_of(node: Option<JsonNode>) -> Option<u64> {
    match node {
        Some(JsonNode::Number { unsigned, .. }) => unsigned,
        _ => None,
    }
}

/// The flag that a value is.
pub open spec fn flag_of(node: Option<JsonNode>) -> Option<bool> {
    match node {
        Some(JsonNode::Bool(value)) => Some(value),
        _ => None,
    }
}

/// The bits of the float that a value is.
pub open spec fn float_of(node: Option<JsonNode>) -> Option<u64> {
    match node {
        Some(JsonNode::Number { float_bits, .. }) => float_bits,
        _ => None,
    }
}

fn as_unsigned(value: &Option<JsonValue>) -> (number: Option<u64>)
    ensures
        number == unsigned_of(node_of(*value)),
{
    match value {
        Some(JsonValue::Number { unsigned, .. }) => *unsigned,
        _ => None,
    }
}

fn as_float_or(value: &Option<JsonValue>, default: u64) -> (bits: u64)
    ensures
        bits == match float_of(node_of(*value)) {
            Some(bits) => bits,
            None => default,
        },
{
    match value {
        Some(JsonValue::Number { float_bits: Some(bits), .. }) => *bits,
        _ => default,
    }
}

fn as_flag_or(value: &Option<JsonValue>, default: bool) -> (flag: bool)
    ensures
        flag == match flag_of(node_of(*value)) {
            Some(flag) => flag,
            None => default,
        },
{
    match value {
        Some(JsonValue::Bool(flag)) => *flag,
        _ => default,
    }
}

// ---------------------------------------------------------------------------
// Where the settings stand
// ---------------------------------------------------------------------------

/// The group of settings that a document holds: under `primary`, or else under `fallback`. None
/// where it holds neither.
pub open spec fn group_path(
    nodes: Map<Seq<char>, JsonNode>,
    primary: Seq<char>,
    fallback: Seq<char>,
) -> Option<Seq<char>> {
    if nodes.contains_key(primary) {
        Some(primary)
    } else if nodes.contains_key(fallback) {
        Some(fallback)
    } else {
        None
    }
}

/// A setting of a group.
pub open spec fn setting_at(
    nodes: Map<Seq<char>, JsonNode>,
    group: Option<Seq<char>>,
    name: Seq<char>,
) -> Option<JsonNode> {
    match group {
        Some(group) => node_at(nodes, group + name),
        None => None,
    }
}

fn find_group(
    document: &serde_json::Value,
    primary: &'static str,
    fallback: &'static str,
) -> (group: Option<&'static str>)
    ensures
        match group {
            Some(group) => group_path(json_nodes(*document), primary@, fallback@) == Some(group@),
            None => group_path(json_nodes(*document), primary@, fallback@) is None,
        },
{
    if json_at(document, primary).is_some() {
        Some(primary)
    } else if json_at(document, fallback).is_some() {
        Some(fallback)
    } else {
        None
    }
}

fn read_setting(
    document: &serde_json::Value,
    group: Option<&'static str>,
    name: &str,
) -> (value: Option<JsonValue>)
    ensures
        node_of(value) == setting_at(
            json_nodes(*document),
            match group {
                Some(group) => Some(group@),
                None => None,
            },
            name@,
        ),
{
    match group {
        Some(group) => {
            let mut pointer: String = group.to_owned();
            pointer.append(name);
            json_at(document, pointer.as_str())
        },
        None => None,
    }
}

// ---------------------------------------------------------------------------
// The stream's socket
// ---------------------------------------------------------------------------

/// How the stream is carried.
#[derive(Clone, Copy, Debug, PartialEq, Eq, Structural)]
pub enum StreamProtocol {
    Udp,
    Tcp,
}

/// Port of the stream where the document names none.
pub const DEFAULT_STREAM_PORT: u16 = 9944;

/// Longest datagram where the document names none.
pub const DEFAULT_PACKET_SIZE: usize = 1400;

/// Settings of foveated encoding. The layout's numbers are the bits of 64-bit floats.
#[derive(Clone, Copy, Debug, PartialEq, Eq, Structural)]
pub struct FoveatedEncodingConfig {
    pub expanded_view_width: u32,
    pub expanded_view_height: u32,
    pub center_size_x: u64,
    pub center_size_y: u64,
    pub center_shift_x: u64,
    pub center_shift_y: u64,
    pub edge_ratio_x: u64,
    pub edge_ratio_y: u64,
}

/// 0.45, the width of the centre.
pub const DEFAULT_CENTER_SIZE_X: u64 = 0x3fdc_cccc_cccc_cccd;

/// 0.4, the height of the centre.
pub const DEFAULT_CENTER_SIZE_Y: u64 = 0x3fd9_9999_9999_999a;

/// 4, the horizontal ratio at the edge.
pub const DEFAULT_EDGE_RATIO_X: u64 = 0x4010_0000_0000_0000;

/// 5, the vertical ratio at the edge.
pub const DEFAULT_EDGE_RATIO_Y: u64 = 0x4014_0000_0000_0000;

/// Settings of the stream's socket.
#[derive(Clone, Copy, Debug, PartialEq, Eq, Structural)]
pub struct StreamSocketSettings {
    pub protocol: StreamProtocol,
    pub port: u16,
    pub packet_size: usize,
    pub foveated_encoding: Option<FoveatedEncodingConfig>,
}

/// The text is no document.
#[derive(Clone, Copy, Debug, PartialEq, Eq, Structural)]
pub struct SessionSyntaxError;

/// What a document says of the connection.
#[derive(Clone, Debug, PartialEq, Eq)]
pub struct ConnectionValues {
    pub stream_port: Option<JsonValue>,
    pub packet_size: Option<JsonValue>,
    pub stream_protocol: Option<JsonValue>,
}

/// What a document says of foveated encoding.
#[derive(Clone, Debug, PartialEq, Eq)]
pub struct FoveationValues {
    pub enabled: Option<JsonValue>,
    pub eye_width: Option<JsonValue>,
    pub target_eye_width: Option<JsonValue>,
    pub eye_height: Option<JsonValue>,
    pub target_eye_height: Option<JsonValue>,
    pub center_size_x: Option<JsonValue>,
    pub center_size_y: Option<JsonValue>,
    pub center_shift_x: Option<JsonValue>,
    pub center_shift_y: Option<JsonValue>,
    pub edge_ratio_x: Option<JsonValue>,
    pub edge_ratio_y: Option<JsonValue>,
}

/// The port: the default where the value is no port.
pub open spec fn port_of(node: Option<JsonNode>) -> u16 {
    match unsigned_of(node) {
        Some(value) if value <= u16::MAX => value as u16,
        _ => DEFAULT_STREAM_PORT,
    }
}

/// The longest datagram: the default where the value is no size.
pub open spec fn packet_size_of(node: Option<JsonNode>) -> usize {
    match unsigned_of(node) {
        Some(value) if value <= usize::MAX => value as usize,
        _ => DEFAULT_PACKET_SIZE,
    }
}

/// How the stream is carried: over TCP on a wire or where the document says so.
pub open spec fn protocol_of(node: Option<JsonNode>, wired: bool) -> StreamProtocol {
    if wired || node == Some(JsonNode::Text("Tcp"@)) {
        StreamProtocol::Tcp
    } else {
        StreamProtocol::Udp
    }
}

/// Size of an eye: the encoded size, or the headset's where the document has no encoded one.
pub open spec fn eye_size_of(primary: Option<JsonNode>, fallback: Option<JsonNode>) -> Option<u32> {
    match unsigned_of(
        if primary is Some {
            primary
        } else {
            fallback
        },
    ) {
        Some(value) if value <= u32::MAX => Some(value as u32),
        _ => None,
    }
}

/// A number of the layout.
pub open spec fn number_or(node: Option<JsonNode>, default: u64) -> u64 {
    match float_of(node) {
        Some(bits) => bits,
        None => default,
    }
}

/// Foveated encoding: none unless it is enabled and the size of the eye is known.
pub open spec fn foveation_of(values: FoveationValues) -> Option<FoveatedEncodingConfig> {
    let width = eye_size_of(node_of(values.eye_width), node_of(values.target_eye_width));
    let height = eye_size_of(node_of(values.eye_height), node_of(values.target_eye_height));
    if flag_of(node_of(values.enabled)) == Some(true) && width is Some && height is Some {
        Some(
            FoveatedEncodingConfig {
                expanded_view_width: width->0,
                expanded_view_height: height->0,
                center_size_x: number_or(node_of(values.center_size_x), DEFAULT_CENTER_SIZE_X),
                center_size_y: number_or(node_of(values.center_size_y), DEFAULT_CENTER_SIZE_Y),
                center_shift_x: number_or(node_of(values.center_shift_x), 0),
                center_shift_y: number_or(node_of(values.center_shift_y), 0),
                edge_ratio_x: number_or(node_of(values.edge_ratio_x), DEFAULT_EDGE_RATIO_X),
                edge_ratio_y: number_or(node_of(values.edge_ratio_y), DEFAULT_EDGE_RATIO_Y),
            },
        )
    } else {
        None
    }
}

fn eye_size(primary: &Option<JsonValue>, fallback: &Option<JsonValue>) -> (size: Option<u32>)
    ensures
        size == eye_size_of(node_of(*primary), node_of(*fallback)),
{
    let number: Option<u64> = if primary.is_some() {
        as_unsigned(primary)
    } else {
        as_unsigned(fallback)
    };
    match number {
        Some(value) => if value <= u32::MAX as u64 {
            Some(value as u32)
        } else {
            None
        },
        None => None,
    }
}

/// Decides on foveated encoding from what the document says of it.
pub fn foveated_encoding_from(values: &FoveationValues) -> (config: Option<FoveatedEncodingConfig>)
    ensures
        config == foveation_of(*values),
{
    if !as_flag_or(&values.enabled, false) {
        return None;
    }
    let expanded_view_width: u32 = match eye_size(&values.eye_width, &values.target_eye_width) {
        Some(width) => width,
        None => {
            return None;
        },
    };
    let expanded_view_height: u32 = match eye_size(&values.eye_height, &values.target_eye_height) {
        Some(height) => height,
        None => {
            return None;
        },
    };
    Some(
        FoveatedEncodingConfig {
            expanded_view_width,
            expanded_view_height,
            center_size_x: as_float_or(&values.center_size_x, DEFAULT_CENTER_SIZE_X),
            center_size_y: as_float_or(&values.center_size_y, DEFAULT_CENTER_SIZE_Y),
            center_shift_x: as_float_or(&values.center_shift_x, 0),
            center_shift_y: as_float_or(&values.center_shift_y, 0),
            edge_ratio_x: as_float_or(&values.edge_ratio_x, DEFAULT_EDGE_RATIO_X),
            edge_ratio_y: as_float_or(&values.edge_ratio_y, DEFAULT_EDGE_RATIO_Y),
        },
    )
}

/// What the document says of foveated encoding.
pub open spec fn says_of_foveation(
    nodes: Map<Seq<char>, JsonNode>,
    values: FoveationValues,
) -> bool {
    &&& node_of(values.enabled) == node_at(nodes, "/openvr_config/enable_foveated_encoding"@)
    &&& node_of(values.eye_width) == node_at(nodes, "/openvr_config/eye_resolution_width"@)
    &&& node_of(values.target_eye_width) == node_at(
        nodes,
        "/openvr_config/target_eye_resolution_width"@,
    )
    &&& node_of(values.eye_height) == node_at(nodes, "/openvr_config/eye_resolution_height"@)
    &&& node_of(values.target_eye_height) == node_at(
        nodes,
        "/openvr_config/target_eye_resolution_height"@,
    )
    &&& node_of(values.center_size_x) == node_at(nodes, "/openvr_config/foveation_center_size_x"@)
    &&& node_of(values.center_size_y) == node_at(nodes, "/openvr_config/foveation_center_size_y"@)
    &&& node_of(values.center_shift_x) == node_at(
        nodes,
        "/openvr_config/foveation_center_shift_x"@,
    )
    &&& node_of(values.center_shift_y) == node_at(
        nodes,
        "/openvr_config/foveation_center_shift_y"@,
    )
    &&& node_of(values.edge_ratio_x) == node_at(nodes, "/openvr_config/foveation_edge_ratio_x"@)
    &&& node_of(values.edge_ratio_y) == node_at(nodes, "/openvr_config/foveation_edge_ratio_y"@)
}

/// Reads the settings of foveated encoding from the document.
pub fn parse_foveated_encoding(session: &serde_json::Value) -> (config: Option<
    FoveatedEncodingConfig,
>)
    ensures
        exists|values: FoveationValues| #[trigger]
            says_of_foveation(json_nodes(*session), values) && config == foveation_of(values),
{
    let values = FoveationValues {
        enabled: json_at(session, "/openvr_config/enable_foveated_encoding"),
        eye_width: json_at(session, "/openvr_config/eye_resolution_width"),
        target_eye_width: json_at(session, "/openvr_config/target_eye_resolution_width"),
        eye_height: json_at(session, "/openvr_config/eye_resolution_height"),
        target_eye_height: json_at(session, "/openvr_config/target_eye_resolution_height"),
        center_size_x: json_at(session, "/openvr_config/foveation_center_size_x"),
        center_size_y: json_at(session, "/openvr_config/foveation_center_size_y"),
        center_shift_x: json_at(session, "/openvr_config/foveation_center_shift_x"),
        center_shift_y: json_at(session, "/openvr_config/foveation_center_shift_y"),
        edge_ratio_x: json_at(session, "/openvr_config/foveation_edge_ratio_x"),
        edge_ratio_y: json_at(session, "/openvr_config/foveation_edge_ratio_y"),
    };
    assert(says_of_foveation(json_nodes(*session), values));
    foveated_encoding_from(&values)
}

/// What the document says of the connection.
pub open spec fn says_of_connection(
    nodes: Map<Seq<char>, JsonNode>,
    values: ConnectionValues,
) -> bool {
    let group = group_path(nodes, "/session_settings/connection"@, "/connection"@);
    &&& node_of(values.stream_port) == setting_at(nodes, group, "/stream_port"@)
    &&& node_of(values.packet_size) == setting_at(nodes, group, "/packet_size"@)
    &&& node_of(values.stream_protocol) == setting_at(nodes, group, "/stream_protocol/variant"@)
}

/// Decides on the socket from what the document says of the connection and what was negotiated.
pub fn socket_settings_from(
    values: &ConnectionValues,
    wired: bool,
    foveated_encoding: Option<FoveatedEncodingConfig>,
) -> (settings: StreamSocketSettings)
    ensures
        settings.protocol == protocol_of(node_of(values.stream_protocol), wired),
        settings.port == port_of(node_of(values.stream_port)),
        settings.packet_size == packet_size_of(node_of(values.packet_size)),
        settings.foveated_encoding == foveated_encoding,
{
    let port: u16 = match as_unsigned(&values.stream_port) {
        Some(value) => if value <= u16::MAX as u64 {
            value as u16
        } else {
            DEFAULT_STREAM_PORT
        },
        None => DEFAULT_STREAM_PORT,
    };
    let packet_size: usize = match as_unsigned(&values.packet_size) {
        Some(value) => if value <= usize::MAX as u64 {
            value as usize
        } else {
            DEFAULT_PACKET_SIZE
        },
        None => DEFAULT_PACKET_SIZE,
    };
    let protocol = if wired {
        StreamProtocol::Tcp
    } else {
        match &values.stream_protocol {
            Some(JsonValue::Text(variant)) => if same_text(variant.as_str(), "Tcp") {
                StreamProtocol::Tcp
            } else {
                StreamProtocol::Udp
            },
            _ => StreamProtocol::Udp,
        }
    };
    StreamSocketSettings { protocol, port, packet_size, foveated_encoding }
}

/// The settings of the socket that a document and a negotiation amount to.
pub open spec fn socket_settings_of(
    nodes: Map<Seq<char>, JsonNode>,
    wired: bool,
    enable_foveated_encoding: bool,
    settings: StreamSocketSettings,
) -> bool {
    &&& exists|values: ConnectionValues| #[trigger]
        says_of_connection(nodes, values) && {
            &&& settings.protocol == protocol_of(node_of(values.stream_protocol), wired)
            &&& settings.port == port_of(node_of(values.stream_port))
            &&& settings.packet_size == packet_size_of(node_of(values.packet_size))
        }
    &&& if enable_foveated_encoding {
        exists|values: FoveationValues| #[trigger]
            says_of_foveation(nodes, values) && settings.foveated_encoding == foveation_of(values)
    } else {
        settings.foveated_encoding is None
    }
}

impl StreamSocketSettings {
    /// Reads the settings of the socket from the session document. Fails where the text is no
    /// document.
    pub fn from_stream_config(
        session: &str,
        wired: bool,
        enable_foveated_encoding: bool,
    ) -> (settings: Result<Self, SessionSyntaxError>)
        ensures
            match settings {
                Ok(settings) => {
                    &&& json_document(session@) is Some
                    &&& socket_settings_of(
                        json_document(session@)->0,
                        wired,
                        enable_foveated_encoding,
                        settings,
                    )
                },
                Err(_) => json_document(session@) is None,
            },
    {
        let document = match parse_json(session) {
            Ok(document) => document,
            Err(_) => {
                return Err(SessionSyntaxError);
            },
        };
        let group = find_group(&document, "/session_settings/connection", "/connection");
        let values = ConnectionValues {
            stream_port: read_setting(&document, group, "/stream_port"),
            packet_size: read_setting(&document, group, "/packet_size"),
            stream_protocol: read_setting(&document, group, "/stream_protocol/variant"),
        };
        assert(says_of_connection(json_nodes(document), values));
        let foveated_encoding = if enable_foveated_encoding {
            parse_foveated_encoding(&document)
        } else {
            None
        };
        Ok(socket_settings_from(&values, wired, foveated_encoding))
    }
}

// ---------------------------------------------------------------------------
// Audio
// ---------------------------------------------------------------------------

/// How much sound is kept in store, in milliseconds.
#[derive(Clone, Copy, Debug, PartialEq, Eq, Structural)]
pub struct AudioBufferingConfig {
    pub average_buffering_ms: u64,
    pub batch_ms: u64,
}

/// Sound kept in store where the document does not say.
pub const DEFAULT_AVERAGE_BUFFERING_MS: u64 = 50;

/// Sound handled at a time where the document does not say.
pub const DEFAULT_BATCH_MS: u64 = 5;

/// Settings of the sound in both directions.
#[derive(Clone, Copy, Debug, PartialEq, Eq, Structural)]
pub struct AudioStreamSettings {
    pub game_audio_enabled: bool,
    pub game_audio_buffering: AudioBufferingConfig,
    pub microphone_enabled: bool,
    pub microphone_buffering: AudioBufferingConfig,
}

/// What a document says of the sound in one direction.
#[derive(Clone, Debug, PartialEq, Eq)]
pub struct SoundValues {
    pub enabled: Option<JsonValue>,
    pub average_buffering_ms: Option<JsonValue>,
    pub batch_ms: Option<JsonValue>,
}

/// What a document says of the sound.
#[derive(Clone, Debug, PartialEq, Eq)]
pub struct AudioValues {
    pub game_audio: SoundValues,
    pub microphone: SoundValues,
}

/// Sound is on unless the document says otherwise.
pub open spec fn sound_enabled(values: SoundValues) -> bool {
    flag_of(node_of(values.enabled)) != Some(false)
}

/// How much sound is kept in store.
pub open spec fn buffering_of(values: SoundValues) -> AudioBufferingConfig {
    AudioBufferingConfig {
        average_buffering_ms: match unsigned_of(node_of(values.average_buffering_ms)) {
            Some(value) => value,
            None => DEFAULT_AVERAGE_BUFFERING_MS,
        },
        batch_ms: match unsigned_of(node_of(values.batch_ms)) {
            Some(value) => value,
            None => DEFAULT_BATCH_MS,
        },
    }
}

/// The settings of the sound that the values amount to.
pub open spec fn audio_settings_of(values: AudioValues) -> AudioStreamSettings {
    AudioStreamSettings {
        game_audio_enabled: sound_enabled(values.game_audio),
        game_audio_buffering: buffering_of(values.game_audio),
        microphone_enabled: sound_enabled(values.microphone),
        microphone_buffering: buffering_of(values.microphone),
    }
}

/// What the document says of the sound in one direction.
pub open spec fn says_of_sound(
    nodes: Map<Seq<char>, JsonNode>,
    enabled: Seq<char>,
    average: Seq<char>,
    batch: Seq<char>,
    values: SoundValues,
) -> bool {
    let group = group_path(nodes, "/session_settings/audio"@, "/audio"@);
    &&& node_of(values.enabled) == setting_at(nodes, group, enabled)
    &&& node_of(values.average_buffering_ms) == setting_at(nodes, group, average)
    &&& node_of(values.batch_ms) == setting_at(nodes, group, batch)
}

/// What the document says of the sound.
pub open spec fn says_of_audio(nodes: Map<Seq<char>, JsonNode>, values: AudioValues) -> bool {
    &&& says_of_sound(
        nodes,
        "/game_audio/enabled"@,
        "/game_audio/buffering/average_buffering_ms"@,
        "/game_audio/buffering/batch_ms"@,
        values.game_audio,
    )
    &&& says_of_sound(
        nodes,
        "/microphone/enabled"@,
        "/microphone/buffering/average_buffering_ms"@,
        "/microphone/buffering/batch_ms"@,
        values.microphone,
    )
}

fn buffering_from(values: &SoundValues) -> (buffering: AudioBufferingConfig)
    ensures
        buffering == buffering_of(*values),
{
    AudioBufferingConfig {
        average_buffering_ms: match as_unsigned(&values.average_buffering_ms) {
            Some(value) => value,
            None => DEFAULT_AVERAGE_BUFFERING_MS,
        },
        batch_ms: match as_unsigned(&values.batch_ms) {
            Some(value) => value,
            None => DEFAULT_BATCH_MS,
        },
    }
}

/// Decides on the sound from what the document says of it.
pub fn audio_settings_from(values: &AudioValues) -> (settings: AudioStreamSettings)
    ensures
        settings == audio_settings_of(*values),
{
    AudioStreamSettings {
        game_audio_enabled: as_flag_or(&values.game_audio.enabled, true),
        game_audio_buffering: buffering_from(&values.game_audio),
        microphone_enabled: as_flag_or(&values.microphone.enabled, true),
        microphone_buffering: buffering_from(&values.microphone),
    }
}

/// The settings of the sound that a document amounts to.
pub open spec fn audio_settings_in(
    nodes: Map<Seq<char>, JsonNode>,
    settings: AudioStreamSettings,
) -> bool {
    exists|values: AudioValues| #[trigger]
        says_of_audio(nodes, values) && settings == audio_settings_of(values)
}

/// The settings of the sound where the document says nothing.
pub open spec fn default_audio_settings() -> AudioStreamSettings {
    let buffering = AudioBufferingConfig {
        average_buffering_ms: DEFAULT_AVERAGE_BUFFERING_MS,
        batch_ms: DEFAULT_BATCH_MS,
    };
    AudioStreamSettings {
        game_audio_enabled: true,
        game_audio_buffering: buffering,
        microphone_enabled: true,
        microphone_buffering: buffering,
    }
}

impl AudioStreamSettings {
    /// Reads the settings of the sound from the session document. A text that is no document
    /// gives the defaults.
    pub fn from_stream_config(session: &str) -> (settings: Self)
        ensures
            match json_document(session@) {
                Some(nodes) => audio_settings_in(nodes, settings),
                None => settings == default_audio_settings(),
            },
    {
        let document = match parse_json(session) {
            Ok(document) => document,
            Err(_) => {
                return audio_settings_from(
                    &AudioValues {
                        game_audio: SoundValues {
                            enabled: None,
                            average_buffering_ms: None,
                            batch_ms: None,
                        },
                        microphone: SoundValues {
                            enabled: None,
                            average_buffering_ms: None,
                            batch_ms: None,
                        },
                    },
                );
            },
        };
        let group = find_group(&document, "/session_settings/audio", "/audio");
        let values = AudioValues {
            game_audio: SoundValues {
                enabled: read_setting(&document, group, "/game_audio/enabled"),
                average_buffering_ms: read_setting(
                    &document,
                    group,
                    "/game_audio/buffering/average_buffering_ms",
                ),
                batch_ms: read_setting(&document, group, "/game_audio/buffering/batch_ms"),
            },
            microphone: SoundValues {
                enabled: read_setting(&document, group, "/microphone/enabled"),
                average_buffering_ms: read_setting(
                    &document,
                    group,
                    "/microphone/buffering/average_buffering_ms",
                ),
                batch_ms: read_setting(&document, group, "/microphone/buffering/batch_ms"),
            },
        };
        let settings = audio_settings_from(&values);
        assert(says_of_audio(json_nodes(document), values));
        assert(audio_settings_in(json_nodes(document), settings));
        settings
    }
}

// ---------------------------------------------------------------------------
// Laws
// ---------------------------------------------------------------------------

/// A wired stream goes over TCP, whatever the document says.
pub proof fn law_wired_streams_use_tcp(node: Option<JsonNode>)
    ensures
        protocol_of(node, true) == StreamProtocol::Tcp,
{
}

/// A document that says nothing of the connection gives the default port and size, over UDP.
pub proof fn law_silent_document_gives_the_defaults(
    nodes: Map<Seq<char>, JsonNode>,
    settings: StreamSocketSettings,
)
    requires
        group_path(nodes, "/session_settings/connection"@, "/connection"@) is None,
        socket_settings_of(nodes, false, false, settings),
    ensures
        settings.protocol == StreamProtocol::Udp,
        settings.port == DEFAULT_STREAM_PORT,
        settings.packet_size == DEFAULT_PACKET_SIZE,
        settings.foveated_encoding is None,
{
}

/// The document keeps a group of settings under this path: the first of two places that it has.
pub open spec fn keeps_group(
    nodes: Map<Seq<char>, JsonNode>,
    primary: Seq<char>,
    fallback: Seq<char>,
    group: Seq<char>,
) -> bool {
    ||| nodes.contains_key(primary) && group == primary
    ||| !nodes.contains_key(primary) && nodes.contains_key(fallback) && group == fallback
}

/// Either direction of the sound is switched by its own flag: where the document holds one for
/// the microphone the microphone follows it, whatever it says of the game's sound, and the other
/// way round. Without a flag of its own a direction is on.
pub proof fn law_sound_follows_its_own_flag(
    nodes: Map<Seq<char>, JsonNode>,
    group: Seq<char>,
    settings: AudioStreamSettings,
)
    requires
        audio_settings_in(nodes, settings),
        keeps_group(nodes, "/session_settings/audio"@, "/audio"@, group),
    ensures
        node_at(nodes, group + "/microphone/enabled"@) matches Some(JsonNode::Bool(flag))
            ==> settings.microphone_enabled == flag,
        node_at(nodes, group + "/game_audio/enabled"@) matches Some(JsonNode::Bool(flag))
            ==> settings.game_audio_enabled == flag,
        node_at(nodes, group + "/microphone/enabled"@) is None ==> settings.microphone_enabled,
        node_at(nodes, group + "/game_audio/enabled"@) is None ==> settings.game_audio_enabled,
{
}

/// Either direction of the sound is kept in store as long as its own settings say. What the
/// document does not say is 50 milliseconds on average, 5 at a time.
pub proof fn law_sound_is_stored_as_its_own_settings_say(
    nodes: Map<Seq<char>, JsonNode>,
    group: Seq<char>,
    settings: AudioStreamSettings,
)
    requires
        audio_settings_in(nodes, settings),
        keeps_group(nodes, "/session_settings/audio"@, "/audio"@, group),
    ensures
        ({
            let told = |name: Seq<char>, default: u64|
                match node_at(nodes, group + name) {
                    Some(JsonNode::Number { unsigned: Some(value), float_bits: _ }) => value,
                    _ => default,
                };
            &&& settings.microphone_buffering.average_buffering_ms == told(
                "/microphone/buffering/average_buffering_ms"@,
                50,
            )
            &&& settings.microphone_buffering.batch_ms == told(
                "/microphone/buffering/batch_ms"@,
                5,
            )
            &&& settings.game_audio_buffering.average_buffering_ms == told(
                "/game_audio/buffering/average_buffering_ms"@,
                50,
            )
            &&& settings.game_audio_buffering.batch_ms == told(
                "/game_audio/buffering/batch_ms"@,
                5,
            )
        }),
{
}

/// Without settings of the sound both directions are on, with the same store.
pub proof fn law_sound_is_on_by_default(
    nodes: Map<Seq<char>, JsonNode>,
    settings: AudioStreamSettings,
)
    requires
        !nodes.contains_key("/session_settings/audio"@),
        !nodes.contains_key("/audio"@),
        audio_settings_in(nodes, settings) || settings == default_audio_settings(),
    ensures
        settings.game_audio_enabled,
        settings.microphone_enabled,
        settings.game_audio_buffering == (AudioBufferingConfig {
            average_buffering_ms: 50,
            batch_ms: 5,
        }),
        settings.microphone_buffering == settings.game_audio_buffering,
{
}

/// The socket follows the document: its port where it names one that fits, its longest datagram
/// where it names one, and TCP exactly where it says so or the stream is wired.
pub proof fn law_socket_follows_the_document(
    nodes: Map<Seq<char>, JsonNode>,
    group: Seq<char>,
    wired: bool,
    foveated: bool,
    settings: StreamSocketSettings,
)
    requires
        socket_settings_of(nodes, wired, foveated, settings),
        keeps_group(nodes, "/session_settings/connection"@, "/connection"@, group),
    ensures
        ({
            let port = node_at(nodes, group + "/stream_port"@);
            let size = node_at(nodes, group + "/packet_size"@);
            let protocol = node_at(nodes, group + "/stream_protocol/variant"@);
            &&& match port {
                Some(JsonNode::Number { unsigned: Some(value), float_bits: _ }) => if value
                    < 65536 {
                    settings.port == value
                } else {
                    settings.port == 9944
                },
                _ => settings.port == 9944,
            }
            &&& match size {
                Some(JsonNode::Number { unsigned: Some(value), float_bits: _ }) => value
                    <= usize::MAX ==> settings.packet_size == value,
                _ => settings.packet_size == 1400,
            }
            &&& settings.protocol == StreamProtocol::Tcp <==> wired || protocol == Some(
                JsonNode::Text("Tcp"@),
            )
            &&& !foveated ==> settings.foveated_encoding is None
        }),
{
}

/// Foveated encoding takes every number from the place that is named after it. It is off unless
/// the negotiation and the document both ask for it and the document knows the size of an eye.
pub proof fn law_foveation_follows_the_document(
    nodes: Map<Seq<char>, JsonNode>,
    wired: bool,
    settings: StreamSocketSettings,
)
    requires
        socket_settings_of(nodes, wired, true, settings),
    ensures
        settings.foveated_encoding is Some ==> node_at(
            nodes,
            "/openvr_config/enable_foveated_encoding"@,
        ) == Some(JsonNode::Bool(true)),
        ({
            let float = |name: Seq<char>, default: u64|
                match node_at(nodes, name) {
                    Some(JsonNode::Number { unsigned: _, float_bits: Some(bits) }) => bits,
                    _ => default,
                };
            settings.foveated_encoding matches Some(config) ==> {
                &&& config.center_size_x == float(
                    "/openvr_config/foveation_center_size_x"@,
                    0x3fdccccccccccccd,
                )
                &&& config.center_size_y == float(
                    "/openvr_config/foveation_center_size_y"@,
                    0x3fd999999999999a,
                )
                &&& config.center_shift_x == float(
                    "/openvr_config/foveation_center_shift_x"@,
                    0,
                )
                &&& config.center_shift_y == float(
                    "/openvr_config/foveation_center_shift_y"@,
                    0,
                )
                &&& config.edge_ratio_x == float(
                    "/openvr_config/foveation_edge_ratio_x"@,
                    0x4010000000000000,
                )
                &&& config.edge_ratio_y == float(
                    "/openvr_config/foveation_edge_ratio_y"@,
                    0x4014000000000000,
                )
            }
        }),
        ({
            let size = |name: Seq<char>|
                match node_at(nodes, name) {
                    Some(JsonNode::Number { unsigned: Some(value), float_bits: _ }) => Some(value),
                    _ => None,
                };
            let encoded = |name: Seq<char>| node_at(nodes, name) is Some;
            let width = if encoded("/openvr_config/eye_resolution_width"@) {
                size("/openvr_config/eye_resolution_width"@)
            } else {
                size("/openvr_config/target_eye_resolution_width"@)
            };
            let height = if encoded("/openvr_config/eye_resolution_height"@) {
                size("/openvr_config/eye_resolution_height"@)
            } else {
                size("/openvr_config/target_eye_resolution_height"@)
            };
            match (width, height) {
                (Some(width), Some(height)) => if width < 0x1_0000_0000 && height < 0x1_0000_0000
                    && node_at(nodes, "/openvr_config/enable_foveated_encoding"@) == Some(
                    JsonNode::Bool(true),
                ) {
                    settings.foveated_encoding matches Some(config) && config.expanded_view_width
                        == width && config.expanded_view_height == height
                } else {
                    settings.foveated_encoding is None
                },
                _ => settings.foveated_encoding is None,
            }
        }),
{
}

/// The session's text decides on the sound: either direction follows its own flag and its own
/// numbers in the document, and a text that is no document leaves both on.
pub proof fn law_sound_is_read_from_the_session(
    session: &str,
    group: Seq<char>,
    settings: AudioStreamSettings,
)
    requires
        call_ensures(AudioStreamSettings::from_stream_config, (session,), settings),
    ensures
        json_document(session@) is None ==> {
            &&& settings.microphone_enabled && settings.game_audio_enabled
            &&& settings.microphone_buffering.average_buffering_ms == 50
            &&& settings.microphone_buffering.batch_ms == 5
            &&& settings.game_audio_buffering.average_buffering_ms == 50
            &&& settings.game_audio_buffering.batch_ms == 5
        },
        json_document(session@) is Some && keeps_group(
            json_document(session@)->0,
            "/session_settings/audio"@,
            "/audio"@,
            group,
        ) ==> ({
            let nodes = json_document(session@)->0;
            &&& settings.microphone_enabled <==> node_at(nodes, group + "/microphone/enabled"@)
                != Some(JsonNode::Bool(false))
            &&& settings.game_audio_enabled <==> node_at(nodes, group + "/game_audio/enabled"@)
                != Some(JsonNode::Bool(false))
        }),
{
    if json_document(session@) is Some && keeps_group(
        json_document(session@)->0,
        "/session_settings/audio"@,
        "/audio"@,
        group,
    ) {
        let nodes = json_document(session@)->0;
        law_sound_follows_its_own_flag(nodes, group, settings);
        law_sound_is_stored_as_its_own_settings_say(nodes, group, settings);
    }
}

/// Either direction of the sound is switched by what was read for it.
pub proof fn law_directions_do_not_mix(values: AudioValues, settings: AudioStreamSettings)
    requires
        call_ensures(audio_settings_from, (&values,), settings),
    ensures
        settings.microphone_enabled <==> values.microphone.enabled != Some(JsonValue::Bool(false)),
        settings.game_audio_enabled <==> values.game_audio.enabled != Some(JsonValue::Bool(false)),
        values.microphone.batch_ms is None ==> settings.microphone_buffering.batch_ms == 5,
        values.game_audio.batch_ms is None ==> settings.game_audio_buffering.batch_ms == 5,
        values.microphone.batch_ms matches Some(
            JsonValue::Number { unsigned: Some(value), float_bits: _ },
        ) ==> settings.microphone_buffering.batch_ms == value,
        values.microphone.average_buffering_ms matches Some(
            JsonValue::Number { unsigned: Some(value), float_bits: _ },
        ) ==> settings.microphone_buffering.average_buffering_ms == value,
        values.game_audio.batch_ms matches Some(
            JsonValue::Number { unsigned: Some(value), float_bits: _ },
        ) ==> settings.game_audio_buffering.batch_ms == value,
        values.game_audio.average_buffering_ms matches Some(
            JsonValue::Number { unsigned: Some(value), float_bits: _ },
        ) ==> settings.game_audio_buffering.average_buffering_ms == value,
{
}

/// The session's text decides on the socket: every value is taken from the place that is named
/// after it. A text that is no document gives no socket.
pub proof fn law_socket_is_read_from_the_session(
    session: &str,
    wired: bool,
    foveated: bool,
    group: Seq<char>,
    result: Result<StreamSocketSettings, SessionSyntaxError>,
)
    requires
        call_ensures(StreamSocketSettings::from_stream_config, (session, wired, foveated), result),
    ensures
        result is Ok <==> json_document(session@) is Some,
        result is Ok && wired ==> result->Ok_0.protocol == StreamProtocol::Tcp,
        result is Ok && !foveated ==> result->Ok_0.foveated_encoding is None,
        result is Ok && keeps_group(
            json_document(session@)->0,
            "/session_settings/connection"@,
            "/connection"@,
            group,
        ) ==> ({
            let nodes = json_document(session@)->0;
            &&& match node_at(nodes, group + "/stream_port"@) {
                Some(JsonNode::Number { unsigned: Some(value), float_bits: _ }) => value < 65536
                    ==> result->Ok_0.port == value,
                _ => result->Ok_0.port == 9944,
            }
            &&& match node_at(nodes, group + "/packet_size"@) {
                Some(JsonNode::Number { unsigned: Some(value), float_bits: _ }) => value
                    <= usize::MAX ==> result->Ok_0.packet_size == value,
                _ => result->Ok_0.packet_size == 1400,
            }
            &&& !wired ==> (result->Ok_0.protocol == StreamProtocol::Tcp <==> node_at(
                nodes,
                group + "/stream_protocol/variant"@,
            ) == Some(JsonNode::Text("Tcp"@)))
        }),
{
    if result is Ok && keeps_group(
        json_document(session@)->0,
        "/session_settings/connection"@,
        "/connection"@,
        group,
    ) {
        law_socket_follows_the_document(
            json_document(session@)->0,
            group,
            wired,
            foveated,
            result->Ok_0,
        );
    }
}

/// Foveated encoding takes each number from the value that was read for it.
pub proof fn law_foveation_values_do_not_mix(
    values: FoveationValues,
    config: Option<FoveatedEncodingConfig>,
    width: u32,
    height: u32,
)
    requires
        call_ensures(foveated_encoding_from, (&values,), config),
        values.eye_width == Some(
            JsonValue::Number { unsigned: Some(width as u64), float_bits: None },
        ),
        values.eye_height == Some(
            JsonValue::Number { unsigned: Some(height as u64), float_bits: None },
        ),
    ensures
        config is Some <==> values.enabled == Some(JsonValue::Bool(true)),
        config is Some ==> config->0.expanded_view_width == width && config->0.expanded_view_height
            == height,
        config is Some && values.center_size_x is None ==> config->0.center_size_x
            == 0x3fdc_cccc_cccc_cccd,
        config is Some && values.center_size_y is None ==> config->0.center_size_y
            == 0x3fd9_9999_9999_999a,
        config is Some && values.edge_ratio_x is None ==> config->0.edge_ratio_x
            == 0x4010_0000_0000_0000,
        config is Some && values.edge_ratio_y is None ==> config->0.edge_ratio_y
            == 0x4014_0000_0000_0000,
{
}

/// The socket takes its port, its size and its protocol each from the value that was read for it.
pub proof fn law_connection_values_do_not_mix(
    values: ConnectionValues,
    wired: bool,
    foveation: Option<FoveatedEncodingConfig>,
    settings: StreamSocketSettings,
    port: u16,
    size: u16,
)
    requires
        call_ensures(socket_settings_from, (&values, wired, foveation), settings),
    ensures
        values.stream_port == Some(
            JsonValue::Number { unsigned: Some(port as u64), float_bits: None },
        ) ==> settings.port == port,
        values.stream_port is None ==> settings.port == 9944,
        values.packet_size == Some(
            JsonValue::Number { unsigned: Some(size as u64), float_bits: None },
        ) ==> settings.packet_size == size,
        values.packet_size is None ==> settings.packet_size == 1400,
        wired ==> settings.protocol == StreamProtocol::Tcp,
        !wired && values.stream_protocol is None ==> settings.protocol == StreamProtocol::Udp,
        settings.foveated_encoding == foveation,
{
}

} // verus!
