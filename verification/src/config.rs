//! Identity and settings of the client.

use vstd::prelude::*;

use crate::decoder::same_text;
use crate::protocol::{
    hash_of, protocol_string, semantic_version, ProtocolId, DISCOVERY_PORT, STREAM_PORT,
};
use crate::wire::le64;

verus! {

/// Name of the application on the headset.
pub const ANDROID_PACKAGE_NAME: &'static str = "com.pimax.alvr.client";

/// Protocol version that the client speaks.
pub const ALVR_PROTOCOL_VERSION: &'static str = "20.14.1";

/// Name of a client whose host has none.
pub const FALLBACK_CLIENT_NAME: &'static str = "pimax-crystal-og";

/// Longest name of a client.
pub const CLIENT_NAME_LIMIT: usize = 32;

/// Bits of the float 0.124, the shift that makes both eyes' pictures meet.
pub const CONVERGENCE_SHIFT_DEFAULT_BITS: u32 = 0x3dfd_f3b6;

/// Bits of the float 1, the scale of the distance between the eyes.
pub const IPD_SCALE_DEFAULT_BITS: u32 = 0x3f80_0000;

/// Bits of the float 0.072, the level below which the picture is black.
pub const COLOR_BLACK_CRUSH_DEFAULT_BITS: u32 = 0x3d93_74bc;

/// Bits of the float 1.22, the contrast.
pub const COLOR_GAIN_DEFAULT_BITS: u32 = 0x3f9c_28f6;

/// Identity and settings of the client. Floats are carried as the bits of their 32-bit form.
#[derive(Clone, Debug, PartialEq, Eq)]
pub struct ClientConfig {
    /// Name under which the server knows the client.
    pub client_name: String,
    /// Protocol version that the client speaks.
    pub version_string: String,
    /// Protocol version for which the name was made.
    pub generated_for_version: Option<String>,
    pub discovery_port: u16,
    pub stream_port: u16,
    /// The server that the client was connected to.
    pub last_server_ip: Option<String>,
    pub convergence_shift_ndc: Option<u32>,
    pub ipd_scale: Option<u32>,
    pub color_black_crush: Option<u32>,
    pub color_gain: Option<u32>,
}

// ---------------------------------------------------------------------------
// Names
// ---------------------------------------------------------------------------

/// A character that may stand in a client's name: a letter or digit of ASCII, a hyphen or an
/// underscore.
pub open spec fn is_name_char(c: char) -> bool {
    ||| 'a' <= c <= 'z'
    ||| 'A' <= c <= 'Z'
    ||| '0' <= c <= '9'
    ||| c == '-'
    ||| c == '_'
}

/// The host's name: that of a computer, else that of a host, else the fallback.
pub open spec fn host_name(computer: Option<Seq<char>>, host: Option<Seq<char>>) -> Seq<char> {
    match (computer, host) {
        (Some(computer), _) => computer,
        (None, Some(host)) => host,
        (None, None) => FALLBACK_CLIENT_NAME@,
    }
}

/// At most the first `CLIENT_NAME_LIMIT` characters.
pub open spec fn shortened(name: Seq<char>) -> Seq<char> {
    if name.len() > CLIENT_NAME_LIMIT {
        name.take(CLIENT_NAME_LIMIT as int)
    } else {
        name
    }
}

/// The client's name: what of the host's name may stand in one, or the fallback where nothing
/// may.
pub open spec fn client_name_of(host: Seq<char>) -> Seq<char> {
    let cleaned = host.filter(|c: char| is_name_char(c));
    if cleaned.len() == 0 {
        shortened(FALLBACK_CLIENT_NAME@)
    } else {
        shortened(cleaned)
    }
}

/// The characters of a text that is there.
pub open spec fn text_of(text: Option<&str>) -> Option<Seq<char>> {
    match text {
        Some(text) => Some(text@),
        None => None,
    }
}

fn may_stand_in_name(c: char) -> (may: bool)
    ensures
        may == is_name_char(c),
{
    ('a' <= c && c <= 'z') || ('A' <= c && c <= 'Z') || ('0' <= c && c <= '9') || c == '-' || c
        == '_'
}

fn clean_name(host: &str) -> (cleaned: String)
    ensures
        cleaned@ == host@.filter(|c: char| is_name_char(c)),
{
    let ghost allowed = |c: char| is_name_char(c);
    let mut cleaned: String = String::new();
    let length: usize = host.unicode_len();
    let mut index: usize = 0;
    proof {
        reveal(Seq::filter);
        assert(host@.take(0).filter(allowed) =~= Seq::empty());
    }
    while index < length
        invariant
            length == host@.len(),
            index <= length,
            allowed == (|c: char| is_name_char(c)),
            cleaned@ == host@.take(index as int).filter(allowed),
        decreases length - index,
    {
        let c: char = host.get_char(index);
        proof {
            reveal(Seq::filter);
            assert(host@.take(index + 1).drop_last() =~= host@.take(index as int));
        }
        if may_stand_in_name(c) {
            cleaned.append(host.substring_char(index, index + 1));
            assert(host@.subrange(index as int, index + 1) =~= seq![c]);
            assert(cleaned@ =~= host@.take(index as int).filter(allowed).push(c));
        }
        assert(cleaned@ =~= host@.take(index + 1).filter(allowed));
        index = index + 1;
    }
    assert(host@.take(length as int) =~= host@);
    cleaned
}

fn shorten(name: String) -> (short: String)
    ensures
        short@ == shortened(name@),
{
    let text: &str = name.as_str();
    if text.unicode_len() > CLIENT_NAME_LIMIT {
        let short: String = text.substring_char(0, CLIENT_NAME_LIMIT).to_owned();
        assert(short@ =~= name@.take(CLIENT_NAME_LIMIT as int));
        short
    } else {
        text.to_owned()
    }
}

/// Makes the client's name from what the environment calls the host.
pub fn default_client_name(computer: Option<&str>, host: Option<&str>) -> (name: String)
    ensures
        name@ == client_name_of(host_name(text_of(computer), text_of(host))),
{
    let host: &str = match computer {
        Some(computer) => computer,
        None => match host {
            Some(host) => host,
            None => FALLBACK_CLIENT_NAME,
        },
    };
    let cleaned: String = clean_name(host);
    if cleaned.as_str().unicode_len() == 0 {
        shorten(FALLBACK_CLIENT_NAME.to_owned())
    } else {
        shorten(cleaned)
    }
}

// ---------------------------------------------------------------------------
// The configuration
// ---------------------------------------------------------------------------

/// A configuration in which nothing was set but the name.
pub open spec fn is_fresh_config(config: ClientConfig, name: Seq<char>) -> bool {
    &&& config.client_name@ == name
    &&& config.version_string@ == ALVR_PROTOCOL_VERSION@
    &&& config.generated_for_version is None
    &&& config.discovery_port == DISCOVERY_PORT
    &&& config.stream_port == STREAM_PORT
    &&& config.last_server_ip is None
    &&& config.convergence_shift_ndc == Some(CONVERGENCE_SHIFT_DEFAULT_BITS)
    &&& config.ipd_scale == Some(IPD_SCALE_DEFAULT_BITS)
    &&& config.color_black_crush == Some(COLOR_BLACK_CRUSH_DEFAULT_BITS)
    &&& config.color_gain == Some(COLOR_GAIN_DEFAULT_BITS)
}

impl ClientConfig {
    /// The configuration of a client that has none yet. `computer` and `host` are the names that
    /// the system knows the host by, where it has any.
    pub fn for_host(computer: Option<&str>, host: Option<&str>) -> (config: Self)
        ensures
            is_fresh_config(config, client_name_of(host_name(text_of(computer), text_of(host)))),
    {
        ClientConfig {
            client_name: default_client_name(computer, host),
            version_string: ALVR_PROTOCOL_VERSION.to_owned(),
            generated_for_version: None,
            discovery_port: DISCOVERY_PORT,
            stream_port: STREAM_PORT,
            last_server_ip: None,
            convergence_shift_ndc: Some(CONVERGENCE_SHIFT_DEFAULT_BITS),
            ipd_scale: Some(IPD_SCALE_DEFAULT_BITS),
            color_black_crush: Some(COLOR_BLACK_CRUSH_DEFAULT_BITS),
            color_gain: Some(COLOR_GAIN_DEFAULT_BITS),
        }
    }

    /// The configuration as it is written down: a name that was made for no version yet is from
    /// then on made for this one.
    pub fn to_save(&self) -> (saved: Self)
        ensures
            saved.client_name@ == self.client_name@,
            saved.version_string@ == self.version_string@,
            saved.generated_for_version is Some,
            saved.generated_for_version->0@ == match self.generated_for_version {
                Some(version) => version@,
                None => self.version_string@,
            },
            saved.discovery_port == self.discovery_port,
            saved.stream_port == self.stream_port,
            saved.last_server_ip is Some == self.last_server_ip is Some,
            self.last_server_ip is Some ==> saved.last_server_ip->0@ == self.last_server_ip->0@,
            saved.convergence_shift_ndc == self.convergence_shift_ndc,
            saved.ipd_scale == self.ipd_scale,
            saved.color_black_crush == self.color_black_crush,
            saved.color_gain == self.color_gain,
    {
        ClientConfig {
            client_name: self.client_name.clone(),
            version_string: self.version_string.clone(),
            generated_for_version: match &self.generated_for_version {
                Some(version) => Some(version.clone()),
                None => Some(self.version_string.clone()),
            },
            discovery_port: self.discovery_port,
            stream_port: self.stream_port,
            last_server_ip: match &self.last_server_ip {
                Some(ip) => Some(ip.clone()),
                None => None,
            },
            convergence_shift_ndc: self.convergence_shift_ndc,
            ipd_scale: self.ipd_scale,
            color_black_crush: self.color_black_crush,
            color_gain: self.color_gain,
        }
    }

    /// Id of the protocol that the client speaks.
    pub fn protocol_id(&self) -> (id: ProtocolId)
        ensures
            id.0@ == le64(
                hash_of(
                    protocol_string(
                        self.version_string@,
                        semantic_version(self.version_string@),
                    ),
                ),
            ),
    {
        ProtocolId::from_version(self.version_string.as_str())
    }

    /// The name was made for the protocol that the client speaks.
    pub open spec fn has_fresh_name(&self) -> bool {
        self.generated_for_version is Some && self.generated_for_version->0@
            == ALVR_PROTOCOL_VERSION@
    }

    /// Brings the identity up to date: the current protocol version, and a new name where the old
    /// one was made for another version.
    pub fn ensure_fresh_identity(&mut self, computer: Option<&str>, host: Option<&str>)
        ensures
            final(self).version_string@ == ALVR_PROTOCOL_VERSION@,
            final(self).has_fresh_name(),
            final(self).client_name@ == if old(self).has_fresh_name() {
                old(self).client_name@
            } else {
                client_name_of(host_name(text_of(computer), text_of(host)))
            },
            final(self).discovery_port == old(self).discovery_port,
            final(self).stream_port == old(self).stream_port,
            final(self).last_server_ip == old(self).last_server_ip,
            final(self).convergence_shift_ndc == old(self).convergence_shift_ndc,
            final(self).ipd_scale == old(self).ipd_scale,
            final(self).color_black_crush == old(self).color_black_crush,
            final(self).color_gain == old(self).color_gain,
    {
        if !same_text(self.version_string.as_str(), ALVR_PROTOCOL_VERSION) {
            self.version_string = ALVR_PROTOCOL_VERSION.to_owned();
        }
        let fresh: bool = match &self.generated_for_version {
            Some(version) => same_text(version.as_str(), ALVR_PROTOCOL_VERSION),
            None => false,
        };
        if !fresh {
            self.client_name = default_client_name(computer, host);
            self.generated_for_version = Some(ALVR_PROTOCOL_VERSION.to_owned());
        }
    }
}

// ---------------------------------------------------------------------------
// Where the configuration is kept
// ---------------------------------------------------------------------------

/// What the client runs on.
#[derive(Clone, Copy, Debug, PartialEq, Eq, Structural)]
pub enum Platform {
    Windows,
    Android,
    Unix,
}

/// The directory under which the configuration is kept.
#[derive(Clone, Copy, Debug, PartialEq, Eq, Structural)]
pub enum ConfigBase {
    /// The directory that the first variable of the environment names.
    Primary,
    /// The directory that the second variable of the environment leads to.
    Fallback,
    /// The application's own files.
    PackageFiles,
    /// The current directory.
    Current,
}

/// Decides where the configuration is kept. On Windows the variables are `LOCALAPPDATA` and
/// `APPDATA`, elsewhere `XDG_CONFIG_HOME` and `HOME`.
pub fn default_config_base(platform: Platform, primary: bool, fallback: bool) -> (base: ConfigBase)
    ensures
        base == if platform == Platform::Android {
            ConfigBase::PackageFiles
        } else if primary {
            ConfigBase::Primary
        } else if fallback {
            ConfigBase::Fallback
        } else {
            ConfigBase::Current
        },
{
    match platform {
        Platform::Android => ConfigBase::PackageFiles,
        _ => if primary {
            ConfigBase::Primary
        } else if fallback {
            ConfigBase::Fallback
        } else {
            ConfigBase::Current
        },
    }
}

/// The directory of the application's own files on the headset.
pub fn package_files_directory() -> (path: String)
    ensures
        path@ == "/sdcard/Android/data/"@ + ANDROID_PACKAGE_NAME@ + "/files"@,
{
    let mut path: String = "/sdcard/Android/data/".to_owned();
    path.append(ANDROID_PACKAGE_NAME);
    path.append("/files");
    path
}

// ---------------------------------------------------------------------------
// Laws
// ---------------------------------------------------------------------------

/// A client's name is never empty, never longer than the limit, and holds only characters that
/// may stand in one.
pub proof fn law_client_names_are_valid(host: Seq<char>)
    ensures
        0 < client_name_of(host).len() <= CLIENT_NAME_LIMIT,
        forall|i: int|
            0 <= i < client_name_of(host).len() ==> is_name_char(
                #[trigger] client_name_of(host)[i],
            ),
{
    let allowed = |c: char| is_name_char(c);
    let cleaned = host.filter(allowed);
    reveal_strlit("pimax-crystal-og");
    host.filter_lemma(allowed);
    assert forall|i: int| 0 <= i < cleaned.len() implies is_name_char(#[trigger] cleaned[i]) by {
        assert(allowed(cleaned[i]));
    }
}

/// A name that can stand fits into the host name field of a discovery packet, so the server
/// learns it whole.
pub proof fn law_client_names_fit_discovery(host: Seq<char>)
    ensures
        vstd::utf8::encode_utf8(client_name_of(host)).len() <= crate::protocol::HOSTNAME_LEN,
        forall|i: int|
            0 <= i < vstd::utf8::encode_utf8(client_name_of(host)).len()
                ==> #[trigger] vstd::utf8::encode_utf8(client_name_of(host))[i] != 0,
{
    let name = client_name_of(host);
    law_client_names_are_valid(host);
    assert(vstd::utf8::is_ascii_chars(name)) by {
        assert forall|i: int| 0 <= i < name.len() implies 0 <= #[trigger] name[i] < 128 by {
            assert(is_name_char(name[i]));
        }
    }
    vstd::utf8::is_ascii_chars_encode_utf8(name);
    assert forall|i: int| 0 <= i < vstd::utf8::encode_utf8(name).len() implies #[trigger]
        vstd::utf8::encode_utf8(name)[i] != 0 by {
        assert(is_name_char(name[i]));
    }
}

/// A host's name that can stand is kept as it is. Of two names the computer's counts, and a host
/// without any name gets the fallback.
pub proof fn law_good_names_are_kept(computer: Seq<char>, host: Seq<char>)
    requires
        0 < computer.len() <= 32,
        forall|i: int|
            0 <= i < computer.len() ==> {
                let c = #[trigger] computer[i];
                'a' <= c <= 'z' || 'A' <= c <= 'Z' || '0' <= c <= '9' || c == '-' || c == '_'
            },
    ensures
        client_name_of(host_name(Some(computer), Some(host))) == computer,
        client_name_of(host_name(Some(computer), None)) == computer,
        client_name_of(host_name(None, Some(computer))) == computer,
        client_name_of(host_name(None, None)) == "pimax-crystal-og"@,
{
    lemma_all_may_stand(computer);
    reveal_strlit("pimax-crystal-og");
    lemma_all_may_stand("pimax-crystal-og"@);
}

proof fn lemma_all_may_stand(name: Seq<char>)
    requires
        forall|i: int| 0 <= i < name.len() ==> is_name_char(#[trigger] name[i]),
    ensures
        name.filter(|c: char| is_name_char(c)) == name,
    decreases name.len(),
{
    reveal(Seq::filter);
    let allowed = |c: char| is_name_char(c);
    if name.len() > 0 {
        let head = name.drop_last();
        assert forall|i: int| 0 <= i < head.len() implies is_name_char(#[trigger] head[i]) by {
            assert(head[i] == name[i]);
        }
        lemma_all_may_stand(head);
        assert(allowed(name[name.len() - 1]));
        assert(name.filter(allowed) == head.filter(allowed).push(name.last()));
        assert(head.push(name.last()) =~= name);
    } else {
        assert(name.filter(allowed) =~= name);
    }
}

/// A character that may not stand in a name is left out, and the others keep their order.
pub proof fn law_other_characters_are_left_out(before: Seq<char>, c: char, after: Seq<char>)
    requires
        !('a' <= c <= 'z' || 'A' <= c <= 'Z' || '0' <= c <= '9' || c == '-' || c == '_'),
    ensures
        client_name_of(before.push(c) + after) == client_name_of(before + after),
{
    let allowed = |c: char| is_name_char(c);
    reveal(Seq::filter);
    Seq::filter_distributes_over_add(before.push(c), after, allowed);
    Seq::filter_distributes_over_add(before, after, allowed);
    assert(before.push(c).drop_last() =~= before);
    assert(!allowed(c));
    assert(before.push(c).filter(allowed) == before.filter(allowed));
}

/// A fresh configuration speaks version 20.14.1 on the fixed ports, knows no server and holds the
/// default picture: a shift of 0.124, a scale of one, a black level of 0.072 and a contrast of
/// 1.22.
pub proof fn law_fresh_configurations_hold_the_defaults(config: ClientConfig, name: Seq<char>)
    requires
        is_fresh_config(config, name),
    ensures
        config.client_name@ == name,
        config.version_string@ == "20.14.1"@,
        config.generated_for_version is None,
        config.discovery_port == 9943,
        config.stream_port == 9944,
        config.last_server_ip is None,
        config.convergence_shift_ndc == Some(0x3dfd_f3b6u32),
        config.ipd_scale == Some(0x3f80_0000u32),
        config.color_black_crush == Some(0x3d93_74bcu32),
        config.color_gain == Some(0x3f9c_28f6u32),
{
}

/// Writing a configuration down changes nothing of it but the version that its name was made for,
/// where that was not known.
pub proof fn law_saving_keeps_the_configuration(config: ClientConfig, saved: ClientConfig)
    requires
        call_ensures(ClientConfig::to_save, (&config,), saved),
    ensures
        saved.client_name@ == config.client_name@,
        saved.version_string@ == config.version_string@,
        saved.discovery_port == config.discovery_port,
        saved.stream_port == config.stream_port,
        config.last_server_ip is None <==> saved.last_server_ip is None,
        config.last_server_ip matches Some(ip) ==> saved.last_server_ip->0@ == ip@,
        saved.convergence_shift_ndc == config.convergence_shift_ndc,
        saved.ipd_scale == config.ipd_scale,
        saved.color_black_crush == config.color_black_crush,
        saved.color_gain == config.color_gain,
        config.generated_for_version matches Some(version) ==> saved.generated_for_version
            is Some && saved.generated_for_version->0@ == version@,
        config.generated_for_version is None ==> saved.generated_for_version is Some
            && saved.generated_for_version->0@ == config.version_string@,
{
}

/// On the headset the configuration is among the application's own files. Elsewhere the first
/// variable that is set decides, and the current directory where none is.
pub proof fn law_configurations_have_their_place(
    platform: Platform,
    primary: bool,
    fallback: bool,
    base: ConfigBase,
)
    requires
        call_ensures(default_config_base, (platform, primary, fallback), base),
    ensures
        base == ConfigBase::PackageFiles <==> platform == Platform::Android,
        platform != Platform::Android ==> {
            &&& base == ConfigBase::Primary <==> primary
            &&& base == ConfigBase::Fallback <==> !primary && fallback
            &&& base == ConfigBase::Current <==> !primary && !fallback
        },
{
}

/// An identity that was made for this version keeps its name, and another is given a new one. The
/// ports, the server and the settings stay.
pub proof fn law_identities_are_renewed(computer: Option<&str>, host: Option<&str>)
    ensures
        forall|config: &mut ClientConfig| #[trigger]
            call_ensures(ClientConfig::ensure_fresh_identity, (config, computer, host), ()) ==> {
                &&& final(config).version_string@ == "20.14.1"@
                &&& final(config).generated_for_version is Some && final(
                    config).generated_for_version->0@ == "20.14.1"@
                &&& (*config).generated_for_version is Some && (*config).generated_for_version->0@
                    == "20.14.1"@ ==> final(config).client_name@ == (*config).client_name@
                &&& (*config).generated_for_version is None ==> final(config).client_name@
                    == client_name_of(host_name(text_of(computer), text_of(host)))
                &&& final(config).discovery_port == (*config).discovery_port
                &&& final(config).stream_port == (*config).stream_port
                &&& final(config).last_server_ip == (*config).last_server_ip
                &&& final(config).convergence_shift_ndc == (*config).convergence_shift_ndc
                &&& final(config).ipd_scale == (*config).ipd_scale
                &&& final(config).color_black_crush == (*config).color_black_crush
                &&& final(config).color_gain == (*config).color_gain
            },
{
}

/// A client is named after its host where that name can be sent, and after the headset otherwise.
pub proof fn law_clients_are_named_after_their_host(
    computer: &str,
    host: Option<&str>,
    name: String,
    unnamed: String,
)
    requires
        call_ensures(default_client_name, (Some(computer), host), name),
        call_ensures(default_client_name, (None::<&str>, None::<&str>), unnamed),
        0 < computer@.len() <= 32,
        forall|i: int|
            0 <= i < computer@.len() ==> {
                let c = #[trigger] computer@[i];
                'a' <= c <= 'z' || 'A' <= c <= 'Z' || '0' <= c <= '9' || c == '-' || c == '_'
            },
    ensures
        name@ == computer@,
        unnamed@ == "pimax-crystal-og"@,
{
    match host {
        Some(host) => law_good_names_are_kept(computer@, host@),
        None => law_good_names_are_kept(computer@, computer@),
    }
}

/// On the headset the files lie in the folder of the app.
pub proof fn law_files_lie_in_the_apps_folder(path: String)
    requires
        call_ensures(package_files_directory, (), path),
    ensures
        path@ == "/sdcard/Android/data/"@ + "com.pimax.alvr.client"@ + "/files"@,
{
}

} // verus!
