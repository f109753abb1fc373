//! The unit's telemetry as plain values, and the reading of the device cloud's
//! answers.
use crate::config::{self, CustomUnitNames, lower_of};
use crate::error::Error;
use vstd::prelude::*;

verus! {

/// Base address of the device cloud's API.
pub open spec fn api_base() -> Seq<char> {
    "https://lu-central.liveu.tv/luc/luc-core-web/rest/v0"@
}

/// The address of the inventory listing.
pub fn inventories_url() -> (r: String)
    ensures
        r@ == api_base() + "/inventories"@,
{
    String::from_str("https://lu-central.liveu.tv/luc/luc-core-web/rest/v0").concat("/inventories")
}

/// The address of a resource of the unit: `suffix` is its path below the
/// unit, such as `/status/battery` or `/stream`.
pub fn unit_url(boss_id: &str, suffix: &str) -> (r: String)
    ensures
        r@ == api_base() + "/units/"@ + boss_id@ + suffix@,
{
    let base = String::from_str("https://lu-central.liveu.tv/luc/luc-core-web/rest/v0");
    base.concat("/units/").concat(boss_id).concat(suffix)
}

/// One network path of the unit.
#[derive(Debug)]
pub struct Interface {
    pub connected: bool,
    pub name: String,
    pub downlink_kbps: u32,
    pub uplink_kbps: u32,
    pub enabled: bool,
    pub port: String,
    pub technology: String,
    pub up_signal_quality: u32,
    pub down_signal_quality: u32,
    pub active_sim: Option<String>,
    pub is_currently_roaming: bool,
    pub kbps: u32,
    pub signal_quality: u32,
}

/// One unit of the account.
#[derive(Debug)]
pub struct Unit {
    pub id: String,
    pub reg_code: String,
    pub status: String,
    pub name: String,
}

/// The units of the account's first inventory.
#[derive(Debug)]
pub struct Inventories {
    pub units: Vec<Unit>,
}

/// A battery sample of the unit.
#[derive(Debug, Clone, Copy, PartialEq, Eq, Structural)]
pub struct Battery {
    pub connected: bool,
    pub percentage: u8,
    pub run_time_to_empty: u32,
    pub discharging: bool,
    pub charging: bool,
}

/// A video sample of the unit.
#[derive(Debug, Clone)]
pub struct Video {
    /// The camera's resolution; none without a camera.
    pub resolution: Option<String>,
    /// The encoder's bitrate, while a stream runs.
    pub bitrate: Option<u32>,
}

/// Whether a video sample shows a camera that is not streaming.
pub open spec fn video_idle(v: Video) -> bool {
    v.resolution is Some && v.bitrate is None
}

/// Whether a video sample shows a running stream.
pub open spec fn video_streaming(v: Video) -> bool {
    v.bitrate is Some
}

/// The port labels of the given names, in the order of the raw ports
/// `eth0`, `wlan0`, `0`, `1`, `2`, `3`.
pub open spec fn labels(n: CustomUnitNames) -> Seq<Seq<char>> {
    seq![n.ethernet@, n.wifi@, n.sim1@, n.sim2@, n.usb1@, n.usb2@]
}

/// The built-in port labels.
pub open spec fn default_labels() -> Seq<Seq<char>> {
    seq!["ETH"@, "WiFi"@, "SIM1"@, "SIM2"@, "USB1"@, "USB2"@]
}

/// The port labels in force: the given names, or the built-in labels.
pub open spec fn labels_or_default(custom: Option<CustomUnitNames>) -> Seq<Seq<char>> {
    match custom {
        Some(n) => labels(n),
        None => default_labels(),
    }
}

/// The display name of a raw port under the given labels; other ports keep
/// their raw identifier.
pub open spec fn display_name(port: Seq<char>, l: Seq<Seq<char>>) -> Seq<char> {
    if port == "eth0"@ {
        l[0]
    } else if port == "wlan0"@ {
        l[1]
    } else if port == "0"@ {
        l[2]
    } else if port == "1"@ {
        l[3]
    } else if port == "2"@ {
        l[4]
    } else if port == "3"@ {
        l[5]
    } else {
        port
    }
}

/// `i` with its port renamed to `port`, every other field kept.
pub open spec fn with_port(i: Interface, port: Seq<char>, j: Interface) -> bool {
    &&& j.port@ == port
    &&& j.connected == i.connected
    &&& j.name == i.name
    &&& j.downlink_kbps == i.downlink_kbps
    &&& j.uplink_kbps == i.uplink_kbps
    &&& j.enabled == i.enabled
    &&& j.technology == i.technology
    &&& j.up_signal_quality == i.up_signal_quality
    &&& j.down_signal_quality == i.down_signal_quality
    &&& j.active_sim == i.active_sim
    &&& j.is_currently_roaming == i.is_currently_roaming
    &&& j.kbps == i.kbps
    &&& j.signal_quality == i.signal_quality
}

/// The connected interfaces of a sample, in order.
pub open spec fn connected_only(s: Seq<Interface>) -> Seq<Interface>
    decreases s.len(),
{
    if s.len() == 0 {
        seq![]
    } else {
        let rest = connected_only(s.drop_last());
        if s.last().connected {
            rest.push(s.last())
        } else {
            rest
        }
    }
}

/// The outcome of the inventory request with the given status code.
pub open spec fn inventories_outcome(status: u16) -> Result<(), Error> {
    if 400 <= status < 500 {
        Err(Error::NoInventoriesFound)
    } else {
        Ok(())
    }
}

/// How an answer to the interfaces request is read.
#[derive(Debug, PartialEq, Eq, Structural)]
pub enum InterfacesReply {
    /// The body holds the list.
    Listed,
    /// The unit has no interface to report.
    Empty,
}

/// The outcome of the interfaces request with the given status code.
pub open spec fn interfaces_outcome(status: u16) -> Result<InterfacesReply, Error> {
    if status == 200 {
        Ok(InterfacesReply::Listed)
    } else if status == 204 {
        Ok(InterfacesReply::Empty)
    } else {
        Err(Error::NoUnitsFound)
    }
}

/// The outcome of a status request (battery or video) with the given code.
pub open spec fn status_outcome(status: u16) -> Result<(), Error> {
    if status == 200 {
        Ok(())
    } else {
        Err(Error::StatusNotAvailable)
    }
}

/// The outcome of a stream request, which succeeds on the `expected` code.
pub open spec fn stream_outcome(status: u16, expected: u16) -> Result<(), Error> {
    if status == expected {
        Ok(())
    } else {
        Err(Error::StatusNotAvailable)
    }
}

/// The current session with the device cloud: the login and the bearer token.
#[derive(Debug)]
pub struct Liveu {
    access_token: String,
    config: config::Liveu,
}

/// Relies on `uuid::Uuid::new_v4` and its `Display`: a random identifier in
/// the hyphenated form, which is 36 characters long.
#[verifier::external_body]
fn new_session_id() -> (r: String)
    ensures
        r@.len() == 36,
{
    uuid::Uuid::new_v4().to_string()
}

fn same_text(s: &String, lit: &str) -> (r: bool)
    ensures
        r == (s@ == lit@),
{
    *s == String::from_str(lit)
}

fn copy_text(s: &String) -> (r: String)
    ensures
        r@ == s@,
{
    s.clone()
}

impl Liveu {
    /// The bearer token of the session.
    pub closed spec fn token(&self) -> Seq<char> {
        self.access_token@
    }

    /// The login of the session.
    pub closed spec fn login(&self) -> config::Liveu {
        self.config
    }

    /// Opens a session from the result of the login exchange; any failure of
    /// the exchange counts as refused credentials.
    pub fn authenticate(config: config::Liveu, token: Option<String>) -> (r: Result<Liveu, Error>)
        ensures
            token is None <==> r == Err::<Liveu, Error>(Error::InvalidCredentials),
            token is Some ==> r is Ok && r->Ok_0.token() == token->Some_0@ && r->Ok_0.login()
                == config,
    {
        match token {
            Some(t) => Ok(Liveu { access_token: t, config }),
            None => Err(Error::InvalidCredentials),
        }
    }

    /// Replaces the bearer token after a new login; the login is kept.
    pub fn set_access_token(&mut self, token: String)
        ensures
            final(self).token() == token@,
            final(self).login() == old(self).login(),
    {
        self.access_token = token;
    }

    /// The login of the session.
    pub fn credentials(&self) -> (r: &config::Liveu)
        ensures
            *r == self.login(),
    {
        &self.config
    }

    /// The value of the header that names the login session: the email
    /// followed by a session identifier.
    pub fn login_user_name(email: &str, session: &str) -> (r: String)
        ensures
            r@ == email@ + session@,
    {
        String::from_str(email).concat(session)
    }

    /// The login session header with a fresh random identifier: the email
    /// followed by 36 characters.
    pub fn fresh_login_user_name(email: &str) -> (r: String)
        ensures
            r@.len() == email@.len() + 36,
            r@.take(email@.len() as int) == email@,
    {
        let session = new_session_id();
        let r = Self::login_user_name(email, session.as_str());
        assert(r@.take(email@.len() as int) =~= email@);
        r
    }

    /// The value of the authorization header: the bearer token.
    pub fn authorization(&self) -> (r: String)
        ensures
            r@ == "Bearer "@ + self.token(),
    {
        String::from_str("Bearer ").concat(self.access_token.as_str())
    }

    /// Reads the status code of the inventory request.
    pub fn get_inventories(status: u16) -> (r: Result<(), Error>)
        ensures
            r == inventories_outcome(status),
    {
        if 400 <= status && status < 500 {
            Err(Error::NoInventoriesFound)
        } else {
            Ok(())
        }
    }

    /// Reads the status code of the interfaces request.
    pub fn get_interfaces(status: u16) -> (r: Result<InterfacesReply, Error>)
        ensures
            r == interfaces_outcome(status),
    {
        if status == 200 {
            Ok(InterfacesReply::Listed)
        } else if status == 204 {
            Ok(InterfacesReply::Empty)
        } else {
            Err(Error::NoUnitsFound)
        }
    }

    /// Reads the status code of the battery request.
    pub fn get_battery(status: u16) -> (r: Result<(), Error>)
        ensures
            r == status_outcome(status),
    {
        if status == 200 {
            Ok(())
        } else {
            Err(Error::StatusNotAvailable)
        }
    }

    /// Reads the status code of the video request.
    pub fn get_video(status: u16) -> (r: Result<(), Error>)
        ensures
            r == status_outcome(status),
    {
        if status == 200 {
            Ok(())
        } else {
            Err(Error::StatusNotAvailable)
        }
    }

    /// Reads the status code of the request that starts a stream: only
    /// "created" acknowledges it.
    pub fn start_stream(status: u16) -> (r: Result<(), Error>)
        ensures
            r == stream_outcome(status, 201),
    {
        if status == 201 {
            Ok(())
        } else {
            Err(Error::StatusNotAvailable)
        }
    }

    /// Reads the status code of the request that stops a stream: only
    /// "no content" acknowledges it.
    pub fn stop_stream(status: u16) -> (r: Result<(), Error>)
        ensures
            r == stream_outcome(status, 204),
    {
        if status == 204 {
            Ok(())
        } else {
            Err(Error::StatusNotAvailable)
        }
    }

    /// Whether the unit has a camera and does not stream; a failed fetch
    /// counts as no.
    pub fn is_idle(video: Option<Video>) -> (r: bool)
        ensures
            r == (video is Some && video_idle(video->Some_0)),
    {
        match video {
            Some(v) => v.resolution.is_some() && v.bitrate.is_none(),
            None => false,
        }
    }

    /// Whether the unit streams; a failed fetch counts as no.
    pub fn is_streaming(video: Option<Video>) -> (r: bool)
        ensures
            r == (video is Some && video_streaming(video->Some_0)),
    {
        match video {
            Some(v) => v.bitrate.is_some(),
            None => false,
        }
    }

    /// The position of the unit to use among `count` units, given the
    /// operator's choice counted from one: `None` when the choice is out of
    /// range. A single unit is taken without asking. An account without
    /// units has no unit to choose.
    pub fn get_boss_id_location(count: usize, choice: usize) -> (r: Option<usize>)
        requires
            count > 0,
        ensures
            count == 1 ==> r == Some(0usize),
            count > 1 ==> (r == if 1 <= choice <= count {
                Some((choice - 1) as usize)
            } else {
                None::<usize>
            }),
    {
        if count == 1 {
            Some(0)
        } else if 1 <= choice && choice <= count {
            Some(choice - 1)
        } else {
            None
        }
    }

    /// Renames the interface's port after the display names.
    pub fn change_interface_name_to_custom(interface: Interface, custom_names: &CustomUnitNames) -> (r: Interface)
        ensures
            with_port(interface, display_name(interface.port@, labels(*custom_names)), r),
    {
        let mut interface = interface;
        proof {
            reveal_strlit("eth0");
            reveal_strlit("wlan0");
            reveal_strlit("0");
            reveal_strlit("1");
            reveal_strlit("2");
            reveal_strlit("3");
        }
        if same_text(&interface.port, "eth0") {
            interface.port = copy_text(&custom_names.ethernet);
        } else if same_text(&interface.port, "wlan0") {
            interface.port = copy_text(&custom_names.wifi);
        } else if same_text(&interface.port, "0") {
            interface.port = copy_text(&custom_names.sim1);
        } else if same_text(&interface.port, "1") {
            interface.port = copy_text(&custom_names.sim2);
        } else if same_text(&interface.port, "2") {
            interface.port = copy_text(&custom_names.usb1);
        } else if same_text(&interface.port, "3") {
            interface.port = copy_text(&custom_names.usb2);
        }
        interface
    }

    /// Keeps the connected interfaces of a sample, in order, and gives each
    /// its display name; without custom names the built-in labels are used.
    pub fn get_unit_custom_names(interfaces: Vec<Interface>, custom_names: Option<CustomUnitNames>) -> (r: Vec<Interface>)
        ensures
            r@.len() == connected_only(interfaces@).len(),
            forall|k: int| 0 <= k < r@.len() ==> with_port(
                #[trigger] connected_only(interfaces@)[k],
                display_name(connected_only(interfaces@)[k].port@, labels_or_default(custom_names)),
                r@[k],
            ),
    {
        let names = match custom_names {
            Some(n) => n,
            None => CustomUnitNames::default(),
        };
        proof {
            reveal_strlit("ETH");
            reveal_strlit("WiFi");
            reveal_strlit("SIM1");
            reveal_strlit("SIM2");
            reveal_strlit("USB1");
            reveal_strlit("USB2");
            assert(labels(names) =~= labels_or_default(custom_names));
        }
        let ghost all = interfaces@;
        let mut rest = interfaces;
        let mut r: Vec<Interface> = Vec::new();
        let ghost taken: int = 0;
        while rest.len() > 0
            invariant
                0 <= taken <= all.len(),
                rest@ == all.subrange(taken, all.len() as int),
                labels(names) == labels_or_default(custom_names),
                r@.len() == connected_only(all.take(taken)).len(),
                forall|k: int| 0 <= k < r@.len() ==> with_port(
                    #[trigger] connected_only(all.take(taken))[k],
                    display_name(connected_only(all.take(taken))[k].port@, labels(names)),
                    r@[k],
                ),
            decreases rest.len(),
        {
            let i = rest.remove(0);
            proof {
                assert(all.take(taken + 1).drop_last() =~= all.take(taken));
                assert(all.take(taken + 1).last() == i);
                taken = taken + 1;
            }
            if i.connected {
                r.push(Self::change_interface_name_to_custom(i, &names));
            }
        }
        proof {
            assert(all.take(taken) =~= all);
        }
        r
    }
}

} // verus!
