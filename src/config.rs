//! Settings of the bot, as plain values.
use vstd::prelude::*;

verus! {

/// Login of the device cloud and what to watch on the unit.
#[derive(Debug, Clone)]
pub struct Liveu {
    pub email: String,
    pub password: String,
    pub id: Option<String>,
    pub monitor: Monitor,
}

/// Which change alerts are enabled, and at which battery levels.
#[derive(Debug, Clone)]
pub struct Monitor {
    pub battery: bool,
    pub battery_notification: Vec<u8>,
    pub modems: bool,
}

/// The chat account of the bot and who may command it.
#[derive(Debug, Clone)]
pub struct Twitch {
    pub bot_username: String,
    pub bot_oauth: String,
    pub channel: String,
    pub admin_users: Option<Vec<String>>,
    pub mod_only: bool,
}

/// The aliases of each chat command and the shared cooldown in seconds.
#[derive(Debug, Clone)]
pub struct Commands {
    pub command_cooldown: u16,
    pub stats: Vec<String>,
    pub battery: Vec<String>,
    pub start: String,
    pub stop: String,
    pub restart: String,
}

/// Where the statistics page of an RTMP server is, and which stream to read.
#[derive(Debug, Clone)]
pub struct Rtmp {
    pub url: String,
    pub application: String,
    pub key: String,
}

/// All settings.
#[derive(Debug, Clone)]
pub struct Config {
    pub liveu: Liveu,
    pub twitch: Twitch,
    pub commands: Commands,
    pub rtmp: Option<Rtmp>,
    pub custom_port_names: Option<CustomUnitNames>,
}

/// Display names of the unit's ports: wired, wireless, two cellular slots and
/// two USB slots.
#[derive(Debug, Clone)]
pub struct CustomUnitNames {
    pub ethernet: String,
    pub wifi: String,
    pub sim1: String,
    pub sim2: String,
    pub usb1: String,
    pub usb2: String,
}

impl Default for CustomUnitNames {
    fn default() -> (r: Self)
        ensures
            r.ethernet@ == "ETH"@,
            r.wifi@ == "WiFi"@,
            r.sim1@ == "SIM1"@,
            r.sim2@ == "SIM2"@,
            r.usb1@ == "USB1"@,
            r.usb2@ == "USB2"@,
    {
        CustomUnitNames {
            ethernet: String::from_str("ETH"),
            wifi: String::from_str("WiFi"),
            sim1: String::from_str("SIM1"),
            sim2: String::from_str("SIM2"),
            usb1: String::from_str("USB1"),
            usb2: String::from_str("USB2"),
        }
    }
}

/// What `str::to_lowercase` makes of a text.
pub uninterp spec fn lower_of(s: Seq<char>) -> Seq<char>;

/// Relies on `str::to_lowercase`: the lowercase form of the text, which
/// depends on its characters alone.
#[verifier::external_body]
pub(crate) fn lowercase(s: &str) -> (r: String)
    ensures
        r@ == lower_of(s@),
{
    s.to_lowercase()
}

impl Config {
    /// Lowercases the settings that are compared with chat logins: the
    /// channel, the bot's login and token, and the admin users.
    pub fn lowercase_settings(config: &mut Config)
        ensures
            final(config).twitch.channel@ == lower_of(old(config).twitch.channel@),
            final(config).twitch.bot_oauth@ == lower_of(old(config).twitch.bot_oauth@),
            final(config).twitch.bot_username@ == lower_of(old(config).twitch.bot_username@),
            final(config).twitch.mod_only == old(config).twitch.mod_only,
            final(config).twitch.admin_users is Some <==> old(config).twitch.admin_users is Some,
            final(config).twitch.admin_users is Some ==> {
                let before = old(config).twitch.admin_users->Some_0@;
                let after = final(config).twitch.admin_users->Some_0@;
                &&& after.len() == before.len()
                &&& forall|i: int| 0 <= i < after.len() ==> #[trigger] after[i]@ == lower_of(before[i]@)
            },
            final(config).liveu == old(config).liveu,
            final(config).commands == old(config).commands,
            final(config).rtmp == old(config).rtmp,
            final(config).custom_port_names == old(config).custom_port_names,
    {
        config.twitch.channel = lowercase(config.twitch.channel.as_str());
        config.twitch.bot_oauth = lowercase(config.twitch.bot_oauth.as_str());
        config.twitch.bot_username = lowercase(config.twitch.bot_username.as_str());
        let users = config.twitch.admin_users.take();
        match users {
            Some(users) => {
                let mut lowered: Vec<String> = Vec::new();
                let mut i: usize = 0;
                while i < users.len()
                    invariant
                        i <= users.len(),
                        lowered@.len() == i,
                        forall|j: int| 0 <= j < i ==> #[trigger] lowered@[j]@ == lower_of(users@[j]@),
                    decreases users.len() - i,
                {
                    lowered.push(lowercase(users[i].as_str()));
                    i = i + 1;
                }
                config.twitch.admin_users = Some(lowered);
            },
            None => {},
        }
    }
}

/// Whether an answer to a yes/no question means yes.
pub fn input_to_bool(confirm: &str) -> (r: bool)
    ensures
        r == (confirm@ == "y"@),
{
    String::from_str(confirm) == String::from_str("y")
}

} // verus!
