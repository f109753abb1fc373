//! Chat commands: what a message asks for, who may ask it, the shared
//! cooldown, and the replies.
use crate::config::{self, Commands, lower_of, lowercase};
use crate::error::Error;
use crate::liveu::{Battery, Interface, Video, video_streaming};
use crate::text::{decimal, decimal_string, texts};
use vstd::prelude::*;

verus! {

/// Whether a character is ASCII white space, as `char::is_ascii_whitespace`
/// defines it.
pub open spec fn is_blank(c: char) -> bool {
    c == ' ' || c == '\t' || c == '\n' || c == '\x0C' || c == '\r'
}

/// The text after its leading white space.
pub open spec fn skip_blanks(s: Seq<char>) -> Seq<char>
    decreases s.len(),
{
    if s.len() > 0 && is_blank(s[0]) {
        skip_blanks(s.drop_first())
    } else {
        s
    }
}

/// The characters before the first white space.
pub open spec fn leading_word(s: Seq<char>) -> Seq<char>
    decreases s.len(),
{
    if s.len() > 0 && !is_blank(s[0]) {
        seq![s[0]] + leading_word(s.drop_first())
    } else {
        seq![]
    }
}

/// The first white-space-delimited word of a text, empty when there is none.
pub open spec fn first_word(s: Seq<char>) -> Seq<char> {
    leading_word(skip_blanks(s))
}

fn blank(c: char) -> (r: bool)
    ensures
        r == is_blank(c),
{
    c == ' ' || c == '\t' || c == '\n' || c == '\x0C' || c == '\r'
}

/// The first white-space-delimited word of a chat message: the candidate
/// command.
pub fn first_token(text: &str) -> (r: String)
    ensures
        r@ == first_word(text@),
{
    let n = text.unicode_len();
    let mut i: usize = 0;
    assert(text@.subrange(0, n as int) =~= text@);
    while i < n && blank(text.get_char(i))
        invariant
            n == text@.len(),
            i <= n,
            skip_blanks(text@) == skip_blanks(text@.subrange(i as int, n as int)),
        decreases n - i,
    {
        proof {
            let rest = text@.subrange(i as int, n as int);
            assert(rest.drop_first() =~= text@.subrange(i + 1, n as int));
        }
        i = i + 1;
    }
    let mut j: usize = i;
    while j < n && !blank(text.get_char(j))
        invariant
            n == text@.len(),
            i <= j <= n,
            skip_blanks(text@) == text@.subrange(i as int, n as int),
            leading_word(text@.subrange(i as int, n as int)) == text@.subrange(i as int, j as int)
                + leading_word(text@.subrange(j as int, n as int)),
        decreases n - j,
    {
        proof {
            let rest = text@.subrange(j as int, n as int);
            assert(rest.drop_first() =~= text@.subrange(j + 1, n as int));
            assert(text@.subrange(i as int, j + 1) =~= text@.subrange(i as int, j as int) + seq![rest[0]]);
        }
        j = j + 1;
    }
    proof {
        assert(leading_word(text@.subrange(j as int, n as int)) =~= Seq::<char>::empty());
        assert(text@.subrange(i as int, j as int) + Seq::<char>::empty() =~= text@.subrange(i as int, j as int));
    }
    String::from_str(text.substring_char(i, j))
}

/// A chat command.
#[derive(Debug, Clone, Copy, PartialEq, Eq, Structural)]
pub enum Command {
    Stats,
    Battery,
    Start,
    Stop,
    Restart,
    Unknown,
}

/// The command that a word names under the configured aliases; the lists
/// are looked at in the order stats, battery, start, stop, restart.
pub open spec fn command_of(word: Seq<char>, commands: Commands) -> Command {
    if texts(commands.stats@).contains(word) {
        Command::Stats
    } else if texts(commands.battery@).contains(word) {
        Command::Battery
    } else if commands.start@ == word {
        Command::Start
    } else if commands.stop@ == word {
        Command::Stop
    } else if commands.restart@ == word {
        Command::Restart
    } else {
        Command::Unknown
    }
}

fn listed(v: &Vec<String>, s: &String) -> (r: bool)
    ensures
        r == texts(v@).contains(s@),
{
    let mut i: usize = 0;
    while i < v.len()
        invariant
            i <= v.len(),
            forall|j: int| 0 <= j < i ==> v@[j]@ != s@,
        decreases v.len() - i,
    {
        if v[i] == *s {
            assert(texts(v@)[i as int] == s@);
            return true;
        }
        i = i + 1;
    }
    proof {
        if texts(v@).contains(s@) {
            let j = choose|j: int| 0 <= j < texts(v@).len() && texts(v@)[j] == s@;
            assert(v@[j]@ == s@);
        }
    }
    false
}

/// Classifies a word against the configured aliases.
pub fn get_command(command: &String, commands: &Commands) -> (r: Command)
    ensures
        r == command_of(command@, *commands),
{
    if listed(&commands.stats, command) {
        Command::Stats
    } else if listed(&commands.battery, command) {
        Command::Battery
    } else if commands.start == *command {
        Command::Start
    } else if commands.stop == *command {
        Command::Stop
    } else if commands.restart == *command {
        Command::Restart
    } else {
        Command::Unknown
    }
}

/// A chat badge: its name and version.
#[derive(Debug)]
pub struct Badge {
    pub name: String,
    pub version: String,
}

/// Whether the badges hold one of the given name and version.
pub open spec fn wears(badges: Seq<Badge>, name: Seq<char>, version: Seq<char>) -> bool {
    exists|i: int| 0 <= i < badges.len() && #[trigger] badges[i].name@ == name && badges[i].version@ == version
}

/// Whether the sender wears the badge of the given name and version.
pub fn has_badge(badges: &Vec<Badge>, name: &str, version: &str) -> (r: bool)
    ensures
        r == wears(badges@, name@, version@),
{
    let wanted_name = String::from_str(name);
    let wanted_version = String::from_str(version);
    let mut i: usize = 0;
    while i < badges.len()
        invariant
            i <= badges.len(),
            wanted_name@ == name@,
            wanted_version@ == version@,
            forall|j: int| 0 <= j < i ==> !(#[trigger] badges@[j].name@ == name@ && badges@[j].version@ == version@),
        decreases badges.len() - i,
    {
        if badges[i].name == wanted_name && badges[i].version == wanted_version {
            assert(badges@[i as int].name@ == name@ && badges@[i as int].version@ == version@);
            return true;
        }
        i = i + 1;
    }
    false
}

/// Whether a login is on the admin list, compared with each entry lowercased.
pub open spec fn admin_listed(login: Seq<char>, admin_users: Option<Vec<String>>) -> bool {
    match admin_users {
        Some(users) => users@.map_values(|u: String| lower_of(u@)).contains(login),
        None => false,
    }
}

/// Whether the sender's login is on the admin list.
pub fn user_has_permission(login: &str, admin_users: &Option<Vec<String>>) -> (r: bool)
    ensures
        r == admin_listed(login@, *admin_users),
{
    match admin_users {
        Some(users) => {
            let who = String::from_str(login);
            let mut i: usize = 0;
            while i < users.len()
                invariant
                    i <= users.len(),
                    who@ == login@,
                    *admin_users == Some(*users),
                    forall|j: int| 0 <= j < i ==> lower_of(#[trigger] users@[j]@) != login@,
                decreases users.len() - i,
            {
                if lowercase(users[i].as_str()) == who {
                    assert(users@.map_values(|u: String| lower_of(u@))[i as int] == login@);
                    return true;
                }
                i = i + 1;
            }
            proof {
                let lowered = users@.map_values(|u: String| lower_of(u@));
                if lowered.contains(login@) {
                    let k = choose|k: int| 0 <= k < lowered.len() && lowered[k] == login@;
                    assert(lower_of(users@[k]@) != login@);
                }
            }
            false
        },
        None => false,
    }
}

/// What the chat knows of a sender.
#[derive(Debug, Clone, Copy, PartialEq, Eq, Structural)]
pub struct Roles {
    /// The sender owns the channel.
    pub owner: bool,
    /// The sender moderates the channel.
    pub moderator: bool,
    /// The sender is on the configured admin list.
    pub admin: bool,
}

/// The roles of a sender, from their badges, login and the admin list.
pub fn sender_roles(badges: &Vec<Badge>, login: &str, admin_users: &Option<Vec<String>>) -> (r: Roles)
    ensures
        r.owner == wears(badges@, "broadcaster"@, "1"@),
        r.moderator == wears(badges@, "moderator"@, "1"@),
        r.admin == admin_listed(login@, *admin_users),
{
    Roles {
        owner: has_badge(badges, "broadcaster", "1"),
        moderator: has_badge(badges, "moderator", "1"),
        admin: user_has_permission(login, admin_users),
    }
}

/// Who may use a command. Owners and admins may use all; the stream
/// commands are theirs alone; stats and battery are open to everyone, or,
/// in mod-only mode, to moderators.
pub open spec fn permitted(command: Command, roles: Roles, mod_only: bool) -> bool {
    if roles.owner || roles.admin {
        command != Command::Unknown
    } else {
        match command {
            Command::Stats | Command::Battery => !mod_only || roles.moderator,
            _ => false,
        }
    }
}

/// Checks that the sender may use the command.
pub fn permission(command: Command, roles: Roles, mod_only: bool) -> (r: Result<(), Error>)
    ensures
        r == if permitted(command, roles, mod_only) {
            Ok::<(), Error>(())
        } else {
            Err(Error::NotEnoughPermissions)
        },
{
    let allowed = if roles.owner || roles.admin {
        !matches!(command, Command::Unknown)
    } else {
        match command {
            Command::Stats | Command::Battery => !mod_only || roles.moderator,
            _ => false,
        }
    };
    if allowed {
        Ok(())
    } else {
        Err(Error::NotEnoughPermissions)
    }
}

/// What becomes of an inbound chat message.
#[derive(Debug, Clone, Copy, PartialEq, Eq, Structural)]
pub enum Routing {
    /// No reply: the cooldown runs, or the message names no command.
    Ignored,
    /// No reply: the sender may not use the command.
    Refused,
    /// The command runs, and the cooldown starts.
    Dispatched(Command),
}

/// The routing of a message while the cooldown is (`busy`) or is not running.
pub open spec fn routing_of(busy: bool, text: Seq<char>, roles: Roles, commands: Commands, mod_only: bool) -> Routing {
    let command = command_of(first_word(text), commands);
    if busy || command == Command::Unknown {
        Routing::Ignored
    } else if !permitted(command, roles, mod_only) {
        Routing::Refused
    } else {
        Routing::Dispatched(command)
    }
}

/// The command router and its cooldown, shared by all commands.
pub struct CommandRouter {
    busy: bool,
}

impl CommandRouter {
    /// Whether the cooldown runs.
    pub closed spec fn busy(&self) -> bool {
        self.busy
    }

    /// A router outside any cooldown.
    pub fn new() -> (r: CommandRouter)
        ensures
            !r.busy(),
    {
        CommandRouter { busy: false }
    }

    /// Whether the cooldown runs.
    pub fn is_busy(&self) -> (r: bool)
        ensures
            r == self.busy(),
    {
        self.busy
    }

    /// Routes an inbound message. During the cooldown every message is
    /// ignored; otherwise the first word is matched against the aliases, the
    /// sender's permission is checked, and a permitted command starts the
    /// cooldown at once.
    pub fn handle_chat(&mut self, text: &str, roles: Roles, commands: &Commands, mod_only: bool) -> (r: Routing)
        ensures
            r == routing_of(old(self).busy(), text@, roles, *commands, mod_only),
            final(self).busy() == (old(self).busy() || r is Dispatched),
    {
        if self.busy {
            return Routing::Ignored;
        }
        let word = first_token(text);
        let command = get_command(&word, commands);
        if matches!(command, Command::Unknown) {
            return Routing::Ignored;
        }
        match permission(command, roles, mod_only) {
            Err(_) => Routing::Refused,
            Ok(()) => {
                self.busy = true;
                Routing::Dispatched(command)
            },
        }
    }

    /// Ends the cooldown: the timer that the last dispatch started ran out.
    pub fn cooldown_elapsed(&mut self)
        ensures
            !final(self).busy(),
    {
        self.busy = false;
    }
}

/// While the cooldown runs, no message is answered, whatever it says and
/// whoever sends it.
pub proof fn lemma_cooldown_silences(text: Seq<char>, roles: Roles, commands: Commands, mod_only: bool)
    ensures
        routing_of(true, text, roles, commands, mod_only) == Routing::Ignored,
{
}

/// A sender who neither owns the channel nor is an admin never gets a
/// stream command run, moderator or not, in mod-only mode or not; outside
/// the cooldown the command is refused.
pub proof fn lemma_stream_commands_need_owner_or_admin(
    busy: bool,
    text: Seq<char>,
    roles: Roles,
    commands: Commands,
    mod_only: bool,
)
    requires
        !roles.owner,
        !roles.admin,
    ensures
        ({
            let c = command_of(first_word(text), commands);
            c == Command::Start || c == Command::Stop || c == Command::Restart ==> {
                &&& !(routing_of(busy, text, roles, commands, mod_only) is Dispatched)
                &&& !busy ==> routing_of(busy, text, roles, commands, mod_only) == Routing::Refused
            }
        }),
{
}

/// The reply when the unit cannot be reached.
pub open spec fn offline_text() -> Seq<char> {
    "LiveU Offline :("@
}

/// The reply when the unit is up but no interface carries data.
pub open spec fn ready_text() -> Seq<char> {
    "LiveU Online and Ready"@
}

/// The sum of the upload rates of the interfaces.
pub open spec fn total_uplink(s: Seq<Interface>) -> nat
    decreases s.len(),
{
    if s.len() == 0 {
        0
    } else {
        total_uplink(s.drop_last()) + s.last().uplink_kbps as nat
    }
}

/// The part of the stats reply on one interface.
pub open spec fn interface_entry(i: Interface) -> Seq<char> {
    i.port@ + ": "@ + decimal(i.uplink_kbps as nat) + " Kbps"@ + (if i.technology@.len() > 0 {
        " ("@ + i.technology@ + ")"@
    } else {
        seq![]
    }) + (if i.is_currently_roaming {
        " roaming"@
    } else {
        seq![]
    }) + ", "@
}

/// The entries of all interfaces, in order.
pub open spec fn interface_entries(s: Seq<Interface>) -> Seq<char>
    decreases s.len(),
{
    if s.len() == 0 {
        seq![]
    } else {
        interface_entries(s.drop_last()) + interface_entry(s.last())
    }
}

/// The reply to the stats command, from the named connected interfaces
/// (`None` when they could not be fetched) and the RTMP server's bitrate.
pub open spec fn stats_text(interfaces: Option<Seq<Interface>>, rtmp: Option<u32>) -> Seq<char> {
    match interfaces {
        None => offline_text(),
        Some(s) => if s.len() == 0 {
            offline_text()
        } else if total_uplink(s) == 0 {
            ready_text()
        } else {
            interface_entries(s) + "Total LRT: "@ + decimal(total_uplink(s)) + " Kbps"@ + match rtmp {
                Some(b) => ", RTMP: "@ + decimal(b as nat) + " Kbps"@,
                None => seq![],
            }
        },
    }
}

proof fn lemma_total_bound(s: Seq<Interface>)
    ensures
        total_uplink(s) <= s.len() * 0xffff_ffff,
    decreases s.len(),
{
    if s.len() > 0 {
        lemma_total_bound(s.drop_last());
    }
}

/// Whether the stats reply reports a total, and so shows the RTMP bitrate:
/// there is an interface and the upload rates do not sum to zero. Otherwise
/// the RTMP server need not be asked.
pub fn reports_total(interfaces: &Vec<Interface>) -> (r: bool)
    ensures
        r == (interfaces@.len() > 0 && total_uplink(interfaces@) > 0),
{
    let mut i: usize = 0;
    while i < interfaces.len()
        invariant
            i <= interfaces.len(),
            total_uplink(interfaces@.take(i as int)) == 0,
        decreases interfaces.len() - i,
    {
        proof {
            assert(interfaces@.take(i + 1).drop_last() =~= interfaces@.take(i as int));
            assert(interfaces@.take(i + 1).last() == interfaces@[i as int]);
        }
        if interfaces[i].uplink_kbps > 0 {
            proof {
                lemma_total_of_prefix(interfaces@, i + 1);
            }
            return true;
        }
        i = i + 1;
    }
    proof {
        assert(interfaces@.take(i as int) =~= interfaces@);
    }
    false
}

proof fn lemma_total_of_prefix(s: Seq<Interface>, k: int)
    requires
        0 <= k <= s.len(),
    ensures
        total_uplink(s.take(k)) <= total_uplink(s),
    decreases s.len() - k,
{
    if k < s.len() {
        lemma_total_of_prefix(s, k + 1);
        assert(s.take(k + 1).drop_last() =~= s.take(k));
    } else {
        assert(s.take(k) =~= s);
    }
}

fn interface_entry_string(i: &Interface) -> (r: String)
    ensures
        r@ == interface_entry(*i),
{
    let mut r = i.port.clone().concat(": ").concat(decimal_string(i.uplink_kbps as u128).as_str()).concat(" Kbps");
    if !i.technology.as_str().is_empty() {
        r = r.concat(" (").concat(i.technology.as_str()).concat(")");
    }
    if i.is_currently_roaming {
        r = r.concat(" roaming");
    }
    proof {
        assert(r@ + seq![] == r@);
    }
    r.concat(", ")
}

/// The reply to the stats command: one entry per interface with its upload
/// rate, technology and roaming, then the total and the RTMP bitrate if
/// known; the offline reply when there is no interface, and the ready reply
/// when none carries data.
pub fn generate_liveu_modems_message(interfaces: Option<&Vec<Interface>>, rtmp: Option<u32>) -> (r: String)
    ensures
        r@ == stats_text(
            match interfaces {
                Some(v) => Some(v@),
                None => None,
            },
            rtmp,
        ),
{
    let interfaces = match interfaces {
        None => {
            return String::from_str("LiveU Offline :(");
        },
        Some(v) => v,
    };
    if interfaces.len() == 0 {
        return String::from_str("LiveU Offline :(");
    }
    let mut message = String::new();
    let mut total: u128 = 0;
    let mut i: usize = 0;
    while i < interfaces.len()
        invariant
            i <= interfaces.len(),
            message@ == interface_entries(interfaces@.take(i as int)),
            total == total_uplink(interfaces@.take(i as int)),
        decreases interfaces.len() - i,
    {
        proof {
            assert(interfaces@.take(i + 1).drop_last() =~= interfaces@.take(i as int));
            assert(interfaces@.take(i + 1).last() == interfaces@[i as int]);
            lemma_total_bound(interfaces@.take(i as int));
            assert(total + interfaces@[i as int].uplink_kbps <= (i + 1) * 0xffff_ffff) by (nonlinear_arith)
                requires
                    total <= i * 0xffff_ffff,
                    interfaces@[i as int].uplink_kbps <= 0xffff_ffff,
            ;
            assert((i + 1) * 0xffff_ffff <= 0x1_0000_0000_0000_0000 * 0xffff_ffff) by (nonlinear_arith)
                requires
                    i < 0x1_0000_0000_0000_0000,
            ;
        }
        message = message.concat(interface_entry_string(&interfaces[i]).as_str());
        total = total + interfaces[i].uplink_kbps as u128;
        i = i + 1;
    }
    proof {
        assert(interfaces@.take(i as int) =~= interfaces@);
    }
    if total == 0 {
        return String::from_str("LiveU Online and Ready");
    }
    message = message.concat("Total LRT: ").concat(decimal_string(total).as_str()).concat(" Kbps");
    match rtmp {
        Some(b) => {
            message = message.concat(", RTMP: ").concat(decimal_string(b as u128).as_str()).concat(" Kbps");
        },
        None => {
            assert(message@ + seq![] == message@);
        },
    }
    message
}

/// How the battery charges, in words.
pub open spec fn charging_text(b: Battery) -> Seq<char> {
    if b.charging {
        "charging"@
    } else if b.percentage == 100 {
        "fully charged"@ + if b.connected {
            ", connected"@
        } else {
            seq![]
        }
    } else if b.percentage < 100 && !b.discharging {
        "too hot to charge"@
    } else {
        "not charging"@
    }
}

/// The estimate of the time left on battery, when it discharges and the unit
/// gives one; hours are left out when there are none, the space before the
/// minutes is not.
pub open spec fn estimate_text(b: Battery) -> Seq<char> {
    if b.run_time_to_empty != 0 && b.discharging {
        let hours = b.run_time_to_empty / 60;
        let minutes = b.run_time_to_empty % 60;
        "Estimated battery time: "@ + (if hours != 0 {
            decimal(hours as nat) + "h"@
        } else {
            seq![]
        }) + " "@ + decimal(minutes as nat) + "m"@
    } else {
        seq![]
    }
}

/// The reply to the battery command (`None`: the sample could not be fetched).
pub open spec fn battery_text(battery: Option<Battery>) -> Seq<char> {
    match battery {
        None => offline_text(),
        Some(b) => "LiveU Internal Battery: "@ + decimal(b.percentage as nat) + "% "@ + charging_text(b) + " "@
            + estimate_text(b),
    }
}

/// The reply to the battery command: the level, how it charges, and the time
/// left when it discharges.
pub fn generate_liveu_battery_message(battery: Option<Battery>) -> (r: String)
    ensures
        r@ == battery_text(battery),
{
    let b = match battery {
        None => {
            return String::from_str("LiveU Offline :(");
        },
        Some(b) => b,
    };
    let charging = if b.charging {
        String::from_str("charging")
    } else if b.percentage == 100 {
        if b.connected {
            String::from_str("fully charged").concat(", connected")
        } else {
            let s = String::from_str("fully charged");
            assert(s@ + seq![] == s@);
            s
        }
    } else if b.percentage < 100 && !b.discharging {
        String::from_str("too hot to charge")
    } else {
        String::from_str("not charging")
    };
    let estimate = if b.run_time_to_empty != 0 && b.discharging {
        let hours = b.run_time_to_empty / 60;
        let minutes = b.run_time_to_empty % 60;
        let mut e = String::from_str("Estimated battery time: ");
        if hours != 0 {
            e = e.concat(decimal_string(hours as u128).as_str()).concat("h");
        } else {
            assert(e@ + seq![] == e@);
        }
        e.concat(" ").concat(decimal_string(minutes as u128).as_str()).concat("m")
    } else {
        String::new()
    };
    String::from_str("LiveU Internal Battery: ").concat(decimal_string(b.percentage as u128).as_str()).concat(
        "% ",
    ).concat(charging.as_str()).concat(" ").concat(estimate.as_str())
}

/// Where a start, stop or restart confirmation stands.
#[derive(Debug, Clone, Copy, PartialEq, Eq, Structural)]
pub enum Progress {
    /// Another video sample is due.
    Poll,
    /// The unit reached the wanted state.
    Confirmed,
    /// The attempts ran out.
    TimedOut,
}

/// Where a confirmation stands after `attempts` failed samples.
pub open spec fn progress_of(max_attempts: u8, attempts: u8, confirmed: bool) -> Progress {
    if confirmed {
        Progress::Confirmed
    } else if attempts >= max_attempts {
        Progress::TimedOut
    } else {
        Progress::Poll
    }
}

/// Whether a video sample shows the wanted state: a bitrate, or none.
pub open spec fn shows(observed: Option<Video>, should_have_bitrate: bool) -> bool {
    observed is Some && (observed->Some_0.bitrate is Some) == should_have_bitrate
}

/// The attempts and the confirmation after one more sample.
pub open spec fn after_sample(should_have_bitrate: bool, attempts: u8, observed: Option<Video>) -> (u8, bool) {
    if shows(observed, should_have_bitrate) {
        (attempts, true)
    } else {
        ((attempts + 1) as u8, false)
    }
}

/// The attempts and the confirmation of a fresh confirmer after the samples,
/// where samples that come after it stopped polling change nothing.
pub open spec fn after_samples(max_attempts: u8, should_have_bitrate: bool, samples: Seq<Option<Video>>) -> (u8, bool)
    decreases samples.len(),
{
    if samples.len() == 0 {
        (0, false)
    } else {
        let (attempts, confirmed) = after_samples(max_attempts, should_have_bitrate, samples.drop_last());
        if progress_of(max_attempts, attempts, confirmed) == Progress::Poll {
            after_sample(should_have_bitrate, attempts, samples.last())
        } else {
            (attempts, confirmed)
        }
    }
}

/// The confirmation of a start or stop: samples the video state, at most
/// `max_attempts` times, until it shows (or no longer shows) a bitrate.
pub struct ActionConfirmer {
    max_attempts: u8,
    should_have_bitrate: bool,
    success: String,
    not_success: String,
    attempts: u8,
    confirmed: bool,
}

impl ActionConfirmer {
    /// The most samples to take.
    pub closed spec fn max_attempts(&self) -> u8 {
        self.max_attempts
    }

    /// Whether success is a bitrate (start) or none (stop).
    pub closed spec fn should_have_bitrate(&self) -> bool {
        self.should_have_bitrate
    }

    /// The samples taken that did not show the wanted state.
    pub closed spec fn attempts(&self) -> u8 {
        self.attempts
    }

    /// Whether a sample showed the wanted state.
    pub closed spec fn confirmed(&self) -> bool {
        self.confirmed
    }

    /// The word for the action done, in the success message.
    pub closed spec fn success(&self) -> Seq<char> {
        self.success@
    }

    /// The word for the action under way, in the time-out message.
    pub closed spec fn not_success(&self) -> Seq<char> {
        self.not_success@
    }

    /// A confirmer that has taken no sample.
    pub fn new(max_attempts: u8, should_have_bitrate: bool, success: String, not_success: String) -> (r: ActionConfirmer)
        ensures
            r.max_attempts() == max_attempts,
            r.should_have_bitrate() == should_have_bitrate,
            r.success() == success@,
            r.not_success() == not_success@,
            r.attempts() == 0,
            !r.confirmed(),
    {
        ActionConfirmer { max_attempts, should_have_bitrate, success, not_success, attempts: 0, confirmed: false }
    }

    /// Where the confirmation stands.
    pub fn progress(&self) -> (r: Progress)
        ensures
            r == progress_of(self.max_attempts(), self.attempts(), self.confirmed()),
    {
        if self.confirmed {
            Progress::Confirmed
        } else if self.attempts >= self.max_attempts {
            Progress::TimedOut
        } else {
            Progress::Poll
        }
    }

    /// Takes one video sample into account (`None`: the fetch failed).
    pub fn record(&mut self, observed: Option<Video>)
        requires
            progress_of(old(self).max_attempts(), old(self).attempts(), old(self).confirmed()) == Progress::Poll,
        ensures
            (final(self).attempts(), final(self).confirmed()) == after_sample(
                old(self).should_have_bitrate(),
                old(self).attempts(),
                observed,
            ),
            final(self).max_attempts() == old(self).max_attempts(),
            final(self).should_have_bitrate() == old(self).should_have_bitrate(),
            final(self).success() == old(self).success(),
            final(self).not_success() == old(self).not_success(),
    {
        let shown = match observed {
            Some(v) => v.bitrate.is_some() == self.should_have_bitrate,
            None => false,
        };
        if shown {
            self.confirmed = true;
        } else {
            self.attempts = self.attempts + 1;
        }
    }

    /// The message to post once the confirmation is over; `None` while it
    /// still polls.
    pub fn message(&self) -> (r: Option<String>)
        ensures
            match progress_of(self.max_attempts(), self.attempts(), self.confirmed()) {
                Progress::Poll => r is None,
                Progress::Confirmed => r is Some && r->Some_0@ == "LiveU streaming "@ + self.success()
                    + " successfully"@,
                Progress::TimedOut => r is Some && r->Some_0@ == "LiveU "@ + self.not_success()
                    + " stream took too long might not have worked"@,
            },
    {
        match self.progress() {
            Progress::Poll => None,
            Progress::Confirmed => Some(
                String::from_str("LiveU streaming ").concat(self.success.as_str()).concat(" successfully"),
            ),
            Progress::TimedOut => Some(
                String::from_str("LiveU ").concat(self.not_success.as_str()).concat(
                    " stream took too long might not have worked",
                ),
            ),
        }
    }
}

/// A confirmer whose samples never show the wanted state polls exactly
/// `max_attempts` times: after `k` such samples it has counted `k` attempts,
/// it polls again while `k` is below the bound, and it times out at the bound.
pub proof fn lemma_confirmation_bound(max_attempts: u8, should_have_bitrate: bool, samples: Seq<Option<Video>>)
    requires
        samples.len() == max_attempts,
        forall|i: int| 0 <= i < samples.len() ==> !shows(#[trigger] samples[i], should_have_bitrate),
    ensures
        forall|k: int| 0 <= k <= max_attempts ==> #[trigger] after_samples(max_attempts, should_have_bitrate, samples.take(k))
            == (k as u8, false),
        forall|k: int| 0 <= k <= max_attempts ==> progress_of(
            max_attempts,
            #[trigger] after_samples(max_attempts, should_have_bitrate, samples.take(k)).0,
            false,
        ) == if k < max_attempts {
            Progress::Poll
        } else {
            Progress::TimedOut
        },
{
    assert forall|k: int| 0 <= k <= max_attempts implies #[trigger] after_samples(max_attempts, should_have_bitrate, samples.take(k))
        == (k as u8, false) by {
        lemma_misses(max_attempts, should_have_bitrate, samples, k);
    }
}

proof fn lemma_misses(max_attempts: u8, should_have_bitrate: bool, samples: Seq<Option<Video>>, k: int)
    requires
        samples.len() == max_attempts,
        forall|i: int| 0 <= i < samples.len() ==> !shows(#[trigger] samples[i], should_have_bitrate),
        0 <= k <= max_attempts,
    ensures
        after_samples(max_attempts, should_have_bitrate, samples.take(k)) == (k as u8, false),
    decreases k,
{
    if k > 0 {
        lemma_misses(max_attempts, should_have_bitrate, samples, k - 1);
        assert(samples.take(k).drop_last() =~= samples.take(k - 1));
        assert(samples.take(k).last() == samples[k - 1]);
    }
}

/// The reply that ends a start command before any request, or `None` when
/// the start request is to be sent: the unit must answer, have a camera, and
/// not stream already.
pub open spec fn start_check(video: Option<Video>) -> Option<Seq<char>> {
    match video {
        None => Some(offline_text()),
        Some(v) => if v.resolution is None {
            Some("LiveU no camera plugged in"@)
        } else if v.bitrate is Some {
            Some("LiveU already streaming"@)
        } else {
            None
        },
    }
}

/// Decides a start command from the unit's video sample (`None`: the fetch
/// failed): the reply that ends it, or `None` to send the start request.
pub fn generate_liveu_start_message(video: Option<Video>) -> (r: Option<String>)
    ensures
        match start_check(video) {
            Some(t) => r is Some && r->Some_0@ == t,
            None => r is None,
        },
{
    match video {
        None => Some(String::from_str("LiveU Offline :(")),
        Some(v) => if v.resolution.is_none() {
            Some(String::from_str("LiveU no camera plugged in"))
        } else if v.bitrate.is_some() {
            Some(String::from_str("LiveU already streaming"))
        } else {
            None
        },
    }
}

/// The reply to a start request that the cloud did or did not acknowledge,
/// and on acknowledgement the confirmer to run: fifteen samples, until a
/// bitrate shows.
pub fn start_requested(acknowledged: bool) -> (r: (String, Option<ActionConfirmer>))
    ensures
        !acknowledged ==> r.0@ == "LiveU request error"@ && r.1 is None,
        acknowledged ==> r.0@ == "LiveU starting stream"@ && r.1 is Some && r.1->Some_0.max_attempts() == 15
            && r.1->Some_0.should_have_bitrate() && r.1->Some_0.attempts() == 0 && !r.1->Some_0.confirmed()
            && r.1->Some_0.success() == "started"@ && r.1->Some_0.not_success() == "starting"@,
{
    if acknowledged {
        let confirm = ActionConfirmer::new(15, true, String::from_str("started"), String::from_str("starting"));
        (String::from_str("LiveU starting stream"), Some(confirm))
    } else {
        (String::from_str("LiveU request error"), None)
    }
}

/// Decides a stop command from the unit's video sample: the reply that ends
/// it when the unit does not stream, or `None` to send the stop request.
pub fn generate_liveu_stop_message(video: Option<Video>) -> (r: Option<String>)
    ensures
        (video is Some && video_streaming(video->Some_0)) <==> r is None,
        r is Some ==> r->Some_0@ == "LiveU already stopped"@,
{
    match video {
        Some(v) => if v.bitrate.is_some() {
            None
        } else {
            Some(String::from_str("LiveU already stopped"))
        },
        None => Some(String::from_str("LiveU already stopped")),
    }
}

/// The reply to a stop request that the cloud did or did not acknowledge,
/// and on acknowledgement the confirmer to run: ten samples, until no
/// bitrate shows.
pub fn stop_requested(acknowledged: bool) -> (r: (String, Option<ActionConfirmer>))
    ensures
        !acknowledged ==> r.0@ == "LiveU request error"@ && r.1 is None,
        acknowledged ==> r.0@ == "LiveU stopping stream"@ && r.1 is Some && r.1->Some_0.max_attempts() == 10
            && !r.1->Some_0.should_have_bitrate() && r.1->Some_0.attempts() == 0 && !r.1->Some_0.confirmed()
            && r.1->Some_0.success() == "stopped"@ && r.1->Some_0.not_success() == "stopping"@,
{
    if acknowledged {
        let confirm = ActionConfirmer::new(10, false, String::from_str("stopped"), String::from_str("stopping"));
        (String::from_str("LiveU stopping stream"), Some(confirm))
    } else {
        (String::from_str("LiveU request error"), None)
    }
}

/// Seconds to wait between the stop and the start of a restart.
pub const RESTART_GRACE_SECS: u64 = 4;

/// Decides a restart command from the unit's video sample: the reply that
/// ends it when the unit does not stream, or the notice to post before the
/// stop and the start are run in turn.
pub fn generate_liveu_restart_message(video: Option<Video>) -> (r: Result<String, String>)
    ensures
        (video is Some && video_streaming(video->Some_0)) <==> r is Ok,
        r is Ok ==> r->Ok_0@ == "LiveU stream restarting"@,
        r is Err ==> r->Err_0@ == "LiveU not streaming"@,
{
    match video {
        Some(v) => if v.bitrate.is_some() {
            Ok(String::from_str("LiveU stream restarting"))
        } else {
            Err(String::from_str("LiveU not streaming"))
        },
        None => Err(String::from_str("LiveU not streaming")),
    }
}

/// The token without an `oauth:` prefix.
pub open spec fn strip_oauth(token: Seq<char>) -> Seq<char> {
    if token.len() >= 6 && token.take(6) == "oauth:"@ {
        token.skip(6)
    } else {
        token
    }
}

/// What the chat client logs in with: the bot's login and the channel
/// lowercased, and the token without its `oauth:` prefix.
pub fn chat_login(twitch: &config::Twitch) -> (r: (String, String, String))
    ensures
        r.0@ == lower_of(twitch.bot_username@),
        r.1@ == strip_oauth(twitch.bot_oauth@),
        r.2@ == lower_of(twitch.channel@),
{
    let username = lowercase(twitch.bot_username.as_str());
    let channel = lowercase(twitch.channel.as_str());
    let token = twitch.bot_oauth.as_str();
    let n = token.unicode_len();
    let oauth = if n >= 6 && String::from_str(token.substring_char(0, 6)) == String::from_str("oauth:") {
        proof {
            assert(token@.subrange(0, 6) =~= token@.take(6));
            assert(token@.subrange(6, n as int) =~= token@.skip(6));
        }
        String::from_str(token.substring_char(6, n))
    } else {
        proof {
            if n >= 6 {
                assert(token@.subrange(0, 6) =~= token@.take(6));
            }
        }
        String::from_str(token)
    };
    (username, oauth, channel)
}

/// A message whose first word is the start alias, from a sender who neither
/// owns the channel nor is an admin, never starts the stream, moderator or
/// not, in mod-only mode or not; outside the cooldown it is refused. The
/// start alias must not also be a stats or battery alias, which are looked at
/// first.
pub proof fn lemma_start_refused_to_plain_users(
    busy: bool,
    text: Seq<char>,
    roles: Roles,
    commands: Commands,
    mod_only: bool,
)
    requires
        !roles.owner,
        !roles.admin,
        first_word(text) == commands.start@,
        !texts(commands.stats@).contains(commands.start@),
        !texts(commands.battery@).contains(commands.start@),
    ensures
        routing_of(busy, text, roles, commands, mod_only) != Routing::Dispatched(Command::Start),
        !(routing_of(busy, text, roles, commands, mod_only) is Dispatched),
        !busy ==> routing_of(busy, text, roles, commands, mod_only) == Routing::Refused,
{
    assert(command_of(first_word(text), commands) == Command::Start);
}

/// Whether a notice from the chat server says that the bot's login failed.
pub fn is_login_failure(notice: &str) -> (r: bool)
    ensures
        r == (notice@ == "Login authentication failed"@),
{
    String::from_str(notice) == String::from_str("Login authentication failed")
}

} // verus!
