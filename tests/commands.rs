use liveu_stats_bot::config::{self, Commands};
use liveu_stats_bot::error::Error;
use liveu_stats_bot::liveu::{Battery, Interface, Video};
use liveu_stats_bot::twitch::{
    chat_login, first_token, generate_liveu_battery_message, generate_liveu_modems_message,
    generate_liveu_restart_message, generate_liveu_start_message, reports_total, generate_liveu_stop_message,
    get_command, has_badge, is_login_failure, permission, sender_roles, start_requested,
    stop_requested, user_has_permission, ActionConfirmer, Badge, Command, CommandRouter, Progress,
    Roles, Routing,
};

fn commands() -> Commands {
    Commands {
        command_cooldown: 5,
        stats: vec!["!lustats".to_string(), "!liveustats".to_string(), "!lus".to_string()],
        battery: vec!["!battery".to_string(), "!liveubattery".to_string(), "!lub".to_string()],
        start: "!lustart".to_string(),
        stop: "!lustop".to_string(),
        restart: "!lurestart".to_string(),
    }
}

const NOBODY: Roles = Roles { owner: false, moderator: false, admin: false };
const MODERATOR: Roles = Roles { owner: false, moderator: true, admin: false };
const OWNER: Roles = Roles { owner: true, moderator: false, admin: false };
const ADMIN: Roles = Roles { owner: false, moderator: false, admin: true };

fn iface(port: &str, uplink: u32, technology: &str, roaming: bool) -> Interface {
    Interface {
        connected: true,
        name: port.to_string(),
        downlink_kbps: 0,
        uplink_kbps: uplink,
        enabled: true,
        port: port.to_string(),
        technology: technology.to_string(),
        up_signal_quality: 0,
        down_signal_quality: 0,
        active_sim: None,
        is_currently_roaming: roaming,
        kbps: uplink,
        signal_quality: 0,
    }
}

#[test]
fn first_token_skips_white_space() {
    assert_eq!(first_token("  !lus   extra words"), "!lus");
    assert_eq!(first_token("!lub"), "!lub");
    assert_eq!(first_token("\t\n!lustart\r\n"), "!lustart");
    assert_eq!(first_token("   "), "");
    assert_eq!(first_token(""), "");
    assert_eq!(first_token("héllo wörld"), "héllo");
}

#[test]
fn aliases_classify() {
    let c = commands();
    assert_eq!(get_command(&"!liveustats".to_string(), &c), Command::Stats);
    assert_eq!(get_command(&"!lub".to_string(), &c), Command::Battery);
    assert_eq!(get_command(&"!lustart".to_string(), &c), Command::Start);
    assert_eq!(get_command(&"!lustop".to_string(), &c), Command::Stop);
    assert_eq!(get_command(&"!lurestart".to_string(), &c), Command::Restart);
    assert_eq!(get_command(&"!LUS".to_string(), &c), Command::Unknown);
    assert_eq!(get_command(&"hello".to_string(), &c), Command::Unknown);
}

#[test]
fn cooldown_ignores_everything() {
    let c = commands();
    let mut router = CommandRouter::new();
    assert_eq!(router.handle_chat("!lus", OWNER, &c, false), Routing::Dispatched(Command::Stats));
    assert!(router.is_busy());
    for text in ["!lus", "!lub", "!lustart", "!lustop", "!lurestart", "hi"] {
        assert_eq!(router.handle_chat(text, OWNER, &c, false), Routing::Ignored);
    }
    assert!(router.is_busy());
    router.cooldown_elapsed();
    assert!(!router.is_busy());
    assert_eq!(router.handle_chat("!lub now", NOBODY, &c, false), Routing::Dispatched(Command::Battery));
}

#[test]
fn plain_user_cannot_start_even_without_mod_only() {
    let c = commands();
    let mut router = CommandRouter::new();
    assert_eq!(router.handle_chat("!lustart", NOBODY, &c, false), Routing::Refused);
    assert!(!router.is_busy());
    assert_eq!(router.handle_chat("!lustart", MODERATOR, &c, false), Routing::Refused);
    assert_eq!(router.handle_chat("!lustop", NOBODY, &c, true), Routing::Refused);
    assert_eq!(router.handle_chat("!lurestart", MODERATOR, &c, true), Routing::Refused);
    assert_eq!(router.handle_chat("!lustart", ADMIN, &c, true), Routing::Dispatched(Command::Start));
}

#[test]
fn mod_only_gates_stats_and_battery() {
    let c = commands();
    let mut router = CommandRouter::new();
    assert_eq!(router.handle_chat("!lus", NOBODY, &c, true), Routing::Refused);
    assert_eq!(router.handle_chat("!lus", MODERATOR, &c, true), Routing::Dispatched(Command::Stats));
    router.cooldown_elapsed();
    assert_eq!(router.handle_chat("!lub", OWNER, &c, true), Routing::Dispatched(Command::Battery));
    router.cooldown_elapsed();
    assert_eq!(router.handle_chat("nothing here", OWNER, &c, true), Routing::Ignored);
    assert!(!router.is_busy());
}

#[test]
fn permission_error_variant() {
    assert_eq!(permission(Command::Start, NOBODY, false), Err(Error::NotEnoughPermissions));
    assert_eq!(permission(Command::Start, OWNER, true), Ok(()));
    assert_eq!(permission(Command::Stats, NOBODY, false), Ok(()));
    assert_eq!(
        Error::NotEnoughPermissions.message(),
        "Not enough permissions to use command"
    );
}

#[test]
fn roles_from_badges_and_admin_list() {
    let badges = vec![
        Badge { name: "subscriber".to_string(), version: "12".to_string() },
        Badge { name: "broadcaster".to_string(), version: "1".to_string() },
    ];
    let admins = Some(vec!["SomeAdmin".to_string()]);
    let roles = sender_roles(&badges, "someadmin", &admins);
    assert_eq!(roles, Roles { owner: true, moderator: false, admin: true });
    assert!(!has_badge(&badges, "moderator", "1"));
    // the admin list is compared lowercased
    assert!(user_has_permission("someadmin", &admins));
    assert!(!user_has_permission("SomeAdmin", &admins));
    assert!(!user_has_permission("someadmin", &None));
}

#[test]
fn stats_reply_scenario_total() {
    let interfaces = vec![iface("wired", 500, "", false), iface("cellA", 300, "", false)];
    assert_eq!(
        generate_liveu_modems_message(Some(&interfaces), None),
        "wired: 500 Kbps, cellA: 300 Kbps, Total LRT: 800 Kbps"
    );
}

#[test]
fn stats_reply_formats() {
    let interfaces = vec![iface("SIM1", 1200, "LTE", true), iface("ETH", 34, "", false)];
    assert_eq!(
        generate_liveu_modems_message(Some(&interfaces), Some(2500)),
        "SIM1: 1200 Kbps (LTE) roaming, ETH: 34 Kbps, Total LRT: 1234 Kbps, RTMP: 2500 Kbps"
    );
    assert_eq!(generate_liveu_modems_message(None, None), "LiveU Offline :(");
    assert_eq!(generate_liveu_modems_message(Some(&vec![]), None), "LiveU Offline :(");
    let idle = vec![iface("ETH", 0, "", false)];
    assert_eq!(generate_liveu_modems_message(Some(&idle), Some(9)), "LiveU Online and Ready");
}

#[test]
fn stats_total_does_not_overflow() {
    let interfaces = vec![iface("A", u32::MAX, "", false), iface("B", u32::MAX, "", false)];
    let reply = generate_liveu_modems_message(Some(&interfaces), None);
    assert!(reply.ends_with("Total LRT: 8589934590 Kbps"));
}

fn bat(percentage: u8, charging: bool, discharging: bool, connected: bool, minutes: u32) -> Battery {
    Battery { connected, percentage, run_time_to_empty: minutes, discharging, charging }
}

#[test]
fn battery_reply_formats() {
    assert_eq!(generate_liveu_battery_message(None), "LiveU Offline :(");
    assert_eq!(
        generate_liveu_battery_message(Some(bat(80, true, false, true, 0))),
        "LiveU Internal Battery: 80% charging "
    );
    assert_eq!(
        generate_liveu_battery_message(Some(bat(100, false, false, true, 0))),
        "LiveU Internal Battery: 100% fully charged, connected "
    );
    assert_eq!(
        generate_liveu_battery_message(Some(bat(100, false, false, false, 0))),
        "LiveU Internal Battery: 100% fully charged "
    );
    assert_eq!(
        generate_liveu_battery_message(Some(bat(70, false, false, false, 0))),
        "LiveU Internal Battery: 70% too hot to charge "
    );
    assert_eq!(
        generate_liveu_battery_message(Some(bat(42, false, true, false, 95))),
        "LiveU Internal Battery: 42% not charging Estimated battery time: 1h 35m"
    );
    assert_eq!(
        generate_liveu_battery_message(Some(bat(7, false, true, false, 45))),
        "LiveU Internal Battery: 7% not charging Estimated battery time:  45m"
    );
}

#[test]
fn start_decisions() {
    assert_eq!(generate_liveu_start_message(None), Some("LiveU Offline :(".to_string()));
    assert_eq!(
        generate_liveu_start_message(Some(Video { resolution: None, bitrate: None })),
        Some("LiveU no camera plugged in".to_string())
    );
    assert_eq!(
        generate_liveu_start_message(Some(Video { resolution: Some("1080p".to_string()), bitrate: Some(4000) })),
        Some("LiveU already streaming".to_string())
    );
    assert_eq!(generate_liveu_start_message(Some(Video { resolution: Some("1080p".to_string()), bitrate: None })), None);
    let (reply, confirm) = start_requested(true);
    assert_eq!(reply, "LiveU starting stream");
    assert!(confirm.is_some());
    let (reply, confirm) = start_requested(false);
    assert_eq!(reply, "LiveU request error");
    assert!(confirm.is_none());
}

#[test]
fn stop_and_restart_decisions() {
    let streaming = Some(Video { resolution: Some("1080p".to_string()), bitrate: Some(3000) });
    let idle = Some(Video { resolution: Some("1080p".to_string()), bitrate: None });
    assert_eq!(generate_liveu_stop_message(streaming.clone()), None);
    assert_eq!(generate_liveu_stop_message(idle.clone()), Some("LiveU already stopped".to_string()));
    assert_eq!(generate_liveu_stop_message(None), Some("LiveU already stopped".to_string()));
    let (reply, confirm) = stop_requested(true);
    assert_eq!(reply, "LiveU stopping stream");
    assert!(confirm.is_some());
    assert_eq!(
        generate_liveu_restart_message(streaming),
        Ok("LiveU stream restarting".to_string())
    );
    assert_eq!(generate_liveu_restart_message(idle), Err("LiveU not streaming".to_string()));
}

#[test]
fn confirmation_gives_up_after_three_polls() {
    let mut confirm = ActionConfirmer::new(3, true, "started".to_string(), "starting".to_string());
    let mut polls = 0;
    while confirm.progress() == Progress::Poll {
        confirm.record(Some(Video { resolution: Some("1080p".to_string()), bitrate: None }));
        polls += 1;
    }
    assert_eq!(polls, 3);
    assert_eq!(confirm.progress(), Progress::TimedOut);
    assert_eq!(
        confirm.message(),
        Some("LiveU starting stream took too long might not have worked".to_string())
    );
}

#[test]
fn confirmation_succeeds_when_state_shows() {
    let (_, confirm) = stop_requested(true);
    let mut confirm = confirm.unwrap();
    assert_eq!(confirm.message(), None);
    confirm.record(None);
    confirm.record(Some(Video { resolution: Some("1080p".to_string()), bitrate: Some(10) }));
    assert_eq!(confirm.progress(), Progress::Poll);
    confirm.record(Some(Video { resolution: Some("1080p".to_string()), bitrate: None }));
    assert_eq!(confirm.progress(), Progress::Confirmed);
    assert_eq!(confirm.message(), Some("LiveU streaming stopped successfully".to_string()));
}

#[test]
fn confirmation_with_no_attempts_times_out_at_once() {
    let confirm = ActionConfirmer::new(0, true, "started".to_string(), "starting".to_string());
    assert_eq!(confirm.progress(), Progress::TimedOut);
}

#[test]
fn start_confirmer_polls_fifteen_times() {
    let (_, confirm) = start_requested(true);
    let mut confirm = confirm.unwrap();
    let mut polls = 0;
    while confirm.progress() == Progress::Poll {
        confirm.record(None);
        polls += 1;
    }
    assert_eq!(polls, 15);
}

#[test]
fn chat_login_normalises() {
    let twitch = config::Twitch {
        bot_username: "MyBot".to_string(),
        bot_oauth: "oauth:AbC123".to_string(),
        channel: "SomeChannel".to_string(),
        admin_users: None,
        mod_only: true,
    };
    let (user, token, channel) = chat_login(&twitch);
    assert_eq!(user, "mybot");
    assert_eq!(token, "AbC123");
    assert_eq!(channel, "somechannel");
    let twitch = config::Twitch { bot_oauth: "xyz".to_string(), ..twitch };
    assert_eq!(chat_login(&twitch).1, "xyz");
}

#[test]
fn login_failure_notice() {
    assert!(is_login_failure("Login authentication failed"));
    assert!(!is_login_failure("Welcome, GLHF!"));
}

#[test]
fn rtmp_is_needed_only_with_a_total() {
    assert!(!reports_total(&vec![]));
    assert!(!reports_total(&vec![iface("ETH", 0, "", false), iface("SIM1", 0, "LTE", false)]));
    assert!(reports_total(&vec![iface("ETH", 0, "", false), iface("SIM1", 7, "LTE", false)]));
}

#[test]
fn battery_discharging_without_estimate() {
    assert_eq!(
        generate_liveu_battery_message(Some(bat(30, false, true, false, 0))),
        "LiveU Internal Battery: 30% not charging "
    );
}
