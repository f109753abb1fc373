use liveu_stats_bot::config::{
    self, input_to_bool, Commands, Config, CustomUnitNames, Monitor, Rtmp,
};
use liveu_stats_bot::dispatch::{DispatchEvent, DispatchStep, RequestRetry};
use liveu_stats_bot::error::Error;
use liveu_stats_bot::liveu::{inventories_url, unit_url, Interface, InterfacesReply, Liveu, Video};
use liveu_stats_bot::nginx::{get_rtmp_bitrate, rtmp_stats_status, NginxRtmpApp, NginxRtmpLive, NginxRtmpStream};
use liveu_stats_bot::text::{decimal_string, join_comma};

fn login() -> config::Liveu {
    config::Liveu {
        email: "me@example.com".to_string(),
        password: "SECRET-REDACTED".to_string(),
        id: None,
        monitor: Monitor { battery: true, battery_notification: vec![99, 50, 10, 5, 1], modems: true },
    }
}

fn iface(port: &str, connected: bool) -> Interface {
    Interface {
        connected,
        name: port.to_string(),
        downlink_kbps: 1,
        uplink_kbps: 2,
        enabled: true,
        port: port.to_string(),
        technology: "LTE".to_string(),
        up_signal_quality: 3,
        down_signal_quality: 4,
        active_sim: None,
        is_currently_roaming: false,
        kbps: 5,
        signal_quality: 6,
    }
}

#[test]
fn authenticate_swallows_login_failure() {
    assert!(matches!(Liveu::authenticate(login(), None), Err(Error::InvalidCredentials)));
    let session = Liveu::authenticate(login(), Some("tok1".to_string())).unwrap();
    assert_eq!(session.authorization(), "Bearer tok1");
    assert_eq!(session.credentials().email, "me@example.com");
    assert_eq!(Error::InvalidCredentials.message(), "Invalid credentials can't login");
}

#[test]
fn reauthentication_replaces_token() {
    let mut session = Liveu::authenticate(login(), Some("old".to_string())).unwrap();
    session.set_access_token("new".to_string());
    assert_eq!(session.authorization(), "Bearer new");
    assert_eq!(session.credentials().password, "SECRET-REDACTED");
}

#[test]
fn login_header_holds_email_and_fresh_id() {
    assert_eq!(Liveu::login_user_name("a@b.c", "1234"), "a@b.c1234");
    let header = Liveu::fresh_login_user_name("a@b.c");
    assert_eq!(header.chars().count(), 5 + 36);
    assert!(header.starts_with("a@b.c"));
    assert_ne!(header, Liveu::fresh_login_user_name("a@b.c"));
}

#[test]
fn retry_once_after_unauthorized() {
    let mut policy = RequestRetry::new();
    assert_eq!(policy.step(DispatchEvent::Response(401)), DispatchStep::Reauthenticate);
    assert_eq!(policy.step(DispatchEvent::Reauthenticated(true)), DispatchStep::Resend);
    assert_eq!(policy.step(DispatchEvent::Response(401)), DispatchStep::Deliver);
}

#[test]
fn authorized_answer_is_delivered_at_once() {
    let mut policy = RequestRetry::new();
    assert_eq!(policy.step(DispatchEvent::Response(200)), DispatchStep::Deliver);
    let mut policy = RequestRetry::new();
    assert_eq!(policy.step(DispatchEvent::Response(404)), DispatchStep::Deliver);
}

#[test]
fn failed_reauthentication_fails() {
    let mut policy = RequestRetry::new();
    assert_eq!(policy.step(DispatchEvent::Response(401)), DispatchStep::Reauthenticate);
    assert_eq!(policy.step(DispatchEvent::Reauthenticated(false)), DispatchStep::Fail);
}

#[test]
fn status_codes_are_read() {
    assert_eq!(Liveu::get_inventories(200), Ok(()));
    assert_eq!(Liveu::get_inventories(404), Err(Error::NoInventoriesFound));
    assert_eq!(Liveu::get_inventories(500), Ok(()));
    assert_eq!(Liveu::get_interfaces(200), Ok(InterfacesReply::Listed));
    assert_eq!(Liveu::get_interfaces(204), Ok(InterfacesReply::Empty));
    assert_eq!(Liveu::get_interfaces(500), Err(Error::NoUnitsFound));
    assert_eq!(Liveu::get_battery(200), Ok(()));
    assert_eq!(Liveu::get_battery(204), Err(Error::StatusNotAvailable));
    assert_eq!(Liveu::get_video(401), Err(Error::StatusNotAvailable));
    assert_eq!(Liveu::start_stream(201), Ok(()));
    assert_eq!(Liveu::start_stream(200), Err(Error::StatusNotAvailable));
    assert_eq!(Liveu::stop_stream(204), Ok(()));
    assert_eq!(Liveu::stop_stream(200), Err(Error::StatusNotAvailable));
    assert_eq!(Error::NoUnitsFound.message(), "No units found");
    assert_eq!(Error::NoInventoriesFound.message(), "No inventories found");
    assert_eq!(Error::StatusNotAvailable.message(), "Status not available");
}

#[test]
fn addresses() {
    assert_eq!(
        inventories_url(),
        "https://lu-central.liveu.tv/luc/luc-core-web/rest/v0/inventories"
    );
    assert_eq!(
        unit_url("abc", "/status/battery"),
        "https://lu-central.liveu.tv/luc/luc-core-web/rest/v0/units/abc/status/battery"
    );
}

#[test]
fn video_classification() {
    let idle = Some(Video { resolution: Some("1080p".to_string()), bitrate: None });
    let streaming = Some(Video { resolution: Some("1080p".to_string()), bitrate: Some(1) });
    let no_camera = Some(Video { resolution: None, bitrate: None });
    assert!(Liveu::is_idle(idle.clone()));
    assert!(!Liveu::is_idle(streaming.clone()));
    assert!(!Liveu::is_idle(no_camera.clone()));
    assert!(!Liveu::is_idle(None));
    assert!(Liveu::is_streaming(streaming.clone()));
    assert!(!Liveu::is_streaming(idle.clone()));
    assert!(!Liveu::is_streaming(None));
}

#[test]
fn ports_get_display_names() {
    let raw = vec![
        iface("eth0", true),
        iface("wlan0", false),
        iface("0", true),
        iface("1", true),
        iface("2", true),
        iface("3", true),
        iface("modem9", true),
    ];
    let named = Liveu::get_unit_custom_names(raw, None);
    let ports: Vec<&str> = named.iter().map(|i| i.port.as_str()).collect();
    assert_eq!(ports, vec!["ETH", "SIM1", "SIM2", "USB1", "USB2", "modem9"]);
    assert_eq!(named[0].technology, "LTE");
    assert_eq!(named[0].kbps, 5);
}

#[test]
fn custom_names_apply() {
    let names = CustomUnitNames {
        ethernet: "Cable".to_string(),
        wifi: "Hotspot".to_string(),
        sim1: "Red".to_string(),
        sim2: "Blue".to_string(),
        usb1: "Stick".to_string(),
        usb2: "Dongle".to_string(),
    };
    let raw = vec![iface("wlan0", true), iface("3", true), iface("eth0", false)];
    let named = Liveu::get_unit_custom_names(raw, Some(names));
    let ports: Vec<&str> = named.iter().map(|i| i.port.as_str()).collect();
    assert_eq!(ports, vec!["Hotspot", "Dongle"]);
    let one = Liveu::change_interface_name_to_custom(iface("1", false), &CustomUnitNames::default());
    assert_eq!(one.port, "SIM2");
    assert!(!one.connected);
}

#[test]
fn unit_choice() {
    assert_eq!(Liveu::get_boss_id_location(1, 7), Some(0));
    assert_eq!(Liveu::get_boss_id_location(3, 3), Some(2));
    assert_eq!(Liveu::get_boss_id_location(3, 4), None);
    assert_eq!(Liveu::get_boss_id_location(3, 0), None);
}

fn app(name: &str, streams: Option<Vec<(&str, u32)>>) -> NginxRtmpApp {
    NginxRtmpApp {
        name: name.to_string(),
        live: NginxRtmpLive {
            stream: streams.map(|v| {
                v.into_iter()
                    .map(|(n, b)| NginxRtmpStream { name: n.to_string(), bw_video: b })
                    .collect()
            }),
        },
    }
}

#[test]
fn rtmp_bitrate_of_configured_stream() {
    let rtmp = Rtmp {
        url: "http://localhost/stat".to_string(),
        application: "publish".to_string(),
        key: "live".to_string(),
    };
    let apps = vec![
        app("other", Some(vec![("live", 9_999_999)])),
        app("publish", None),
        app("publish", Some(vec![("live", 2_048_000), ("backup", 1), ("live", 5_120_000)])),
    ];
    assert_eq!(get_rtmp_bitrate(&rtmp, &apps), Some(5000));
    assert_eq!(get_rtmp_bitrate(&rtmp, &vec![app("publish", None)]), None);
    assert_eq!(rtmp_stats_status(200), Ok(()));
    assert_eq!(rtmp_stats_status(502), Err(Error::RtmpDown));
    assert_eq!(Error::RtmpDown.message(), "Rtmp is offline: Can't connect to RTMP stats");
}

#[test]
fn settings_are_lowercased() {
    let mut config = Config {
        liveu: login(),
        twitch: config::Twitch {
            bot_username: "MyBot".to_string(),
            bot_oauth: "OAUTH:XyZ".to_string(),
            channel: "ChAnNeL".to_string(),
            admin_users: Some(vec!["Alice".to_string(), "bob".to_string()]),
            mod_only: false,
        },
        commands: Commands {
            command_cooldown: 5,
            stats: vec!["!LUS".to_string()],
            battery: vec![],
            start: "!lustart".to_string(),
            stop: "!lustop".to_string(),
            restart: "!lurestart".to_string(),
        },
        rtmp: None,
        custom_port_names: None,
    };
    Config::lowercase_settings(&mut config);
    assert_eq!(config.twitch.bot_username, "mybot");
    assert_eq!(config.twitch.bot_oauth, "oauth:xyz");
    assert_eq!(config.twitch.channel, "channel");
    assert_eq!(config.twitch.admin_users, Some(vec!["alice".to_string(), "bob".to_string()]));
    assert_eq!(config.commands.stats, vec!["!LUS".to_string()]);
}

#[test]
fn default_port_names() {
    let names = CustomUnitNames::default();
    assert_eq!(names.ethernet, "ETH");
    assert_eq!(names.wifi, "WiFi");
    assert_eq!(names.sim1, "SIM1");
    assert_eq!(names.sim2, "SIM2");
    assert_eq!(names.usb1, "USB1");
    assert_eq!(names.usb2, "USB2");
}

#[test]
fn yes_answers() {
    assert!(input_to_bool("y"));
    assert!(!input_to_bool("n"));
    assert!(!input_to_bool("Y"));
    assert!(!input_to_bool(""));
}

#[test]
fn decimals_and_lists() {
    assert_eq!(decimal_string(0), "0");
    assert_eq!(decimal_string(7), "7");
    assert_eq!(decimal_string(1234567890), "1234567890");
    assert_eq!(decimal_string(u128::MAX), u128::MAX.to_string());
    assert_eq!(join_comma(&vec![]), "");
    assert_eq!(join_comma(&vec!["a".to_string()]), "a");
    assert_eq!(join_comma(&vec!["a".to_string(), "b".to_string(), "c".to_string()]), "a, b, c");
}
