use remindy::config::{db_file_path, join_path, root_path, Config, Network};
use remindy::status::ApiStatus;

fn network(remote: Option<&str>, port: &str) -> Network {
    Network {
        remote_ip: remote.map(|s| s.to_string()),
        local_ip: "127.0.0.1".to_string(),
        port: port.to_string(),
    }
}

#[test]
fn remote_ip_falls_back_to_local() {
    assert_eq!(network(None, "1").remote_ip(), "127.0.0.1");
    assert_eq!(network(Some("10.0.0.2"), "1").remote_ip(), "10.0.0.2");
    assert_eq!(network(None, "1").local_ip(), "127.0.0.1");
    let config = Config { network: network(None, "4321") };
    assert_eq!(config.network().port(), "4321");
}

#[test]
fn port_parses_decimal_text() {
    assert_eq!(network(None, "4321").port_as_u16(), Some(4321));
    assert_eq!(network(None, "+80").port_as_u16(), Some(80));
    assert_eq!(network(None, "0065535").port_as_u16(), Some(65535));
    assert_eq!(network(None, "65536").port_as_u16(), None);
    assert_eq!(network(None, "99999999999").port_as_u16(), None);
    assert_eq!(network(None, "").port_as_u16(), None);
    assert_eq!(network(None, "+").port_as_u16(), None);
    assert_eq!(network(None, "80a").port_as_u16(), None);
    assert_eq!(network(None, " 80").port_as_u16(), None);
    assert_eq!(network(None, "-1").port_as_u16(), None);
}

#[test]
fn paths_join_with_one_separator() {
    assert_eq!(join_path("/home/u", "x"), "/home/u/x");
    assert_eq!(join_path("/home/u/", "x"), "/home/u/x");
    assert_eq!(join_path("", "x"), "x");
    assert_eq!(root_path(Some("/home/u")), Ok("/home/u/.remindy".to_string()));
    assert_eq!(root_path(None), Err(()));
    assert_eq!(db_file_path(Some("/home/u/")), Ok("/home/u/.remindy/reminders.json".to_string()));
    assert_eq!(db_file_path(None), Err(()));
}

#[test]
fn status_is_shown_in_its_color() {
    colored::control::set_override(true);
    assert_eq!(ApiStatus::RunningOk.as_info_string(), "\u{1b}[92mRunningOk\u{1b}[0m");
    assert_eq!(ApiStatus::Starting.as_info_string(), "\u{1b}[32mStarting\u{1b}[0m");
    assert_eq!(ApiStatus::FailedToBindToPort.as_info_string(), "\u{1b}[31mFailedToBindToPort\u{1b}[0m");
    assert_eq!(ApiStatus::UnknownServerError.as_info_string(), "\u{1b}[31mUnknownServerError\u{1b}[0m");
    assert_eq!(ApiStatus::Stopped.as_info_string(), "\u{1b}[91mStopped\u{1b}[0m");
    assert_eq!(ApiStatus::Stopped.name(), "Stopped");
}
