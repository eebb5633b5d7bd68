use hive_heat::config::{parse_command, parse_credentials, Command, ConfigError, InputError};
use hive_heat::devices::{find_heating_device, parse_device_list, select_heating, working_indicator, Device, DeviceError};
use hive_heat::operation::{plan_operation, Operation};
use hive_heat::report::{fixed_tenths, pad_to, target_report, temperature_report};
use hive_heat::target::parse_target;
use hive_heat::requests::{
    authorization_value, login_body, login_url, logout_url, products_url, target_body, target_url,
    token_from_reply, RequestError,
};
use hive_heat::temperature::parse_tenths;

const LIST: &str = "[{\"type\":\"light\"},{\"type\":\"heating\",\"id\":\"abc\",\"props\":{\"temperature\":19.5,\"working\":false},\"state\":{\"target\":20.0}}]";
const LIST_WORKING: &str = "[{\"type\":\"light\"},{\"type\":\"heating\",\"id\":\"abc\",\"props\":{\"temperature\":19.5,\"working\":true},\"state\":{\"target\":20.0}}]";

fn args(v: &[&str]) -> Vec<String> {
    v.iter().map(|a| a.to_string()).collect()
}

#[test]
fn status_of_heating_device() {
    let devices = parse_device_list(LIST).unwrap();
    assert_eq!(devices.len(), 2);
    let op = plan_operation(&Command::Status, &devices).unwrap();
    assert_eq!(
        op,
        Operation::ShowStatus {
            temperature: "Temperature   19.5\u{B0}C".to_string(),
            target: "Target       20.0\u{B0}C".to_string(),
        }
    );
}

#[test]
fn status_shows_flame_while_working() {
    let devices = parse_device_list(LIST_WORKING).unwrap();
    let op = plan_operation(&Command::Status, &devices).unwrap();
    assert_eq!(
        op,
        Operation::ShowStatus {
            temperature: "Temperature   19.5\u{B0}C".to_string(),
            target: "Target       20.0\u{B0}C \u{1F525}".to_string(),
        }
    );
}

#[test]
fn set_target_posts_once_to_device() {
    let devices = parse_device_list(LIST).unwrap();
    let cmd = parse_command(&args(&["21.5"])).unwrap();
    assert_eq!(cmd, Command::SetTarget("21.5".to_string()));
    let op = plan_operation(&cmd, &devices).unwrap();
    assert_eq!(
        op,
        Operation::PostTarget {
            url: "https://beekeeper.hivehome.com/1.0/nodes/heating/abc".to_string(),
            body: "{\"target\":21.5}".to_string(),
        }
    );
}

#[test]
fn missing_heating_device_is_not_found() {
    let devices = parse_device_list("[{\"type\":\"light\"},{\"type\":\"plug\"}]").unwrap();
    assert_eq!(find_heating_device(&devices), Err(DeviceError::NotFound));
    assert_eq!(plan_operation(&Command::Status, &devices), Err(DeviceError::NotFound));
    assert_eq!(plan_operation(&Command::SetTarget("20".to_string()), &devices), Err(DeviceError::NotFound));
}

#[test]
fn non_numeric_argument_is_input_error() {
    assert_eq!(parse_command(&args(&["warm"])), Err(InputError::NotANumber));
}

#[test]
fn no_argument_means_status() {
    assert_eq!(parse_command(&args(&[])), Ok(Command::Status));
}

#[test]
fn first_heating_device_wins() {
    let d = |kind: &str, id: &str| Device {
        kind: kind.to_string(),
        id: Some(id.to_string()),
        temperature: Some(180),
        working: Some(false),
        target: Some(190),
    };
    let devices = vec![d("light", "x"), d("heating", "first"), d("heating", "second")];
    assert_eq!(find_heating_device(&devices), Ok(1));
    assert_eq!(select_heating(&devices).unwrap().id, "first");
    assert_eq!(find_heating_device(&Vec::new()), Err(DeviceError::NotFound));
}

#[test]
fn heating_device_without_fields() {
    let devices = parse_device_list("[{\"type\":\"heating\",\"id\":\"abc\"}]").unwrap();
    assert_eq!(select_heating(&devices), Err(DeviceError::MissingField));
    assert_eq!(
        plan_operation(&Command::SetTarget("20".to_string()), &devices),
        Ok(Operation::PostTarget {
            url: "https://beekeeper.hivehome.com/1.0/nodes/heating/abc".to_string(),
            body: "{\"target\":20}".to_string(),
        })
    );
}

#[test]
fn malformed_device_lists() {
    assert_eq!(parse_device_list("not json"), Err(DeviceError::Malformed));
    assert_eq!(parse_device_list("{\"type\":\"heating\"}"), Err(DeviceError::Malformed));
    assert_eq!(parse_device_list("[{\"id\":\"x\"}]"), Err(DeviceError::Malformed));
    assert_eq!(parse_device_list("[]"), Ok(Vec::new()));
}

#[test]
fn decimal_arguments() {
    assert_eq!(parse_tenths("21.5"), Some(215));
    assert_eq!(parse_tenths("21"), Some(210));
    assert_eq!(parse_tenths("-3.25"), Some(-33));
    assert_eq!(parse_tenths("+0.04"), Some(0));
    assert_eq!(parse_tenths("19.96"), Some(200));
    assert_eq!(parse_tenths(".5"), Some(5));
    assert_eq!(parse_tenths("5."), Some(50));
    assert_eq!(parse_tenths("999999999999999"), Some(9999999999999990));
    assert_eq!(parse_tenths("1000000000000000"), None);
    assert_eq!(parse_tenths(""), None);
    assert_eq!(parse_tenths("-"), None);
    assert_eq!(parse_tenths("."), None);
    assert_eq!(parse_tenths("1.2.3"), None);
    assert_eq!(parse_tenths("1e3"), None);
    assert_eq!(parse_tenths("warm"), None);
}

#[test]
fn temperature_text() {
    assert_eq!(fixed_tenths(195), "19.5");
    assert_eq!(fixed_tenths(200), "20.0");
    assert_eq!(fixed_tenths(-5), "-0.5");
    assert_eq!(fixed_tenths(i64::MIN), "-922337203685477580.8");
    assert_eq!(pad_to("19.5", 6), "  19.5");
    assert_eq!(pad_to("1234567", 6), "1234567");
    assert_eq!(temperature_report(-125), "Temperature  -12.5\u{B0}C");
    assert_eq!(target_report(1234567, true), "Target     123456.7\u{B0}C \u{1F525}");
    assert_eq!(working_indicator(false), "");
    assert_eq!(working_indicator(true), "\u{1F525}");
}

#[test]
fn request_addresses_and_bodies() {
    assert_eq!(login_url(), "https://beekeeper.hivehome.com/1.0/global/login");
    assert_eq!(products_url(), "https://beekeeper.hivehome.com/1.0/products?after=");
    assert_eq!(logout_url(), "https://beekeeper.hivehome.com/1.0/auth/logout");
    assert_eq!(target_url("abc"), "https://beekeeper.hivehome.com/1.0/nodes/heating/abc");
    assert_eq!(target_body("21.5"), "{\"target\":21.5}");
    assert_eq!(target_body("-0.5"), "{\"target\":-0.5}");
    assert_eq!(
        login_body("me", "p\"w"),
        "{\"username\":\"me\",\"password\":\"p\\\"w\",\"devices\":true,\"products\":true,\"actions\":true,\"homes\":true}"
    );
}

#[test]
fn login_body_escapes_controls() {
    assert_eq!(
        login_body("a\u{1}b", "t\tn\n\\"),
        "{\"username\":\"a\\u0001b\",\"password\":\"t\\tn\\n\\\\\",\"devices\":true,\"products\":true,\"actions\":true,\"homes\":true}"
    );
}

#[test]
fn authorization_header_values() {
    assert!(authorization_value("abc.DEF-123").is_ok());
    assert!(authorization_value("tab\tok").is_ok());
    assert_eq!(authorization_value("line\nbreak").unwrap_err(), RequestError::InvalidToken);
    assert_eq!(authorization_value("del\u{7f}").unwrap_err(), RequestError::InvalidToken);
}

#[test]
fn login_reply_token() {
    assert_eq!(token_from_reply("{\"token\":\"t0k\",\"user\":{}}"), Ok("t0k".to_string()));
    assert_eq!(token_from_reply("{\"error\":1}"), Err("{\"error\":1}".to_string()));
    assert_eq!(token_from_reply("<html>"), Err("<html>".to_string()));
    assert_eq!(token_from_reply("{\"token\":5}"), Err("{\"token\":5}".to_string()));
}

#[test]
fn credentials_from_config() {
    let c = parse_credentials("username = \"me\"\npassword = \"SECRET-REDACTED\"\n").unwrap();
    assert_eq!(c.username, "me");
    assert_eq!(c.password, "SECRET-REDACTED");
    assert_eq!(parse_credentials("password = \"x\""), Err(ConfigError::MissingUsername));
    assert_eq!(parse_credentials("username = \"me\""), Err(ConfigError::MissingPassword));
    assert_eq!(parse_credentials("username = 3\npassword = \"x\""), Err(ConfigError::MissingUsername));
    assert_eq!(parse_credentials("= broken"), Err(ConfigError::Malformed));
}

#[test]
fn target_arguments_keep_their_value() {
    assert_eq!(parse_target("21.5"), Some("21.5".to_string()));
    assert_eq!(parse_target("21.55"), Some("21.55".to_string()));
    assert_eq!(parse_target("+021.50"), Some("21.50".to_string()));
    assert_eq!(parse_target("-.5"), Some("-0.5".to_string()));
    assert_eq!(parse_target("5."), Some("5".to_string()));
    assert_eq!(parse_target("000"), Some("0".to_string()));
    assert_eq!(parse_target("2.15e1"), Some("2.15e1".to_string()));
    assert_eq!(parse_target("2E+1"), Some("2E+1".to_string()));
    assert_eq!(parse_target("1e"), None);
    assert_eq!(parse_target("1e+"), None);
    assert_eq!(parse_target("1e2.5"), None);
    assert_eq!(parse_target("."), None);
    assert_eq!(parse_target("-"), None);
    assert_eq!(parse_target(""), None);
    assert_eq!(parse_target("warm"), None);
    assert_eq!(parse_target("21.5x"), None);
    assert_eq!(parse_command(&args(&["21.55"])), Ok(Command::SetTarget("21.55".to_string())));
}
