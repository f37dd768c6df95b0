use potato_hue::bridge::{
    authorization, check_command_reply, check_request_reply, hue_error_message, response_is_hue_error,
    AuthorizeRequest,
};
use potato_hue::config::Environment;
use potato_hue::error::ConfigError;
use serde_json::Value;

fn object(fields: Vec<(&str, Value)>) -> Value {
    let mut map = serde_json::Map::new();
    for (key, value) in fields {
        map.insert(key.to_owned(), value);
    }
    Value::Object(map)
}

fn error(description: Value) -> Value {
    object(vec![("error", object(vec![("type", Value::from(101)), ("description", description)]))])
}

fn success(key: Value) -> Value {
    object(vec![("success", object(vec![("username", key)]))])
}

#[test]
fn a_reply_with_an_error_item_is_an_error() {
    let reply = Value::Array(vec![success(Value::from("k")), error(Value::from("link button not pressed"))]);
    assert!(response_is_hue_error(&reply));
    assert_eq!(hue_error_message(&reply), "link button not pressed");
    assert_eq!(
        check_request_reply(&reply),
        Err("Hue request failed: link button not pressed".to_owned())
    );
    assert_eq!(
        check_command_reply(&reply),
        Err("Hue command failed: link button not pressed".to_owned())
    );
}

#[test]
fn the_first_error_counts() {
    let reply = Value::Array(vec![error(Value::from("first")), error(Value::from("second"))]);
    assert_eq!(hue_error_message(&reply), "first");
    let reply = Value::Array(vec![error(Value::from(5)), error(Value::from("second"))]);
    assert_eq!(hue_error_message(&reply), "unknown bridge error");
    let reply = Value::Array(vec![object(vec![("error", Value::Null)])]);
    assert!(response_is_hue_error(&reply));
    assert_eq!(hue_error_message(&reply), "unknown bridge error");
}

#[test]
fn other_replies_are_no_errors() {
    for reply in [
        Value::Null,
        Value::Array(vec![]),
        Value::Array(vec![Value::from("error"), success(Value::from("k"))]),
        error(Value::from("not in an array")),
        object(vec![("name", Value::from("Lamp"))]),
    ] {
        assert!(!response_is_hue_error(&reply));
        assert_eq!(hue_error_message(&reply), "unknown bridge error");
        assert_eq!(check_request_reply(&reply), Ok(()));
        assert_eq!(check_command_reply(&reply), Ok(()));
    }
}

#[test]
fn the_first_item_grants_the_key() {
    let granted = Value::Array(vec![success(Value::from("secret"))]);
    assert_eq!(authorization(&granted), Ok("secret".to_owned()));
    let refused = Value::Array(vec![error(Value::from("link button not pressed"))]);
    assert_eq!(
        authorization(&refused),
        Err("Hue authorization failed: link button not pressed".to_owned())
    );
    for reply in [
        Value::Array(vec![]),
        Value::Array(vec![Value::Null, success(Value::from("late"))]),
        Value::Array(vec![success(Value::from(5))]),
        success(Value::from("not in an array")),
    ] {
        assert_eq!(
            authorization(&reply),
            Err("Hue authorization failed: unknown bridge error".to_owned())
        );
    }
}

fn request(vars: &[(&str, &str)]) -> Result<AuthorizeRequest, ConfigError> {
    let mut env = Environment::new();
    for (name, value) in vars {
        env.set((*name).to_owned(), (*value).to_owned());
    }
    AuthorizeRequest::from_env(&env)
}

#[test]
fn asks_to_be_let_in() {
    let asked = request(&[("HUE_BRIDGE_IP", "10.0.0.2")]).unwrap();
    assert_eq!(asked.url(), "http://10.0.0.2/api");
    assert_eq!(asked.body(), object(vec![("devicetype", Value::from("potato-hue#host"))]));
    let named = request(&[("HUE_BRIDGE_IP", "b"), ("HUE_DEVICE_TYPE", "app#kitchen")]).unwrap();
    assert_eq!(named.body(), object(vec![("devicetype", Value::from("app#kitchen"))]));
}

#[test]
fn device_types_are_checked() {
    let forty = format!("{}#", "x".repeat(39));
    assert!(request(&[("HUE_BRIDGE_IP", "b"), ("HUE_DEVICE_TYPE", &forty)]).is_ok());
    let longer = format!("{}#", "x".repeat(40));
    let umlauts = format!("{}#", "ü".repeat(20));
    for bad in [longer.as_str(), umlauts.as_str(), "no-hash", ""] {
        assert_eq!(
            request(&[("HUE_BRIDGE_IP", "b"), ("HUE_DEVICE_TYPE", bad)]),
            Err(ConfigError::BadDeviceType)
        );
    }
    assert_eq!(
        ConfigError::BadDeviceType.message(),
        "HUE_DEVICE_TYPE must look like app-name#device-name and be at most 40 characters"
    );
    assert_eq!(
        request(&[("HUE_DEVICE_TYPE", "no-hash")]),
        Err(ConfigError::Missing { name: "HUE_BRIDGE_IP".to_owned() })
    );
}
