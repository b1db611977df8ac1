use lehman_cousins_core::config::{exchange_var, metrics_port, u32_setting, u64_setting, usize_setting};

#[test]
fn numeric_settings_default_when_absent_and_refuse_invalid_text() {
    assert_eq!(u32_setting(Some("42"), 7), Some(42));
    assert_eq!(u32_setting(Some("+42"), 7), Some(42));
    assert_eq!(u32_setting(Some("007"), 1), Some(7));
    assert_eq!(u32_setting(None, 7), Some(7));
    assert_eq!(u32_setting(Some(""), 7), None);
    assert_eq!(u32_setting(Some("-1"), 7), None);
    assert_eq!(u32_setting(Some(" 5"), 7), None);
    assert_eq!(u32_setting(Some("4294967296"), 7), None);
    assert_eq!(u64_setting(Some("4294967296"), 7), Some(4_294_967_296));
    assert_eq!(u64_setting(Some("2_000"), 30), None);
    assert_eq!(usize_setting(Some("1024"), 1), Some(1024));
    assert_eq!(usize_setting(Some("abc"), 20), None);
    assert_eq!(usize_setting(Some("+"), 3), None);
}

#[test]
fn metrics_port_defaults_and_rejects_invalid_text() {
    assert_eq!(metrics_port(None), Some(9090));
    assert_eq!(metrics_port(Some("9100")), Some(9100));
    assert_eq!(metrics_port(Some("65536")), None);
    assert_eq!(metrics_port(Some("port")), None);
}

#[test]
fn credentials_follow_the_application_environment() {
    assert_eq!(exchange_var("production", "API_KEY"), "EXCHANGE_PROD_API_KEY");
    assert_eq!(exchange_var("development", "WS_URL"), "EXCHANGE_TESTNET_WS_URL");
    assert_eq!(exchange_var("Production", "REST_URL"), "EXCHANGE_TESTNET_REST_URL");
}
