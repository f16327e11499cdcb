use hdfs_walk::cmd::config::{
    contains_name, resolve_config_path, resolve_gateway, switch_gateway, Config, Gateway, Hadoop,
};

fn home(path: Option<&str>, gateway: Option<&str>) -> Option<Config> {
    Some(Config {
        hadoop: Some(Hadoop {
            config_path: path.map(String::from),
        }),
        gateway: Some(Gateway {
            default: gateway.map(String::from),
        }),
    })
}

fn s(v: &str) -> Option<String> {
    Some(v.to_string())
}

#[test]
fn config_path_prefers_flag_then_home_then_environment() {
    let h = home(Some("/home/conf"), None);
    assert_eq!(resolve_config_path(s("/flag"), &h, s("/env")), s("/flag"));
    assert_eq!(resolve_config_path(None, &h, s("/env")), s("/home/conf"));
    assert_eq!(resolve_config_path(None, &home(None, None), s("/env")), s("/env"));
    assert_eq!(resolve_config_path(None, &None, s("/env")), s("/env"));
    assert_eq!(resolve_config_path(None, &None, None), None);
    let no_hadoop = Some(Config {
        hadoop: None,
        gateway: None,
    });
    assert_eq!(resolve_config_path(None, &no_hadoop, None), None);
}

#[test]
fn gateway_prefers_flag_then_home_then_environment() {
    let h = home(None, Some("prod"));
    assert_eq!(resolve_gateway(s("flag"), &h, s("env")), s("flag"));
    assert_eq!(resolve_gateway(None, &h, s("env")), s("prod"));
    assert_eq!(resolve_gateway(None, &home(None, None), s("env")), s("env"));
    assert_eq!(resolve_gateway(None, &None, None), None);
}

#[test]
fn switching_needs_a_known_gateway() {
    let gateways = vec!["prod".to_string(), "preprod".to_string()];
    assert!(contains_name(&gateways, "prod"));
    assert!(!contains_name(&gateways, "pro"));
    assert!(!contains_name(&Vec::new(), "prod"));
    assert!(switch_gateway(None, &gateways, "test").is_none());
    assert!(switch_gateway(home(Some("/c"), Some("prod")), &gateways, "").is_none());
}

#[test]
fn switching_keeps_the_rest_of_the_home_configuration() {
    let gateways = vec!["prod".to_string(), "preprod".to_string()];
    let c = switch_gateway(home(Some("/c"), Some("prod")), &gateways, "preprod").unwrap();
    assert_eq!(c.gateway.unwrap().default, s("preprod"));
    assert_eq!(c.hadoop.unwrap().config_path, s("/c"));
    let c = switch_gateway(None, &gateways, "prod").unwrap();
    assert_eq!(c.gateway.unwrap().default, s("prod"));
    assert!(c.hadoop.is_none());
}

#[test]
fn home_configuration_is_empty_by_default() {
    let c = Config::default();
    assert!(c.hadoop.is_none());
    assert!(c.gateway.is_none());
    assert!(Hadoop::default().config_path.is_none());
    assert!(Gateway::default().default.is_none());
}
