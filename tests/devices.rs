use tricore_probe::breakpoint::{TriggerType, MCD_TRIG_TYPE_IP, MCD_TRIG_TYPE_RW};
use tricore_probe::connection::{Connection, ServerConfig, ServerInfo};

#[test]
fn connection_lists_servers_in_order() {
    let c = Connection::from_servers(vec![
        ServerInfo::new("DAS JDS miniWiggler".to_string(), "server A".to_string(), "sys0".to_string()),
        ServerInfo::new("AURIX Lite Kit V2".to_string(), "server B".to_string(), "sys1".to_string()),
    ]);
    assert_eq!(c.count(), 2);
    assert_eq!(c.servers()[1].acc_hw(), "AURIX Lite Kit V2");
    assert_eq!(c.servers()[0].server(), "server A");
    assert_eq!(c.servers()[0].system_instance(), "sys0");
}

#[test]
fn empty_connection_has_no_servers() {
    let c = Connection::from_servers(vec![]);
    assert_eq!(c.count(), 0);
    assert!(c.servers().is_empty());
}

#[test]
fn trigger_type_codes() {
    assert_eq!(TriggerType::IP.as_type(), MCD_TRIG_TYPE_IP);
    assert_eq!(TriggerType::RW.as_type(), MCD_TRIG_TYPE_RW);
    assert_eq!(TriggerType::IP.as_type(), 1);
    assert_eq!(TriggerType::RW.as_type(), 8);
}

#[test]
fn config_string_with_access_hardware() {
    let config = ServerConfig { acc_hw: Some("AURIX Lite Kit V2".to_string()) };
    assert_eq!(config.as_config_string(), "McdAccHw=\"AURIX Lite Kit V2\"\n\0");
}

#[test]
fn config_string_without_parameters() {
    let config = ServerConfig::default();
    assert_eq!(config.as_config_string(), "\0");
}
