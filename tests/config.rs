use nbd_exporter::config::{
    default_address, default_port, ExportConfig, ExportConfigRaw, ExportSpec, ListenConfig,
};

#[test]
fn defaults_listen_on_all_interfaces_standard_port() {
    assert_eq!(default_address(), "0.0.0.0");
    assert_eq!(default_port(), 10809);
    let l = ListenConfig::default();
    assert_eq!(l.address, "0.0.0.0");
    assert_eq!(l.port, 10809);
}

#[test]
fn listen_parts_keep_given_values() {
    let l = ListenConfig::from_parts(Some("127.0.0.1".to_string()), None);
    assert_eq!(l.address, "127.0.0.1");
    assert_eq!(l.port, 10809);
}

#[test]
fn listen_text_joins_address_and_port() {
    assert_eq!(ListenConfig::default().to_text(), "0.0.0.0:10809");
    let l = ListenConfig { address: "::1".to_string(), port: 0 };
    assert_eq!(l.to_text(), "::1:0");
    let l = ListenConfig { address: "h".to_string(), port: 65535 };
    assert_eq!(l.to_text(), "h:65535");
    let l = ListenConfig { address: "h".to_string(), port: 7 };
    assert_eq!(l.to_text(), "h:7");
}

#[test]
fn bare_path_is_read_write() {
    let c = ExportConfig::from_spec(ExportSpec::Simple("/data/disk1.img".to_string()));
    assert!(!c.readonly);
    assert_eq!(c.path, "/data/disk1.img");
}

#[test]
fn record_keeps_its_flag() {
    let c = ExportConfig::from_spec(ExportSpec::Options(ExportConfigRaw {
        readonly: true,
        path: "/dev/sdb".to_string(),
    }));
    assert!(c.readonly);
    assert_eq!(c.path, "/dev/sdb");
}
