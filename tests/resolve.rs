use nbd_exporter::config::{Config, ExportSpec, ListenConfig};
use nbd_exporter::error::{HandshakeError, NbdError};
use nbd_exporter::registry::Exports;
use nbd_exporter::resolve::{
    block_count_file, device_size, parse_block_count, size_from_length,
};

#[test]
fn block_count_file_of_device() {
    assert_eq!(block_count_file("/dev/sda").unwrap(), "/sys/class/block/sda/size");
    assert_eq!(block_count_file("/dev/nvme0n1p2").unwrap(), "/sys/class/block/nvme0n1p2/size");
}

#[test]
fn block_count_file_outside_devices() {
    assert!(block_count_file("/data/disk1.img").is_none());
    assert!(block_count_file("/dev").is_none());
    assert!(block_count_file("/dev/").is_none());
    assert!(block_count_file("/devices/sda").is_none());
    assert!(block_count_file("").is_none());
}

#[test]
fn block_count_is_counted_in_512_byte_blocks() {
    assert_eq!(parse_block_count("2048\n"), Some(1048576));
    assert_eq!(parse_block_count("  20480 \t\n"), Some(10485760));
    assert_eq!(parse_block_count("+5"), Some(2560));
    assert_eq!(parse_block_count("0"), Some(0));
}

#[test]
fn block_count_rejects_malformed_text() {
    assert_eq!(parse_block_count(""), None);
    assert_eq!(parse_block_count("  \n"), None);
    assert_eq!(parse_block_count("+"), None);
    assert_eq!(parse_block_count("-1"), None);
    assert_eq!(parse_block_count("12a"), None);
    assert_eq!(parse_block_count("1 2"), None);
}

#[test]
fn block_count_at_the_largest_size() {
    assert_eq!(parse_block_count("36028797018963967"), Some(u64::MAX - 511));
    assert_eq!(parse_block_count("36028797018963968"), None);
    assert_eq!(parse_block_count("99999999999999999999999"), None);
}

#[test]
fn regular_file_size_is_its_length() {
    assert_eq!(size_from_length(10485760), Some(10485760));
    assert_eq!(size_from_length(1), Some(1));
    assert_eq!(size_from_length(0), None);
}

#[test]
fn zero_length_outside_devices_is_unknown_size() {
    match device_size("/data/empty.img".to_string(), Some("2048".to_string())) {
        Err(HandshakeError::UnknownSize(p)) => assert_eq!(p, "/data/empty.img"),
        _ => panic!("expected an unknown-size error"),
    }
}

#[test]
fn device_size_from_block_count() {
    assert_eq!(device_size("/dev/sda".to_string(), Some("2048\n".to_string())).ok(), Some(1048576));
    assert!(matches!(
        device_size("/dev/sda".to_string(), None),
        Err(HandshakeError::UnknownSize(_))
    ));
    assert!(matches!(
        device_size("/dev/sda".to_string(), Some("x".to_string())),
        Err(HandshakeError::UnknownSize(_))
    ));
}

#[test]
fn read_only_file_system_forces_read_only() {
    let c = nbd_exporter::config::ExportConfig { readonly: false, path: "/x".to_string() };
    let m = c.meta(4096, true);
    assert!(m.readonly);
    assert_eq!(m.size, 4096);
    let m = c.meta(4096, false);
    assert!(!m.readonly);
    let r = nbd_exporter::config::ExportConfig { readonly: true, path: "/x".to_string() };
    assert!(r.meta(1, false).readonly);
}

#[test]
fn store_advertises_no_optional_capability() {
    let c = nbd_exporter::config::ExportConfig { readonly: false, path: "/x".to_string() };
    let m = c.meta(512, false);
    assert!(!m.resizeable && !m.rotational && !m.send_trim && !m.send_flush);
}

#[test]
fn disk1_served_read_write_and_disk2_unknown() {
    let c = Config::new(
        ListenConfig::default(),
        vec![("disk1".to_string(), ExportSpec::Simple("/data/disk1.img".to_string()))],
    );
    let reg = Exports::from_table(c.exports);
    let cfg = reg.find("disk1").ok().unwrap();
    assert_eq!(cfg.path, "/data/disk1.img");
    let size = size_from_length(10 * 1024 * 1024).unwrap();
    let m = cfg.meta(size, false);
    assert_eq!(m.size, 10485760);
    assert!(!m.readonly);
    match reg.find("disk2") {
        Err(HandshakeError::UnknownExport(n)) => assert_eq!(n, "disk2"),
        _ => panic!("expected an unknown-export error"),
    }
    assert!(reg.find("disk1").is_ok());
}

#[test]
fn failed_resolution_does_not_disturb_next_session() {
    let c = Config::new(
        ListenConfig::default(),
        vec![
            ("bad".to_string(), ExportSpec::Simple("/data/empty.img".to_string())),
            ("good".to_string(), ExportSpec::Simple("/data/disk1.img".to_string())),
        ],
    );
    let reg = Exports::from_table(c.exports);
    let bad = reg.find("bad").ok().unwrap();
    assert!(device_size(bad.path.clone(), None).is_err());
    let good = reg.find("good").ok().unwrap();
    assert_eq!(good.meta(size_from_length(4096).unwrap(), false).size, 4096);
}

#[test]
fn end_of_stream_means_disconnected() {
    let eof = std::io::Error::new(std::io::ErrorKind::UnexpectedEof, "eof");
    assert!(matches!(NbdError::from_io(eof), NbdError::Disconnected));
    let other = std::io::Error::new(std::io::ErrorKind::Other, "x");
    assert!(matches!(NbdError::from_io(other), NbdError::Io(_)));
    let again = std::io::Error::new(std::io::ErrorKind::Other, "x");
    assert!(matches!(NbdError::classify_io(again, true), NbdError::Disconnected));
}
