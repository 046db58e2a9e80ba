use qedl::base::types::{DeviceInfo, DeviceMode};
use qedl::transport::device::{classify_interface, port_description, port_mode, DeviceEnumerator};
use qedl::transport::diag::{crc16_ccitt, diag_frame, hdlc_escape};
use qedl::transport::error::TransportError;

fn dev(port: &str, serial: Option<&str>, pid: u16, mode: DeviceMode, desc: Option<&str>) -> DeviceInfo {
    DeviceInfo {
        port: port.to_string(),
        serial: serial.map(|s| s.to_string()),
        product: None,
        pid,
        vid: 0x05C6,
        description: desc.map(|s| s.to_string()),
        mode,
    }
}

#[test]
fn crc16_check_value() {
    assert_eq!(crc16_ccitt(b"123456789"), 0x906E);
    assert_eq!(crc16_ccitt(b""), 0x0000);
}

#[test]
fn hdlc_escapes_flag_and_escape_bytes() {
    assert_eq!(hdlc_escape(&[0x01, 0x7E, 0x7D, 0x02]), vec![0x01, 0x7D, 0x5E, 0x7D, 0x5D, 0x02]);
}

#[test]
fn diag_switch_frame() {
    let f = diag_frame(0x4B, &[0x65, 0x01, 0x00]);
    let crc = crc16_ccitt(&[0x4B, 0x65, 0x01, 0x00]);
    let mut body = vec![0x4B, 0x65, 0x01, 0x00, (crc & 0xFF) as u8, (crc >> 8) as u8];
    body = hdlc_escape(&body);
    let mut expect = vec![0x7E];
    expect.extend_from_slice(&body);
    expect.push(0x7E);
    assert_eq!(f, expect);
    assert!(f[1..f.len() - 1].iter().all(|b| *b != 0x7E));
}

#[test]
fn interface_classes() {
    assert_eq!(classify_interface(0xFF, 0xFF, 0xFF, true, None), DeviceMode::Edl);
    assert_eq!(classify_interface(0xFF, 0xFF, 0xFF, false, None), DeviceMode::Diag);
    assert_eq!(classify_interface(0xFF, 0xFF, 0x30, false, Some("Qualcomm GPS")), DeviceMode::Nmea);
    assert_eq!(classify_interface(0xFF, 0x42, 0x01, false, None), DeviceMode::Adb);
    assert_eq!(classify_interface(0x02, 0x02, 0x01, false, None), DeviceMode::Modem);
    assert_eq!(classify_interface(0x08, 0x06, 0x50, false, None), DeviceMode::Unknown);
}

#[test]
fn port_modes_by_label_then_order() {
    let ifaces = vec![
        (0u8, DeviceMode::Diag, Some("Qualcomm HS-USB Diagnostics".to_string())),
        (1u8, DeviceMode::Nmea, Some("Qualcomm HS-USB NMEA".to_string())),
    ];
    let p = Some("Qualcomm HS-USB NMEA 9091 (COM5)".to_string());
    assert_eq!(port_mode(&p, &ifaces, 0), (DeviceMode::Nmea, 0));
    assert_eq!(port_mode(&None, &ifaces, 1), (DeviceMode::Nmea, 2));
    assert_eq!(port_mode(&None, &ifaces, 2), (DeviceMode::Unknown, 2));
    assert_eq!(port_description(&None, DeviceMode::Edl), "Qualcomm 9008 (EDL)");
}

#[test]
fn auto_select_prefers_edl() {
    let devices = vec![
        dev("COM1", Some("a"), 0x90B8, DeviceMode::Diag, None),
        dev("COM2", Some("b"), 0x9008, DeviceMode::Edl, None),
    ];
    assert_eq!(DeviceEnumerator::auto_select(&devices).unwrap().port, "COM2");
}

#[test]
fn auto_select_counts_edl_by_serial() {
    let devices = vec![
        dev("COM1", Some("a"), 0x9008, DeviceMode::Edl, None),
        dev("COM2", Some("a"), 0x9008, DeviceMode::Edl, None),
    ];
    assert_eq!(DeviceEnumerator::auto_select(&devices).unwrap().port, "COM1");
    let devices = vec![
        dev("COM1", None, 0x9008, DeviceMode::Edl, None),
        dev("COM2", None, 0x9008, DeviceMode::Edl, None),
    ];
    assert!(matches!(DeviceEnumerator::auto_select(&devices), Err(TransportError::MultipleFound { count: 2 })));
}

#[test]
fn auto_select_picks_diagnostics_port() {
    let devices = vec![
        dev("COM3", Some("x"), 0x90B8, DeviceMode::Diag, Some("Qualcomm MDM Diagnostics")),
        dev("COM4", Some("x"), 0x90B8, DeviceMode::Diag, Some("Qualcomm MSM Diagnostics")),
    ];
    assert_eq!(DeviceEnumerator::auto_select(&devices).unwrap().port, "COM4");
    let two = vec![
        dev("COM3", Some("x"), 0x90B8, DeviceMode::Diag, None),
        dev("COM4", Some("y"), 0x90B8, DeviceMode::Diag, None),
    ];
    assert!(matches!(DeviceEnumerator::auto_select(&two), Err(TransportError::MultipleFound { count: 2 })));
    assert!(matches!(DeviceEnumerator::auto_select(&vec![]), Err(TransportError::NotFound)));
}

#[test]
fn find_by_port_and_serial() {
    let devices = vec![dev("COM1", Some("a"), 0x9008, DeviceMode::Edl, None)];
    assert_eq!(DeviceEnumerator::find_by_port(&devices, "COM1").unwrap().port, "COM1");
    match DeviceEnumerator::find_by_port(&devices, "COM9") {
        Err(TransportError::InvalidPort(p)) => assert_eq!(p, "COM9"),
        other => panic!("unexpected {:?}", other),
    }
    assert!(DeviceEnumerator::find_by_serial(&devices, "a").is_ok());
    assert!(matches!(DeviceEnumerator::find_by_serial(&devices, "b"), Err(TransportError::NotFound)));
}

#[test]
fn groups_by_serial_in_order() {
    let devices = vec![
        dev("COM1", Some("a"), 0x90B8, DeviceMode::Diag, None),
        dev("COM2", None, 0x90B8, DeviceMode::Diag, None),
        dev("COM3", Some("a"), 0x90B8, DeviceMode::Diag, None),
    ];
    let g = DeviceEnumerator::group_by_serial(&devices);
    assert_eq!(g.len(), 2);
    assert_eq!(g[0].iter().map(|d| d.port.as_str()).collect::<Vec<_>>(), vec!["COM1", "COM3"]);
    assert_eq!(g[1][0].port, "COM2");
}

#[test]
fn new_edl_port_after_switch() {
    let before = DeviceEnumerator::edl_port_names(&vec![dev("COM1", None, 0x9008, DeviceMode::Edl, None)]);
    assert_eq!(before, vec!["COM1".to_string()]);
    assert!(!DeviceEnumerator::has_new_edl(&vec![dev("COM1", None, 0x9008, DeviceMode::Edl, None)], &before));
    assert!(DeviceEnumerator::has_new_edl(&vec![dev("COM7", None, 0x9008, DeviceMode::Edl, None)], &before));
    let found = DeviceEnumerator::find_awaited(
        &vec![dev("COM2", Some("s"), 0x90B8, DeviceMode::Diag, None)],
        None,
        Some("s"),
    );
    assert_eq!(found.unwrap().port, "COM2");
}

#[test]
fn auto_select_takes_edl_fallback_pid() {
    let devices = vec![
        dev("COM1", Some("a"), 0x90B8, DeviceMode::Diag, None),
        dev("COM7", Some("b"), 0x900E, DeviceMode::Unknown, None),
    ];
    assert_eq!(DeviceEnumerator::auto_select(&devices).unwrap().port, "COM7");
}
