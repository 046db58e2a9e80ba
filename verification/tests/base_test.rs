use qedl::base::error::{ErrorCode, QedlError};
use qedl::base::protocol::{FirehoseInfo, SaharaCommand};
use qedl::base::session::Session;
use qedl::base::state::DeviceState;
use qedl::base::types::{DeviceCapabilities, DeviceInfo, DeviceMode, PartitionInfo};
use qedl::base::util::{hex_dump, humanize_size};

#[test]
fn test_valid_transitions() {
    let state = DeviceState::Disconnected;
    let next = state.transition(DeviceState::Connected).unwrap();
    assert_eq!(next, DeviceState::Connected);
    let next = next.transition(DeviceState::Ready).unwrap();
    assert_eq!(next, DeviceState::Ready);
    let next = next.transition(DeviceState::Busy).unwrap();
    assert_eq!(next, DeviceState::Busy);
    let next = next.transition(DeviceState::Ready).unwrap();
    assert_eq!(next, DeviceState::Ready);
}

#[test]
fn test_invalid_transition() {
    let state = DeviceState::Disconnected;
    assert!(state.transition(DeviceState::Ready).is_err());
}

#[test]
fn test_error_recovery() {
    let next = DeviceState::Error.transition(DeviceState::Disconnected).unwrap();
    assert_eq!(next, DeviceState::Disconnected);
}

#[test]
fn test_can_execute() {
    assert!(!DeviceState::Disconnected.can_execute());
    assert!(!DeviceState::Connected.can_execute());
    assert!(DeviceState::Ready.can_execute());
    assert!(!DeviceState::Busy.can_execute());
}

#[test]
fn no_state_is_a_dead_end() {
    let all = [
        DeviceState::Disconnected,
        DeviceState::Connected,
        DeviceState::Ready,
        DeviceState::Busy,
        DeviceState::Resetting,
        DeviceState::Error,
    ];
    for s in all {
        assert!(all.iter().any(|t| s.can_transition(*t)));
        assert!(!s.can_transition(s));
    }
}

#[test]
fn test_partition_size() {
    let p = PartitionInfo { name: "boot".to_string(), first_lba: 0, last_lba: 1023, physical_partition: 0 };
    assert_eq!(p.size_bytes(512), 512 * 1024);
}

#[test]
fn test_capabilities_total_size() {
    let caps = DeviceCapabilities { memory_type: "eMMC".to_string(), total_sectors: 1024 * 1024 * 2 };
    assert_eq!(caps.total_size_bytes(512), 1024 * 1024 * 2 * 512);
}

#[test]
fn test_capabilities_human_size() {
    let caps = DeviceCapabilities { memory_type: "eMMC".to_string(), total_sectors: 1024 * 1024 * 2 };
    let human = caps.total_size_human(512);
    assert!(human.contains("GB"));
    assert_eq!(human, "1.07 GB");
}

#[test]
fn test_capabilities_default() {
    let caps = DeviceCapabilities::default();
    assert_eq!(caps.memory_type, "eMMC");
    assert_eq!(caps.total_sectors, 0);
}

#[test]
fn test_device_info_display() {
    let info = DeviceInfo {
        port: "COM3".to_string(),
        serial: None,
        product: None,
        pid: 0x9008,
        vid: 0x05C6,
        description: None,
        mode: DeviceMode::Unknown,
    };
    assert_eq!(info.to_display_string(), "COM3");
    assert!(info.is_9008());
    let full = DeviceInfo { serial: Some("abc".to_string()), description: Some("Qualcomm".to_string()), ..info };
    assert_eq!(full.to_display_string(), "COM3 (serial: abc) - Qualcomm");
}

#[test]
fn diag_by_pid_only_when_mode_unknown() {
    let d = DeviceInfo {
        port: "p".to_string(),
        serial: None,
        product: None,
        pid: 0x90B8,
        vid: 0x05C6,
        description: None,
        mode: DeviceMode::Unknown,
    };
    assert!(d.is_diag() && d.is_90b8() && !d.is_9008());
    let m = DeviceInfo { mode: DeviceMode::Modem, ..d };
    assert!(!m.is_diag());
}

#[test]
fn test_error_code_preserved() {
    let e = QedlError::firehose(ErrorCode::FirehoseNak, "nak".to_string());
    assert_eq!(e.code(), Some(ErrorCode::FirehoseNak));
    assert_eq!(ErrorCode::FirehoseNak.as_str(), "FIREHOSE_NAK");
    assert_eq!(ErrorCode::Custom(7, "MINE").as_str(), "MINE");
    assert_eq!(QedlError::Other("x".to_string()).code(), None);
}

#[test]
fn sahara_command_codes_round_trip() {
    for v in 0u32..0x14 {
        match SaharaCommand::from_u32(v) {
            Some(c) => assert_eq!(c.as_u32(), v),
            None => assert!(v == 0 || v > 0x12),
        }
    }
}

#[test]
fn humanize_is_decimal() {
    assert_eq!(humanize_size(0), "0 B");
    assert_eq!(humanize_size(1000), "1 kB");
    assert_eq!(humanize_size(1_500_000), "1.50 MB");
}

#[test]
fn hex_dump_of_a_short_line() {
    let d = hex_dump(b"AB\x00", 16);
    assert_eq!(d, format!("00000000  41 42 00{}|AB.|\n", " ".repeat(42)));
    let t = hex_dump(&[0u8; 20], 4);
    assert!(t.ends_with("... (20 bytes total, showing first 4)\n"));
}

#[test]
fn session_keeps_what_it_is_given() {
    let info = DeviceInfo {
        port: "COM9".to_string(),
        serial: None,
        product: None,
        pid: 0x9008,
        vid: 0x05C6,
        description: None,
        mode: DeviceMode::Edl,
    };
    let s = Session::new(info, DeviceCapabilities::default(), FirehoseInfo::default())
        .with_serial_num(42)
        .with_msm_hw_id(vec![1, 2]);
    assert_eq!(s.serial_num(), Some(42));
    assert_eq!(s.msm_hw_id(), Some(&[1u8, 2][..]));
    assert_eq!(s.info().port, "COM9");
}

#[test]
fn error_text_is_code_and_message() {
    let err = QedlError::firehose(ErrorCode::FirehoseNak, "command rejected".to_string());
    assert!(err.to_display_string().contains("command rejected"));
    assert_eq!(err.to_display_string(), "FIREHOSE_NAK: command rejected");
    assert_eq!(err.code(), Some(ErrorCode::FirehoseNak));
}

#[test]
fn edl_fallback_product_ids() {
    for pid in [0x9008u16, 0x900E, 0x900D] {
        let d = DeviceInfo {
            port: "p".to_string(),
            serial: None,
            product: None,
            pid,
            vid: 0x05C6,
            description: None,
            mode: DeviceMode::Unknown,
        };
        assert!(d.is_9008());
    }
    let other = DeviceInfo {
        port: "p".to_string(),
        serial: None,
        product: None,
        pid: 0x900F,
        vid: 0x05C6,
        description: None,
        mode: DeviceMode::Unknown,
    };
    assert!(!other.is_9008());
}
