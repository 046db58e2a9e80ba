use qedl::base::types::DeviceMode;
use qedl::firehose::response::FirehoseResponse;
use qedl::job::executor::{entries_location, find_info, inferred_total_sectors, partition_infos};
use qedl::job::raw_program::{ParseError, RawProgram};
use qedl::storage::gpt::{GptEntry, GptHeader, GptTable};
use qedl::base::types::PartitionInfo;
use qedl::transport::device::{DeviceEnumerator, InterfaceSet, PortRecord, UsbInfo};

fn usb(name: &str, vid: u16, pid: u16, serial: Option<&str>, product: Option<&str>) -> PortRecord {
    PortRecord {
        port_name: name.to_string(),
        usb: Some(UsbInfo {
            vid,
            pid,
            serial_number: serial.map(|s| s.to_string()),
            product: product.map(|s| s.to_string()),
        }),
    }
}

#[test]
fn qualcomm_ports_take_interfaces_in_order() {
    let ports = vec![
        usb("COM1", 0x05C6, 0x90B8, Some("x"), None),
        PortRecord { port_name: "COM2".to_string(), usb: None },
        usb("COM3", 0x05C6, 0x90B8, Some("x"), None),
        usb("COM4", 0x1234, 0x0001, None, Some("Other")),
        usb("COM5", 0x05C6, 0x90B8, Some("x"), None),
    ];
    let sets = vec![InterfaceSet {
        vid: 0x05C6,
        pid: 0x90B8,
        serial: Some("x".to_string()),
        interfaces: vec![(0, DeviceMode::Diag, None), (1, DeviceMode::Modem, None)],
    }];
    let devs = DeviceEnumerator::qualcomm_devices(&ports, &sets);
    assert_eq!(devs.len(), 3);
    assert_eq!(devs[0].mode, DeviceMode::Diag);
    assert_eq!(devs[0].description.as_deref(), Some("Qualcomm DIAG"));
    assert_eq!(devs[1].mode, DeviceMode::Modem);
    assert_eq!(devs[2].mode, DeviceMode::Unknown);
    assert_eq!(devs[2].product.as_deref(), Some("Qualcomm"));

    let all = DeviceEnumerator::all_devices(&ports, &sets);
    assert_eq!(all.len(), 5);
    assert_eq!(all[1].vid, 0);
    assert_eq!(all[3].mode, DeviceMode::Unknown);
    assert_eq!(all[3].description.as_deref(), Some("Other"));
    assert_eq!(all[4].mode, DeviceMode::Unknown);
}

fn header(entries: u32, size: u32, start: u64, backup: u64) -> GptHeader {
    GptHeader {
        signature: *b"EFI PART",
        revision: 0x10000,
        header_size: 92,
        header_crc32: 0,
        current_lba: 1,
        backup_lba: backup,
        first_usable_lba: 34,
        last_usable_lba: backup - 33,
        disk_guid: [0; 16],
        partition_entry_start_lba: start,
        num_partition_entries: entries,
        partition_entry_size: size,
        partition_entries_crc32: 0,
    }
}

#[test]
fn gpt_entry_area_and_size() {
    let mut t = GptTable::new();
    assert_eq!(entries_location(&t, 512), (2, 0));
    t.header = Some(header(128, 128, 2, 999));
    t.primary_valid = true;
    assert_eq!(entries_location(&t, 512), (2, 32));
    assert_eq!(entries_location(&t, 4096), (2, 4));
    assert_eq!(inferred_total_sectors(0, &t), Some(1000));
    assert_eq!(inferred_total_sectors(5, &t), None);
    let e = GptEntry {
        name: "boot".to_string(),
        type_guid: [1; 16],
        unique_guid: [2; 16],
        first_lba: 10,
        last_lba: 20,
        attributes: 0,
        physical_partition: 3,
    };
    let infos = partition_infos(&vec![&e]);
    assert_eq!(infos[0].name, "boot");
    assert_eq!(infos[0].physical_partition, 3);
    let list: Vec<PartitionInfo> = infos;
    assert!(find_info(&list, "boot").is_some());
    assert!(find_info(&list, "BOOT").is_none());
}

#[test]
fn tag_names_compare_lowercased() {
    let resp = FirehoseResponse::from_xml(r#"<RESPONSE value="NAK" />"#).unwrap();
    assert!(resp.is_nak());
}

#[test]
fn raw_values_must_be_utf8() {
    let xml = "<program file=\"\u{e9}\" />";
    let p = RawProgram::parse_str(xml).unwrap();
    assert_eq!(p.entries[0].file, "\u{e9}");
    let bad = RawProgram::parse_str("<program file=\"a&amp;b\" />").unwrap();
    assert_eq!(bad.entries[0].file, "a&amp;b");
    assert!(matches!(RawProgram::parse_str("<program NUM_SECTORS=\"\" />"), Err(ParseError::InvalidValue(_))));
}
