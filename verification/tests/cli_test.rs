use qedl::base::types::{DeviceInfo, DeviceMode, PartitionInfo};
use qedl::cli::args::{log_filter, wait_exit_code};
use qedl::cli::devices::{clean_desc, group_devices, mode_str, title_str};
use qedl::cli::output::{hex_dump_lines, parse_hex_data, parse_hex_or_decimal, rawprogram_xml};

fn dev(port: &str, serial: Option<&str>, mode: DeviceMode) -> DeviceInfo {
    DeviceInfo {
        port: port.to_string(),
        serial: serial.map(|s| s.to_string()),
        product: None,
        pid: 0x9008,
        vid: 0x05C6,
        description: None,
        mode,
    }
}

#[test]
fn addresses() {
    assert_eq!(parse_hex_or_decimal(" 0x08071320 ").unwrap(), 0x08071320);
    assert_eq!(parse_hex_or_decimal("4096").unwrap(), 4096);
    assert!(parse_hex_or_decimal("0xZZ").unwrap_err().starts_with("Invalid hex address '0xZZ': "));
    assert!(parse_hex_or_decimal("x").unwrap_err().starts_with("Invalid address 'x': "));
}

#[test]
fn hex_data() {
    assert_eq!(parse_hex_data("AABBCC").unwrap(), vec![0xAA, 0xBB, 0xCC]);
    assert_eq!(parse_hex_data("0xAA 0xbb CC").unwrap(), vec![0xAA, 0xBB, 0xCC]);
    assert_eq!(parse_hex_data("ABC").unwrap_err(), "Hex string must have even number of characters: 'ABC'");
    assert_eq!(parse_hex_data("0xA 0xBB").unwrap_err(), "Expected 2 hex characters per byte, got '0xA'");
    assert!(parse_hex_data("AAZZ").unwrap_err().starts_with("Invalid hex at position 2: "));
    assert!(parse_hex_data("AA ZZ").unwrap_err().starts_with("Invalid hex byte 'ZZ': "));
    assert_eq!(parse_hex_data("").unwrap(), Vec::<u8>::new());
}

#[test]
fn descriptions_lose_their_com_port() {
    assert_eq!(clean_desc("  Qualcomm HS-USB QDLoader 9008 (COM5) "), "Qualcomm HS-USB QDLoader 9008");
    assert_eq!(clean_desc("Port (COMx)"), "Port (COMx)");
    assert_eq!(clean_desc("Plain"), "Plain");
}

#[test]
fn groups_put_edl_first() {
    let groups = group_devices(vec![
        dev("COM1", Some("a"), DeviceMode::Diag),
        dev("COM2", Some("b"), DeviceMode::Edl),
        dev("COM3", Some("a"), DeviceMode::Edl),
        dev("COM4", Some("c"), DeviceMode::Diag),
    ]);
    assert_eq!(groups.len(), 3);
    assert_eq!(title_str(&groups[0]), "a");
    assert_eq!(groups[0].ports[0].0, "COM3");
    assert_eq!(groups[0].ports[1].2, "Qualcomm DIAG");
    assert_eq!(title_str(&groups[1]), "b");
    assert_eq!(title_str(&groups[2]), "c");
    assert_eq!(mode_str(DeviceMode::Edl), "EDL");
    let none = group_devices(vec![dev("COM9", None, DeviceMode::Unknown)]);
    assert_eq!(title_str(&none[0]), "Unknown Device");
    assert_eq!(none[0].ports[0].2, "Qualcomm Device");
}

#[test]
fn dump_lines() {
    let lines = hex_dump_lines(&(0u8..18).collect::<Vec<_>>());
    assert_eq!(lines.len(), 2);
    assert_eq!(
        lines[0],
        "    00000000   00 01 02 03 04 05 06 07  08 09 0A 0B 0C 0D 0E 0F  |................|"
    );
    assert_eq!(lines[1], format!("    00000010   10 11{}  |..|", " ".repeat(43)));
}

#[test]
fn generated_rawprogram() {
    let p = PartitionInfo { name: "boot".to_string(), first_lba: 6, last_lba: 9, physical_partition: 1 };
    let xml = rawprogram_xml(&vec![p], 4096);
    assert_eq!(
        xml,
        "<?xml version=\"1.0\" encoding=\"UTF-8\"?>\n<data>\n  <program SECTOR_SIZE_IN_BYTES=\"4096\" file_sector_offset=\"0\" filename=\"boot.img\" label=\"boot\" num_partition_sectors=\"4\" physical_partition_number=\"1\" size_in_KB=\"16\" sparse=\"false\" start_byte=\"0\" start_sector=\"6\" />\n</data>"
    );
}

#[test]
fn cli_helpers() {
    assert_eq!(log_filter(0), "info");
    assert_eq!(log_filter(1), "debug");
    assert_eq!(log_filter(5), "trace");
    assert_eq!(wait_exit_code("no 9008 device found"), 1);
    assert_eq!(wait_exit_code("device not found"), 2);
}
