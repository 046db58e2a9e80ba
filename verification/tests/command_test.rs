use qedl::firehose::command::FirehoseCommand;

#[test]
fn test_configure_xml_minimal() {
    let cmd = FirehoseCommand::Configure {
        memory_name: "eMMC".to_string(),
        target_name: "unknown".to_string(),
        skip_storage_init: false,
        zlp_aware_host: true,
        max_payload_size: 1048576,
    };
    assert_eq!(
        cmd.to_xml(),
        r#"<configure MemoryName="eMMC" Verbose="0" MaxPayloadSizeToTargetInBytes="1048576" />"#
    );
}

#[test]
fn test_read_xml() {
    let cmd = FirehoseCommand::Read { sector_size: 4096, num_sectors: 128, physical_partition: 0, start_sector: 64 };
    assert_eq!(
        cmd.to_xml(),
        r#"<read SECTOR_SIZE_IN_BYTES="4096" num_partition_sectors="128" physical_partition_number="0" start_sector="64" />"#
    );
}

#[test]
fn test_program_xml() {
    let cmd = FirehoseCommand::Program {
        sector_size: 512,
        num_sectors: 256,
        physical_partition: 1,
        start_sector: 0,
        filename: Some("boot.img".to_string()),
    };
    assert_eq!(
        cmd.to_xml(),
        r#"<program SECTOR_SIZE_IN_BYTES="512" num_partition_sectors="256" physical_partition_number="1" start_sector="0" filename="boot.img" />"#
    );
}

#[test]
fn test_program_xml_no_filename() {
    let cmd = FirehoseCommand::Program {
        sector_size: 512,
        num_sectors: 256,
        physical_partition: 0,
        start_sector: 0,
        filename: None,
    };
    assert_eq!(
        cmd.to_xml(),
        r#"<program SECTOR_SIZE_IN_BYTES="512" num_partition_sectors="256" physical_partition_number="0" start_sector="0" />"#
    );
}

#[test]
fn test_erase_xml() {
    let cmd = FirehoseCommand::Erase { sector_size: 512, num_sectors: 16, physical_partition: 0, start_sector: 100 };
    assert_eq!(
        cmd.to_xml(),
        r#"<erase SECTOR_SIZE_IN_BYTES="512" num_partition_sectors="16" physical_partition_number="0" start_sector="100" />"#
    );
}

#[test]
fn test_getstorageinfo_xml() {
    let cmd = FirehoseCommand::GetStorageInfo;
    assert_eq!(cmd.to_xml(), "<getstorageinfo />");
}

#[test]
fn test_power_reset_xml() {
    let cmd = FirehoseCommand::Power { value: "reset".to_string() };
    assert_eq!(cmd.to_xml(), r#"<power value="reset" />"#);
}

#[test]
fn test_power_off_xml() {
    let cmd = FirehoseCommand::Power { value: "off".to_string() };
    assert_eq!(cmd.to_xml(), r#"<power value="off" />"#);
}

#[test]
fn test_raw_xml_passthrough() {
    let xml_str = r#"<custom foo="bar" />"#;
    let cmd = FirehoseCommand::RawXml(xml_str.to_string());
    assert_eq!(cmd.to_xml(), xml_str);
}

#[test]
fn test_peek_xml() {
    let cmd = FirehoseCommand::Peek { address: 0x08071320, size: 4096 };
    assert_eq!(cmd.to_xml(), r#"<peek address64="0x8071320" size_in_bytes="4096" />"#);
}

#[test]
fn test_peek_name() {
    let cmd = FirehoseCommand::Peek { address: 0x08071320, size: 4096 };
    assert_eq!(cmd.name(), "peek(addr=0x8071320, size=4096)");
}

#[test]
fn test_poke_xml() {
    let cmd = FirehoseCommand::Poke { address: 0x08071320, data: vec![0xAA, 0xBB, 0xCC, 0xDD] };
    assert_eq!(
        cmd.to_xml(),
        r#"<poke address64="0x8071320" size_in_bytes="4" value64="0xAA 0xBB 0xCC 0xDD" />"#
    );
}

#[test]
fn test_poke_name() {
    let cmd = FirehoseCommand::Poke { address: 0x08071320, data: vec![0xAA, 0xBB, 0xCC, 0xDD] };
    assert_eq!(cmd.name(), "poke(addr=0x8071320, len=4)");
}

#[test]
fn read_and_getsha_names() {
    let r = FirehoseCommand::Read { sector_size: 512, num_sectors: 8, physical_partition: 2, start_sector: 34 };
    assert_eq!(r.name(), "read(lun=2, start=34, count=8)");
    let d = FirehoseCommand::GetSha256Digest { sector_size: 512, num_sectors: 8, physical_partition: 1, start_sector: 7 };
    assert_eq!(d.name(), "getsha256digest(lun=1, start=7, count=8)");
    assert_eq!(
        d.to_xml(),
        r#"<getsha256digest SECTOR_SIZE_IN_BYTES="512" num_partition_sectors="8" physical_partition_number="1" start_sector="7" />"#
    );
    assert_eq!(FirehoseCommand::RawXml("<x/>".to_string()).name(), "raw-xml");
    assert_eq!(FirehoseCommand::Power { value: "reset".to_string() }.name(), "power(reset)");
}
