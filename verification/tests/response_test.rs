use qedl::firehose::response::FirehoseResponse;

#[test]
fn test_parse_ack() {
    let xml = r#"<response value="ACK" />"#;
    let resp = FirehoseResponse::from_xml(xml).unwrap();
    assert!(resp.is_ack());
    assert!(!resp.is_nak());
}

#[test]
fn test_parse_nak() {
    let xml = r#"<response value="NAK"><log value="Sector not found" /></response>"#;
    let resp = FirehoseResponse::from_xml(xml).unwrap();
    assert!(resp.is_nak());
    assert_eq!(resp.error.as_deref(), Some("Sector not found"));
}

#[test]
fn test_parse_ack_with_sector_info() {
    let xml = r#"<response value="ACK" SECTOR_SIZE_IN_BYTES="4096" num_partition_sectors="2048" physical_partition_number="0" />"#;
    let resp = FirehoseResponse::from_xml(xml).unwrap();
    assert!(resp.is_ack());
    assert_eq!(resp.sector_size(), Some(4096));
    assert_eq!(resp.num_partition_sectors(), Some(2048));
    assert_eq!(resp.physical_partition_number(), Some(0));
}

#[test]
fn test_parse_configure_response() {
    let xml = r#"<data><response value="ACK" SECTOR_SIZE_IN_BYTES="4096" MaxPayloadSizeToTargetInBytes="2097152" total_sectors="4194304" /><memory MemoryName="UFS" /></data>"#;
    let resp = FirehoseResponse::from_xml(xml).unwrap();
    assert!(resp.is_ack());
    assert_eq!(resp.memory_name(), Some("UFS"));
    assert_eq!(resp.sector_size(), Some(4096));
    assert_eq!(resp.max_payload_size(), Some(2097152));
    assert_eq!(resp.total_sectors(), Some(4194304));
}

#[test]
fn test_parse_rawmode_response() {
    let xml = r#"<response value="ACK" rawmode="true" />"#;
    let resp = FirehoseResponse::from_xml(xml).unwrap();
    assert!(resp.is_ack());
    assert!(resp.raw_mode);
}

#[test]
fn test_parse_with_logs() {
    let xml = r#"<response value="ACK"><log>Reading partition</log><log>Done</log></response>"#;
    let resp = FirehoseResponse::from_xml(xml).unwrap();
    assert!(resp.is_ack());
    assert_eq!(resp.logs.len(), 2);
    assert_eq!(resp.logs[0], "Reading partition");
    assert_eq!(resp.logs[1], "Done");
    assert_eq!(resp.error, None);
}

#[test]
fn test_parse_invalid_xml() {
    let result = FirehoseResponse::from_xml("not xml at all");
    assert!(result.is_ok());
    assert!(result.unwrap().is_ack());
}

#[test]
fn malformed_xml_is_reported() {
    let result = FirehoseResponse::from_xml("<response value=\"ACK\"></data>");
    let err = result.unwrap_err();
    assert!(err.starts_with("XML parse error: "));
}

#[test]
fn first_value_wins_and_memory_follows_last_tag() {
    let xml = r#"<data><response value="ACK" SectorSize="512" /><x SECTOR_SIZE_IN_BYTES="4096" /><memory name="eMMC" /><memoryname MemoryName="UFS" /></data>"#;
    let resp = FirehoseResponse::from_xml(xml).unwrap();
    assert_eq!(resp.sector_size(), Some(512));
    assert_eq!(resp.memory_name(), Some("UFS"));
}

#[test]
fn escaped_values_and_text_are_unescaped() {
    let xml = r#"<response value="NAK"><log value="a &amp; b" /><log>x &lt; y</log></response>"#;
    let resp = FirehoseResponse::from_xml(xml).unwrap();
    assert!(resp.is_nak());
    assert_eq!(resp.error.as_deref(), Some("a & b"));
    assert_eq!(resp.logs, vec!["a & b".to_string(), "x < y".to_string()]);
}

#[test]
fn partition_number_is_cut_to_a_byte() {
    let xml = r#"<response value="ACK" physical_partition_number="257" TargetName="8953" Version="1" />"#;
    let resp = FirehoseResponse::from_xml(xml).unwrap();
    assert_eq!(resp.physical_partition_number(), Some(1));
    assert_eq!(resp.target_name(), Some("8953"));
    assert_eq!(resp.version(), Some("1"));
}
