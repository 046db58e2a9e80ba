use qedl::firehose::client::{
    bytes_from_logs, expect_ack, extract_digest, fill_step, frame_command, parse_response, peek_chunk, read_buffer,
    response_ready,
    CollectStep, FillStep, FirehoseClient,
};
use qedl::firehose::command::FirehoseCommand;
use qedl::firehose::error::FirehoseError;
use qedl::firehose::response::FirehoseResponse;

#[test]
fn test_execute_command_sends_xml() {
    let xml = frame_command(&FirehoseCommand::GetStorageInfo);
    assert_eq!(xml, r#"<?xml version="1.0" encoding="UTF-8" ?><data><getstorageinfo /></data>"#);
}

#[test]
fn test_configure_ack() {
    let mut c = FirehoseClient::new();
    let cmd = c.begin_configure();
    assert_eq!(cmd.to_xml(), r#"<configure MemoryName="eMMC" Verbose="0" MaxPayloadSizeToTargetInBytes="1048576" />"#);
    let resp = FirehoseResponse::from_xml(r#"<response value="ACK" />"#).unwrap();
    c.finish_configure(resp).unwrap();
    assert!(c.is_initialized());
    assert_eq!(c.sector_size(), 512);
}

#[test]
fn test_configure_nak() {
    let mut c = FirehoseClient::new();
    let resp = FirehoseResponse::from_xml(r#"<response value="NAK"><log value="bad" /></response>"#).unwrap();
    match c.finish_configure(resp) {
        Err(FirehoseError::ConfigureFailed { reason }) => assert_eq!(reason, "bad"),
        other => panic!("unexpected {:?}", other),
    }
    assert!(!c.is_initialized());
    let resp = FirehoseResponse::from_xml(r#"<response value="NAK" />"#).unwrap();
    match c.finish_configure(resp) {
        Err(FirehoseError::ConfigureFailed { reason }) => assert_eq!(reason, "unknown error"),
        other => panic!("unexpected {:?}", other),
    }
}

#[test]
fn test_configure_updates_client_fields() {
    let mut c = FirehoseClient::new();
    let xml = r#"<data><response value="ACK" SECTOR_SIZE_IN_BYTES="4096" MaxPayloadSizeToTargetInBytes="2097152" MaxXMLSizeInBytes="4096" TargetName="8953" Version="1" total_sectors="99" /><memory name="UFS" /></data>"#;
    c.finish_configure(FirehoseResponse::from_xml(xml).unwrap()).unwrap();
    assert_eq!(c.sector_size(), 4096);
    assert_eq!(c.max_payload_size(), 2097152);
    assert_eq!(c.max_xml_size(), Some(4096));
    assert_eq!(c.target_name(), "8953");
    assert_eq!(c.version(), Some("1"));
    assert_eq!(c.memory_name(), "UFS");
    assert_eq!(c.total_sectors(), 99);
    c.update_from_storage_info(None, Some(5));
    assert_eq!(c.sector_size(), 4096);
    assert_eq!(c.total_sectors(), 5);
    c.set_memory_name("eMMC".to_string());
    assert_eq!(c.memory_name(), "eMMC");
}

#[test]
fn test_reboot_nak() {
    let resp = FirehoseResponse::from_xml(r#"<response value="NAK" />"#).unwrap();
    match expect_ack(&resp, "reboot") {
        Err(FirehoseError::Nak { command, reason }) => {
            assert_eq!(command, "reboot");
            assert_eq!(reason, "unknown");
        }
        other => panic!("unexpected {:?}", other),
    }
    let ok = FirehoseResponse::from_xml(r#"<response value="ACK" />"#).unwrap();
    assert!(expect_ack(&ok, "reboot").is_ok());
}

#[test]
fn invalid_answer_is_an_invalid_response() {
    assert!(matches!(parse_response("<a></b>"), Err(FirehoseError::InvalidResponse { .. })));
}

#[test]
fn answer_is_cut_and_rest_kept() {
    let mut c = FirehoseClient::new();
    let mut col = c.begin_response();
    match c.collect(&mut col, b"<?xml ?><data><response value=\"ACK\" /></data>RAW") {
        CollectStep::Complete(text) => assert_eq!(text, "<?xml ?><data><response value=\"ACK\" /></data>"),
        other => panic!("unexpected {:?}", other),
    }
    let mut col = c.begin_response();
    assert_eq!(col.buffer, b"RAW".to_vec());
    assert!(matches!(c.collect(&mut col, b"<response value=\"ACK\""), CollectStep::ReadMore));
    match c.collect(&mut col, b"></response>") {
        CollectStep::Complete(text) => assert_eq!(text, "RAW<response value=\"ACK\"></response>"),
        other => panic!("unexpected {:?}", other),
    }
}

#[test]
fn empty_reads_time_out() {
    let mut c = FirehoseClient::new();
    let mut col = c.begin_response();
    for _ in 0..10 {
        assert!(matches!(c.collect(&mut col, b""), CollectStep::Retry));
    }
    match c.collect(&mut col, b"") {
        CollectStep::Failed(FirehoseError::Timeout { command }) => assert_eq!(command, "read_response"),
        other => panic!("unexpected {:?}", other),
    }
}

#[test]
fn test_read_sectors_ack() {
    let mut c = FirehoseClient::new();
    let cmd = c.begin_read(0, 10, 2);
    assert_eq!(cmd.name(), "read(lun=0, start=10, count=2)");
    assert_eq!(c.read_size(2), 1024);
    let resp = FirehoseResponse::from_xml(r#"<response value="ACK"><log value="data 0x01 0x02 0xzz 0x103" /></response>"#).unwrap();
    let data = c.take_read_data(&resp, 1024);
    assert_eq!(data, vec![1, 2]);
    assert!(c.finish_read(&resp).is_ok());
}

#[test]
fn logs_then_leftover_fill_a_read() {
    let mut c = FirehoseClient::new();
    let mut col = c.begin_response();
    let _ = c.collect(&mut col, b"<response value=\"ACK\" />\x07\x08\x09");
    let resp = FirehoseResponse::from_xml(r#"<response value="ACK"><log value="0xAA" /></response>"#).unwrap();
    let data = c.take_read_data(&resp, 3);
    assert_eq!(data, vec![0xAA, 7, 8]);
    let mut col = c.begin_response();
    assert_eq!(col.buffer, vec![9]);
    let _ = c.collect(&mut col, b"");
}

#[test]
fn digest_from_logs() {
    let resp = FirehoseResponse::from_xml(r#"<response value="ACK"><log value="hello" /><log value="Digest abc123" /></response>"#).unwrap();
    assert_eq!(extract_digest(&resp).unwrap(), "abc123");
    let hex = "a".repeat(64);
    let xml = format!(r#"<response value="ACK"><log value="{}" /><log value="tail" /></response>"#, hex);
    let resp = FirehoseResponse::from_xml(&xml).unwrap();
    assert_eq!(extract_digest(&resp).unwrap(), hex);
    let resp = FirehoseResponse::from_xml(r#"<response value="ACK"><log value="x" /><log value="y" /></response>"#).unwrap();
    assert_eq!(extract_digest(&resp).unwrap(), "y");
    let resp = FirehoseResponse::from_xml(r#"<response value="ACK" />"#).unwrap();
    assert!(matches!(extract_digest(&resp), Err(FirehoseError::InvalidResponse { .. })));
}

#[test]
fn peek_chunks() {
    let mut data = Vec::new();
    assert_eq!(peek_chunk(&mut data, b"<log value=\"0x11 0x22 0X00 0xEA\" />").unwrap(), false);
    assert_eq!(data, vec![0x22, 0x00]);
    assert_eq!(peek_chunk(&mut data, b"0x70 </data>").unwrap(), true);
    assert_eq!(data, vec![0x22, 0x00, 0x70]);
    match peek_chunk(&mut data, b"  NAK here \n") {
        Err(FirehoseError::Nak { command, reason }) => {
            assert_eq!(command, "peek");
            assert_eq!(reason, "NAK here");
        }
        other => panic!("unexpected {:?}", other),
    }
}

#[test]
fn ready_and_log_bytes() {
    assert!(response_ready(b"xx<response value"));
    assert!(response_ready(b"</data>"));
    assert!(!response_ready(b"<log value=\"x\" />"));
    let logs = vec!["no hex".to_string(), "0x10 0x2".to_string(), "0xGG 0X11".to_string()];
    assert_eq!(bytes_from_logs(&logs), vec![0x10, 0x02]);
}

#[test]
fn raw_read_fill_steps() {
    let (buf, have) = read_buffer(&vec![1, 2, 3], 8);
    assert_eq!(buf, vec![1, 2, 3, 0, 0, 0, 0, 0]);
    assert_eq!(have, 3);
    let (buf, have) = read_buffer(&vec![1, 2, 3], 2);
    assert_eq!(buf, vec![1, 2]);
    assert_eq!(have, 2);
    assert_eq!(fill_step(3, 8, 2).unwrap(), FillStep::More(5));
    assert_eq!(fill_step(3, 8, 5).unwrap(), FillStep::Done);
    match fill_step(3, 8, 0) {
        Err(FirehoseError::Timeout { command }) => assert_eq!(command, "read"),
        _ => panic!("expected a timeout"),
    }
}
