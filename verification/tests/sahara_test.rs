use qedl::base::protocol::SaharaMode;
use qedl::sahara::error::SaharaError;
use qedl::sahara::protocol::{done_packet, exec_packet, mode_switch_packet, ImageId, SaharaStatus};
use qedl::sahara::session::{
    after_hello, after_probe, queries_device_info, HelloStep, ProbeStep,
    exec_response, nop_acked, parse_hello, read_data64_request, read_data_request, serial_from, transfer_step,
    SaharaSession, SaharaState, TransferStep,
};

fn words(ws: &[u32]) -> Vec<u8> {
    ws.iter().flat_map(|w| w.to_le_bytes()).collect()
}

#[test]
fn hello_is_taken() {
    let pkt = words(&[1, 48, 2, 1, 0x1000, 3, 7, 8, 9, 10, 11, 12]);
    let mut s = SaharaSession::new();
    assert_eq!(s.state(), SaharaState::WaitingHello);
    let h = s.on_hello(&pkt).unwrap();
    assert_eq!(h.version, 2);
    assert_eq!(h.mode, SaharaMode::Command);
    assert_eq!(h.reserved, [7, 8, 9, 10, 11, 12]);
    assert_eq!(s.state(), SaharaState::HelloReceived);
    assert_eq!(s.max_chunk_size(), 0x1000);
    let r = s.hello_response(&h, SaharaMode::ImageTransfer);
    let bytes = r.to_bytes();
    assert_eq!(bytes, words(&[2, 48, 2, 2, 0, 0, 7, 8, 9, 10, 11, 12]));
}

#[test]
fn hello_refusals() {
    let mut s = SaharaSession::new();
    let mut text = vec![b'<'; 48];
    text[1] = b'?';
    assert!(matches!(s.on_hello(&text), Err(SaharaError::AlreadyInFirehose)));
    let other = words(&[4, 48, 0, 0, 0, 0, 0, 0, 0, 0, 0, 0]);
    assert!(matches!(s.on_hello(&other), Err(SaharaError::UnexpectedCommand { cmd: 4 })));
    assert_eq!(s.state(), SaharaState::WaitingHello);
    assert!(matches!(parse_hello(&[1, 0, 0]), Err(SaharaError::HelloFailed)));
    let short = words(&[1, 28, 2, 1, 0, 9, 5]);
    let h = parse_hello(&short).unwrap();
    assert_eq!(h.mode, SaharaMode::ImageTransfer);
    assert_eq!(h.reserved, [5, 0, 0, 0, 0, 0]);
}

#[test]
fn control_packets() {
    assert_eq!(mode_switch_packet(SaharaMode::Command), words(&[0x0C, 12, 3]));
    assert_eq!(done_packet(), words(&[5, 8]));
    assert_eq!(exec_packet(2), words(&[0x0D, 12, 2]));
    let r = SaharaSession::new().recovery_response(SaharaMode::ImageTransfer);
    assert_eq!(r.reserved, [0; 6]);
    assert_eq!(ImageId::FirehoseV2.as_u32(), 0x0D);
    assert_eq!(SaharaStatus::ReadDataError.as_u32(), 0x0D);
}

#[test]
fn transfer_steps_and_requests() {
    assert_eq!(transfer_step(&words(&[3, 20])), TransferStep::ReadData);
    assert_eq!(transfer_step(&words(&[0x12, 32])), TransferStep::ReadData64);
    assert_eq!(transfer_step(&words(&[4, 16])), TransferStep::Finished);
    assert_eq!(transfer_step(&words(&[6, 12])), TransferStep::Finished);
    assert_eq!(transfer_step(&words(&[0x0B, 8])), TransferStep::Ignore);
    assert_eq!(read_data_request(&words(&[7, 0x100, 0x40])), (7, 0x100, 0x40));
    let mut b = Vec::new();
    b.extend_from_slice(&0x1_0000_0007u64.to_le_bytes());
    b.extend_from_slice(&16u64.to_le_bytes());
    b.extend_from_slice(&32u64.to_le_bytes());
    assert_eq!(read_data64_request(&b), (7, 16, 32));
}

#[test]
fn loader_chunks() {
    let mut s = SaharaSession::new();
    s.begin_upload();
    assert_eq!(s.state(), SaharaState::WaitingDataRequest);
    assert_eq!(s.loader_chunk(100, 10, 20).unwrap(), (10, 30));
    assert_eq!(s.state(), SaharaState::Transferring);
    match s.loader_chunk(100, 90, 20) {
        Err(SaharaError::TransferFailed { offset, reason }) => {
            assert_eq!(offset, 90);
            assert_eq!(reason, "loader too small: need 20 bytes at offset 90, file is 100 bytes");
        }
        other => panic!("unexpected {:?}", other),
    }
    s.finish();
    assert_eq!(s.state(), SaharaState::Done);
}

#[test]
fn exec_answers() {
    assert_eq!(exec_response(&words(&[0x0E, 16, 2, 8]), 2).unwrap(), 8);
    match exec_response(&words(&[4, 16, 0x1A, 0]), 2) {
        Err(SaharaError::TransferFailed { reason, .. }) => {
            assert_eq!(reason, "exec cmd 0x02 failed with status 0x1A")
        }
        other => panic!("unexpected {:?}", other),
    }
    assert!(matches!(exec_response(&words(&[9, 16, 0, 0]), 2), Err(SaharaError::UnexpectedCommand { cmd: 9 })));
    assert_eq!(serial_from(&vec![1, 0, 0, 0, 0, 0, 0, 1]).unwrap(), 0x0100_0000_0000_0001);
    match serial_from(&vec![1, 2]) {
        Err(SaharaError::TransferFailed { reason, .. }) => assert_eq!(reason, "serial num response too short: 2 bytes"),
        other => panic!("unexpected {:?}", other),
    }
    assert!(nop_acked(b"<response value=\"ACK\" />"));
    assert!(!nop_acked(b""));
}

#[test]
fn handshake_decisions() {
    assert!(matches!(after_hello(Err(SaharaError::HelloFailed), false), HelloStep::Probe));
    assert!(matches!(after_hello(Err(SaharaError::HelloFailed), true), HelloStep::Fail(SaharaError::HelloFailed)));
    assert!(matches!(after_hello(Err(SaharaError::AlreadyInFirehose), true), HelloStep::InFirehose));
    assert!(matches!(after_hello(Err(SaharaError::UnexpectedCommand { cmd: 3 }), false), HelloStep::Fail(_)));
    let h = parse_hello(&words(&[1, 48, 2, 1, 0, 3, 0, 0, 0, 0, 0, 0])).unwrap();
    assert!(queries_device_info(&h));
    assert!(matches!(after_hello(Ok(h), false), HelloStep::Proceed(_)));
    assert_eq!(after_probe(true, false), ProbeStep::InFirehose);
    assert_eq!(after_probe(false, true), ProbeStep::Recover);
    assert_eq!(after_probe(false, false), ProbeStep::NoLoader);
}
