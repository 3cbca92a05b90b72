use s7::constant::{data_size_byte, CpuStatus, WL_BIT, WL_COUNTER, WL_DINT, WL_REAL, WL_TIMER, WL_WORD};
use s7::error::{cpu_error, error_text, Error, CLI_FUNCTION_REFUSED, CLI_ITEM_NOT_AVAILABLE, CLI_NEGOTIATING_PDU};
use s7::tcp::{
    check_connection_confirm, connection_request, frame_step, negotiated_pdu, negotiation_request,
    remote_tsap, FrameStep, Handshake, HandshakeAction, Options, LOCAL_TSAP,
};
use s7::transport::Connection;

#[test]
fn handshake_rack5_slot5_pg() {
    let remote = remote_tsap(Connection::PG, 5, 5);
    assert_eq!(remote, 0x01A5);
    let cr = connection_request(LOCAL_TSAP, remote);
    assert_eq!(cr.len(), 22);
    assert_eq!(&cr[16..18], &[0x01, 0x00]);
    assert_eq!(&cr[20..22], &[0x01, 0xA5]);
    let mut cc = vec![0u8; 22];
    cc[5] = 0xD0;
    assert!(check_connection_confirm(&cc).is_ok());
    let neg = negotiation_request();
    assert_eq!(neg.len(), 25);
    assert_eq!(&neg[23..25], &[0x01, 0xE0]);
    let mut reply = vec![0u8; 27];
    reply[25] = 0x01;
    reply[26] = 0xE0;
    assert_eq!(negotiated_pdu(&reply).unwrap(), 480);
}

#[test]
fn options_give_remote_tsap() {
    let opts = Options::new("10.0.0.7".to_string(), 0, 2, Connection::OP);
    assert_eq!(opts.address(), "10.0.0.7:102");
    assert_eq!(opts.rack(), 0);
    assert_eq!(opts.slot(), 2);
    assert_eq!(opts.remote_tsap(), 0x0202);
    assert_eq!(remote_tsap(Connection::Basic, 1, 3), 0x0323);
    assert_eq!(remote_tsap(Connection::PG, 0xFFFF, 0), ((0x100u32 + 0xFFFF * 32) % 65536) as u16);
}

#[test]
fn connection_confirm_errors() {
    let mut cc = vec![0u8; 22];
    cc[5] = 0xE0;
    assert!(matches!(check_connection_confirm(&cc), Err(Error::Iso)));
    assert!(matches!(check_connection_confirm(&[0u8; 7]), Err(Error::PduLength(7))));
}

#[test]
fn negotiation_errors() {
    let mut reply = vec![0u8; 27];
    assert!(matches!(negotiated_pdu(&reply), Err(Error::Response { code }) if code == CLI_NEGOTIATING_PDU));
    reply[26] = 240;
    reply[17] = 0x81;
    assert!(matches!(negotiated_pdu(&reply), Err(Error::Response { code }) if code == CLI_NEGOTIATING_PDU));
    assert!(negotiated_pdu(&[0u8; 26]).is_err());
}

fn frame(len: usize) -> Vec<u8> {
    let mut f = vec![0u8; len];
    f[0] = 3;
    f[2] = (len >> 8) as u8;
    f[3] = len as u8;
    f
}

#[test]
fn frame_is_received_whole() {
    for len in [16usize, 22, 100, 487] {
        let f = frame(len);
        assert_eq!(frame_step(&f[..0]), FrameStep::Need(4));
        assert_eq!(frame_step(&f[..4]), FrameStep::Need(len - 4));
        assert_eq!(frame_step(&f), FrameStep::Frame { start: 0, len });
    }
}

#[test]
fn keepalive_before_frame_is_skipped() {
    let mut stream = frame(7);
    stream.extend(frame(7));
    stream.extend(frame(30));
    assert_eq!(frame_step(&stream[..4]), FrameStep::Need(3));
    assert_eq!(frame_step(&stream[..7]), FrameStep::Need(4));
    assert_eq!(frame_step(&stream[..18]), FrameStep::Need(26));
    assert_eq!(frame_step(&stream), FrameStep::Frame { start: 14, len: 30 });
}

#[test]
fn frame_length_out_of_range() {
    assert_eq!(frame_step(&frame(15)[..4]), FrameStep::Fail(15));
    assert_eq!(frame_step(&frame(488)[..4]), FrameStep::Fail(488));
}

#[test]
fn word_length_sizes() {
    assert_eq!(data_size_byte(WL_BIT), 1);
    assert_eq!(data_size_byte(WL_WORD), 2);
    assert_eq!(data_size_byte(WL_COUNTER), 2);
    assert_eq!(data_size_byte(WL_TIMER), 2);
    assert_eq!(data_size_byte(WL_DINT), 4);
    assert_eq!(data_size_byte(WL_REAL), 4);
    assert_eq!(data_size_byte(0x42), 0);
}

#[test]
fn cpu_status_codes() {
    assert_eq!(CpuStatus::from_u8(0).unwrap(), CpuStatus::Unknown);
    assert_eq!(CpuStatus::from_u8(4).unwrap(), CpuStatus::Stop);
    assert_eq!(CpuStatus::from_u8(8).unwrap(), CpuStatus::Run);
    assert!(matches!(CpuStatus::from_u8(9), Err(Error::InvalidCpuStatus(9))));
}

#[test]
fn cpu_error_table() {
    assert_eq!(cpu_error(10), CLI_ITEM_NOT_AVAILABLE);
    assert_eq!(cpu_error(53769), CLI_ITEM_NOT_AVAILABLE);
    assert_eq!(cpu_error(5), 0x00900000);
    assert_eq!(cpu_error(12345), CLI_FUNCTION_REFUSED);
    assert_eq!(error_text(cpu_error(5)), "CPU : Address out of range");
    assert_eq!(error_text(0), "OK");
    assert_eq!(error_text(CLI_NEGOTIATING_PDU), "CLI : Error in PDU negotiation");
    assert_eq!(error_text(-5), "TCP : Error receiving Data");
    assert_eq!(error_text(77), "CLI : Unknown error");
}

#[test]
fn handshake_steps() {
    let opts = Options::new("127.0.0.1".to_string(), 5, 5, Connection::PG);
    let (state, request) = Handshake::start(&opts);
    assert_eq!(state, Handshake::IsoWait);
    assert_eq!(&request[20..22], &[0x01, 0xA5]);
    let mut cc = vec![0u8; 22];
    cc[5] = 0xD0;
    let (next, action) = state.step(&cc);
    assert_eq!(next, Some(Handshake::PduWait));
    match action {
        HandshakeAction::Send(r) => assert_eq!(r, negotiation_request()),
        other => panic!("unexpected {:?}", other),
    }
    let mut reply = vec![0u8; 27];
    reply[25] = 0x01;
    reply[26] = 0xE0;
    let (done, action) = Handshake::PduWait.step(&reply);
    assert_eq!(done, None);
    assert!(matches!(action, HandshakeAction::Ready(480)));
    cc[5] = 0xE0;
    assert!(matches!(Handshake::IsoWait.step(&cc), (None, HandshakeAction::Fail(Error::Iso))));
}
