use s7::client::{Client, CpuInfo};
use s7::constant::{Area, CpuStatus, WL_BIT, WL_BYTE, WL_WORD};
use s7::error::{
    Error, CLI_ALREADY_RUN, CLI_ALREADY_STOP, CLI_CANNOT_START_PLC, CLI_INVALID_PLC_ANSWER,
    ISO_INVALID_DATA_SIZE, ISO_INVALID_PDU,
};
use s7::field::{Bool, Offset};
use s7::transport::{stop_telegram, warm_start_telegram, Connection, Transport};
use std::cell::RefCell;
use std::collections::VecDeque;
use std::rc::Rc;

/// A transport that answers from a script and records what it was sent.
struct Script {
    pdu: i32,
    replies: VecDeque<Result<Vec<u8>, Error>>,
    sent: Rc<RefCell<Vec<Vec<u8>>>>,
}

impl Transport for Script {
    fn send(&mut self, request: &[u8]) -> Result<Vec<u8>, Error> {
        self.sent.borrow_mut().push(request.to_vec());
        self.replies.pop_front().unwrap_or(Err(Error::Send))
    }
    fn pdu_length(&self) -> i32 {
        self.pdu
    }
    fn negotiate(&mut self) -> Result<(), Error> {
        Ok(())
    }
    fn connection_type(&self) -> Connection {
        Connection::PG
    }
}

fn scripted(pdu: i32, replies: Vec<Vec<u8>>) -> (Client<Script>, Rc<RefCell<Vec<Vec<u8>>>>) {
    let sent = Rc::new(RefCell::new(Vec::new()));
    let t = Script {
        pdu,
        replies: replies.into_iter().map(Ok).collect(),
        sent: sent.clone(),
    };
    (Client::new(t).unwrap(), sent)
}

/// A controller with one byte-addressed memory that serves byte reads and writes.
struct Plc {
    pdu: i32,
    image: Rc<RefCell<Vec<u8>>>,
    sent: Rc<RefCell<Vec<Vec<u8>>>>,
}

impl Transport for Plc {
    fn send(&mut self, request: &[u8]) -> Result<Vec<u8>, Error> {
        self.sent.borrow_mut().push(request.to_vec());
        let count = ((request[23] as usize) << 8) | request[24] as usize;
        let address = ((request[28] as usize) << 16) | ((request[29] as usize) << 8) | request[30] as usize;
        let start = address >> 3;
        let mut image = self.image.borrow_mut();
        if request[17] == 4 {
            let mut reply = vec![0u8; 25];
            reply[21] = 0xFF;
            reply.extend_from_slice(&image[start..start + count]);
            Ok(reply)
        } else {
            image[start..start + count].copy_from_slice(&request[35..35 + count]);
            let mut reply = vec![0u8; 22];
            reply[21] = 0xFF;
            Ok(reply)
        }
    }
    fn pdu_length(&self) -> i32 {
        self.pdu
    }
    fn negotiate(&mut self) -> Result<(), Error> {
        Ok(())
    }
    fn connection_type(&self) -> Connection {
        Connection::PG
    }
}

fn plc(pdu: i32, image: Vec<u8>) -> (Client<Plc>, Rc<RefCell<Vec<u8>>>, Rc<RefCell<Vec<Vec<u8>>>>) {
    let image = Rc::new(RefCell::new(image));
    let sent = Rc::new(RefCell::new(Vec::new()));
    let t = Plc { pdu, image: image.clone(), sent: sent.clone() };
    (Client::new(t).unwrap(), image, sent)
}

fn read_reply(data: &[u8]) -> Vec<u8> {
    let mut r = vec![0u8; 25];
    r[21] = 0xFF;
    r.extend_from_slice(data);
    r
}

fn write_reply(code: u8) -> Vec<u8> {
    let mut r = vec![0u8; 22];
    r[21] = code;
    r
}

#[test]
fn db_read_of_one_byte() {
    let (mut cl, sent) = scripted(480, vec![read_reply(&[0x5A])]);
    let mut buffer = vec![0u8; 4];
    cl.ag_read(888, 8, 1, &mut buffer).unwrap();
    assert_eq!(buffer, vec![0x5A, 0, 0, 0]);
    let sent = sent.borrow();
    assert_eq!(sent.len(), 1);
    let req = &sent[0];
    assert_eq!(req.len(), 31);
    assert_eq!(&req[25..27], &[0x03, 0x78]);
    assert_eq!(req[27], 0x84);
    assert_eq!(req[22], 0x02);
    assert_eq!(&req[23..25], &[0x00, 0x01]);
    assert_eq!(&req[28..31], &[0x00, 0x00, 0x40]);
    assert_eq!(&req[0..4], &[3, 0, 0, 31]);
}

#[test]
fn large_db_read_is_split_by_pdu_length() {
    let image: Vec<u8> = (0..1000u32).map(|i| (i * 7 % 251) as u8).collect();
    let (mut cl, _, sent) = plc(240, image.clone());
    let mut buffer = vec![0u8; 1000];
    cl.ag_read(1, 0, 1000, &mut buffer).unwrap();
    assert_eq!(buffer, image);
    let sent = sent.borrow();
    assert_eq!(sent.len(), 5);
    let sizes: Vec<usize> = sent.iter().map(|r| ((r[23] as usize) << 8) | r[24] as usize).collect();
    assert_eq!(sizes, vec![222, 222, 222, 222, 112]);
    let starts: Vec<usize> = sent
        .iter()
        .map(|r| (((r[28] as usize) << 16) | ((r[29] as usize) << 8) | r[30] as usize) >> 3)
        .collect();
    assert_eq!(starts, vec![0, 222, 444, 666, 888]);
}

#[test]
fn read_request_count_rounds_up() {
    for (n, pdu, expected) in [(1, 240, 1), (222, 240, 1), (223, 240, 2), (444, 240, 2), (445, 240, 3), (10, 19, 10)] {
        let (mut cl, _, sent) = plc(pdu, vec![0u8; 500]);
        let mut buffer = vec![0u8; n as usize];
        cl.ag_read(1, 0, n, &mut buffer).unwrap();
        assert_eq!(sent.borrow().len(), expected);
    }
}

#[test]
fn write_then_read_gives_the_written_bytes() {
    let (mut cl, image, _) = plc(240, vec![0u8; 1200]);
    let mut data: Vec<u8> = (0..700u32).map(|i| (i * 13 % 256) as u8).collect();
    cl.ag_write(1, 100, 700, &mut data).unwrap();
    assert_eq!(&image.borrow()[100..800], &data[..]);
    assert!(image.borrow()[..100].iter().all(|b| *b == 0));
    let mut back = vec![0u8; 700];
    cl.ag_read(1, 100, 700, &mut back).unwrap();
    assert_eq!(back, data);
}

#[test]
fn write_of_bit_at_8_3_goes_through_its_byte() {
    let (mut cl, sent) = scripted(480, vec![read_reply(&[0b0100_0001]), write_reply(0xFF)]);
    let mut buffer = vec![0u8; 1];
    cl.ag_read(1, 8, 1, &mut buffer).unwrap();
    let mut light = Bool::new(1, Offset::new(8, 3), buffer.clone()).unwrap();
    light.set_value(true);
    let mut bytes = light.to_bytes();
    cl.ag_write(1, light.offset(), Bool::size(), &mut bytes).unwrap();
    let sent = sent.borrow();
    let req = &sent[1];
    assert_eq!(req.len(), 36);
    assert_eq!(&req[2..4], &[0, 36]);
    assert_eq!(req[17], 0x05);
    assert_eq!(req[22], 0x02);
    assert_eq!(&req[23..25], &[0, 1]);
    assert_eq!(&req[25..27], &[0, 1]);
    assert_eq!(req[27], 0x84);
    assert_eq!(&req[28..31], &[0, 0, 0x40]);
    assert_eq!(req[32], 4);
    assert_eq!(&req[15..17], &[0, 8]);
    assert_eq!(&req[33..35], &[0, 8]);
    assert_eq!(req[35], 0b0100_1001);
}

#[test]
fn merker_and_process_image_areas() {
    let (mut cl, sent) = scripted(
        480,
        vec![read_reply(&[1, 2]), read_reply(&[3]), read_reply(&[4]), write_reply(0xFF), write_reply(0xFF), write_reply(0xFF)],
    );
    let mut buffer = vec![0u8; 2];
    cl.mb_read(1, 2, &mut buffer).unwrap();
    assert_eq!(buffer, vec![1, 2]);
    cl.eb_read(0, 1, &mut buffer).unwrap();
    assert_eq!(buffer, vec![3, 2]);
    cl.ab_read(0, 1, &mut buffer).unwrap();
    assert_eq!(buffer, vec![4, 2]);
    cl.mb_write(0, 1, &mut buffer).unwrap();
    cl.eb_write(0, 1, &mut buffer).unwrap();
    cl.ab_write(0, 1, &mut buffer).unwrap();
    let sent = sent.borrow();
    let areas: Vec<u8> = sent.iter().map(|r| r[27]).collect();
    assert_eq!(areas, vec![0x83, 0x81, 0x82, 0x83, 0x81, 0x82]);
    assert_eq!(&sent[0][25..27], &[0, 0]);
}

#[test]
fn counter_read_uses_element_addressing() {
    let (mut cl, sent) = scripted(480, vec![read_reply(&[0, 7, 0, 9])]);
    let mut buffer = vec![0u8; 4];
    cl.read(Area::Counter, 0, 5, 2, WL_BYTE, &mut buffer).unwrap();
    assert_eq!(buffer, vec![0, 7, 0, 9]);
    let req = &sent.borrow()[0];
    assert_eq!(req[22], 0x1C);
    assert_eq!(&req[23..25], &[0, 2]);
    assert_eq!(req[27], 0x1C);
    assert_eq!(&req[28..31], &[0, 0, 5]);
}

#[test]
fn timer_write_uses_octet_transport_size() {
    let (mut cl, sent) = scripted(480, vec![write_reply(0xFF)]);
    let mut buffer = vec![1u8, 2];
    cl.write(Area::Timer, 0, 3, 1, WL_BYTE, &mut buffer).unwrap();
    let req = &sent.borrow()[0];
    assert_eq!(req[22], 0x1D);
    assert_eq!(req[27], 0x1D);
    assert_eq!(req[32], 9);
    assert_eq!(&req[15..17], &[0, 2]);
    assert_eq!(&req[33..35], &[0, 2]);
    assert_eq!(&req[35..37], &[1, 2]);
}

#[test]
fn bit_read_moves_one_bit() {
    let (mut cl, sent) = scripted(480, vec![read_reply(&[1])]);
    let mut buffer = vec![0u8; 1];
    cl.read(Area::DataBausteine, 2, 67, 5, WL_BIT, &mut buffer).unwrap();
    assert_eq!(buffer, vec![1]);
    let req = &sent.borrow()[0];
    assert_eq!(req[22], 0x01);
    assert_eq!(&req[23..25], &[0, 1]);
    assert_eq!(&req[28..31], &[0, 0, 67]);
}

#[test]
fn word_read_is_sent_as_bytes() {
    let (mut cl, sent) = scripted(480, vec![read_reply(&[1, 2, 3, 4])]);
    let mut buffer = vec![0u8; 4];
    cl.read(Area::DataBausteine, 2, 10, 2, WL_WORD, &mut buffer).unwrap();
    assert_eq!(buffer, vec![1, 2, 3, 4]);
    let req = &sent.borrow()[0];
    assert_eq!(req[22], 0x02);
    assert_eq!(&req[23..25], &[0, 4]);
    assert_eq!(&req[28..31], &[0, 0, 80]);
}

#[test]
fn unknown_word_length_is_invalid_data_size() {
    let (mut cl, sent) = scripted(480, vec![]);
    let mut buffer = vec![0u8; 4];
    match cl.read(Area::DataBausteine, 1, 0, 1, 0x42, &mut buffer) {
        Err(Error::Response { code }) => assert_eq!(code, ISO_INVALID_DATA_SIZE),
        other => panic!("unexpected {:?}", other),
    }
    match cl.write(Area::DataBausteine, 1, 0, 1, 0x42, &mut buffer) {
        Err(Error::Response { code }) => assert_eq!(code, ISO_INVALID_DATA_SIZE),
        other => panic!("unexpected {:?}", other),
    }
    assert!(sent.borrow().is_empty());
}

#[test]
fn pdu_too_small_is_refused() {
    let (mut cl, sent) = scripted(18, vec![]);
    let mut buffer = vec![0u8; 4];
    assert!(matches!(cl.ag_read(1, 0, 1, &mut buffer), Err(Error::PduLength(18))));
    let (mut cl2, _) = scripted(35, vec![]);
    assert!(matches!(cl2.ag_write(1, 0, 1, &mut buffer), Err(Error::PduLength(35))));
    assert!(sent.borrow().is_empty());
    assert_eq!(cl.pdu_length(), 18);
}

#[test]
fn read_reply_errors() {
    let mut bad = read_reply(&[1]);
    bad[21] = 0x05;
    let (mut cl, _) = scripted(480, vec![bad, vec![0u8; 10], read_reply(&[])]);
    let mut buffer = vec![0u8; 1];
    assert!(matches!(cl.ag_read(1, 0, 1, &mut buffer), Err(Error::CPU { code: 5 })));
    match cl.ag_read(1, 0, 1, &mut buffer) {
        Err(Error::Response { code }) => assert_eq!(code, ISO_INVALID_DATA_SIZE),
        other => panic!("unexpected {:?}", other),
    }
    match cl.ag_read(1, 0, 1, &mut buffer) {
        Err(Error::Response { code }) => assert_eq!(code, ISO_INVALID_DATA_SIZE),
        other => panic!("unexpected {:?}", other),
    }
}

#[test]
fn write_reply_errors() {
    let (mut cl, _) = scripted(480, vec![write_reply(0x0A), vec![0u8; 23]]);
    let mut buffer = vec![0u8; 1];
    assert!(matches!(cl.ag_write(1, 0, 1, &mut buffer), Err(Error::CPU { code: 10 })));
    match cl.ag_write(1, 0, 1, &mut buffer) {
        Err(Error::Response { code }) => assert_eq!(code, ISO_INVALID_PDU),
        other => panic!("unexpected {:?}", other),
    }
}

#[test]
fn transport_error_is_passed_on() {
    let (mut cl, _) = scripted(480, vec![]);
    let mut buffer = vec![0u8; 1];
    assert!(matches!(cl.ag_read(1, 0, 1, &mut buffer), Err(Error::Send)));
}

fn control_reply(function: u8, state: u8) -> Vec<u8> {
    let mut r = vec![0u8; 20];
    r[17] = function;
    r[18] = state;
    r
}

#[test]
fn warm_restart() {
    let (mut cl, sent) = scripted(480, vec![control_reply(0x28, 0), control_reply(0x28, 0x02)]);
    cl.restart().unwrap();
    assert_eq!(sent.borrow()[0], warm_start_telegram());
    assert_eq!(sent.borrow()[0].len(), 37);
    match cl.restart() {
        Err(Error::Response { code }) => assert_eq!(code, CLI_ALREADY_RUN),
        other => panic!("unexpected {:?}", other),
    }
}

#[test]
fn cold_start_and_stop() {
    let (mut cl, sent) = scripted(
        480,
        vec![control_reply(0x28, 0), control_reply(0x29, 0), control_reply(0x29, 0x07), control_reply(0x11, 0), vec![0u8; 19]],
    );
    cl.start().unwrap();
    assert_eq!(sent.borrow()[0].len(), 39);
    cl.stop().unwrap();
    assert_eq!(sent.borrow()[1], stop_telegram());
    match cl.stop() {
        Err(Error::Response { code }) => assert_eq!(code, CLI_ALREADY_STOP),
        other => panic!("unexpected {:?}", other),
    }
    match cl.start() {
        Err(Error::Response { code }) => assert_eq!(code, CLI_CANNOT_START_PLC),
        other => panic!("unexpected {:?}", other),
    }
    match cl.start() {
        Err(Error::Response { code }) => assert_eq!(code, ISO_INVALID_PDU),
        other => panic!("unexpected {:?}", other),
    }
}

fn status_reply(result: u16, status: u8) -> Vec<u8> {
    let mut r = vec![0u8; 45];
    r[27] = (result >> 8) as u8;
    r[28] = result as u8;
    r[44] = status;
    r
}

#[test]
fn plc_status_reads_status_byte() {
    let (mut cl, sent) = scripted(
        480,
        vec![status_reply(0, 8), status_reply(0, 4), status_reply(0, 0), status_reply(0, 3), status_reply(0x8104, 8), vec![0u8; 44]],
    );
    assert_eq!(cl.plc_status().unwrap(), CpuStatus::Run);
    assert_eq!(cl.plc_status().unwrap(), CpuStatus::Stop);
    assert_eq!(cl.plc_status().unwrap(), CpuStatus::Unknown);
    assert!(matches!(cl.plc_status(), Err(Error::InvalidCpuStatus(3))));
    assert!(matches!(cl.plc_status(), Err(Error::CPU { code: 0x8104 })));
    match cl.plc_status() {
        Err(Error::Response { code }) => assert_eq!(code, ISO_INVALID_PDU),
        other => panic!("unexpected {:?}", other),
    }
    assert_eq!(sent.borrow()[0].len(), 33);
}

fn szl_reply(done: bool, seq: u8, header: (u16, u16), data: &[u8]) -> Vec<u8> {
    let mut r = vec![0u8; 41];
    r[24] = seq;
    r[26] = if done { 0 } else { 1 };
    r[29] = 0xFF;
    let announced = data.len() + 8;
    r[31] = (announced >> 8) as u8;
    r[32] = announced as u8;
    r[37] = (header.0 >> 8) as u8;
    r[38] = header.0 as u8;
    r[39] = (header.1 >> 8) as u8;
    r[40] = header.1 as u8;
    r.extend_from_slice(data);
    r.push(0);
    r
}

fn put_text(data: &mut [u8], from: usize, to: usize, text: &str) {
    for b in data[from..to].iter_mut() {
        *b = b' ';
    }
    data[from..from + text.len()].copy_from_slice(text.as_bytes());
}

#[test]
fn szl_cpu_info() {
    let mut data = vec![0u8; 210];
    put_text(&mut data, 172, 204, "6ES7 315-2EH14-0AB0");
    put_text(&mut data, 138, 162, "S C-C2UR28922012");
    put_text(&mut data, 2, 26, "SIMATIC 300(1)");
    put_text(&mut data, 104, 130, "Siemens AG 2019");
    put_text(&mut data, 36, 60, "CPU 315-2 PN/DP");
    let (mut cl, sent) = scripted(480, vec![szl_reply(true, 3, (14, 10), &data)]);
    let info: CpuInfo = cl.cpu_info().unwrap();
    assert_eq!(info.module_type_name, "6ES7 315-2EH14-0AB0");
    assert_eq!(info.serial_number, "S C-C2UR28922012");
    assert_eq!(info.as_name, "SIMATIC 300(1)");
    assert_eq!(info.copyright, "Siemens AG 2019");
    assert_eq!(info.module_name, "CPU 315-2 PN/DP");
    let req = &sent.borrow()[0];
    assert_eq!(&req[11..13], &[0, 1]);
    assert_eq!(&req[29..31], &[0x00, 0x1C]);
    assert_eq!(&req[31..33], &[0, 0]);
}

#[test]
fn szl_read_appends_fragments() {
    let (mut cl, sent) = scripted(
        480,
        vec![szl_reply(false, 7, (14, 3), &[1, 2, 3]), szl_reply(false, 8, (0, 0), &[4, 5]), szl_reply(true, 9, (0, 0), &[6])],
    );
    let szl = cl.read_szl(0x0011, 2).unwrap();
    assert_eq!(szl.data, vec![1, 2, 3, 4, 5, 6]);
    assert_eq!(szl.header.length_header, 14);
    assert_eq!(szl.header.number_of_data_record, 3);
    let sent = sent.borrow();
    assert_eq!(sent.len(), 3);
    assert_eq!(sent[1][24], 7);
    assert_eq!(sent[2][24], 8);
    assert_eq!(&sent[0][31..33], &[0, 2]);
}

#[test]
fn szl_errors() {
    let mut refused = szl_reply(true, 1, (0, 0), &[1]);
    refused[29] = 0x00;
    let (mut cl, _) = scripted(480, vec![refused, vec![0u8; 30], szl_reply(true, 1, (0, 0), &[1; 100])]);
    assert!(matches!(cl.read_szl(1, 0), Err(Error::CPU { code }) if code == CLI_INVALID_PLC_ANSWER));
    assert!(matches!(cl.read_szl(1, 0), Err(Error::Response { code }) if code == ISO_INVALID_PDU));
    assert!(matches!(cl.cpu_info(), Err(Error::Response { code }) if code == ISO_INVALID_PDU));
}

#[test]
fn cpu_info_refuses_bad_text() {
    let mut data = vec![b' '; 210];
    data[172] = 0xFF;
    let (mut cl, _) = scripted(480, vec![szl_reply(true, 1, (0, 0), &data)]);
    match cl.cpu_info() {
        Err(Error::InvalidResponse { bytes, .. }) => assert_eq!(bytes, data[172..204].to_vec()),
        other => panic!("unexpected {:?}", other),
    }
}

#[test]
fn cp_info_reads_parameters() {
    let data = [0, 0, 0x01, 0xE0, 0, 0x10, 0, 0x0C, 0, 0, 0x05, 0xDC];
    let (mut cl, sent) = scripted(480, vec![szl_reply(true, 1, (0, 0), &data), szl_reply(true, 1, (0, 0), &[0; 4])]);
    let info = cl.cp_info().unwrap();
    assert_eq!(info.max_pdu_length, 480);
    assert_eq!(info.max_connections, 16);
    assert_eq!(info.max_mpi_rate, 12);
    assert_eq!(info.max_bus_rate, 1500);
    assert_eq!(&sent.borrow()[0][29..31], &[0x01, 0x31]);
    assert!(cl.cp_info().is_err());
}

#[test]
fn failed_send_mid_transfer_is_returned_unchanged() {
    let sent = Rc::new(RefCell::new(Vec::new()));
    let t = Script {
        pdu: 19,
        replies: vec![Ok(read_reply(&[7])), Err(Error::PduLength(99))].into_iter().collect(),
        sent: sent.clone(),
    };
    let mut cl = Client::new(t).unwrap();
    let mut buffer = vec![0u8; 3];
    assert!(matches!(cl.ag_read(1, 0, 3, &mut buffer), Err(Error::PduLength(99))));
    assert_eq!(sent.borrow().len(), 2);
    assert_eq!(buffer[0], 7);

    let sent = Rc::new(RefCell::new(Vec::new()));
    let t = Script {
        pdu: 480,
        replies: vec![Err(Error::Iso)].into_iter().collect(),
        sent: sent.clone(),
    };
    let mut cl = Client::new(t).unwrap();
    assert!(matches!(cl.stop(), Err(Error::Iso)));
    assert_eq!(sent.borrow().len(), 1);
}

#[test]
fn szl_header_is_taken_as_sent() {
    let (mut cl, _) = scripted(480, vec![szl_reply(true, 1, (0x0102, 0x0304), &[9])]);
    let szl = cl.read_szl(0x001C, 0).unwrap();
    assert_eq!(szl.header.length_header, 0x0102);
    assert_eq!(szl.header.number_of_data_record, 0x0304);
}
