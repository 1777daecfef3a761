use ledger_comm::error::TransportError;
use ledger_comm::exchange::{Action, BackendType, Comm, CommState, Event, Exchange, Stage};
use ledger_comm::hid::encode_reports;

fn ready(backend: BackendType, attached: bool) -> Comm {
    let mut comm = Comm::create(backend);
    comm.record_open(attached);
    comm
}

fn expect_write(ex: &Exchange) -> Vec<u8> {
    match ex.action() {
        Action::Write(bytes) => bytes,
        other => panic!("expected a write, got {:?}", other),
    }
}

#[test]
fn backend_names() {
    assert_eq!(BackendType::Hid.as_str(), "hid");
    assert_eq!(BackendType::Speculos.as_str(), "speculos");
    let name: &str = BackendType::Speculos.as_ref();
    assert_eq!(name, "speculos");
}

#[test]
fn coordinator_life_cycle() {
    let mut comm = Comm::create(BackendType::Hid);
    assert_eq!(comm.state(), CommState::Unopened);
    assert!(!comm.is_attached());
    comm.record_open(true);
    assert_eq!(comm.state(), CommState::Ready);
    assert!(comm.is_attached());
    assert_eq!(comm.backend(), BackendType::Hid);
    comm.close();
    assert_eq!(comm.state(), CommState::Closed);
    comm.close();
    assert_eq!(comm.state(), CommState::Closed);
    assert!(!comm.is_attached());
}

#[test]
fn no_device_is_reported_by_exchange() {
    let comm = ready(BackendType::Hid, false);
    assert_eq!(comm.exchange_apdu(&[0xE0, 0x01, 0x00, 0x00, 0x00]).err(), Some(TransportError::DeviceNotFound));
}

#[test]
fn no_emulator_is_reported_by_exchange() {
    let comm = ready(BackendType::Speculos, false);
    assert_eq!(comm.exchange_apdu(&[0xE0, 0x01, 0x00, 0x00, 0x00]).err(), Some(TransportError::ConnectFailed));
}

#[test]
fn too_long_command_over_hid() {
    let comm = ready(BackendType::Hid, true);
    assert_eq!(comm.exchange_apdu(&vec![0u8; 0x1_0000]).err(), Some(TransportError::PayloadTooLong));
}

#[test]
fn socket_exchange_with_echoing_emulator() {
    let comm = ready(BackendType::Speculos, true);
    let mut ex = comm.exchange_apdu(&[0xE0, 0x22, 0x00, 0x00, 0x00]).unwrap();
    assert_eq!(expect_write(&ex), vec![0, 0, 0, 5, 0xE0, 0x22, 0x00, 0x00, 0x00]);
    ex.advance(Event::Written);
    assert!(matches!(ex.action(), Action::ReadExact(4)));
    ex.advance(Event::Received(vec![0, 0, 0, 1]));
    assert!(matches!(ex.action(), Action::ReadExact(1)));
    ex.advance(Event::Received(vec![0x90]));
    assert!(matches!(ex.action(), Action::ReadExact(2)));
    ex.advance(Event::Received(vec![0x90, 0x00]));
    assert!(matches!(ex.action(), Action::Finished));
    assert_eq!(ex.into_outcome(), Ok((vec![0x90], [0x90, 0x00])));
}

#[test]
fn socket_short_read_fails() {
    let comm = ready(BackendType::Speculos, true);
    let mut ex = comm.exchange_apdu(&[0x01]).unwrap();
    ex.advance(Event::Written);
    ex.advance(Event::Received(vec![0, 0, 0, 3]));
    ex.advance(Event::EndOfStream);
    assert_eq!(ex.stage(), Stage::Done);
    assert_eq!(ex.into_outcome(), Err(TransportError::ShortRead));
}

#[test]
fn hid_write_failure_on_second_of_three_reports() {
    let comm = ready(BackendType::Hid, true);
    let apdu = vec![0x42u8; 150];
    let mut ex = comm.exchange_apdu(&apdu).unwrap();
    let reports = encode_reports(&apdu).unwrap();
    assert_eq!(reports.len(), 3);
    assert_eq!(expect_write(&ex), reports[0]);
    ex.advance(Event::Written);
    assert_eq!(expect_write(&ex), reports[1]);
    ex.advance(Event::WriteFailed);
    assert!(matches!(ex.action(), Action::Finished));
    ex.advance(Event::Written);
    assert!(matches!(ex.action(), Action::Finished));
    assert_eq!(ex.into_outcome(), Err(TransportError::WriteFailed { written: 57 }));
}

#[test]
fn hid_exchange_over_two_response_reports() {
    let mut comm = ready(BackendType::Hid, true);
    comm.set_report_timeout(250);
    let mut ex = comm.exchange_apdu(&[0xE0, 0x01, 0x00, 0x00, 0x00]).unwrap();
    assert_eq!(expect_write(&ex)[..13], [0x00, 0x01, 0x01, 0x05, 0x00, 0x00, 0x00, 0x05, 0xE0, 0x01, 0x00, 0x00, 0x00]);
    ex.advance(Event::Written);
    assert!(matches!(ex.action(), Action::ReadReport(None)));
    let mut response: Vec<u8> = (0..80u8).collect();
    response.extend_from_slice(&[0x90, 0x00]);
    let reports = encode_reports(&response).unwrap();
    assert_eq!(reports.len(), 2);
    ex.advance(Event::Received(reports[0][1..].to_vec()));
    assert!(matches!(ex.action(), Action::ReadReport(Some(250))));
    ex.advance(Event::Received(reports[1][1..].to_vec()));
    assert!(matches!(ex.action(), Action::Finished));
    assert_eq!(ex.into_outcome(), Ok(((0..80u8).collect(), [0x90, 0x00])));
}

#[test]
fn hid_continuation_timeout() {
    let comm = ready(BackendType::Hid, true);
    let mut ex = comm.exchange_apdu(&[0x01]).unwrap();
    ex.advance(Event::Written);
    let mut first = vec![0x01, 0x01, 0x05, 0x00, 0x00, 0x00, 0x64];
    first.resize(64, 0);
    ex.advance(Event::Received(first));
    assert!(matches!(ex.action(), Action::ReadReport(Some(1000))));
    ex.advance(Event::TimedOut);
    assert_eq!(ex.into_outcome(), Err(TransportError::Timeout));
}

#[test]
fn hid_first_report_without_status_word() {
    let comm = ready(BackendType::Hid, true);
    let mut ex = comm.exchange_apdu(&[0x01]).unwrap();
    ex.advance(Event::Written);
    ex.advance(Event::Received(vec![0x01, 0x01, 0x05, 0x00, 0x00, 0x00, 0x01, 0x90]));
    assert_eq!(ex.into_outcome(), Err(TransportError::ProtocolViolation));
}

#[test]
fn hid_read_failure() {
    let comm = ready(BackendType::Hid, true);
    let mut ex = comm.exchange_apdu(&[0x01]).unwrap();
    ex.advance(Event::Written);
    ex.advance(Event::ReadFailed);
    assert_eq!(ex.into_outcome(), Err(TransportError::ReadFailed));
}

#[test]
fn socket_body_of_wrong_length() {
    let comm = ready(BackendType::Speculos, true);
    let mut ex = comm.exchange_apdu(&[0x01]).unwrap();
    ex.advance(Event::Written);
    ex.advance(Event::Received(vec![0, 0, 0, 2]));
    assert!(matches!(ex.action(), Action::ReadExact(2)));
    ex.advance(Event::Received(vec![0xAA]));
    assert_eq!(ex.into_outcome(), Err(TransportError::ShortRead));
}

#[test]
fn socket_write_failure_flushes_nothing() {
    let comm = ready(BackendType::Speculos, true);
    let mut ex = comm.exchange_apdu(&[0x01, 0x02]).unwrap();
    ex.advance(Event::WriteFailed);
    assert_eq!(ex.into_outcome(), Err(TransportError::WriteFailed { written: 0 }));
}

#[test]
fn events_that_answer_nothing_are_ignored() {
    let comm = ready(BackendType::Speculos, true);
    let mut ex = comm.exchange_apdu(&[0x01]).unwrap();
    ex.advance(Event::Received(vec![1, 2, 3, 4]));
    assert_eq!(ex.stage(), Stage::Sending);
    ex.advance(Event::Written);
    ex.advance(Event::Written);
    assert_eq!(ex.stage(), Stage::Length);
}
