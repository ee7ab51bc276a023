use std::cell::RefCell;
use std::collections::VecDeque;

use mil1553::bus::{Bus, BusController};
use mil1553::primitives::BitField;
use mil1553::words::{
    CommandWord, CommandWordData, DataWord, Error, ModeCode, RTAction, RTAddr, StatusWord, Word,
    WordFormat,
};

struct MockBus {
    written: Vec<Word>,
    incoming: RefCell<VecDeque<Word>>,
}

impl MockBus {
    fn new(incoming: Vec<Word>) -> MockBus {
        MockBus { written: Vec::new(), incoming: RefCell::new(incoming.into_iter().collect()) }
    }

    fn unread(&self) -> usize {
        self.incoming.borrow().len()
    }
}

impl Bus for MockBus {
    fn write_word(&mut self, value: Word) {
        self.written.push(value);
    }

    fn read_next(&self) -> Word {
        self.incoming.borrow_mut().pop_front().expect("the mock bus ran out of words")
    }
}

fn addr(a: u8) -> RTAddr {
    RTAddr::Single(BitField::new(a))
}

fn data(values: &[u16]) -> Vec<DataWord> {
    values.iter().map(|v| DataWord::from_u16(*v)).collect()
}

#[test]
fn mode_command_receives_status_then_data() {
    let s = StatusWord::from_u16(0b0010100000000000);
    let d = DataWord::from_u16(0xBEEF);
    let mut bc = BusController::new(MockBus::new(vec![Word::Status(s), Word::Data(d)]));
    let mut out = DataWord::from_u16(0);
    let r = bc.send_mode_command(addr(5), ModeCode::TransmitLastCommand, Some(&mut out));
    assert_eq!(r, Ok(Some(s)));
    assert_eq!(out, d);
    let bus = bc.into_bus();
    let expected = CommandWord::new_mode_command(addr(5), ModeCode::TransmitLastCommand).unwrap();
    assert_eq!(bus.written, vec![Word::Command(expected)]);
    assert_eq!(bus.unread(), 0);
}

#[test]
fn transfer_writes_command_then_data_words() {
    let mut bc = BusController::new(MockBus::new(vec![]));
    let words = data(&[0x1111, 0x2222, 0x3333]);
    bc.send_transfer(addr(3), BitField::new(2), &words).unwrap();
    let cmd = CommandWord::new_data_transfer(
        addr(3),
        RTAction::Receive,
        BitField::new(2),
        BitField::new(3),
    )
    .unwrap();
    assert_eq!(cmd.value(), 0b0001100001000011);
    assert_eq!(
        bc.bus().written,
        vec![
            Word::Command(cmd),
            Word::Data(DataWord::from_u16(0x1111)),
            Word::Data(DataWord::from_u16(0x2222)),
            Word::Data(DataWord::from_u16(0x3333)),
        ]
    );
}

#[test]
fn transfer_to_address_31_is_a_broadcast() {
    let mut a = BusController::new(MockBus::new(vec![]));
    let mut b = BusController::new(MockBus::new(vec![]));
    let words = data(&[7]);
    a.send_transfer(addr(31), BitField::new(4), &words).unwrap();
    b.send_broadcast_transfer(BitField::new(4), &words).unwrap();
    assert_eq!(a.bus().written, b.bus().written);
    assert_eq!(a.bus().written.len(), 2);
    match a.bus().written[0] {
        Word::Command(c) => {
            assert_eq!(c.get_rt_addr(), RTAddr::Broadcast);
            assert_eq!(c.get_tr_bit(), RTAction::Receive);
        }
        _ => panic!("expected a command word"),
    }
}

#[test]
fn transfer_refuses_too_many_words() {
    let mut bc = BusController::new(MockBus::new(vec![]));
    let words = data(&[0; 32]);
    assert_eq!(
        bc.send_transfer(addr(3), BitField::new(2), &words),
        Err(Error::InvalidArgument)
    );
    assert_eq!(
        bc.send_broadcast_transfer(BitField::new(2), &words),
        Err(Error::InvalidArgument)
    );
    assert!(bc.bus().written.is_empty());
}

#[test]
fn transfer_of_31_words_is_sent() {
    let mut bc = BusController::new(MockBus::new(vec![]));
    let words = data(&[9; 31]);
    bc.send_transfer(addr(3), BitField::new(2), &words).unwrap();
    assert_eq!(bc.bus().written.len(), 32);
    match bc.bus().written[0] {
        Word::Command(c) => assert_eq!(
            c.get_command_data(),
            CommandWordData::DataTransfer {
                subaddress: BitField::new(2),
                word_count: BitField::new(31)
            }
        ),
        _ => panic!("expected a command word"),
    }
}

#[test]
fn empty_transfer_sends_command_only() {
    let mut bc = BusController::new(MockBus::new(vec![]));
    bc.send_transfer(addr(8), BitField::new(30), &[]).unwrap();
    assert_eq!(bc.bus().written.len(), 1);
}

#[test]
fn transfer_refuses_mode_code_subaddress() {
    let mut bc = BusController::new(MockBus::new(vec![]));
    let words = data(&[1, 2]);
    assert_eq!(
        bc.send_transfer(addr(3), BitField::new(0), &words),
        Err(Error::InvalidArgument)
    );
    assert_eq!(
        bc.send_transfer(addr(3), BitField::new(31), &words),
        Err(Error::InvalidArgument)
    );
    assert!(bc.bus().written.is_empty());
}

#[test]
fn mode_command_sends_data_word_then_reads_status() {
    let s = StatusWord::from_u16(0x1234);
    let mut bc = BusController::new(MockBus::new(vec![Word::Status(s)]));
    let mut slot = DataWord::from_u16(0x00AA);
    let r = bc.send_mode_command(addr(6), ModeCode::SelectedTransmitter, Some(&mut slot));
    assert_eq!(r, Ok(Some(s)));
    assert_eq!(slot.value(), 0x00AA);
    let cmd = CommandWord::new_mode_command(addr(6), ModeCode::SelectedTransmitter).unwrap();
    assert_eq!(
        bc.bus().written,
        vec![Word::Command(cmd), Word::Data(DataWord::from_u16(0x00AA))]
    );
    assert_eq!(bc.bus().unread(), 0);
}

#[test]
fn broadcast_mode_command_reads_nothing() {
    let mut bc = BusController::new(MockBus::new(vec![Word::Status(StatusWord::from_u16(1))]));
    let r = bc.send_mode_command(RTAddr::Broadcast, ModeCode::Synchronize, None);
    assert_eq!(r, Ok(None));
    assert_eq!(bc.bus().written.len(), 1);
    assert_eq!(bc.bus().unread(), 1);
}

#[test]
fn mode_command_without_data_reads_status() {
    let s = StatusWord::from_u16(0x0808);
    let mut bc = BusController::new(MockBus::new(vec![Word::Status(s)]));
    let r = bc.send_mode_command(addr(1), ModeCode::TransmitStatusWord, None);
    assert_eq!(r, Ok(Some(s)));
}

#[test]
fn mode_command_refusals_send_nothing() {
    let mut bc = BusController::new(MockBus::new(vec![]));
    assert_eq!(
        bc.send_mode_command(addr(1), ModeCode::Invalid, None),
        Err(Error::InvalidArgument)
    );
    assert_eq!(
        bc.send_mode_command(RTAddr::Broadcast, ModeCode::DynamicBusControl, None),
        Err(Error::InvalidArgument)
    );
    assert_eq!(
        bc.send_mode_command(addr(1), ModeCode::SynchronizeWithDataWord, None),
        Err(Error::InvalidArgument)
    );
    assert_eq!(
        bc.send_mode_command(addr(1), ModeCode::TransmitVectorWord, None),
        Err(Error::InvalidArgument)
    );
    assert!(bc.bus().written.is_empty());
}

#[test]
fn mode_command_reports_wrong_word_role() {
    let mut bc = BusController::new(MockBus::new(vec![Word::Data(DataWord::from_u16(3))]));
    assert_eq!(
        bc.send_mode_command(addr(2), ModeCode::ResetRT, None),
        Err(Error::ProtocolError { expected: WordFormat::StatusWord, got: WordFormat::DataWord })
    );

    let s = StatusWord::from_u16(0);
    let mut bc = BusController::new(MockBus::new(vec![Word::Status(s), Word::Status(s)]));
    let mut out = DataWord::from_u16(77);
    assert_eq!(
        bc.send_mode_command(addr(2), ModeCode::TransmitBITWord, Some(&mut out)),
        Err(Error::ProtocolError { expected: WordFormat::DataWord, got: WordFormat::StatusWord })
    );
    assert_eq!(out.value(), 77);
}
