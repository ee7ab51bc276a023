use mil1553::primitives::{
    AlignableBitField, AlignableComplexBitField, BitField, ComplexBitField, align_field,
    read_field, set_field,
};
use mil1553::words::{
    Busy, CommandWordData, MessageError, ModeCode, RTAction, RTAddr, TerminalFlag,
};

const SAMPLE_WORDS: [u16; 6] = [0x0000, 0xffff, 0xa5a5, 0x5a5a, 0x1234, 0x8001];

#[test]
fn bit_field_keeps_its_value() {
    assert_eq!(BitField::<5>::new(23).value(), 23);
    assert_eq!(BitField::<1>::new(1).value(), 1);
    assert_eq!(BitField::<8>::new(255).value(), 255);
    assert_eq!(ComplexBitField::<10>::new(1023).value(), 1023);
    assert_eq!(ComplexBitField::<16>::new(0xffff).value(), 0xffff);
}

#[test]
fn field_read_after_set_gives_value_for_every_layout() {
    for n in 1u16..=16 {
        for l in 0u16..=(16 - n) {
            let max: u32 = (1u32 << n) - 1;
            for w in SAMPLE_WORDS {
                for v in [0u32, 1, max / 2, max] {
                    let v = v as u16;
                    let set = set_field(w, v, n, l);
                    assert_eq!(read_field(set, n, l), v);
                    // bits outside the field are kept
                    let outside: u16 = !((max as u16) << l);
                    assert_eq!(set & outside, w & outside);
                }
                assert_eq!(set_field(w, read_field(w, n, l), n, l), w);
            }
        }
    }
}

#[test]
fn align_field_shifts_into_place() {
    assert_eq!(align_field(23, 5, 11), 0b1011100000000000);
    assert_eq!(align_field(1, 1, 10), 0b0000010000000000);
    assert_eq!(align_field(0b1111110010, 10, 0), 0b1111110010);
}

#[test]
fn typed_fields_read_back_what_was_set() {
    for w in SAMPLE_WORDS {
        for a in [RTAddr::Single(BitField::new(0)), RTAddr::Single(BitField::new(30)), RTAddr::Broadcast]
        {
            assert_eq!(RTAddr::read(a.set_in(w)), a);
        }
        assert_eq!(RTAddr::read(w).set_in(w), w);
        for tr in [RTAction::Transmit, RTAction::Receive] {
            assert_eq!(RTAction::read(tr.set_in(w)), tr);
        }
        assert_eq!(RTAction::read(w).set_in(w), w);
        for b in [true, false] {
            assert_eq!(MessageError::read(MessageError(b).set_in(w)), MessageError(b));
            assert_eq!(Busy::read(Busy(b).set_in(w)), Busy(b));
            assert_eq!(TerminalFlag::read(TerminalFlag(b).set_in(w)), TerminalFlag(b));
        }
        let d = CommandWordData::ModeCode(ModeCode::ResetRT);
        assert_eq!(CommandWordData::read(d.set_in(w)), d);
        let t = CommandWordData::DataTransfer {
            subaddress: BitField::new(9),
            word_count: BitField::new(0),
        };
        assert_eq!(CommandWordData::read(t.set_in(w)), t);
    }
}

#[test]
fn typed_fields_align_to_their_position() {
    assert_eq!(RTAddr::Broadcast.align_to_word(), 0b1111100000000000);
    assert_eq!(RTAction::Transmit.align_to_word(), 0b0000010000000000);
    assert_eq!(MessageError(true).align_to_word(), 0b0000010000000000);
    assert_eq!(
        CommandWordData::ModeCode(ModeCode::TransmitLastCommand).align_to_word(),
        0b0000001111110010
    );
}

#[test]
fn mode_code_subaddress_zero_reads_as_mode_command() {
    assert_eq!(
        CommandWordData::read(0b0000000000010010),
        CommandWordData::ModeCode(ModeCode::TransmitLastCommand)
    );
    assert_eq!(
        CommandWordData::read(0b0000001111101111),
        CommandWordData::ModeCode(ModeCode::Invalid)
    );
}
