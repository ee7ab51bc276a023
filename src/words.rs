//! The three word formats of the bus (Command, Status, Data) and the
//! mode-code table.
use vstd::prelude::*;
use crate::primitives::{
    AlignableBitField, AlignableComplexBitField, BitField, ComplexBitField, fits, get_bits, mask,
    set_bits, read_field, lemma_read_set_in, lemma_set_in_keeps_others,
};

verus! {

/// Subaddress that marks a mode command, still recognised when read.
pub const SUBADDRESS_MODE_CODE_0: u8 = 0b00000;

/// Subaddress that marks a mode command, written by this library.
pub const SUBADDRESS_MODE_CODE_1: u8 = 0b11111;

/// Address field value that addresses every remote terminal at once.
pub const BROADCAST_ADDR: u8 = 0b11111;

/// What went wrong in a codec or bus controller call.
#[derive(Clone, Copy, Debug, PartialEq, Eq, Structural)]
pub enum Error {
    /// A precondition of the call was not met.
    InvalidArgument,
    /// A word of the wrong role arrived during a transaction.
    ProtocolError { expected: WordFormat, got: WordFormat },
}

/// The role of a word on the bus.
#[derive(Clone, Copy, Debug, PartialEq, Eq, Structural)]
pub enum WordFormat {
    CommandWord,
    DataWord,
    StatusWord,
}

/// Address of a remote terminal, or all of them.
#[derive(Clone, Copy, Debug, PartialEq, Eq)]
pub enum RTAddr {
    Single(BitField<5>),
    Broadcast,
}

impl RTAddr {
    /// The 5-bit address field this address is written as.
    pub open spec fn bits(self) -> u8 {
        match self {
            RTAddr::Single(b) => b@,
            RTAddr::Broadcast => BROADCAST_ADDR,
        }
    }

    /// Whether the address reaches every terminal (`Single(31)` aliases `Broadcast`).
    pub open spec fn is_broadcast(self) -> bool {
        self.bits() == BROADCAST_ADDR
    }

    /// Whether the address is in its canonical form: `Single` holds 0 to 30.
    pub open spec fn is_canonical(self) -> bool {
        match self {
            RTAddr::Single(b) => b@ < BROADCAST_ADDR,
            RTAddr::Broadcast => true,
        }
    }

    /// Whether the address reaches every terminal.
    pub fn is_broadcast_addr(&self) -> (r: bool)
        ensures
            r == self.is_broadcast(),
    {
        match self {
            RTAddr::Single(b) => b.value() == BROADCAST_ADDR,
            RTAddr::Broadcast => true,
        }
    }
}

impl AlignableBitField<5, 11> for RTAddr {
    open spec fn field(&self) -> u8 {
        self.bits()
    }

    open spec fn of_field(v: u8) -> Self {
        if v == BROADCAST_ADDR {
            RTAddr::Broadcast
        } else {
            RTAddr::Single(BitField::from_raw(v))
        }
    }

    fn to_bit_field(&self) -> (r: BitField<5>) {
        match self {
            RTAddr::Single(b) => *b,
            RTAddr::Broadcast => {
                assert(fits(31, 5)) by (bit_vector);
                BitField::new(BROADCAST_ADDR)
            },
        }
    }

    fn from_bit_field(f: BitField<5>) -> (r: Self) {
        if f.value() == BROADCAST_ADDR {
            RTAddr::Broadcast
        } else {
            proof {
                BitField::<5>::lemma_from_raw_of_view(f);
            }
            RTAddr::Single(f)
        }
    }
}

/// Direction of the transfer, seen from the remote terminal.
#[derive(Clone, Copy, Debug, PartialEq, Eq, Structural)]
pub enum RTAction {
    Transmit,
    Receive,
}

impl AlignableBitField<1, 10> for RTAction {
    open spec fn field(&self) -> u8 {
        match self {
            RTAction::Transmit => 1,
            RTAction::Receive => 0,
        }
    }

    open spec fn of_field(v: u8) -> Self {
        if v == 1 {
            RTAction::Transmit
        } else {
            RTAction::Receive
        }
    }

    fn to_bit_field(&self) -> (r: BitField<1>) {
        assert(fits(0, 1) && fits(1, 1)) by (bit_vector);
        match self {
            RTAction::Transmit => BitField::new(1),
            RTAction::Receive => BitField::new(0),
        }
    }

    fn from_bit_field(f: BitField<1>) -> (r: Self) {
        if f.value() == 1 {
            RTAction::Transmit
        } else {
            RTAction::Receive
        }
    }
}

/// The defined mode codes; every other 5-bit pattern reads as `Invalid`.
#[derive(Clone, Copy, Debug, PartialEq, Eq, Structural)]
pub enum ModeCode {
    DynamicBusControl,
    Synchronize,
    TransmitStatusWord,
    InitiateSelfTest,
    TransmitterShutdown,
    OverrideTransmitter,
    InhibitTerminalFlagBit,
    OverrideInhibitTerminalFlagBit,
    ResetRT,
    TransmitVectorWord,
    SynchronizeWithDataWord,
    TransmitLastCommand,
    TransmitBITWord,
    SelectedTransmitter,
    OverrideSelectedTransmitter,
    Invalid,
}

/// The 5-bit value a mode code is written as; `Invalid` is written as `0b11111`.
pub open spec fn code_value(code: ModeCode) -> u8 {
    match code {
        ModeCode::DynamicBusControl => 0b00000,
        ModeCode::Synchronize => 0b00001,
        ModeCode::TransmitStatusWord => 0b00010,
        ModeCode::InitiateSelfTest => 0b00011,
        ModeCode::TransmitterShutdown => 0b00100,
        ModeCode::OverrideTransmitter => 0b00101,
        ModeCode::InhibitTerminalFlagBit => 0b00110,
        ModeCode::OverrideInhibitTerminalFlagBit => 0b00111,
        ModeCode::ResetRT => 0b01000,
        ModeCode::TransmitVectorWord => 0b10000,
        ModeCode::SynchronizeWithDataWord => 0b10001,
        ModeCode::TransmitLastCommand => 0b10010,
        ModeCode::TransmitBITWord => 0b10011,
        ModeCode::SelectedTransmitter => 0b10100,
        ModeCode::OverrideSelectedTransmitter => 0b10101,
        ModeCode::Invalid => 0b11111,
    }
}

/// The mode code that the value `v` reads as.
pub open spec fn code_of_value(v: u8) -> ModeCode {
    if v == 0b00000 {
        ModeCode::DynamicBusControl
    } else if v == 0b00001 {
        ModeCode::Synchronize
    } else if v == 0b00010 {
        ModeCode::TransmitStatusWord
    } else if v == 0b00011 {
        ModeCode::InitiateSelfTest
    } else if v == 0b00100 {
        ModeCode::TransmitterShutdown
    } else if v == 0b00101 {
        ModeCode::OverrideTransmitter
    } else if v == 0b00110 {
        ModeCode::InhibitTerminalFlagBit
    } else if v == 0b00111 {
        ModeCode::OverrideInhibitTerminalFlagBit
    } else if v == 0b01000 {
        ModeCode::ResetRT
    } else if v == 0b10000 {
        ModeCode::TransmitVectorWord
    } else if v == 0b10001 {
        ModeCode::SynchronizeWithDataWord
    } else if v == 0b10010 {
        ModeCode::TransmitLastCommand
    } else if v == 0b10011 {
        ModeCode::TransmitBITWord
    } else if v == 0b10100 {
        ModeCode::SelectedTransmitter
    } else if v == 0b10101 {
        ModeCode::OverrideSelectedTransmitter
    } else {
        ModeCode::Invalid
    }
}

/// What the protocol fixes for a mode code: the T/R bit it forces, whether a
/// data word travels with the command, and whether it may be broadcast.
#[derive(Clone, Copy, Debug, PartialEq, Eq, Structural)]
pub struct ModeCodeOptions {
    pub tr: RTAction,
    pub requires_data_word: bool,
    pub broadcast_allowed: bool,
}

/// The mode-code table. `Invalid` has no entry of its own: it forces
/// nothing useful and is never allowed to be broadcast.
pub open spec fn options_of(code: ModeCode) -> ModeCodeOptions {
    let t = RTAction::Transmit;
    let r = RTAction::Receive;
    match code {
        ModeCode::DynamicBusControl => ModeCodeOptions { tr: t, requires_data_word: false, broadcast_allowed: false },
        ModeCode::Synchronize => ModeCodeOptions { tr: t, requires_data_word: false, broadcast_allowed: true },
        ModeCode::TransmitStatusWord => ModeCodeOptions { tr: t, requires_data_word: false, broadcast_allowed: false },
        ModeCode::InitiateSelfTest => ModeCodeOptions { tr: t, requires_data_word: false, broadcast_allowed: true },
        ModeCode::TransmitterShutdown => ModeCodeOptions { tr: t, requires_data_word: false, broadcast_allowed: true },
        ModeCode::OverrideTransmitter => ModeCodeOptions { tr: t, requires_data_word: false, broadcast_allowed: true },
        ModeCode::InhibitTerminalFlagBit => ModeCodeOptions { tr: t, requires_data_word: false, broadcast_allowed: true },
        ModeCode::OverrideInhibitTerminalFlagBit => ModeCodeOptions { tr: t, requires_data_word: false, broadcast_allowed: true },
        ModeCode::ResetRT => ModeCodeOptions { tr: t, requires_data_word: false, broadcast_allowed: true },
        ModeCode::TransmitVectorWord => ModeCodeOptions { tr: t, requires_data_word: true, broadcast_allowed: false },
        ModeCode::SynchronizeWithDataWord => ModeCodeOptions { tr: r, requires_data_word: true, broadcast_allowed: true },
        ModeCode::TransmitLastCommand => ModeCodeOptions { tr: t, requires_data_word: true, broadcast_allowed: false },
        ModeCode::TransmitBITWord => ModeCodeOptions { tr: t, requires_data_word: true, broadcast_allowed: false },
        ModeCode::SelectedTransmitter => ModeCodeOptions { tr: r, requires_data_word: true, broadcast_allowed: true },
        ModeCode::OverrideSelectedTransmitter => ModeCodeOptions { tr: r, requires_data_word: true, broadcast_allowed: true },
        ModeCode::Invalid => ModeCodeOptions { tr: t, requires_data_word: false, broadcast_allowed: false },
    }
}

/// The T/R bit that a mode code forces.
pub open spec fn tr_of(code: ModeCode) -> RTAction {
    options_of(code).tr
}

/// Whether a mode code may be sent to the broadcast address (never for `Invalid`).
pub open spec fn broadcast_allowed(code: ModeCode) -> bool {
    options_of(code).broadcast_allowed
}

impl ModeCode {
    pub fn associated_options(&self) -> (r: ModeCodeOptions)
        requires
            *self != ModeCode::Invalid,
        ensures
            r == options_of(*self),
    {
        let t = RTAction::Transmit;
        let r = RTAction::Receive;
        match *self {
            ModeCode::DynamicBusControl => ModeCodeOptions {
                tr: t,
                requires_data_word: false,
                broadcast_allowed: false,
            },
            ModeCode::Synchronize => ModeCodeOptions {
                tr: t,
                requires_data_word: false,
                broadcast_allowed: true,
            },
            ModeCode::TransmitStatusWord => ModeCodeOptions {
                tr: t,
                requires_data_word: false,
                broadcast_allowed: false,
            },
            ModeCode::InitiateSelfTest => ModeCodeOptions {
                tr: t,
                requires_data_word: false,
                broadcast_allowed: true,
            },
            ModeCode::TransmitterShutdown => ModeCodeOptions {
                tr: t,
                requires_data_word: false,
                broadcast_allowed: true,
            },
            ModeCode::OverrideTransmitter => ModeCodeOptions {
                tr: t,
                requires_data_word: false,
                broadcast_allowed: true,
            },
            ModeCode::InhibitTerminalFlagBit => ModeCodeOptions {
                tr: t,
                requires_data_word: false,
                broadcast_allowed: true,
            },
            ModeCode::OverrideInhibitTerminalFlagBit => ModeCodeOptions {
                tr: t,
                requires_data_word: false,
                broadcast_allowed: true,
            },
            ModeCode::ResetRT => ModeCodeOptions {
                tr: t,
                requires_data_word: false,
                broadcast_allowed: true,
            },
            ModeCode::TransmitVectorWord => ModeCodeOptions {
                tr: t,
                requires_data_word: true,
                broadcast_allowed: false,
            },
            ModeCode::SynchronizeWithDataWord => ModeCodeOptions {
                tr: r,
                requires_data_word: true,
                broadcast_allowed: true,
            },
            ModeCode::TransmitLastCommand => ModeCodeOptions {
                tr: t,
                requires_data_word: true,
                broadcast_allowed: false,
            },
            ModeCode::TransmitBITWord => ModeCodeOptions {
                tr: t,
                requires_data_word: true,
                broadcast_allowed: false,
            },
            ModeCode::SelectedTransmitter => ModeCodeOptions {
                tr: r,
                requires_data_word: true,
                broadcast_allowed: true,
            },
            ModeCode::OverrideSelectedTransmitter => ModeCodeOptions {
                tr: r,
                requires_data_word: true,
                broadcast_allowed: true,
            },
            // excluded by the precondition
            ModeCode::Invalid => ModeCodeOptions {
                tr: t,
                requires_data_word: false,
                broadcast_allowed: false,
            },
        }
    }
}

impl ModeCode {
    /// The 5-bit value the code is written as.
    pub fn value(&self) -> (r: u8)
        ensures
            r == code_value(*self),
    {
        match *self {
            ModeCode::DynamicBusControl => 0b00000,
            ModeCode::Synchronize => 0b00001,
            ModeCode::TransmitStatusWord => 0b00010,
            ModeCode::InitiateSelfTest => 0b00011,
            ModeCode::TransmitterShutdown => 0b00100,
            ModeCode::OverrideTransmitter => 0b00101,
            ModeCode::InhibitTerminalFlagBit => 0b00110,
            ModeCode::OverrideInhibitTerminalFlagBit => 0b00111,
            ModeCode::ResetRT => 0b01000,
            ModeCode::TransmitVectorWord => 0b10000,
            ModeCode::SynchronizeWithDataWord => 0b10001,
            ModeCode::TransmitLastCommand => 0b10010,
            ModeCode::TransmitBITWord => 0b10011,
            ModeCode::SelectedTransmitter => 0b10100,
            ModeCode::OverrideSelectedTransmitter => 0b10101,
            ModeCode::Invalid => 0b11111,
        }
    }
}


impl ModeCode {
    /// The mode code that a 5-bit value reads as.
    pub fn from_value(value: u8) -> (r: ModeCode)
        ensures
            r == code_of_value(value),
    {
        match value {
            0b00000 => ModeCode::DynamicBusControl,
            0b00001 => ModeCode::Synchronize,
            0b00010 => ModeCode::TransmitStatusWord,
            0b00011 => ModeCode::InitiateSelfTest,
            0b00100 => ModeCode::TransmitterShutdown,
            0b00101 => ModeCode::OverrideTransmitter,
            0b00110 => ModeCode::InhibitTerminalFlagBit,
            0b00111 => ModeCode::OverrideInhibitTerminalFlagBit,
            0b01000 => ModeCode::ResetRT,
            0b10000 => ModeCode::TransmitVectorWord,
            0b10001 => ModeCode::SynchronizeWithDataWord,
            0b10010 => ModeCode::TransmitLastCommand,
            0b10011 => ModeCode::TransmitBITWord,
            0b10100 => ModeCode::SelectedTransmitter,
            0b10101 => ModeCode::OverrideSelectedTransmitter,
            _ => ModeCode::Invalid,
        }
    }
}


/// The 10-bit data field of a data-transfer command.
pub open spec fn data_transfer_field(subaddress: u8, word_count: u8) -> u16 {
    ((subaddress as u16) << 5u16) | (word_count as u16)
}

/// The 10-bit data field of a mode command: subaddress `0b11111`, then the code.
pub open spec fn mode_code_field(code: ModeCode) -> u16 {
    ((SUBADDRESS_MODE_CODE_1 as u16) << 5u16) | (code_value(code) as u16)
}

/// A subaddress that selects a buffer rather than marking a mode command.
pub open spec fn is_transfer_subaddress(subaddress: u8) -> bool {
    subaddress != SUBADDRESS_MODE_CODE_0 && subaddress != SUBADDRESS_MODE_CODE_1
}

/// Splitting a packed 10-bit data field gives back its two halves.
pub proof fn lemma_data_field_parts(s: u16, c: u16)
    requires
        s <= 31,
        c <= 31,
    ensures
        fits((s << 5u16) | c, 10),
        get_bits((s << 5u16) | c, 5, 5) == s,
        get_bits((s << 5u16) | c, 5, 0) == c,
{
    assert(fits((s << 5u16) | c, 10) && get_bits((s << 5u16) | c, 5, 5) == s && get_bits(
        (s << 5u16) | c,
        5,
        0,
    ) == c) by (bit_vector)
        requires
            s <= 31,
            c <= 31,
    ;
}

/// Splitting a packed command word gives back its address, T/R and data fields.
pub proof fn lemma_command_fields(a: u16, t: u16, d: u16)
    requires
        a <= 31,
        t <= 1,
        fits(d, 10),
    ensures
        get_bits((a << 11u16) | (t << 10u16) | d, 5, 11) == a,
        get_bits((a << 11u16) | (t << 10u16) | d, 1, 10) == t,
        get_bits((a << 11u16) | (t << 10u16) | d, 10, 0) == d,
{
    assert(get_bits((a << 11u16) | (t << 10u16) | d, 5, 11) == a && get_bits(
        (a << 11u16) | (t << 10u16) | d,
        1,
        10,
    ) == t && get_bits((a << 11u16) | (t << 10u16) | d, 10, 0) == d) by (bit_vector)
        requires
            a <= 31,
            t <= 1,
            d <= mask(10),
    ;
}

proof fn lemma_shl_zero(v: u16)
    ensures
        v << 0u16 == v,
{
    assert(v << 0u16 == v) by (bit_vector);
}

proof fn lemma_five_bits(v: u16)
    requires
        fits(v, 5),
    ensures
        v <= 31,
{
    assert(v <= 31) by (bit_vector)
        requires
            v <= mask(5),
    ;
}

/// The low ten bits of a command word: a data transfer or a mode code.
#[derive(Clone, Copy, Debug, PartialEq, Eq)]
pub enum CommandWordData {
    DataTransfer { subaddress: BitField<5>, word_count: BitField<5> },
    ModeCode(ModeCode),
}

impl AlignableComplexBitField<10, 0> for CommandWordData {
    open spec fn field(&self) -> u16 {
        match self {
            CommandWordData::DataTransfer { subaddress, word_count } => data_transfer_field(
                subaddress@,
                word_count@,
            ),
            CommandWordData::ModeCode(code) => mode_code_field(*code),
        }
    }

    /// Subaddress `0b00000` or `0b11111` marks a mode command; anything else is a transfer.
    open spec fn of_field(v: u16) -> Self {
        let subaddress = get_bits(v, 5, 5) as u8;
        let low = get_bits(v, 5, 0) as u8;
        if is_transfer_subaddress(subaddress) {
            CommandWordData::DataTransfer {
                subaddress: BitField::from_raw(subaddress),
                word_count: BitField::from_raw(low),
            }
        } else {
            CommandWordData::ModeCode(code_of_value(low))
        }
    }

    fn to_bit_field(&self) -> (r: ComplexBitField<10>) {
        match self {
            CommandWordData::DataTransfer { subaddress, word_count } => {
                let s = subaddress.value() as u16;
                let c = word_count.value() as u16;
                proof {
                    lemma_five_bits(s);
                    lemma_five_bits(c);
                    lemma_data_field_parts(s, c);
                }
                ComplexBitField::new((s << 5) | c)
            },
            CommandWordData::ModeCode(code) => {
                let c = code.value() as u16;
                let s = SUBADDRESS_MODE_CODE_1 as u16;
                proof {
                    lemma_data_field_parts(s, c);
                }
                ComplexBitField::new((s << 5) | c)
            },
        }
    }

    fn from_bit_field(f: ComplexBitField<10>) -> (r: Self) {
        let v = f.value();
        let subaddress = read_field(v, 5, 5) as u8;
        let low = read_field(v, 5, 0) as u8;
        if subaddress == SUBADDRESS_MODE_CODE_0 || subaddress == SUBADDRESS_MODE_CODE_1 {
            CommandWordData::ModeCode(ModeCode::from_value(low))
        } else {
            let s = BitField::<5>::new(subaddress);
            let c = BitField::<5>::new(low);
            proof {
                BitField::<5>::lemma_from_raw_of_view(s);
                BitField::<5>::lemma_from_raw_of_view(c);
            }
            CommandWordData::DataTransfer { subaddress: s, word_count: c }
        }
    }
}

/// The address field of a command or status word.
pub open spec fn rt_addr_of(w: u16) -> RTAddr {
    <RTAddr as AlignableBitField<5, 11>>::of_field(get_bits(w, 5, 11) as u8)
}

/// The T/R bit of a command word.
pub open spec fn action_of(w: u16) -> RTAction {
    <RTAction as AlignableBitField<1, 10>>::of_field(get_bits(w, 1, 10) as u8)
}

/// The data field of a command word, decoded.
pub open spec fn command_data_of(w: u16) -> CommandWordData {
    CommandWordData::of_field(get_bits(w, 10, 0))
}

/// Whether the command word holds a mode command.
pub open spec fn is_mode_command(w: u16) -> bool {
    command_data_of(w) is ModeCode
}

/// The command word of a mode command; the T/R bit comes from the code.
pub open spec fn mode_command_word(addr: RTAddr, code: ModeCode) -> u16 {
    ((addr.bits() as u16) << 11u16) | ((tr_of(code).field() as u16) << 10u16) | mode_code_field(
        code,
    )
}

/// The command word of a data transfer.
pub open spec fn data_transfer_word(
    addr: RTAddr,
    tr: RTAction,
    subaddress: BitField<5>,
    word_count: BitField<5>,
) -> u16 {
    ((addr.bits() as u16) << 11u16) | ((tr.field() as u16) << 10u16) | data_transfer_field(
        subaddress@,
        word_count@,
    )
}

/// Whether a mode command with this code may not go to this address: the code
/// is `Invalid`, or it is sent to the broadcast address and does not allow it.
pub open spec fn mode_command_refused(addr: RTAddr, code: ModeCode) -> bool {
    code == ModeCode::Invalid || (addr.is_broadcast() && !broadcast_allowed(code))
}

/// Whether the command word holds a mode command that may not be broadcast.
pub open spec fn forbids_broadcast(w: u16) -> bool {
    match command_data_of(w) {
        CommandWordData::ModeCode(code) => !broadcast_allowed(code),
        CommandWordData::DataTransfer { .. } => false,
    }
}

/// Whether a mode code may be sent to the broadcast address.
fn broadcast_permitted(code: ModeCode) -> (r: bool)
    ensures
        r == broadcast_allowed(code),
{
    match code {
        ModeCode::Invalid => false,
        _ => code.associated_options().broadcast_allowed,
    }
}

/// Command word (16 bits): address in `[11, 16)`, T/R in bit 10, subaddress
/// in `[5, 10)`, word count or mode code in `[0, 5)`.
#[derive(Clone, Copy, Debug, PartialEq, Eq, Structural)]
pub struct CommandWord {
    raw_value: u16,
}

impl View for CommandWord {
    type V = u16;

    closed spec fn view(&self) -> u16 {
        self.raw_value
    }
}

impl CommandWord {
    /// A mode command to `rt_addr`; the T/R bit is the one the code forces.
    pub fn new_mode_command(rt_addr: RTAddr, code: ModeCode) -> (r: Result<Self, Error>)
        ensures
            match r {
                Ok(w) => !mode_command_refused(rt_addr, code) && w@ == mode_command_word(
                    rt_addr,
                    code,
                ),
                Err(e) => mode_command_refused(rt_addr, code) && e == Error::InvalidArgument,
            },
    {
        if !broadcast_permitted(code) && rt_addr.is_broadcast_addr() {
            return Err(Error::InvalidArgument);
        }
        if let ModeCode::Invalid = code {
            return Err(Error::InvalidArgument);
        }
        let options = code.associated_options();
        let data = CommandWordData::ModeCode(code);
        let raw_value = rt_addr.align_to_word() | options.tr.align_to_word() | data.align_to_word();
        proof {
            lemma_shl_zero(data.field());
        }
        Ok(Self { raw_value })
    }

    /// The command word whose bits are `value`.
    pub fn from_u16(value: u16) -> (r: Self)
        ensures
            r@ == value,
    {
        Self { raw_value: value }
    }

    /// The command word's 16 bits, without sync and parity.
    pub fn value(&self) -> (r: u16)
        ensures
            r == self@,
    {
        self.raw_value
    }

    /// A data transfer command; the subaddress may not be one that marks a mode command.
    pub fn new_data_transfer(
        rt_addr: RTAddr,
        tr: RTAction,
        subaddress: BitField<5>,
        word_count: BitField<5>,
    ) -> (r: Result<Self, Error>)
        ensures
            match r {
                Ok(w) => is_transfer_subaddress(subaddress@) && w@ == data_transfer_word(
                    rt_addr,
                    tr,
                    subaddress,
                    word_count,
                ),
                Err(e) => !is_transfer_subaddress(subaddress@) && e == Error::InvalidArgument,
            },
    {
        let s = subaddress.value();
        if s == SUBADDRESS_MODE_CODE_0 || s == SUBADDRESS_MODE_CODE_1 {
            return Err(Error::InvalidArgument);
        }
        let data = CommandWordData::DataTransfer { subaddress, word_count };
        let raw_value = rt_addr.align_to_word() | tr.align_to_word() | data.align_to_word();
        proof {
            lemma_shl_zero(data.field());
        }
        Ok(Self { raw_value })
    }

    pub fn get_rt_addr(&self) -> (r: RTAddr)
        ensures
            r == rt_addr_of(self@),
    {
        RTAddr::read(self.raw_value)
    }

    /// Rewrites the address; refused when the word holds a mode command that
    /// may not be broadcast and `addr` is the broadcast address.
    pub fn set_rt_addr(&mut self, addr: RTAddr) -> (r: Result<(), Error>)
        ensures
            match r {
                Ok(()) => !(addr.is_broadcast() && forbids_broadcast(old(self)@)) && final(self)@
                    == set_bits(old(self)@, addr.bits() as u16, 5, 11),
                Err(e) => addr.is_broadcast() && forbids_broadcast(old(self)@) && e
                    == Error::InvalidArgument && final(self)@ == old(self)@,
            },
    {
        if addr.is_broadcast_addr() {
            if let CommandWordData::ModeCode(code) = self.get_command_data() {
                if !broadcast_permitted(code) {
                    return Err(Error::InvalidArgument);
                }
            }
        }
        self.raw_value = addr.set_in(self.raw_value);
        Ok(())
    }

    pub fn get_tr_bit(&self) -> (r: RTAction)
        ensures
            r == action_of(self@),
    {
        RTAction::read(self.raw_value)
    }

    /// Sets the T/R bit of a data transfer; on a mode command the bit belongs
    /// to the code and the word is left as it is.
    pub fn set_tr_bit(&mut self, tr: RTAction)
        ensures
            final(self)@ == if is_mode_command(old(self)@) {
                old(self)@
            } else {
                set_bits(old(self)@, tr.field() as u16, 1, 10)
            },
    {
        if let CommandWordData::DataTransfer { .. } = self.get_command_data() {
            self.raw_value = tr.set_in(self.raw_value);
        }
    }

    pub fn get_command_data(&self) -> (r: CommandWordData)
        ensures
            r == command_data_of(self@),
    {
        CommandWordData::read(self.raw_value)
    }

    /// Turns the word into a mode command with `code`, with the T/R bit the
    /// code forces. Refused when the code is `Invalid`, or when the word is
    /// addressed to broadcast and the code does not allow it.
    pub fn set_command_mode(&mut self, code: ModeCode) -> (r: Result<(), Error>)
        ensures
            match r {
                Ok(()) => !mode_command_refused(rt_addr_of(old(self)@), code) && final(self)@
                    == set_bits(
                    set_bits(old(self)@, tr_of(code).field() as u16, 1, 10),
                    mode_code_field(code),
                    10,
                    0,
                ),
                Err(e) => mode_command_refused(rt_addr_of(old(self)@), code) && e
                    == Error::InvalidArgument && final(self)@ == old(self)@,
            },
    {
        let addr = self.get_rt_addr();
        proof {
            BitField::<5>::lemma_from_raw_view(get_bits(self@, 5, 11) as u8);
        }
        if !broadcast_permitted(code) && addr.is_broadcast_addr() {
            return Err(Error::InvalidArgument);
        }
        if let ModeCode::Invalid = code {
            return Err(Error::InvalidArgument);
        }
        let options = code.associated_options();
        self.raw_value = options.tr.set_in(self.raw_value);
        self.raw_value = CommandWordData::ModeCode(code).set_in(self.raw_value);
        Ok(())
    }

    /// Turns the word into a data transfer; the subaddress may not be one that
    /// marks a mode command.
    pub fn set_data_transfer(&mut self, subaddress: BitField<5>, word_count: BitField<5>) -> (r:
        Result<(), Error>)
        ensures
            match r {
                Ok(()) => is_transfer_subaddress(subaddress@) && final(self)@ == set_bits(
                    old(self)@,
                    data_transfer_field(subaddress@, word_count@),
                    10,
                    0,
                ),
                Err(e) => !is_transfer_subaddress(subaddress@) && e == Error::InvalidArgument
                    && final(self)@ == old(self)@,
            },
    {
        let s = subaddress.value();
        if s == SUBADDRESS_MODE_CODE_0 || s == SUBADDRESS_MODE_CODE_1 {
            return Err(Error::InvalidArgument);
        }
        let data = CommandWordData::DataTransfer { subaddress, word_count };
        self.raw_value = data.set_in(self.raw_value);
        Ok(())
    }
}

/// `1` for a set flag, `0` for a clear one.
pub open spec fn flag_value(b: bool) -> u16 {
    if b {
        1
    } else {
        0
    }
}

/// Whether bit `k` of `w` is set.
pub open spec fn flag_at(w: u16, k: u16) -> bool {
    get_bits(w, 1, k) == 1
}

fn flag_bit_field(b: bool) -> (r: BitField<1>)
    ensures
        r@ == flag_value(b),
{
    assert(fits(0, 1) && fits(1, 1)) by (bit_vector);
    if b {
        BitField::new(1)
    } else {
        BitField::new(0)
    }
}

/// Status word Message Error bit.
#[derive(Clone, Copy, Debug, PartialEq, Eq, Structural)]
pub struct MessageError(pub bool);

impl AlignableBitField<1, 10> for MessageError {
    open spec fn field(&self) -> u8 {
        flag_value(self.0) as u8
    }

    open spec fn of_field(v: u8) -> Self {
        MessageError(v == 1)
    }

    fn to_bit_field(&self) -> (r: BitField<1>) {
        flag_bit_field(self.0)
    }

    fn from_bit_field(f: BitField<1>) -> (r: Self) {
        MessageError(f.value() == 1)
    }
}

/// Status word Instrumentation bit.
#[derive(Clone, Copy, Debug, PartialEq, Eq, Structural)]
pub struct Instrumentation(pub bool);

impl AlignableBitField<1, 9> for Instrumentation {
    open spec fn field(&self) -> u8 {
        flag_value(self.0) as u8
    }

    open spec fn of_field(v: u8) -> Self {
        Instrumentation(v == 1)
    }

    fn to_bit_field(&self) -> (r: BitField<1>) {
        flag_bit_field(self.0)
    }

    fn from_bit_field(f: BitField<1>) -> (r: Self) {
        Instrumentation(f.value() == 1)
    }
}

/// Status word Service Request bit.
#[derive(Clone, Copy, Debug, PartialEq, Eq, Structural)]
pub struct ServiceRequest(pub bool);

impl AlignableBitField<1, 8> for ServiceRequest {
    open spec fn field(&self) -> u8 {
        flag_value(self.0) as u8
    }

    open spec fn of_field(v: u8) -> Self {
        ServiceRequest(v == 1)
    }

    fn to_bit_field(&self) -> (r: BitField<1>) {
        flag_bit_field(self.0)
    }

    fn from_bit_field(f: BitField<1>) -> (r: Self) {
        ServiceRequest(f.value() == 1)
    }
}

/// Status word Broadcast Command Received bit.
#[derive(Clone, Copy, Debug, PartialEq, Eq, Structural)]
pub struct BroadcastCommand(pub bool);

impl AlignableBitField<1, 4> for BroadcastCommand {
    open spec fn field(&self) -> u8 {
        flag_value(self.0) as u8
    }

    open spec fn of_field(v: u8) -> Self {
        BroadcastCommand(v == 1)
    }

    fn to_bit_field(&self) -> (r: BitField<1>) {
        flag_bit_field(self.0)
    }

    fn from_bit_field(f: BitField<1>) -> (r: Self) {
        BroadcastCommand(f.value() == 1)
    }
}

/// Status word Busy bit.
#[derive(Clone, Copy, Debug, PartialEq, Eq, Structural)]
pub struct Busy(pub bool);

impl AlignableBitField<1, 3> for Busy {
    open spec fn field(&self) -> u8 {
        flag_value(self.0) as u8
    }

    open spec fn of_field(v: u8) -> Self {
        Busy(v == 1)
    }

    fn to_bit_field(&self) -> (r: BitField<1>) {
        flag_bit_field(self.0)
    }

    fn from_bit_field(f: BitField<1>) -> (r: Self) {
        Busy(f.value() == 1)
    }
}

/// Status word Subsystem Flag bit.
#[derive(Clone, Copy, Debug, PartialEq, Eq, Structural)]
pub struct Subsystem(pub bool);

impl AlignableBitField<1, 2> for Subsystem {
    open spec fn field(&self) -> u8 {
        flag_value(self.0) as u8
    }

    open spec fn of_field(v: u8) -> Self {
        Subsystem(v == 1)
    }

    fn to_bit_field(&self) -> (r: BitField<1>) {
        flag_bit_field(self.0)
    }

    fn from_bit_field(f: BitField<1>) -> (r: Self) {
        Subsystem(f.value() == 1)
    }
}

/// Status word Dynamic Bus Control Accept bit.
#[derive(Clone, Copy, Debug, PartialEq, Eq, Structural)]
pub struct DynamicBusControl(pub bool);

impl AlignableBitField<1, 1> for DynamicBusControl {
    open spec fn field(&self) -> u8 {
        flag_value(self.0) as u8
    }

    open spec fn of_field(v: u8) -> Self {
        DynamicBusControl(v == 1)
    }

    fn to_bit_field(&self) -> (r: BitField<1>) {
        flag_bit_field(self.0)
    }

    fn from_bit_field(f: BitField<1>) -> (r: Self) {
        DynamicBusControl(f.value() == 1)
    }
}

/// Status word Terminal Flag bit.
#[derive(Clone, Copy, Debug, PartialEq, Eq, Structural)]
pub struct TerminalFlag(pub bool);

impl AlignableBitField<1, 0> for TerminalFlag {
    open spec fn field(&self) -> u8 {
        flag_value(self.0) as u8
    }

    open spec fn of_field(v: u8) -> Self {
        TerminalFlag(v == 1)
    }

    fn to_bit_field(&self) -> (r: BitField<1>) {
        flag_bit_field(self.0)
    }

    fn from_bit_field(f: BitField<1>) -> (r: Self) {
        TerminalFlag(f.value() == 1)
    }
}

/// The status word with these fields; the reserved bits `[5, 8)` are clear.
pub open spec fn status_word_bits(
    addr: RTAddr,
    msg_err: bool,
    inst: bool,
    svc_req: bool,
    bc_cmd: bool,
    busy: bool,
    subsys: bool,
    dbc: bool,
    terminal: bool,
) -> u16 {
    ((addr.bits() as u16) << 11u16) | (flag_value(msg_err) << 10u16) | (flag_value(inst) << 9u16)
        | (flag_value(svc_req) << 8u16) | (flag_value(bc_cmd) << 4u16) | (flag_value(busy) << 3u16)
        | (flag_value(subsys) << 2u16) | (flag_value(dbc) << 1u16) | flag_value(terminal)
}

/// Status word (16 bits): address in `[11, 16)`, then one bit each for Message
/// Error (10), Instrumentation (9), Service Request (8), Broadcast Command
/// Received (4), Busy (3), Subsystem Flag (2), Dynamic Bus Control Accept (1)
/// and Terminal Flag (0). Every bit pattern is a status word.
#[derive(Clone, Copy, Debug, PartialEq, Eq, Structural)]
pub struct StatusWord {
    raw_value: u16,
}

impl View for StatusWord {
    type V = u16;

    closed spec fn view(&self) -> u16 {
        self.raw_value
    }
}

impl StatusWord {
    pub fn new(
        addr: RTAddr,
        msg_err: MessageError,
        inst: Instrumentation,
        svc_req: ServiceRequest,
        bc_cmd: BroadcastCommand,
        busy: Busy,
        subsys: Subsystem,
        dbc: DynamicBusControl,
        terminal: TerminalFlag,
    ) -> (r: Self)
        ensures
            r@ == status_word_bits(
                addr,
                msg_err.0,
                inst.0,
                svc_req.0,
                bc_cmd.0,
                busy.0,
                subsys.0,
                dbc.0,
                terminal.0,
            ),
    {
        let t = terminal.align_to_word();
        proof {
            lemma_shl_zero(flag_value(terminal.0));
        }
        let value = addr.align_to_word() | msg_err.align_to_word() | inst.align_to_word()
            | svc_req.align_to_word() | bc_cmd.align_to_word() | busy.align_to_word()
            | subsys.align_to_word() | dbc.align_to_word() | t;
        Self { raw_value: value }
    }

    /// The status word's 16 bits, without sync and parity.
    pub fn value(&self) -> (r: u16)
        ensures
            r == self@,
    {
        self.raw_value
    }

    /// The status word whose bits are `value`.
    pub fn from_u16(value: u16) -> (r: Self)
        ensures
            r@ == value,
    {
        Self { raw_value: value }
    }

    pub fn get_rt_addr(&self) -> (r: RTAddr)
        ensures
            r == rt_addr_of(self@),
    {
        RTAddr::read(self.raw_value)
    }

    pub fn set_rt_addr(&mut self, addr: RTAddr)
        ensures
            final(self)@ == set_bits(old(self)@, addr.bits() as u16, 5, 11),
    {
        self.raw_value = addr.set_in(self.raw_value)
    }

    pub fn get_message_error(&self) -> (r: MessageError)
        ensures
            r.0 == flag_at(self@, 10),
    {
        MessageError::read(self.raw_value)
    }

    pub fn set_message_error(&mut self, flag: MessageError)
        ensures
            final(self)@ == set_bits(old(self)@, flag_value(flag.0), 1, 10),
    {
        self.raw_value = flag.set_in(self.raw_value)
    }

    pub fn get_instrumentation(&self) -> (r: Instrumentation)
        ensures
            r.0 == flag_at(self@, 9),
    {
        Instrumentation::read(self.raw_value)
    }

    pub fn set_instrumentation(&mut self, flag: Instrumentation)
        ensures
            final(self)@ == set_bits(old(self)@, flag_value(flag.0), 1, 9),
    {
        self.raw_value = flag.set_in(self.raw_value)
    }

    pub fn get_service_request(&self) -> (r: ServiceRequest)
        ensures
            r.0 == flag_at(self@, 8),
    {
        ServiceRequest::read(self.raw_value)
    }

    pub fn set_service_request(&mut self, flag: ServiceRequest)
        ensures
            final(self)@ == set_bits(old(self)@, flag_value(flag.0), 1, 8),
    {
        self.raw_value = flag.set_in(self.raw_value)
    }

    pub fn get_broadcast_command(&self) -> (r: BroadcastCommand)
        ensures
            r.0 == flag_at(self@, 4),
    {
        BroadcastCommand::read(self.raw_value)
    }

    pub fn set_broadcast_command(&mut self, flag: BroadcastCommand)
        ensures
            final(self)@ == set_bits(old(self)@, flag_value(flag.0), 1, 4),
    {
        self.raw_value = flag.set_in(self.raw_value)
    }

    pub fn get_busy(&self) -> (r: Busy)
        ensures
            r.0 == flag_at(self@, 3),
    {
        Busy::read(self.raw_value)
    }

    pub fn set_busy(&mut self, flag: Busy)
        ensures
            final(self)@ == set_bits(old(self)@, flag_value(flag.0), 1, 3),
    {
        self.raw_value = flag.set_in(self.raw_value)
    }

    pub fn get_subsystem(&self) -> (r: Subsystem)
        ensures
            r.0 == flag_at(self@, 2),
    {
        Subsystem::read(self.raw_value)
    }

    pub fn set_subsystem(&mut self, flag: Subsystem)
        ensures
            final(self)@ == set_bits(old(self)@, flag_value(flag.0), 1, 2),
    {
        self.raw_value = flag.set_in(self.raw_value)
    }

    pub fn get_dynamic_bus_control(&self) -> (r: DynamicBusControl)
        ensures
            r.0 == flag_at(self@, 1),
    {
        DynamicBusControl::read(self.raw_value)
    }

    pub fn set_dynamic_bus_control(&mut self, flag: DynamicBusControl)
        ensures
            final(self)@ == set_bits(old(self)@, flag_value(flag.0), 1, 1),
    {
        self.raw_value = flag.set_in(self.raw_value)
    }

    pub fn get_terminal_flag(&self) -> (r: TerminalFlag)
        ensures
            r.0 == flag_at(self@, 0),
    {
        TerminalFlag::read(self.raw_value)
    }

    pub fn set_terminal_flag(&mut self, flag: TerminalFlag)
        ensures
            final(self)@ == set_bits(old(self)@, flag_value(flag.0), 1, 0),
    {
        self.raw_value = flag.set_in(self.raw_value)
    }
}

/// A data word: sixteen bits of payload with no structure.
#[derive(Clone, Copy, Debug, PartialEq, Eq, Structural)]
pub struct DataWord {
    raw_value: u16,
}

impl View for DataWord {
    type V = u16;

    closed spec fn view(&self) -> u16 {
        self.raw_value
    }
}

impl DataWord {
    pub fn from_u16(value: u16) -> (r: Self)
        ensures
            r@ == value,
    {
        Self { raw_value: value }
    }

    pub fn value(&self) -> (r: u16)
        ensures
            r == self@,
    {
        self.raw_value
    }

    pub fn set_value(&mut self, value: u16)
        ensures
            final(self)@ == value,
    {
        self.raw_value = value
    }
}

/// A word on the bus, tagged with its role.
#[derive(Clone, Copy, Debug, PartialEq, Eq, Structural)]
pub enum Word {
    Command(CommandWord),
    Data(DataWord),
    Status(StatusWord),
}

impl View for Word {
    /// The word's role and its sixteen bits.
    type V = (WordFormat, u16);

    open spec fn view(&self) -> (WordFormat, u16) {
        match self {
            Word::Command(w) => (WordFormat::CommandWord, w@),
            Word::Data(w) => (WordFormat::DataWord, w@),
            Word::Status(w) => (WordFormat::StatusWord, w@),
        }
    }
}

impl Word {
    /// The word's role.
    pub fn format(&self) -> (r: WordFormat)
        ensures
            r == self@.0,
    {
        match self {
            Word::Command(_) => WordFormat::CommandWord,
            Word::Data(_) => WordFormat::DataWord,
            Word::Status(_) => WordFormat::StatusWord,
        }
    }
}

/// Encoding of a word as its sixteen bits (without sync and parity).
pub trait Encode {
    spec fn encoded(&self) -> u16;

    fn encode(&self) -> (r: u16)
        ensures
            r == self.encoded(),
    ;
}

impl Encode for CommandWord {
    open spec fn encoded(&self) -> u16 {
        self@
    }

    fn encode(&self) -> (r: u16) {
        self.value()
    }
}

impl Encode for StatusWord {
    open spec fn encoded(&self) -> u16 {
        self@
    }

    fn encode(&self) -> (r: u16) {
        self.value()
    }
}

impl Encode for DataWord {
    open spec fn encoded(&self) -> u16 {
        self@
    }

    fn encode(&self) -> (r: u16) {
        self.value()
    }
}

impl Encode for Word {
    open spec fn encoded(&self) -> u16 {
        self@.1
    }

    fn encode(&self) -> (r: u16) {
        match self {
            Word::Command(w) => w.value(),
            Word::Data(w) => w.value(),
            Word::Status(w) => w.value(),
        }
    }
}

proof fn lemma_code_value_fits(code: ModeCode)
    ensures
        code_value(code) <= 31,
        code != ModeCode::Invalid ==> code_of_value(code_value(code)) == code,
{
}

proof fn lemma_rt_addr_round_trip(addr: RTAddr)
    requires
        addr.is_canonical(),
    ensures
        addr.bits() <= 31,
        <RTAddr as AlignableBitField<5, 11>>::of_field(addr.bits()) == addr,
{
    if let RTAddr::Single(b) = addr {
        BitField::<5>::lemma_from_raw_of_view(b);
    }
}

/// A mode command built for a valid address and code carries the T/R bit that
/// the code forces, the address, and the code.
pub proof fn lemma_mode_command_tr_bit(addr: RTAddr, code: ModeCode)
    requires
        addr.is_canonical(),
        !mode_command_refused(addr, code),
    ensures
        action_of(mode_command_word(addr, code)) == tr_of(code),
        rt_addr_of(mode_command_word(addr, code)) == addr,
        command_data_of(mode_command_word(addr, code)) == CommandWordData::ModeCode(code),
{
    lemma_rt_addr_round_trip(addr);
    lemma_code_value_fits(code);
    lemma_data_field_parts(31, code_value(code) as u16);
    lemma_command_fields(
        addr.bits() as u16,
        tr_of(code).field() as u16,
        mode_code_field(code),
    );
}

/// A data transfer command built from valid fields reads back as those fields.
pub proof fn lemma_data_transfer_round_trip(
    addr: RTAddr,
    tr: RTAction,
    subaddress: BitField<5>,
    word_count: BitField<5>,
)
    requires
        addr.is_canonical(),
        fits(subaddress@ as u16, 5),
        fits(word_count@ as u16, 5),
        is_transfer_subaddress(subaddress@),
    ensures
        rt_addr_of(data_transfer_word(addr, tr, subaddress, word_count)) == addr,
        action_of(data_transfer_word(addr, tr, subaddress, word_count)) == tr,
        command_data_of(data_transfer_word(addr, tr, subaddress, word_count)) == (
        CommandWordData::DataTransfer { subaddress, word_count }),
{
    lemma_rt_addr_round_trip(addr);
    lemma_five_bits(subaddress@ as u16);
    lemma_five_bits(word_count@ as u16);
    lemma_data_field_parts(subaddress@ as u16, word_count@ as u16);
    lemma_command_fields(
        addr.bits() as u16,
        tr.field() as u16,
        data_transfer_field(subaddress@, word_count@),
    );
    BitField::<5>::lemma_from_raw_of_view(subaddress);
    BitField::<5>::lemma_from_raw_of_view(word_count);
}

/// Every 16-bit pattern is a command word: its address, T/R and data fields,
/// read and packed again, give back the same bits.
pub proof fn lemma_command_word_fields(w: u16)
    ensures
        (get_bits(w, 5, 11) << 11u16) | (get_bits(w, 1, 10) << 10u16) | get_bits(w, 10, 0) == w,
{
    assert((get_bits(w, 5, 11) << 11u16) | (get_bits(w, 1, 10) << 10u16) | get_bits(w, 10, 0)
        == w) by (bit_vector);
}

/// After a mode code is set, the word is a mode command with that code and the
/// T/R bit the code forces, whatever T/R bit it had before; the address stays.
pub proof fn lemma_set_command_mode_tr_bit(w: u16, code: ModeCode)
    requires
        code != ModeCode::Invalid,
    ensures
        action_of(
            set_bits(set_bits(w, tr_of(code).field() as u16, 1, 10), mode_code_field(code), 10, 0),
        ) == tr_of(code),
        command_data_of(
            set_bits(set_bits(w, tr_of(code).field() as u16, 1, 10), mode_code_field(code), 10, 0),
        ) == CommandWordData::ModeCode(code),
        rt_addr_of(
            set_bits(set_bits(w, tr_of(code).field() as u16, 1, 10), mode_code_field(code), 10, 0),
        ) == rt_addr_of(w),
{
    let t = tr_of(code).field() as u16;
    let d = mode_code_field(code);
    let w1 = set_bits(w, t, 1, 10);
    lemma_code_value_fits(code);
    lemma_data_field_parts(31, code_value(code) as u16);
    assert(fits(t, 1)) by (bit_vector)
        requires
            t <= 1,
    ;
    lemma_read_set_in(w, t, 1, 10);
    lemma_read_set_in(w1, d, 10, 0);
    lemma_set_in_keeps_others(w1, d, 10, 0, 1, 10);
    lemma_set_in_keeps_others(w1, d, 10, 0, 5, 11);
    lemma_set_in_keeps_others(w, t, 1, 10, 5, 11);
}

/// The bit positions of the status word's flags.
pub open spec fn is_status_flag(k: u16) -> bool {
    k == 10 || k == 9 || k == 8 || k == 4 || k == 3 || k == 2 || k == 1 || k == 0
}

/// Writing a flag of a status word and reading it back gives the written
/// value; every other flag and the address keep theirs.
pub proof fn lemma_status_flag_set_get(w: u16, k: u16, b: bool, k2: u16)
    requires
        is_status_flag(k),
        is_status_flag(k2),
        k != k2,
    ensures
        flag_at(set_bits(w, flag_value(b), 1, k), k) == b,
        flag_at(set_bits(w, flag_value(b), 1, k), k2) == flag_at(w, k2),
        get_bits(set_bits(w, flag_value(b), 1, k), 5, 11) == get_bits(w, 5, 11),
{
    let v = flag_value(b);
    assert(fits(v, 1)) by (bit_vector)
        requires
            v <= 1,
    ;
    lemma_read_set_in(w, v, 1, k);
    lemma_set_in_keeps_others(w, v, 1, k, 1, k2);
    lemma_set_in_keeps_others(w, v, 1, k, 5, 11);
}

} // verus!
