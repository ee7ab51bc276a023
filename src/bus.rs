//! The Bus Controller: issues transfers and mode commands to remote terminals
//! over an abstract half-duplex bus.
use vstd::prelude::*;
use crate::primitives::{BitField, fits};
use crate::words::{
    CommandWord, DataWord, Error, ModeCode, RTAction, RTAddr, StatusWord, Word, WordFormat,
    data_transfer_word, is_transfer_subaddress, mode_command_refused, mode_command_word,
    options_of,
};

verus! {

/// The physical layer as the bus controller sees it: one word out, one word in.
pub trait Bus {
    /// Emits one word, formatted with its role.
    fn write_word(&mut self, value: Word);

    /// The next word that arrives, already classified by role.
    fn read_next(&self) -> Word;
}

/// A word as the bus carries it: its role and its sixteen bits.
pub type WireWord = (WordFormat, u16);

/// The data words of a transfer, in order.
pub open spec fn data_words(data: Seq<DataWord>) -> Seq<WireWord> {
    data.map_values(|d: DataWord| (WordFormat::DataWord, d@))
}

/// What a transfer of `data` to `addr` at `subaddress` puts on the bus: the
/// receive command with the word count, then the data words.
pub open spec fn transfer_words(addr: RTAddr, subaddress: BitField<5>, data: Seq<DataWord>) -> Seq<
    WireWord,
> {
    seq![
        (
            WordFormat::CommandWord,
            data_transfer_word(
                addr,
                RTAction::Receive,
                subaddress,
                BitField::from_raw(data.len() as u8),
            ),
        ),
    ] + data_words(data)
}

/// Whether a transfer is refused: too many data words, or a subaddress that
/// marks a mode command.
pub open spec fn transfer_refused(subaddress: BitField<5>, data: Seq<DataWord>) -> bool {
    data.len() > 31 || !is_transfer_subaddress(subaddress@)
}

/// Whether the remote terminal answers a mode code with a data word (after its status word).
pub open spec fn receives_data_word(code: ModeCode) -> bool {
    options_of(code).requires_data_word && options_of(code).tr == RTAction::Transmit
}

/// Whether the bus controller sends a data word after a mode code.
pub open spec fn sends_data_word(code: ModeCode) -> bool {
    options_of(code).requires_data_word && options_of(code).tr == RTAction::Receive
}

/// Whether a mode command call is refused before anything is sent: the code
/// is `Invalid`, it may not be broadcast and `addr` is broadcast, or it needs
/// a data word and no slot was given.
pub open spec fn mode_call_refused(addr: RTAddr, code: ModeCode, has_slot: bool) -> bool {
    mode_command_refused(addr, code) || (options_of(code).requires_data_word && !has_slot)
}

/// What a mode command puts on the bus: the command, then the caller's data
/// word if the code sends one.
pub open spec fn mode_command_words(addr: RTAddr, code: ModeCode, data_in: u16) -> Seq<WireWord> {
    let cmd = seq![(WordFormat::CommandWord, mode_command_word(addr, code))];
    if sends_data_word(code) {
        cmd.push((WordFormat::DataWord, data_in))
    } else {
        cmd
    }
}

/// The outcome of a mode command that was sent, given the words `got` that
/// arrived after it (status bits on success), and how many of them it reads.
/// A broadcast reads nothing; a word of the wrong role ends the call.
pub open spec fn mode_command_reply(addr: RTAddr, code: ModeCode, got: Seq<WireWord>) -> (
    Result<Option<u16>, Error>,
    nat,
) {
    if receives_data_word(code) {
        if got[0].0 != WordFormat::StatusWord {
            (Err(Error::ProtocolError { expected: WordFormat::StatusWord, got: got[0].0 }), 1)
        } else if got[1].0 != WordFormat::DataWord {
            (Err(Error::ProtocolError { expected: WordFormat::DataWord, got: got[1].0 }), 2)
        } else {
            (Ok(Some(got[0].1)), 2)
        }
    } else if addr.is_broadcast() {
        (Ok(None), 0)
    } else if got[0].0 != WordFormat::StatusWord {
        (Err(Error::ProtocolError { expected: WordFormat::StatusWord, got: got[0].0 }), 1)
    } else {
        (Ok(Some(got[0].1)), 1)
    }
}

/// A mode command's result with the status word as its bits.
pub open spec fn reply_view(r: Result<Option<StatusWord>, Error>) -> Result<Option<u16>, Error> {
    match r {
        Ok(Some(s)) => Ok(Some(s@)),
        Ok(None) => Ok(None),
        Err(e) => Err(e),
    }
}

/// The status word that `w` must be.
pub fn expect_status(w: Word) -> (r: Result<StatusWord, Error>)
    ensures
        match w {
            Word::Status(s) => r == Ok::<StatusWord, Error>(s),
            _ => r == Err::<StatusWord, Error>(
                Error::ProtocolError { expected: WordFormat::StatusWord, got: w@.0 },
            ),
        },
{
    match w {
        Word::Status(s) => Ok(s),
        _ => Err(Error::ProtocolError { expected: WordFormat::StatusWord, got: w.format() }),
    }
}

/// The data word that `w` must be.
pub fn expect_data(w: Word) -> (r: Result<DataWord, Error>)
    ensures
        match w {
            Word::Data(d) => r == Ok::<DataWord, Error>(d),
            _ => r == Err::<DataWord, Error>(
                Error::ProtocolError { expected: WordFormat::DataWord, got: w@.0 },
            ),
        },
{
    match w {
        Word::Data(d) => Ok(d),
        _ => Err(Error::ProtocolError { expected: WordFormat::DataWord, got: w.format() }),
    }
}

/// Drives transactions on a bus it holds exclusively. Besides the bus it keeps
/// only, for its contracts, the words it has written and read so far.
pub struct BusController<B: Bus> {
    bus: B,
    sent: Ghost<Seq<WireWord>>,
    received: Ghost<Seq<WireWord>>,
}

impl<B: Bus> BusController<B> {
    /// Every word written to the bus, in order.
    pub closed spec fn sent(&self) -> Seq<WireWord> {
        self.sent@
    }

    /// Every word read from the bus, in order.
    pub closed spec fn received(&self) -> Seq<WireWord> {
        self.received@
    }

    pub fn new(bus: B) -> (r: Self)
        ensures
            r.sent() == Seq::<WireWord>::empty(),
            r.received() == Seq::<WireWord>::empty(),
    {
        BusController { bus, sent: Ghost(Seq::empty()), received: Ghost(Seq::empty()) }
    }

    /// The bus.
    pub fn bus(&self) -> &B {
        &self.bus
    }

    /// Gives the bus back.
    pub fn into_bus(self) -> B {
        self.bus
    }

    fn write(&mut self, w: Word)
        ensures
            final(self).sent() == old(self).sent().push(w@),
            final(self).received() == old(self).received(),
    {
        self.bus.write_word(w);
        self.sent = Ghost(self.sent@.push(w@));
    }

    fn read(&mut self) -> (r: Word)
        ensures
            final(self).sent() == old(self).sent(),
            final(self).received() == old(self).received().push(r@),
    {
        let w = self.bus.read_next();
        self.received = Ghost(self.received@.push(w@));
        w
    }

    /// Writes the command word, then each data word in order.
    fn emit_transfer(&mut self, command: CommandWord, data: &[DataWord])
        ensures
            final(self).sent() == old(self).sent().push((WordFormat::CommandWord, command@)) + data_words(data@),
            final(self).received() == old(self).received(),
    {
        self.write(Word::Command(command));
        let ghost start = self.sent();
        let mut i: usize = 0;
        while i < data.len()
            invariant
                i <= data@.len(),
                self.sent() == start + data_words(data@.take(i as int)),
                self.received() == old(self).received(),
            decreases data@.len() - i,
        {
            self.write(Word::Data(data[i]));
            proof {
                assert(data_words(data@.take(i + 1)) =~= data_words(data@.take(i as int)).push(
                    (WordFormat::DataWord, data@[i as int]@),
                ));
            }
            i = i + 1;
        }
        proof {
            assert(data@.take(data@.len() as int) =~= data@);
        }
    }

    /// Sends `data` to every remote terminal at `subaddress`. No status word
    /// follows a broadcast.
    pub fn send_broadcast_transfer(&mut self, subaddress: BitField<5>, data: &[DataWord]) -> (r:
        Result<(), Error>)
        ensures
            final(self).received() == old(self).received(),
            match r {
                Ok(()) => !transfer_refused(subaddress, data@) && final(self).sent() == old(
                    self,
                ).sent() + transfer_words(RTAddr::Broadcast, subaddress, data@),
                Err(e) => transfer_refused(subaddress, data@) && e == Error::InvalidArgument
                    && final(self).sent() == old(self).sent(),
            },
    {
        self.send_transfer_to(RTAddr::Broadcast, subaddress, data)
    }

    /// Sends `data` to `addr` at `subaddress`: a receive command whose word
    /// count is the number of data words, then the data words. The remote
    /// terminal's status reply is not read. An `addr` of 31 is the broadcast
    /// address.
    pub fn send_transfer(&mut self, addr: RTAddr, subaddress: BitField<5>, data: &[DataWord]) -> (r:
        Result<(), Error>)
        ensures
            final(self).received() == old(self).received(),
            match r {
                Ok(()) => !transfer_refused(subaddress, data@) && final(self).sent() == old(
                    self,
                ).sent() + transfer_words(addr, subaddress, data@),
                Err(e) => transfer_refused(subaddress, data@) && e == Error::InvalidArgument
                    && final(self).sent() == old(self).sent(),
            },
    {
        if addr.is_broadcast_addr() {
            return self.send_broadcast_transfer(subaddress, data);
        }
        self.send_transfer_to(addr, subaddress, data)
    }

    fn send_transfer_to(&mut self, addr: RTAddr, subaddress: BitField<5>, data: &[DataWord]) -> (r:
        Result<(), Error>)
        ensures
            final(self).received() == old(self).received(),
            match r {
                Ok(()) => !transfer_refused(subaddress, data@) && final(self).sent() == old(
                    self,
                ).sent() + transfer_words(addr, subaddress, data@),
                Err(e) => transfer_refused(subaddress, data@) && e == Error::InvalidArgument
                    && final(self).sent() == old(self).sent(),
            },
    {
        if data.len() > 31 {
            return Err(Error::InvalidArgument);
        }
        let n = data.len() as u16;
        assert(fits(n, 5)) by (bit_vector)
            requires
                n <= 31,
        ;
        let word_count = BitField::<5>::new(n as u8);
        let command = match CommandWord::new_data_transfer(
            addr,
            RTAction::Receive,
            subaddress,
            word_count,
        ) {
            Ok(w) => w,
            Err(e) => {
                return Err(e);
            },
        };
        self.emit_transfer(command, data);
        proof {
            BitField::<5>::lemma_from_raw_of_view(word_count);
            assert(old(self).sent().push((WordFormat::CommandWord, command@)) + data_words(data@)
                =~= old(self).sent() + transfer_words(addr, subaddress, data@));
        }
        Ok(())
    }

    /// Issues a mode command to `addr` and completes the transaction.
    ///
    /// `data` is the data word slot: the word to send for a code that sends
    /// one, the place for the word received for a code that receives one, and
    /// may be `None` for a code without a data word. Returns the remote
    /// terminal's status word, or `None` for a broadcast, which gets no reply.
    pub fn send_mode_command(
        &mut self,
        addr: RTAddr,
        code: ModeCode,
        data: Option<&mut DataWord>,
    ) -> (r: Result<Option<StatusWord>, Error>)
        ensures
            mode_call_refused(addr, code, data.is_some()) ==> r == Err::<Option<StatusWord>, Error>(
                Error::InvalidArgument,
            ) && final(self).sent() == old(self).sent() && final(self).received() == old(
                self,
            ).received(),
            !mode_call_refused(addr, code, data.is_some()) ==> final(self).sent() == old(
                self,
            ).sent() + mode_command_words(
                addr,
                code,
                match data {
                    Some(d) => d@,
                    None => 0,
                },
            ),
            !mode_call_refused(addr, code, data.is_some()) ==> {
                let got = final(self).received().skip(old(self).received().len() as int);
                &&& old(self).received().len() <= final(self).received().len()
                &&& final(self).received().take(old(self).received().len() as int) == old(
                    self,
                ).received()
                &&& reply_view(r) == mode_command_reply(addr, code, got).0
                &&& got.len() == mode_command_reply(addr, code, got).1
            },
            match data {
                Some(d) => final(d)@ == if !mode_call_refused(addr, code, true) && receives_data_word(
                    code,
                ) && r is Ok {
                    final(self).received()[old(self).received().len() + 1int].1
                } else {
                    d@
                },
                None => true,
            },
    {
        if let ModeCode::Invalid = code {
            return Err(Error::InvalidArgument);
        }
        let options = code.associated_options();
        if !options.broadcast_allowed && addr.is_broadcast_addr() {
            return Err(Error::InvalidArgument);
        }
        if options.requires_data_word && data.is_none() {
            return Err(Error::InvalidArgument);
        }
        let mode_command = match CommandWord::new_mode_command(addr, code) {
            Ok(w) => w,
            Err(e) => {
                return Err(e);
            },
        };
        let ghost start = self.received();
        self.write(Word::Command(mode_command));
        if options.requires_data_word {
            if let Some(slot) = data {
                match options.tr {
                    RTAction::Transmit => {
                        let sw = match expect_status(self.read()) {
                            Ok(s) => s,
                            Err(e) => {
                                proof {
                                    assert(self.received().skip(start.len() as int) =~= seq![
                                        self.received()[start.len() as int],
                                    ]);
                                }
                                return Err(e);
                            },
                        };
                        let dw = match expect_data(self.read()) {
                            Ok(d) => d,
                            Err(e) => {
                                proof {
                                    assert(self.received().skip(start.len() as int) =~= seq![
                                        self.received()[start.len() as int],
                                        self.received()[start.len() + 1int],
                                    ]);
                                }
                                return Err(e);
                            },
                        };
                        slot.set_value(dw.value());
                        proof {
                            assert(self.received().skip(start.len() as int) =~= seq![
                                self.received()[start.len() as int],
                                self.received()[start.len() + 1int],
                            ]);
                        }
                        return Ok(Some(sw));
                    },
                    RTAction::Receive => {
                        self.write(Word::Data(*slot));
                    },
                }
            }
        }
        if addr.is_broadcast_addr() {
            proof {
                assert(self.received().skip(start.len() as int) =~= Seq::<WireWord>::empty());
            }
            return Ok(None);
        }
        let sw = match expect_status(self.read()) {
            Ok(s) => s,
            Err(e) => {
                proof {
                    assert(self.received().skip(start.len() as int) =~= seq![
                        self.received()[start.len() as int],
                    ]);
                }
                return Err(e);
            },
        };
        proof {
            assert(self.received().skip(start.len() as int) =~= seq![
                self.received()[start.len() as int],
            ]);
        }
        Ok(Some(sw))
    }
}

} // verus!
