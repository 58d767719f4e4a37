//! Reading a stream that arrives in pieces.

use vstd::prelude::*;
use vstd::slice::slice_subrange;

use crate::address::{Address, AddressView};
use crate::error::{UotError, UotErrorView};
use crate::request::{parse_v2_request, request_at};
use crate::wire::{frame_at, parse_frame, Mode, ModeView, Parse, Parsed};

verus! {

/// Whether the next item of a stream can be read already.
#[derive(Debug, PartialEq, Eq)]
pub enum Progress<T> {
    /// The item has been read.
    Ready(T),
    /// The item cannot be read before more bytes have come.
    Pending,
}

/// What a read does: its result, and the bytes that are left to be read.
pub struct Reading<T> {
    pub result: Result<Progress<T>, UotErrorView>,
    pub rest: Seq<u8>,
}

/// Reading what `parsed` says about `bytes`. At the end of the stream an item that is not
/// complete fails, and no byte is left.
pub open spec fn reading<T>(bytes: Seq<u8>, closed: bool, parsed: Parsed<T>) -> Reading<T> {
    match parsed {
        Parsed::Complete(item, used) => Reading {
            result: Ok(Progress::Ready(item)),
            rest: bytes.skip(used as int),
        },
        Parsed::Malformed(error, used) => Reading {
            result: Err(error),
            rest: bytes.skip(used as int),
        },
        Parsed::Incomplete(eof) => if closed {
            Reading { result: Err(UotErrorView::UnexpectedEof(eof)), rest: seq![] }
        } else {
            Reading { result: Ok(Progress::Pending), rest: bytes }
        },
    }
}

/// Reading a request header.
pub open spec fn request_reading(bytes: Seq<u8>, closed: bool) -> Reading<ModeView> {
    reading(bytes, closed, request_at(bytes))
}

/// Reading a datagram: none if the stream ends where a frame would start.
pub open spec fn frame_reading(bytes: Seq<u8>, closed: bool, mode: ModeView) -> Reading<
    Option<(AddressView, Seq<u8>)>,
> {
    if closed && bytes.len() == 0 {
        Reading { result: Ok(Progress::Ready(None)), rest: bytes }
    } else {
        let one = reading(bytes, closed, frame_at(bytes, mode));
        Reading {
            result: match one.result {
                Ok(Progress::Ready(datagram)) => Ok(Progress::Ready(Some(datagram))),
                Ok(Progress::Pending) => Ok(Progress::Pending),
                Err(error) => Err(error),
            },
            rest: one.rest,
        }
    }
}

/// The bytes of a stream that have come and have not been read.
#[derive(Debug)]
pub struct StreamReader {
    data: Vec<u8>,
    pos: usize,
    closed: bool,
}

impl StreamReader {
    #[verifier::type_invariant]
    spec fn pos_in_data(self) -> bool {
        self.pos <= self.data@.len()
    }

    /// The bytes that are left to be read.
    pub closed spec fn unread(self) -> Seq<u8> {
        self.data@.skip(self.pos as int)
    }

    /// Whether no more bytes will come.
    pub closed spec fn is_closed(self) -> bool {
        self.closed
    }

    /// A stream of which nothing has come.
    pub fn new() -> (reader: Self)
        ensures
            reader.unread() == Seq::<u8>::empty(),
            !reader.is_closed(),
    {
        let reader = StreamReader { data: Vec::new(), pos: 0, closed: false };
        assert(reader.unread() =~= Seq::<u8>::empty());
        reader
    }

    /// Takes in bytes that have come.
    pub fn feed(&mut self, bytes: &[u8])
        ensures
            final(self).unread() == old(self).unread() + bytes@,
            final(self).is_closed() == old(self).is_closed(),
    {
        proof {
            use_type_invariant(&*self);
        }
        let pos: usize = self.pos;
        let mut data: Vec<u8> = Vec::new();
        self.pos = 0;
        std::mem::swap(&mut self.data, &mut data);
        let mut rest: Vec<u8> = data.split_off(pos);
        rest.extend_from_slice(bytes);
        self.data = rest;
        assert(self.unread() =~= old(self).unread() + bytes@);
    }

    /// Notes that the stream has ended.
    pub fn close(&mut self)
        ensures
            final(self).unread() == old(self).unread(),
            final(self).is_closed(),
    {
        proof {
            use_type_invariant(&*self);
        }
        self.closed = true;
    }

    /// The bytes that are left to be read.
    fn remaining(&self) -> (bytes: &[u8])
        ensures
            bytes@ == self.unread(),
    {
        proof {
            use_type_invariant(self);
        }
        let bytes: &[u8] = slice_subrange(self.data.as_slice(), self.pos, self.data.len());
        assert(bytes@ =~= self.unread());
        bytes
    }

    /// Reads what `parse` says about the bytes that are left.
    fn settle<T: View>(&mut self, parse: Parse<T>) -> (result: Result<Progress<T>, UotError>)
        requires
            parse matches Parse::Complete(_, used) ==> used <= old(self).unread().len(),
            parse matches Parse::Malformed(_, used) ==> used <= old(self).unread().len(),
        ensures
            final(self).is_closed() == old(self).is_closed(),
            ({
                let spec_reading = reading(old(self).unread(), old(self).is_closed(), parse@);
                &&& final(self).unread() == spec_reading.rest
                &&& match spec_reading.result {
                    Ok(Progress::Ready(item)) => result matches Ok(Progress::Ready(i)) && i@
                        == item,
                    Ok(Progress::Pending) => result matches Ok(Progress::Pending),
                    Err(error) => result matches Err(e) && e@ == error,
                }
            }),
    {
        proof {
            use_type_invariant(&*self);
        }
        match parse {
            Parse::Complete(item, used) => {
                assert(self.pos + used <= self.data.len());
                self.pos = self.pos + used;
                assert(self.unread() =~= old(self).unread().skip(used as int));
                Ok(Progress::Ready(item))
            },
            Parse::Malformed(error, used) => {
                assert(self.pos + used <= self.data.len());
                self.pos = self.pos + used;
                assert(self.unread() =~= old(self).unread().skip(used as int));
                Err(error)
            },
            Parse::Incomplete(eof) => {
                if self.closed {
                    self.pos = self.data.len();
                    assert(self.unread() =~= seq![]);
                    Err(UotError::UnexpectedEof(eof))
                } else {
                    Ok(Progress::Pending)
                }
            },
        }
    }
}

/// Reads the request header of UoT v2.
///
/// The end of the stream inside it is an error, and so is the end in front of it.
pub fn read_v2_request(reader: &mut StreamReader) -> (result: Result<Progress<Mode>, UotError>)
    ensures
        final(reader).is_closed() == old(reader).is_closed(),
        final(reader).unread() == request_reading(
            old(reader).unread(),
            old(reader).is_closed(),
        ).rest,
        match request_reading(old(reader).unread(), old(reader).is_closed()).result {
            Ok(Progress::Ready(mode)) => result matches Ok(Progress::Ready(m)) && m@ == mode,
            Ok(Progress::Pending) => result matches Ok(Progress::Pending),
            Err(error) => result matches Err(e) && e@ == error,
        },
{
    let parse: Parse<Mode> = parse_v2_request(reader.remaining());
    reader.settle(parse)
}

/// Reads one datagram.
///
/// The result is `None` if the client closed the stream at a frame boundary. The end of the
/// stream inside a frame is an error: one piece of the stream is not one datagram, so frames are
/// delimited by the length prefix only.
pub fn read_frame(reader: &mut StreamReader, mode: &Mode) -> (result: Result<
    Progress<Option<(Address, Vec<u8>)>>,
    UotError,
>)
    ensures
        final(reader).is_closed() == old(reader).is_closed(),
        final(reader).unread() == frame_reading(
            old(reader).unread(),
            old(reader).is_closed(),
            mode@,
        ).rest,
        match frame_reading(old(reader).unread(), old(reader).is_closed(), mode@).result {
            Ok(Progress::Ready(Some(datagram))) => {
                result matches Ok(Progress::Ready(Some(d))) && d@ == datagram
            },
            Ok(Progress::Ready(None)) => result matches Ok(Progress::Ready(None)),
            Ok(Progress::Pending) => result matches Ok(Progress::Pending),
            Err(error) => result matches Err(e) && e@ == error,
        },
{
    let bytes: &[u8] = reader.remaining();
    if reader.closed && bytes.len() == 0 {
        return Ok(Progress::Ready(None));
    }
    let parse: Parse<(Address, Vec<u8>)> = parse_frame(bytes, mode);
    match reader.settle(parse) {
        Ok(Progress::Ready(datagram)) => Ok(Progress::Ready(Some(datagram))),
        Ok(Progress::Pending) => Ok(Progress::Pending),
        Err(error) => Err(error),
    }
}

} // verus!
