//! What can be wrong with a UoT stream.

use vstd::prelude::*;
use vstd::string::StringExecFns;

verus! {

/// What a stream broke off in, when it ended too early.
#[derive(Debug, Clone, Copy, PartialEq, Eq, Structural)]
pub enum Eof {
    /// A number that is read by itself: the first byte of a frame or of the request header, or the
    /// length of what follows in a frame.
    Number,
    /// A run of bytes whose length is known: a frame address, a payload, or any part of a SOCKS5
    /// address.
    Bytes,
}

/// Why reading from a UoT stream failed.
#[derive(Debug, PartialEq, Eq)]
pub enum UotError {
    /// The client closed the stream inside a frame or inside the request header.
    UnexpectedEof(Eof),
    /// The first byte of a frame is none of the frame ATYPs.
    UnknownAtyp(u8),
    /// The domain name in a frame is not UTF-8; the text says where it stops being so.
    InvalidDomain(String),
    /// The address type in the request header is none of the SOCKS5 ones.
    AddressTypeNotSupported(u8),
    /// The domain name in the request header is not UTF-8.
    AddressDomainInvalidEncoding,
}

/// What a [`UotError`] says, with its text as characters.
#[verifier::ext_equal]
pub enum UotErrorView {
    UnexpectedEof(Eof),
    UnknownAtyp(u8),
    InvalidDomain(Seq<char>),
    AddressTypeNotSupported(u8),
    AddressDomainInvalidEncoding,
}

impl View for UotError {
    type V = UotErrorView;

    open spec fn view(&self) -> UotErrorView {
        match self {
            UotError::UnexpectedEof(eof) => UotErrorView::UnexpectedEof(*eof),
            UotError::UnknownAtyp(atyp) => UotErrorView::UnknownAtyp(*atyp),
            UotError::InvalidDomain(reason) => UotErrorView::InvalidDomain(reason@),
            UotError::AddressTypeNotSupported(atyp) => UotErrorView::AddressTypeNotSupported(*atyp),
            UotError::AddressDomainInvalidEncoding => UotErrorView::AddressDomainInvalidEncoding,
        }
    }
}

/// The character that stands for a digit below sixteen.
pub open spec fn digit_char(digit: nat) -> char {
    if digit < 10 {
        (('0' as nat) + digit) as char
    } else {
        (('a' as nat) + digit - 10) as char
    }
}

/// A number in the given base, most significant digit first, without leading zeros.
pub open spec fn digits(n: nat, base: nat) -> Seq<char>
    decreases n,
{
    if n < base || base < 2 {
        seq![digit_char(n)]
    } else {
        proof {
            vstd::arithmetic::div_mod::lemma_div_decreases(n as int, base as int);
        }
        digits(n / base, base).push(digit_char(n % base))
    }
}

/// The text that describes an error.
pub open spec fn error_message(error: UotErrorView) -> Seq<char> {
    match error {
        UotErrorView::UnexpectedEof(Eof::Number) => "unexpected end of file"@,
        UotErrorView::UnexpectedEof(Eof::Bytes) => "early eof"@,
        UotErrorView::UnknownAtyp(atyp) => "unknown uot ATYP: "@ + digits(atyp as nat, 10),
        UotErrorView::InvalidDomain(reason) => "invalid uot domain: "@ + reason,
        UotErrorView::AddressTypeNotSupported(atyp) => "address type 0x"@ + digits(atyp as nat, 16)
            + " not supported"@,
        UotErrorView::AddressDomainInvalidEncoding => "address domain name must be UTF-8 encoding"@,
    }
}

/// One digit as text.
fn digit_text(digit: u8) -> (text: &'static str)
    requires
        digit < 16,
    ensures
        text@ == seq![digit_char(digit as nat)],
{
    proof {
        reveal_strlit("0");
        reveal_strlit("1");
        reveal_strlit("2");
        reveal_strlit("3");
        reveal_strlit("4");
        reveal_strlit("5");
        reveal_strlit("6");
        reveal_strlit("7");
        reveal_strlit("8");
        reveal_strlit("9");
        reveal_strlit("a");
        reveal_strlit("b");
        reveal_strlit("c");
        reveal_strlit("d");
        reveal_strlit("e");
        reveal_strlit("f");
    }
    let text: &'static str = match digit {
        0 => "0",
        1 => "1",
        2 => "2",
        3 => "3",
        4 => "4",
        5 => "5",
        6 => "6",
        7 => "7",
        8 => "8",
        9 => "9",
        10 => "a",
        11 => "b",
        12 => "c",
        13 => "d",
        14 => "e",
        _ => "f",
    };
    assert(text@ =~= seq![digit_char(digit as nat)]);
    text
}

/// Appends a number in the given base.
fn append_number(text: &mut String, n: u8, base: u8)
    requires
        2 <= base <= 16,
    ensures
        final(text)@ == old(text)@ + digits(n as nat, base as nat),
    decreases n,
{
    proof {
        vstd::arithmetic::div_mod::lemma_mod_bound(n as int, base as int);
        if n < base {
            vstd::arithmetic::div_mod::lemma_small_mod(n as nat, base as nat);
        } else {
            vstd::arithmetic::div_mod::lemma_div_decreases(n as int, base as int);
        }
    }
    if n >= base {
        append_number(text, n / base, base);
    }
    text.append(digit_text(n % base));
    assert(text@ =~= old(text)@ + digits(n as nat, base as nat));
}

impl UotError {
    /// The text that describes this error.
    pub fn message(&self) -> (text: String)
        ensures
            text@ == error_message(self@),
    {
        match self {
            UotError::UnexpectedEof(Eof::Number) => "unexpected end of file".to_owned(),
            UotError::UnexpectedEof(Eof::Bytes) => "early eof".to_owned(),
            UotError::UnknownAtyp(atyp) => {
                let mut text = "unknown uot ATYP: ".to_owned();
                append_number(&mut text, *atyp, 10);
                text
            },
            UotError::InvalidDomain(reason) => {
                let mut text = "invalid uot domain: ".to_owned();
                text.append(reason.as_str());
                text
            },
            UotError::AddressTypeNotSupported(atyp) => {
                let mut text = "address type 0x".to_owned();
                append_number(&mut text, *atyp, 16);
                text.append(" not supported");
                text
            },
            UotError::AddressDomainInvalidEncoding => {
                "address domain name must be UTF-8 encoding".to_owned()
            },
        }
    }
}

} // verus!
