//! Laws of the texts of errors.

use vstd::prelude::*;

use crate::error::{digits, error_message, Eof, UotErrorView};

verus! {

/// The text of each error, word by word.
pub proof fn law_error_texts(atyp: u8, reason: Seq<char>)
    ensures
        error_message(UotErrorView::UnexpectedEof(Eof::Number)) == "unexpected end of file"@,
        error_message(UotErrorView::UnexpectedEof(Eof::Bytes)) == "early eof"@,
        error_message(UotErrorView::UnknownAtyp(atyp)) == "unknown uot ATYP: "@ + digits(
            atyp as nat,
            10,
        ),
        error_message(UotErrorView::InvalidDomain(reason)) == "invalid uot domain: "@ + reason,
        error_message(UotErrorView::AddressTypeNotSupported(atyp)) == "address type 0x"@ + digits(
            atyp as nat,
            16,
        ) + " not supported"@,
        error_message(UotErrorView::AddressDomainInvalidEncoding)
            == "address domain name must be UTF-8 encoding"@,
{
}

/// One digit of a number: `0` to `9`, and then `a` to `f`.
pub proof fn law_one_digit(n: nat, base: nat)
    requires
        n < base <= 16,
    ensures
        n < 10 ==> digits(n, base) == seq![(48 + n) as char],
        n >= 10 ==> digits(n, base) == seq![(87 + n) as char],
{
}

/// The last digit of a larger number is its remainder by the base, and the digits in front of it are
/// those of the quotient; none of them is a leading zero.
pub proof fn law_more_digits(n: nat, base: nat)
    requires
        2 <= base <= 16,
        n >= base,
    ensures
        digits(n, base) == digits(n / base, base) + digits(n % base, base),
        n / base > 0,
{
    vstd::arithmetic::div_mod::lemma_mod_bound(n as int, base as int);
    vstd::arithmetic::div_mod::lemma_div_non_zero(n as int, base as int);
    assert(digits(n, base) =~= digits(n / base, base) + digits(n % base, base));
}

} // verus!
