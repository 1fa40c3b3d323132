//! Why a dissection fails.

use vstd::prelude::*;

use crate::mac_addr::{mac_error_text, MacAddrError};
use crate::text::{decimal, decimal_text};

verus! {

/// An error that ends the dissection of a packet.
#[derive(Debug, PartialEq, Eq)]
pub enum DissectError {
    /// A range of octets reaches past the end of the range it was taken from.
    OutOfBounds {
        /// Where the range was to start.
        offset: usize,
        /// How many octets it was to have.
        length: usize,
        /// How many octets there are.
        available: usize,
    },
    /// The octets of an address are not a MAC address.
    MacAddress(MacAddrError),
    /// The dissector that data was passed to failed, and says this.
    Subdissector(String),
}

impl Clone for DissectError {
    fn clone(&self) -> (copy: Self)
        ensures
            copy == *self,
    {
        match self {
            DissectError::OutOfBounds { offset, length, available } => DissectError::OutOfBounds {
                offset: *offset,
                length: *length,
                available: *available,
            },
            DissectError::MacAddress(error) => DissectError::MacAddress(*error),
            DissectError::Subdissector(text) => DissectError::Subdissector(text.clone()),
        }
    }
}

/// The text of an error.
pub open spec fn error_text(error: DissectError) -> Seq<char> {
    match error {
        DissectError::OutOfBounds { offset, length, available } => "range of "@ + decimal(
            length as nat,
        ) + " octets at offset "@ + decimal(offset as nat) + " exceeds the "@ + decimal(
            available as nat,
        ) + " octets available"@,
        DissectError::MacAddress(error) => mac_error_text(error),
        DissectError::Subdissector(text) => text@,
    }
}

impl DissectError {
    /// The error as a sentence.
    pub fn to_string(&self) -> (text: String)
        ensures
            text@ == error_text(*self),
    {
        match self {
            DissectError::OutOfBounds { offset, length, available } => {
                let mut text = "range of ".to_owned();
                text.append(decimal_text(*length).as_str());
                text.append(" octets at offset ");
                text.append(decimal_text(*offset).as_str());
                text.append(" exceeds the ");
                text.append(decimal_text(*available).as_str());
                text.append(" octets available");
                text
            },
            DissectError::MacAddress(error) => error.to_string(),
            DissectError::Subdissector(text) => text.clone(),
        }
    }
}

/// The text of an error gives each of its numbers in decimal, the length first, then
/// the offset, then what is available. That of another dissector is its own.
pub proof fn law_error_text_gives_its_numbers(
    offset: usize,
    length: usize,
    available: usize,
    text: String,
)
    ensures
        ({
            let shown = error_text(DissectError::OutOfBounds { offset, length, available });
            let first = 9 + decimal(length as nat).len() as int;
            let second = first + 18 + decimal(offset as nat).len();
            let third = second + 13 + decimal(available as nat).len();
            &&& crate::text::decimal_value(shown.subrange(9, first)) == length
            &&& crate::text::decimal_value(shown.subrange(first + 18, second)) == offset
            &&& crate::text::decimal_value(shown.subrange(second + 13, third)) == available
        }),
        error_text(DissectError::Subdissector(text)) == text@,
{
    reveal_strlit("range of ");
    reveal_strlit(" octets at offset ");
    reveal_strlit(" exceeds the ");
    reveal_strlit(" octets available");
    let shown = error_text(DissectError::OutOfBounds { offset, length, available });
    let first = 9 + decimal(length as nat).len() as int;
    let second = first + 18 + decimal(offset as nat).len();
    let third = second + 13 + decimal(available as nat).len();
    assert(shown.subrange(9, first) =~= decimal(length as nat));
    assert(shown.subrange(first + 18, second) =~= decimal(offset as nat));
    assert(shown.subrange(second + 13, third) =~= decimal(available as nat));
    crate::text::law_decimal_reads_back(length as nat);
    crate::text::law_decimal_reads_back(offset as nat);
    crate::text::law_decimal_reads_back(available as nat);
}

} // verus!
