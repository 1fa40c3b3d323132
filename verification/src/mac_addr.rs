//! A convenience type for parsing and displaying media access control (MAC)
//! addresses.

use vstd::prelude::*;

use crate::text::{decimal_text, hex_octet_text};

verus! {

/// Length of a MAC address.
pub const MAC_LENGTH_BYTES: usize = 6;

/// MAC address parsing error.
#[derive(Clone, Copy, Debug, PartialEq, Eq, Structural)]
pub enum MacAddrError {
    /// The given octets are not as many as a MAC address has.
    InvalidLength(usize),
}

/// Media access control (MAC) address.
#[derive(Debug)]
pub struct MacAddr {
    /// MAC address octets.
    octets: [u8; MAC_LENGTH_BYTES],
}

impl View for MacAddr {
    type V = Seq<u8>;

    closed spec fn view(&self) -> Seq<u8> {
        self.octets@
    }
}

/// The text of the MAC address with the given octets: each octet as two
/// hexadecimal digits, with colons between.
pub open spec fn mac_text(octets: Seq<u8>) -> Seq<char> {
    crate::text::joined(octets.map_values(|b: u8| crate::text::hex_octet(b)), ":"@)
}

/// Whether `c` is a digit of a hexadecimal number, in lower case.
pub open spec fn is_hex_digit(c: char) -> bool {
    '0' <= c <= '9' || 'a' <= c <= 'f'
}

/// Whether `text` looks like a MAC address: six pairs of hexadecimal digits, with
/// colons between.
pub open spec fn has_mac_shape(text: Seq<char>) -> bool {
    &&& text.len() == 3 * MAC_LENGTH_BYTES - 1
    &&& forall|i: int|
        0 <= i < text.len() ==> if i % 3 == 2 {
            #[trigger] text[i] == ':'
        } else {
            is_hex_digit(text[i])
        }
}

/// The text of a parsing error.
pub open spec fn mac_error_text(error: MacAddrError) -> Seq<char> {
    match error {
        MacAddrError::InvalidLength(found) => "expected length "@ + crate::text::decimal(
            MAC_LENGTH_BYTES as nat,
        ) + ", found "@ + crate::text::decimal(found as nat),
    }
}

impl MacAddrError {
    /// The error as a sentence.
    pub fn to_string(&self) -> (text: String)
        ensures
            text@ == mac_error_text(*self),
    {
        match self {
            MacAddrError::InvalidLength(found) => {
                let mut text = "expected length ".to_owned();
                text.append(decimal_text(MAC_LENGTH_BYTES).as_str());
                text.append(", found ");
                text.append(decimal_text(*found).as_str());
                text
            },
        }
    }
}

impl TryFrom<Vec<u8>> for MacAddr {
    type Error = MacAddrError;

    /// Takes exactly [`MAC_LENGTH_BYTES`] octets.
    fn try_from(octets: Vec<u8>) -> (result: Result<Self, MacAddrError>)
        ensures
            result is Ok <==> octets@.len() == MAC_LENGTH_BYTES,
            result matches Ok(address) ==> address@ == octets@,
            result matches Err(error) ==> error == MacAddrError::InvalidLength(octets.len()),
    {
        if octets.len() == MAC_LENGTH_BYTES {
            let address = MacAddr {
                octets: [octets[0], octets[1], octets[2], octets[3], octets[4], octets[5]],
            };
            proof {
                assert(address.octets@ =~= octets@);
            }
            Ok(address)
        } else {
            Err(MacAddrError::InvalidLength(octets.len()))
        }
    }
}

impl vstd::std_specs::convert::TryFromSpecImpl<Vec<u8>> for MacAddr {
    open spec fn obeys_try_from_spec() -> bool {
        true
    }

    closed spec fn try_from_spec(octets: Vec<u8>) -> Result<Self, MacAddrError> {
        if octets@.len() == MAC_LENGTH_BYTES {
            Ok(MacAddr {
                octets: [octets@[0], octets@[1], octets@[2], octets@[3], octets@[4], octets@[5]],
            })
        } else {
            Err(MacAddrError::InvalidLength(octets.len()))
        }
    }
}

impl Clone for MacAddr {
    fn clone(&self) -> (copy: Self)
        ensures
            copy@ == self@,
    {
        MacAddr { octets: self.octets }
    }
}

impl PartialEq for MacAddr {
    fn eq(&self, other: &Self) -> (equal: bool) {
        let mut i: usize = 0;
        while i < MAC_LENGTH_BYTES
            invariant
                i <= MAC_LENGTH_BYTES,
                forall|j: int| 0 <= j < i ==> self.octets@[j] == other.octets@[j],
            decreases MAC_LENGTH_BYTES - i,
        {
            if self.octets[i] != other.octets[i] {
                return false;
            }
            i += 1;
        }
        proof {
            assert(self.octets@ =~= other.octets@);
        }
        true
    }
}

impl vstd::std_specs::cmp::PartialEqSpecImpl for MacAddr {
    open spec fn obeys_eq_spec() -> bool {
        true
    }

    open spec fn eq_spec(&self, other: &Self) -> bool {
        self@ == other@
    }
}

impl MacAddr {
    /// The address as text, such as `01:23:45:67:89:ab`.
    pub fn to_string(&self) -> (text: String)
        ensures
            self@.len() == MAC_LENGTH_BYTES,
            text@ == mac_text(self@),
            has_mac_shape(text@),
    {
        let mut text = String::new();
        let ghost octets = self.octets@;
        let mut i: usize = 0;
        while i < MAC_LENGTH_BYTES
            invariant
                i <= MAC_LENGTH_BYTES,
                octets == self.octets@,
                octets.len() == MAC_LENGTH_BYTES,
                text@ == mac_text(octets.take(i as int)),
            decreases MAC_LENGTH_BYTES - i,
        {
            proof {
                let f = |b: u8| crate::text::hex_octet(b);
                let before = octets.take(i as int).map_values(f);
                let after = octets.take(i + 1).map_values(f);
                assert(after.drop_last() =~= before);
                assert(after.last() == crate::text::hex_octet(octets[i as int]));
            }
            if i > 0 {
                text.append(":");
            }
            text.append(hex_octet_text(self.octets[i]).as_str());
            i += 1;
        }
        proof {
            assert(octets.take(i as int) =~= octets);
            law_mac_text_shape(octets);
        }
        text
    }
}

/// Where the digits of each octet stand in the text of an address.
proof fn lemma_mac_text_digits(octets: Seq<u8>)
    requires
        octets.len() > 0,
    ensures
        mac_text(octets).len() == 3 * octets.len() - 1,
        forall|i: int|
            #![trigger octets[i]]
            0 <= i < octets.len() ==> {
                &&& mac_text(octets)[3 * i] == crate::text::hex_char(octets[i] as nat / 16)
                &&& mac_text(octets)[3 * i + 1] == crate::text::hex_char(octets[i] as nat % 16)
            },
        forall|i: int| 1 <= i < octets.len() ==> #[trigger] mac_text(octets)[3 * i - 1] == ':',
    decreases octets.len(),
{
    reveal_strlit(":");
    let f = |b: u8| crate::text::hex_octet(b);
    let list = octets.map_values(f);
    if octets.len() > 1 {
        lemma_mac_text_digits(octets.drop_last());
        assert(list.drop_last() =~= octets.drop_last().map_values(f));
        let before = mac_text(octets.drop_last());
        assert(mac_text(octets) =~= before + ":"@ + crate::text::hex_octet(octets.last()));
        assert forall|i: int| #![trigger octets[i]] 0 <= i < octets.len() implies {
            &&& mac_text(octets)[3 * i] == crate::text::hex_char(octets[i] as nat / 16)
            &&& mac_text(octets)[3 * i + 1] == crate::text::hex_char(octets[i] as nat % 16)
        } by {
            if i < octets.len() - 1 {
                assert(octets.drop_last()[i] == octets[i]);
            }
        }
        assert forall|i: int| 1 <= i < octets.len() implies #[trigger] mac_text(octets)[3 * i - 1]
            == ':' by {
            if i < octets.len() - 1 {
                assert(before[3 * i - 1] == ':');
            }
        }
    }
}

/// The text of an address is six pairs of digits, the upper half of each octet
/// and then the lower, with colons between.
pub proof fn law_mac_text_shape(octets: Seq<u8>)
    requires
        octets.len() == MAC_LENGTH_BYTES,
    ensures
        has_mac_shape(mac_text(octets)),
        forall|i: int|
            #![trigger octets[i]]
            0 <= i < MAC_LENGTH_BYTES ==> {
                &&& mac_text(octets)[3 * i] == crate::text::hex_char(octets[i] as nat / 16)
                &&& mac_text(octets)[3 * i + 1] == crate::text::hex_char(octets[i] as nat % 16)
            },
{
    lemma_mac_text_digits(octets);
    let text = mac_text(octets);
    assert forall|i: int| 0 <= i < text.len() implies if i % 3 == 2 {
        #[trigger] text[i] == ':'
    } else {
        is_hex_digit(text[i])
    } by {
        let octet = octets[i / 3];
        if i % 3 == 2 {
            assert(text[3 * (i / 3 + 1) - 1] == ':');
        } else if i % 3 == 0 {
            assert(text[3 * (i / 3)] == crate::text::hex_char(octet as nat / 16));
        } else {
            assert(text[3 * (i / 3) + 1] == crate::text::hex_char(octet as nat % 16));
        }
    }
}

/// The text of an address tells which address it is.
pub proof fn law_mac_text_is_unique(a: Seq<u8>, b: Seq<u8>)
    requires
        a.len() == MAC_LENGTH_BYTES,
        b.len() == MAC_LENGTH_BYTES,
        mac_text(a) == mac_text(b),
    ensures
        a == b,
{
    lemma_mac_text_digits(a);
    lemma_mac_text_digits(b);
    assert forall|i: int| 0 <= i < a.len() implies a[i] == b[i] by {
        let upper = crate::text::hex_char(a[i] as nat / 16);
        let lower = crate::text::hex_char(a[i] as nat % 16);
        assert(upper == crate::text::hex_char(b[i] as nat / 16));
        assert(lower == crate::text::hex_char(b[i] as nat % 16));
    }
    assert(a =~= b);
}

/// The text of an address reads back as its octets, in the same order.
pub proof fn law_mac_text_reads_back(octets: Seq<u8>, i: int)
    requires
        octets.len() == MAC_LENGTH_BYTES,
        0 <= i < 6,
    ensures
        16 * crate::text::digit_value(mac_text(octets)[3 * i]) + crate::text::digit_value(
            mac_text(octets)[3 * i + 1],
        ) == octets[i],
{
    law_mac_text_shape(octets);
    crate::text::law_hex_octet_reads_back(octets[i]);
}

/// The text of a parsing error gives the length that was found, and six as the
/// length that an address has.
pub proof fn law_mac_error_names_both_lengths(found: usize)
    ensures
        ({
            let text = mac_error_text(MacAddrError::InvalidLength(found));
            &&& text.take(25) == "expected length 6, found "@
            &&& crate::text::decimal_value(text.skip(25)) == found
        }),
{
    reveal_strlit("expected length 6, found ");
    reveal_strlit("expected length ");
    reveal_strlit(", found ");
    crate::text::law_decimal_reads_back(found as nat);
    let text = mac_error_text(MacAddrError::InvalidLength(found));
    assert(crate::text::decimal(6) =~= seq!['6']);
    assert(text.take(25) =~= "expected length 6, found "@);
    assert(text.skip(25) =~= crate::text::decimal(found as nat));
}

} // verus!
