//! Ranges of octets in a packet or in a reassembled frame.

use vstd::prelude::*;

use crate::error::DissectError;

verus! {

/// The buffer that a range lies in.
#[derive(Clone, Copy, Debug, PartialEq, Eq, Structural)]
pub enum TvbSource {
    /// The packet that is being dissected.
    Packet,
    /// The frame that was put together from the latest frame fragment.
    Reassembled,
}

/// Where a range lies.
#[derive(Clone, Copy, Debug, PartialEq, Eq, Structural)]
pub struct Span {
    /// The buffer.
    pub source: TvbSource,
    /// Index of the first octet in the buffer.
    pub offset: usize,
    /// Number of octets.
    pub length: usize,
}

/// The part of `span` that has `length` octets and starts `offset` octets in.
pub open spec fn sub_span(span: Span, offset: nat, length: nat) -> Span {
    Span { source: span.source, offset: (span.offset + offset) as usize, length: length as usize }
}

/// Where a whole reassembled frame lies.
pub open spec fn whole_span(frame: Seq<u8>) -> Span {
    Span { source: TvbSource::Reassembled, offset: 0, length: frame.len() as usize }
}

/// The value of `bytes` as a big-endian number.
pub open spec fn big_endian(bytes: Seq<u8>) -> nat
    decreases bytes.len(),
{
    if bytes.len() == 0 {
        0
    } else {
        big_endian(bytes.drop_last()) * 256 + bytes.last() as nat
    }
}

/// A range of octets in a buffer.
///
/// The view of a range is its octets.
#[derive(Clone, Copy, Debug)]
pub struct TvbRange<'a> {
    data: &'a [u8],
    span: Span,
}

impl<'a> View for TvbRange<'a> {
    type V = Seq<u8>;

    closed spec fn view(&self) -> Seq<u8> {
        self.data@.subrange(self.span.offset as int, self.span.offset + self.span.length)
    }
}

impl<'a> TvbRange<'a> {
    #[verifier::type_invariant]
    spec fn in_bounds(self) -> bool {
        self.span.offset + self.span.length <= self.data@.len() <= usize::MAX
    }

    /// Where the range lies.
    pub closed spec fn spec_span(&self) -> Span {
        self.span
    }

    /// The whole of `data`.
    pub fn new(source: TvbSource, data: &'a [u8]) -> (range: Self)
        ensures
            range@ == data@,
            range.spec_span() == (Span { source, offset: 0, length: data.len() }),
    {
        let range = TvbRange { data, span: Span { source, offset: 0, length: data.len() } };
        proof {
            assert(range@ =~= data@);
        }
        range
    }

    /// Where the range lies.
    pub fn span(&self) -> (span: Span)
        ensures
            span == self.spec_span(),
            span.length == self@.len(),
            span.offset + span.length <= usize::MAX,
    {
        proof {
            use_type_invariant(&*self);
        }
        self.span
    }

    /// Number of octets in the range.
    pub fn length(&self) -> (length: usize)
        ensures
            length == self@.len(),
            length == self.spec_span().length,
            self.spec_span().offset + length <= usize::MAX,
    {
        proof {
            use_type_invariant(&*self);
        }
        self.span.length
    }

    /// The `length` octets that start `offset` octets into this range.
    pub fn range(&self, offset: usize, length: usize) -> (result: Result<Self, DissectError>)
        ensures
            result is Ok <==> offset + length <= self@.len(),
            result matches Ok(range) ==> {
                &&& range@ == self@.subrange(offset as int, offset + length)
                &&& range.spec_span() == sub_span(self.spec_span(), offset as nat, length as nat)
            },
            result matches Err(error) ==> error == (DissectError::OutOfBounds {
                offset,
                length,
                available: self@.len() as usize,
            }),
    {
        proof {
            use_type_invariant(&*self);
        }
        if offset > self.span.length || length > self.span.length - offset {
            return Err(
                DissectError::OutOfBounds { offset, length, available: self.span.length },
            );
        }
        let range = TvbRange {
            data: self.data,
            span: Span { source: self.span.source, offset: self.span.offset + offset, length },
        };
        proof {
            assert(range@ =~= self@.subrange(offset as int, offset + length));
        }
        Ok(range)
    }

    /// The octets of this range but for the first `offset`.
    pub fn range_from(&self, offset: usize) -> (result: Result<Self, DissectError>)
        ensures
            result is Ok <==> offset <= self@.len(),
            result matches Ok(range) ==> {
                &&& range@ == self@.skip(offset as int)
                &&& range.spec_span() == sub_span(
                    self.spec_span(),
                    offset as nat,
                    (self@.len() - offset) as nat,
                )
            },
            result matches Err(error) ==> error == (DissectError::OutOfBounds {
                offset,
                length: 0,
                available: self@.len() as usize,
            }),
    {
        let available: usize = self.length();
        if offset > available {
            return Err(DissectError::OutOfBounds { offset, length: 0, available });
        }
        let result = self.range(offset, available - offset);
        proof {
            assert(self@.subrange(offset as int, self@.len() as int) =~= self@.skip(offset as int));
        }
        result
    }

    /// The octet at `index`.
    pub fn octet(&self, index: usize) -> (octet: u8)
        requires
            index < self@.len(),
        ensures
            octet == self@[index as int],
    {
        proof {
            use_type_invariant(&*self);
        }
        self.data[self.span.offset + index]
    }

    /// A copy of the octets of the range.
    pub fn bytes(&self) -> (bytes: Vec<u8>)
        ensures
            bytes@ == self@,
    {
        let length: usize = self.length();
        let mut bytes: Vec<u8> = Vec::new();
        let mut i: usize = 0;
        while i < length
            invariant
                i <= length,
                length == self@.len(),
                bytes@ == self@.take(i as int),
            decreases length - i,
        {
            bytes.push(self.octet(i));
            proof {
                assert(self@.take(i + 1) =~= self@.take(i as int).push(self@[i as int]));
            }
            i += 1;
        }
        proof {
            assert(self@.take(length as int) =~= self@);
        }
        bytes
    }

    /// The first octet.
    pub fn uint8(&self) -> (result: Result<u8, DissectError>)
        ensures
            result is Ok <==> self@.len() >= 1,
            result matches Ok(value) ==> value == self@[0],
            result matches Err(error) ==> error == (DissectError::OutOfBounds {
                offset: 0,
                length: 1,
                available: self@.len() as usize,
            }),
    {
        let octets = self.range(0, 1)?;
        Ok(octets.octet(0))
    }

    /// The first two octets as a big-endian number.
    pub fn uint16(&self) -> (result: Result<u16, DissectError>)
        ensures
            result is Ok <==> self@.len() >= 2,
            result matches Ok(value) ==> {
                &&& value == big_endian(self@.take(2))
                &&& value == 256 * self@[0] + self@[1]
            },
            result matches Err(error) ==> error == (DissectError::OutOfBounds {
                offset: 0,
                length: 2,
                available: self@.len() as usize,
            }),
    {
        let octets = self.range(0, 2)?;
        proof {
            let s = self@.take(2);
            reveal_with_fuel(big_endian, 3);
            assert(s.drop_last().drop_last() =~= Seq::empty());
        }
        Ok(octets.octet(0) as u16 * 256 + octets.octet(1) as u16)
    }

    /// The first three octets as a big-endian number.
    pub fn uint24(&self) -> (result: Result<u32, DissectError>)
        ensures
            result is Ok <==> self@.len() >= 3,
            result matches Ok(value) ==> {
                &&& value == big_endian(self@.take(3))
                &&& value == 65536 * self@[0] + 256 * self@[1] + self@[2]
                &&& value <= 0xff_ffff
            },
            result matches Err(error) ==> error == (DissectError::OutOfBounds {
                offset: 0,
                length: 3,
                available: self@.len() as usize,
            }),
    {
        let octets = self.range(0, 3)?;
        proof {
            let s = self@.take(3);
            reveal_with_fuel(big_endian, 4);
            assert(s.drop_last().drop_last().drop_last() =~= Seq::empty());
        }
        Ok(octets.octet(0) as u32 * 65536 + octets.octet(1) as u32 * 256 + octets.octet(2) as u32)
    }
}

/// A big-endian number is the octets before the last, each worth 256 times as
/// much as in their own number, and the last. None stands for zero. So numbers of
/// as many octets are the same only if the octets are.
pub proof fn law_big_endian_reads_octets(front: Seq<u8>, last: u8)
    ensures
        big_endian(Seq::empty()) == 0,
        big_endian(front.push(last)) == 256 * big_endian(front) + last,
        big_endian(front.push(last)) / 256 == big_endian(front),
        big_endian(front.push(last)) % 256 == last,
{
    assert(front.push(last).drop_last() =~= front);
}

/// The octets of a part of a span lie that far into it, and in the same buffer.
pub proof fn law_sub_span_lies_in_span(span: Span, offset: nat, length: nat)
    requires
        offset + length <= span.length,
        span.offset + span.length <= usize::MAX,
    ensures
        sub_span(span, offset, length).source == span.source,
        sub_span(span, offset, length).offset == span.offset + offset,
        sub_span(span, offset, length).length == length,
{
}

} // verus!
