//! The keys of the tables, as fixed-width byte strings.
//!
//! Each key shape is the concatenation of its fields, an identifier as
//! sixteen big-endian bytes and a timestamp as eight, so that the byte
//! order of two keys is the order of their fields, first field first.

use vstd::prelude::*;
use crate::big_endian::{
    be_bytes, be_value, lemma_be_bytes_len, lemma_be_bytes_of_value, lemma_be_bytes_order,
    lemma_be_value_bound, lemma_be_value_of_bytes, lemma_lex_lt_concat, lemma_radix_pow_values,
    lex_lt, push_be, radix_pow, read_be,
};

verus! {

/// Bytes in an encoded identifier.
pub const ID_WIDTH: usize = 16;

/// Bytes in an encoded timestamp.
pub const TIMESTAMP_WIDTH: usize = 8;

/// Why a byte string is not a key of the shape asked for: it has not the
/// shape's length.
#[derive(Clone, Copy, Debug, PartialEq, Eq, Structural)]
pub struct DecodeError {
    /// The length of every key of the shape.
    pub expected: usize,
    /// The length of the rejected byte string.
    pub found: usize,
}

/// The key of a record that one identifier names.
#[derive(Clone, Copy, Debug, PartialEq, Eq, Structural)]
pub struct HeedUuid(pub u128);

/// The key of a message record: the owning thread, then the message.
#[derive(Clone, Copy, Debug, PartialEq, Eq)]
pub struct HeedUuidTuple(pub (u128, u128));

/// The key of a thread's creation-order entry: the creation time in
/// seconds, then the thread.
#[derive(Clone, Copy, Debug, PartialEq, Eq)]
pub struct HeedTimestampUuid(pub (u64, u128));

/// The key of a message's creation-order entry: the owning thread, the
/// creation time in seconds, then the message.
#[derive(Clone, Copy, Debug, PartialEq, Eq)]
pub struct HeedMessageCreationTimeId(pub (u128, u64, u128));

/// Every identifier fits in sixteen bytes and every timestamp in eight.
pub proof fn lemma_fields_fit(id: u128, timestamp: u64)
    ensures
        (id as nat) < radix_pow(16),
        (timestamp as nat) < radix_pow(8),
{
    lemma_radix_pow_values();
}

impl HeedUuid {
    /// Bytes in every key of this shape.
    pub const WIDTH: usize = 16;

    /// The key as bytes.
    pub open spec fn encoding(self) -> Seq<u8> {
        be_bytes(self.0 as nat, 16)
    }

    /// The key that `bytes` encode, if they have the shape's length.
    pub open spec fn decoding(bytes: Seq<u8>) -> Option<Self> {
        if bytes.len() == 16 {
            Some(HeedUuid(be_value(bytes) as u128))
        } else {
            None
        }
    }

    /// The order of the keys: that of the identifiers.
    pub open spec fn precedes(self, other: Self) -> bool {
        self.0 < other.0
    }

    /// The key as bytes.
    pub fn bytes_encode(&self) -> (bytes: Vec<u8>)
        ensures
            bytes@ == self.encoding(),
    {
        let mut bytes: Vec<u8> = Vec::with_capacity(16);
        push_be(&mut bytes, self.0, 16);
        assert(bytes@ =~= self.encoding());
        bytes
    }

    /// The key that `bytes` encode. Bytes of another length than the
    /// shape's are rejected: nothing is cut off and nothing filled in.
    pub fn bytes_decode(bytes: &[u8]) -> (r: Result<Self, DecodeError>)
        ensures
            match r {
                Ok(key) => Self::decoding(bytes@) == Some(key),
                Err(e) => Self::decoding(bytes@) is None && e == (DecodeError {
                    expected: 16,
                    found: bytes@.len() as usize,
                }),
            },
    {
        if bytes.len() != 16 {
            return Err(DecodeError { expected: 16, found: bytes.len() });
        }
        let id = read_be(bytes, 0, 16);
        assert(bytes@.subrange(0, 16) =~= bytes@);
        Ok(HeedUuid(id))
    }

    /// Every key has the shape's length.
    pub proof fn lemma_encoding_len(self)
        ensures
            self.encoding().len() == 16,
    {
        lemma_be_bytes_len(self.0 as nat, 16);
    }

    /// Decoding undoes encoding, and encoding undoes decoding.
    pub proof fn lemma_round_trip(self, bytes: Seq<u8>)
        ensures
            Self::decoding(self.encoding()) == Some(self),
            Self::decoding(bytes) == Some(self) ==> self.encoding() == bytes,
    {
        lemma_fields_fit(self.0, 0);
        lemma_be_bytes_len(self.0 as nat, 16);
        lemma_be_value_of_bytes(self.0 as nat, 16);
        if Self::decoding(bytes) == Some(self) {
            lemma_be_value_bound(bytes);
            lemma_radix_pow_values();
            lemma_be_bytes_of_value(bytes);
        }
    }

    /// The byte order of two keys is the order of the keys, and only equal
    /// keys have equal bytes.
    pub proof fn lemma_encoding_order(self, other: Self)
        ensures
            lex_lt(self.encoding(), other.encoding()) <==> self.precedes(other),
            self.encoding() == other.encoding() <==> self == other,
    {
        lemma_fields_fit(self.0, 0);
        lemma_fields_fit(other.0, 0);
        lemma_be_bytes_order(self.0 as nat, other.0 as nat, 16);
    }
}

impl HeedUuidTuple {
    /// Bytes in every key of this shape.
    pub const WIDTH: usize = 32;

    /// The key as bytes.
    pub open spec fn encoding(self) -> Seq<u8> {
        be_bytes(self.0.0 as nat, 16) + be_bytes(self.0.1 as nat, 16)
    }

    /// The key that `bytes` encode, if they have the shape's length.
    pub open spec fn decoding(bytes: Seq<u8>) -> Option<Self> {
        if bytes.len() == 32 {
            Some(
                HeedUuidTuple(
                    (
                        be_value(bytes.subrange(0, 16)) as u128,
                        be_value(bytes.subrange(16, 32)) as u128,
                    ),
                ),
            )
        } else {
            None
        }
    }

    /// The order of the keys: by thread, then by message.
    pub open spec fn precedes(self, other: Self) -> bool {
        self.0.0 < other.0.0 || (self.0.0 == other.0.0 && self.0.1 < other.0.1)
    }

    /// The key as bytes.
    pub fn bytes_encode(&self) -> (bytes: Vec<u8>)
        ensures
            bytes@ == self.encoding(),
    {
        let mut bytes: Vec<u8> = Vec::with_capacity(32);
        push_be(&mut bytes, self.0.0, 16);
        push_be(&mut bytes, self.0.1, 16);
        assert(bytes@ =~= self.encoding());
        bytes
    }

    /// The key that `bytes` encode. Bytes of another length than the
    /// shape's are rejected: nothing is cut off and nothing filled in.
    pub fn bytes_decode(bytes: &[u8]) -> (r: Result<Self, DecodeError>)
        ensures
            match r {
                Ok(key) => Self::decoding(bytes@) == Some(key),
                Err(e) => Self::decoding(bytes@) is None && e == (DecodeError {
                    expected: 32,
                    found: bytes@.len() as usize,
                }),
            },
    {
        if bytes.len() != 32 {
            return Err(DecodeError { expected: 32, found: bytes.len() });
        }
        let first = read_be(bytes, 0, 16);
        let second = read_be(bytes, 16, 16);
        Ok(HeedUuidTuple((first, second)))
    }

    /// Every key has the shape's length.
    pub proof fn lemma_encoding_len(self)
        ensures
            self.encoding().len() == 32,
    {
        lemma_be_bytes_len(self.0.0 as nat, 16);
        lemma_be_bytes_len(self.0.1 as nat, 16);
    }

    /// Decoding undoes encoding, and encoding undoes decoding.
    pub proof fn lemma_round_trip(self, bytes: Seq<u8>)
        ensures
            Self::decoding(self.encoding()) == Some(self),
            Self::decoding(bytes) == Some(self) ==> self.encoding() == bytes,
    {
        let a = be_bytes(self.0.0 as nat, 16);
        let b = be_bytes(self.0.1 as nat, 16);
        lemma_fields_fit(self.0.0, 0);
        lemma_fields_fit(self.0.1, 0);
        lemma_be_bytes_len(self.0.0 as nat, 16);
        lemma_be_bytes_len(self.0.1 as nat, 16);
        lemma_be_value_of_bytes(self.0.0 as nat, 16);
        lemma_be_value_of_bytes(self.0.1 as nat, 16);
        assert((a + b).subrange(0, 16) =~= a);
        assert((a + b).subrange(16, 32) =~= b);
        if Self::decoding(bytes) == Some(self) {
            lemma_radix_pow_values();
            lemma_be_value_bound(bytes.subrange(0, 16));
            lemma_be_value_bound(bytes.subrange(16, 32));
            lemma_be_bytes_of_value(bytes.subrange(0, 16));
            lemma_be_bytes_of_value(bytes.subrange(16, 32));
            assert(bytes =~= bytes.subrange(0, 16) + bytes.subrange(16, 32));
        }
    }

    /// The byte order of two keys is the order of the keys, and only equal
    /// keys have equal bytes.
    pub proof fn lemma_encoding_order(self, other: Self)
        ensures
            lex_lt(self.encoding(), other.encoding()) <==> self.precedes(other),
            self.encoding() == other.encoding() <==> self == other,
    {
        lemma_fields_fit(self.0.0, 0);
        lemma_fields_fit(self.0.1, 0);
        lemma_fields_fit(other.0.0, 0);
        lemma_fields_fit(other.0.1, 0);
        lemma_be_bytes_order(self.0.0 as nat, other.0.0 as nat, 16);
        lemma_be_bytes_order(self.0.1 as nat, other.0.1 as nat, 16);
        lemma_be_bytes_len(self.0.0 as nat, 16);
        lemma_be_bytes_len(other.0.0 as nat, 16);
        lemma_lex_lt_concat(
            be_bytes(self.0.0 as nat, 16),
            be_bytes(self.0.1 as nat, 16),
            be_bytes(other.0.0 as nat, 16),
            be_bytes(other.0.1 as nat, 16),
        );
        self.lemma_round_trip(other.encoding());
        other.lemma_round_trip(self.encoding());
    }
}

impl HeedTimestampUuid {
    /// Bytes in every key of this shape.
    pub const WIDTH: usize = 24;

    /// The key as bytes.
    pub open spec fn encoding(self) -> Seq<u8> {
        be_bytes(self.0.0 as nat, 8) + be_bytes(self.0.1 as nat, 16)
    }

    /// The key that `bytes` encode, if they have the shape's length.
    pub open spec fn decoding(bytes: Seq<u8>) -> Option<Self> {
        if bytes.len() == 24 {
            Some(
                HeedTimestampUuid(
                    (
                        be_value(bytes.subrange(0, 8)) as u64,
                        be_value(bytes.subrange(8, 24)) as u128,
                    ),
                ),
            )
        } else {
            None
        }
    }

    /// The order of the keys: by time, then by identifier.
    pub open spec fn precedes(self, other: Self) -> bool {
        self.0.0 < other.0.0 || (self.0.0 == other.0.0 && self.0.1 < other.0.1)
    }

    /// The key as bytes.
    pub fn bytes_encode(&self) -> (bytes: Vec<u8>)
        ensures
            bytes@ == self.encoding(),
    {
        let mut bytes: Vec<u8> = Vec::with_capacity(24);
        push_be(&mut bytes, self.0.0 as u128, 8);
        push_be(&mut bytes, self.0.1, 16);
        assert(bytes@ =~= self.encoding());
        bytes
    }

    /// The key that `bytes` encode. Bytes of another length than the
    /// shape's are rejected: nothing is cut off and nothing filled in.
    pub fn bytes_decode(bytes: &[u8]) -> (r: Result<Self, DecodeError>)
        ensures
            match r {
                Ok(key) => Self::decoding(bytes@) == Some(key),
                Err(e) => Self::decoding(bytes@) is None && e == (DecodeError {
                    expected: 24,
                    found: bytes@.len() as usize,
                }),
            },
    {
        if bytes.len() != 24 {
            return Err(DecodeError { expected: 24, found: bytes.len() });
        }
        let timestamp = read_be(bytes, 0, 8);
        let id = read_be(bytes, 8, 16);
        proof {
            lemma_be_value_bound(bytes@.subrange(0, 8));
            lemma_radix_pow_values();
        }
        Ok(HeedTimestampUuid((timestamp as u64, id)))
    }

    /// Every key has the shape's length.
    pub proof fn lemma_encoding_len(self)
        ensures
            self.encoding().len() == 24,
    {
        lemma_be_bytes_len(self.0.0 as nat, 8);
        lemma_be_bytes_len(self.0.1 as nat, 16);
    }

    /// Decoding undoes encoding, and encoding undoes decoding.
    pub proof fn lemma_round_trip(self, bytes: Seq<u8>)
        ensures
            Self::decoding(self.encoding()) == Some(self),
            Self::decoding(bytes) == Some(self) ==> self.encoding() == bytes,
    {
        let a = be_bytes(self.0.0 as nat, 8);
        let b = be_bytes(self.0.1 as nat, 16);
        lemma_fields_fit(self.0.1, self.0.0);
        lemma_be_bytes_len(self.0.0 as nat, 8);
        lemma_be_bytes_len(self.0.1 as nat, 16);
        lemma_be_value_of_bytes(self.0.0 as nat, 8);
        lemma_be_value_of_bytes(self.0.1 as nat, 16);
        assert((a + b).subrange(0, 8) =~= a);
        assert((a + b).subrange(8, 24) =~= b);
        if Self::decoding(bytes) == Some(self) {
            lemma_radix_pow_values();
            lemma_be_value_bound(bytes.subrange(0, 8));
            lemma_be_value_bound(bytes.subrange(8, 24));
            lemma_be_bytes_of_value(bytes.subrange(0, 8));
            lemma_be_bytes_of_value(bytes.subrange(8, 24));
            assert(bytes =~= bytes.subrange(0, 8) + bytes.subrange(8, 24));
        }
    }

    /// The byte order of two keys is the order of the keys, and only equal
    /// keys have equal bytes.
    pub proof fn lemma_encoding_order(self, other: Self)
        ensures
            lex_lt(self.encoding(), other.encoding()) <==> self.precedes(other),
            self.encoding() == other.encoding() <==> self == other,
    {
        lemma_fields_fit(self.0.1, self.0.0);
        lemma_fields_fit(other.0.1, other.0.0);
        lemma_be_bytes_order(self.0.0 as nat, other.0.0 as nat, 8);
        lemma_be_bytes_order(self.0.1 as nat, other.0.1 as nat, 16);
        lemma_be_bytes_len(self.0.0 as nat, 8);
        lemma_be_bytes_len(other.0.0 as nat, 8);
        lemma_lex_lt_concat(
            be_bytes(self.0.0 as nat, 8),
            be_bytes(self.0.1 as nat, 16),
            be_bytes(other.0.0 as nat, 8),
            be_bytes(other.0.1 as nat, 16),
        );
        self.lemma_round_trip(other.encoding());
        other.lemma_round_trip(self.encoding());
    }
}

impl HeedMessageCreationTimeId {
    /// Bytes in every key of this shape.
    pub const WIDTH: usize = 40;

    /// The key as bytes.
    pub open spec fn encoding(self) -> Seq<u8> {
        be_bytes(self.0.0 as nat, 16) + be_bytes(self.0.1 as nat, 8) + be_bytes(
            self.0.2 as nat,
            16,
        )
    }

    /// The key that `bytes` encode, if they have the shape's length.
    pub open spec fn decoding(bytes: Seq<u8>) -> Option<Self> {
        if bytes.len() == 40 {
            Some(
                HeedMessageCreationTimeId(
                    (
                        be_value(bytes.subrange(0, 16)) as u128,
                        be_value(bytes.subrange(16, 24)) as u64,
                        be_value(bytes.subrange(24, 40)) as u128,
                    ),
                ),
            )
        } else {
            None
        }
    }

    /// The order of the keys: by thread, then by time, then by message.
    pub open spec fn precedes(self, other: Self) -> bool {
        self.0.0 < other.0.0 || (self.0.0 == other.0.0 && (self.0.1 < other.0.1 || (self.0.1
            == other.0.1 && self.0.2 < other.0.2)))
    }

    /// The key as bytes.
    pub fn bytes_encode(&self) -> (bytes: Vec<u8>)
        ensures
            bytes@ == self.encoding(),
    {
        let mut bytes: Vec<u8> = Vec::with_capacity(40);
        push_be(&mut bytes, self.0.0, 16);
        push_be(&mut bytes, self.0.1 as u128, 8);
        push_be(&mut bytes, self.0.2, 16);
        assert(bytes@ =~= self.encoding());
        bytes
    }

    /// The key that `bytes` encode. Bytes of another length than the
    /// shape's are rejected: nothing is cut off and nothing filled in.
    pub fn bytes_decode(bytes: &[u8]) -> (r: Result<Self, DecodeError>)
        ensures
            match r {
                Ok(key) => Self::decoding(bytes@) == Some(key),
                Err(e) => Self::decoding(bytes@) is None && e == (DecodeError {
                    expected: 40,
                    found: bytes@.len() as usize,
                }),
            },
    {
        if bytes.len() != 40 {
            return Err(DecodeError { expected: 40, found: bytes.len() });
        }
        let thread = read_be(bytes, 0, 16);
        let timestamp = read_be(bytes, 16, 8);
        let message = read_be(bytes, 24, 16);
        proof {
            lemma_be_value_bound(bytes@.subrange(16, 24));
            lemma_radix_pow_values();
        }
        Ok(HeedMessageCreationTimeId((thread, timestamp as u64, message)))
    }

    /// Every key has the shape's length.
    pub proof fn lemma_encoding_len(self)
        ensures
            self.encoding().len() == 40,
    {
        lemma_be_bytes_len(self.0.0 as nat, 16);
        lemma_be_bytes_len(self.0.1 as nat, 8);
        lemma_be_bytes_len(self.0.2 as nat, 16);
    }

    /// Decoding undoes encoding, and encoding undoes decoding.
    pub proof fn lemma_round_trip(self, bytes: Seq<u8>)
        ensures
            Self::decoding(self.encoding()) == Some(self),
            Self::decoding(bytes) == Some(self) ==> self.encoding() == bytes,
    {
        let a = be_bytes(self.0.0 as nat, 16);
        let b = be_bytes(self.0.1 as nat, 8);
        let c = be_bytes(self.0.2 as nat, 16);
        lemma_fields_fit(self.0.0, self.0.1);
        lemma_fields_fit(self.0.2, self.0.1);
        lemma_be_bytes_len(self.0.0 as nat, 16);
        lemma_be_bytes_len(self.0.1 as nat, 8);
        lemma_be_bytes_len(self.0.2 as nat, 16);
        lemma_be_value_of_bytes(self.0.0 as nat, 16);
        lemma_be_value_of_bytes(self.0.1 as nat, 8);
        lemma_be_value_of_bytes(self.0.2 as nat, 16);
        assert((a + b + c).subrange(0, 16) =~= a);
        assert((a + b + c).subrange(16, 24) =~= b);
        assert((a + b + c).subrange(24, 40) =~= c);
        if Self::decoding(bytes) == Some(self) {
            lemma_radix_pow_values();
            lemma_be_value_bound(bytes.subrange(0, 16));
            lemma_be_value_bound(bytes.subrange(16, 24));
            lemma_be_value_bound(bytes.subrange(24, 40));
            lemma_be_bytes_of_value(bytes.subrange(0, 16));
            lemma_be_bytes_of_value(bytes.subrange(16, 24));
            lemma_be_bytes_of_value(bytes.subrange(24, 40));
            assert(bytes =~= bytes.subrange(0, 16) + bytes.subrange(16, 24) + bytes.subrange(
                24,
                40,
            ));
        }
    }

    /// The byte order of two keys is the order of the keys, and only equal
    /// keys have equal bytes.
    pub proof fn lemma_encoding_order(self, other: Self)
        ensures
            lex_lt(self.encoding(), other.encoding()) <==> self.precedes(other),
            self.encoding() == other.encoding() <==> self == other,
    {
        let a1 = be_bytes(self.0.0 as nat, 16);
        let a2 = be_bytes(self.0.1 as nat, 8);
        let a3 = be_bytes(self.0.2 as nat, 16);
        let b1 = be_bytes(other.0.0 as nat, 16);
        let b2 = be_bytes(other.0.1 as nat, 8);
        let b3 = be_bytes(other.0.2 as nat, 16);
        lemma_fields_fit(self.0.0, self.0.1);
        lemma_fields_fit(self.0.2, self.0.1);
        lemma_fields_fit(other.0.0, other.0.1);
        lemma_fields_fit(other.0.2, other.0.1);
        lemma_be_bytes_order(self.0.0 as nat, other.0.0 as nat, 16);
        lemma_be_bytes_order(self.0.1 as nat, other.0.1 as nat, 8);
        lemma_be_bytes_order(self.0.2 as nat, other.0.2 as nat, 16);
        lemma_be_bytes_len(self.0.0 as nat, 16);
        lemma_be_bytes_len(other.0.0 as nat, 16);
        lemma_be_bytes_len(self.0.1 as nat, 8);
        lemma_be_bytes_len(other.0.1 as nat, 8);
        lemma_lex_lt_concat(a2, a3, b2, b3);
        lemma_lex_lt_concat(a1, a2 + a3, b1, b2 + b3);
        assert(a1 + a2 + a3 =~= a1 + (a2 + a3));
        assert(b1 + b2 + b3 =~= b1 + (b2 + b3));
        self.lemma_round_trip(other.encoding());
        other.lemma_round_trip(self.encoding());
    }
}

impl From<u128> for HeedUuid {
    fn from(id: u128) -> (key: Self)
        ensures
            key.0 == id,
    {
        HeedUuid(id)
    }
}

impl vstd::std_specs::convert::FromSpecImpl<u128> for HeedUuid {
    open spec fn obeys_from_spec() -> bool {
        true
    }

    open spec fn from_spec(id: u128) -> Self {
        HeedUuid(id)
    }
}

impl From<(u128, u128)> for HeedUuidTuple {
    fn from(fields: (u128, u128)) -> (key: Self)
        ensures
            key.0 == fields,
    {
        HeedUuidTuple(fields)
    }
}

impl vstd::std_specs::convert::FromSpecImpl<(u128, u128)> for HeedUuidTuple {
    open spec fn obeys_from_spec() -> bool {
        true
    }

    open spec fn from_spec(fields: (u128, u128)) -> Self {
        HeedUuidTuple(fields)
    }
}

impl From<(u64, u128)> for HeedTimestampUuid {
    fn from(fields: (u64, u128)) -> (key: Self)
        ensures
            key.0 == fields,
    {
        HeedTimestampUuid(fields)
    }
}

impl vstd::std_specs::convert::FromSpecImpl<(u64, u128)> for HeedTimestampUuid {
    open spec fn obeys_from_spec() -> bool {
        true
    }

    open spec fn from_spec(fields: (u64, u128)) -> Self {
        HeedTimestampUuid(fields)
    }
}

impl From<(u128, u64, u128)> for HeedMessageCreationTimeId {
    fn from(fields: (u128, u64, u128)) -> (key: Self)
        ensures
            key.0 == fields,
    {
        HeedMessageCreationTimeId(fields)
    }
}

impl vstd::std_specs::convert::FromSpecImpl<(u128, u64, u128)> for HeedMessageCreationTimeId {
    open spec fn obeys_from_spec() -> bool {
        true
    }

    open spec fn from_spec(fields: (u128, u64, u128)) -> Self {
        HeedMessageCreationTimeId(fields)
    }
}

} // verus!
