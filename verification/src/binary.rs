//! The data types of the binary protocol that messages are made of: byte
//! strings with a bound on their length, the 256-bit value, and the short
//! sequence.

use vstd::prelude::*;

use crate::error::Error;
use crate::hex_codec::viewed;

verus! {

/// The number of bytes of a 256-bit value.
pub const U256_LEN: usize = 32;

/// The most items of a short sequence.
pub const SEQ0255_MAX_LEN: usize = 255;

/// What building a byte string of at most `max` bytes from `b` gives: `b`
/// itself, or the length that was refused.
pub open spec fn bounded(b: Seq<u8>, max: usize) -> Result<Seq<u8>, Error> {
    if b.len() <= max {
        Ok(b)
    } else {
        Err(Error::CodecLength { len: b.len() as usize, max })
    }
}

/// What building a byte string of exactly `size` bytes from `b` gives: `b`
/// itself, or the length that was refused.
pub open spec fn sized(b: Seq<u8>, size: usize) -> Result<Seq<u8>, Error> {
    if b.len() == size {
        Ok(b)
    } else {
        Err(Error::CodecLength { len: b.len() as usize, max: size })
    }
}

/// A byte string of at most `MAX` bytes.
#[derive(Debug, PartialEq, Eq)]
pub struct Bounded<const MAX: usize>(Vec<u8>);

/// A byte string of at most 32 bytes.
pub type B032 = Bounded<32>;

/// A byte string of at most 255 bytes.
pub type B0255 = Bounded<255>;

/// A byte string of at most 65535 bytes.
pub type B064K = Bounded<65535>;

impl<const MAX: usize> View for Bounded<MAX> {
    type V = Seq<u8>;

    closed spec fn view(&self) -> Seq<u8> {
        self.0@
    }
}

impl<const MAX: usize> Clone for Bounded<MAX> {
    fn clone(&self) -> (res: Self)
        ensures
            res@ == self@,
    {
        proof {
            use_type_invariant(self);
        }
        Bounded(self.0.clone())
    }
}

impl<const MAX: usize> Bounded<MAX> {
    #[verifier::type_invariant]
    spec fn within_bound(self) -> bool {
        self.0@.len() <= MAX
    }

    /// Takes the bytes as they are, unless there are more than `MAX`.
    pub fn from_bytes(bytes: Vec<u8>) -> (res: Result<Self, Error>)
        ensures
            viewed(res) == bounded(bytes@, MAX),
    {
        if bytes.len() > MAX {
            Err(Error::CodecLength { len: bytes.len(), max: MAX })
        } else {
            Ok(Bounded(bytes))
        }
    }

    /// A copy of the bytes.
    pub fn to_vec(&self) -> (bytes: Vec<u8>)
        ensures
            bytes@ == self@,
            bytes@.len() <= MAX,
    {
        proof {
            use_type_invariant(self);
        }
        self.0.clone()
    }

    /// The bytes, borrowed.
    pub fn inner_as_ref(&self) -> (bytes: &[u8])
        ensures
            bytes@ == self@,
            bytes@.len() <= MAX,
    {
        proof {
            use_type_invariant(self);
        }
        self.0.as_slice()
    }

    pub fn len(&self) -> (n: usize)
        ensures
            n == self@.len(),
            n <= MAX,
    {
        proof {
            use_type_invariant(self);
        }
        self.0.len()
    }

    pub fn is_empty(&self) -> (empty: bool)
        ensures
            empty == (self@.len() == 0),
    {
        self.0.len() == 0
    }
}

impl Bounded<32> {
    /// The number of bytes that the byte string takes on the wire: its
    /// length in one byte, and then its bytes.
    pub fn get_size(&self) -> (size: usize)
        ensures
            size == 1 + self@.len(),
            size <= 1 + 32,
    {
        1 + self.len()
    }
}

impl Bounded<255> {
    /// The number of bytes that the byte string takes on the wire: its
    /// length in one byte, and then its bytes.
    pub fn get_size(&self) -> (size: usize)
        ensures
            size == 1 + self@.len(),
            size <= 1 + 255,
    {
        1 + self.len()
    }
}

impl Bounded<65535> {
    /// The number of bytes that the byte string takes on the wire: its
    /// length in two bytes, and then its bytes.
    pub fn get_size(&self) -> (size: usize)
        ensures
            size == 2 + self@.len(),
            size <= 2 + 65535,
    {
        2 + self.len()
    }
}

/// A value of 256 bits: exactly 32 bytes.
#[derive(Debug, PartialEq, Eq)]
pub struct U256(Vec<u8>);

impl View for U256 {
    type V = Seq<u8>;

    closed spec fn view(&self) -> Seq<u8> {
        self.0@
    }
}

impl Clone for U256 {
    fn clone(&self) -> (res: Self)
        ensures
            res@ == self@,
    {
        proof {
            use_type_invariant(self);
        }
        U256(self.0.clone())
    }
}

impl U256 {
    #[verifier::type_invariant]
    spec fn whole(self) -> bool {
        self.0@.len() == U256_LEN
    }

    /// Takes the bytes as they are, if there are exactly 32.
    pub fn from_bytes(bytes: Vec<u8>) -> (res: Result<Self, Error>)
        ensures
            viewed(res) == sized(bytes@, U256_LEN),
    {
        if bytes.len() != U256_LEN {
            Err(Error::CodecLength { len: bytes.len(), max: U256_LEN })
        } else {
            Ok(U256(bytes))
        }
    }

    /// A copy of the bytes.
    pub fn to_vec(&self) -> (bytes: Vec<u8>)
        ensures
            bytes@ == self@,
            bytes@.len() == U256_LEN,
    {
        proof {
            use_type_invariant(self);
        }
        self.0.clone()
    }

    /// The bytes, borrowed.
    pub fn inner_as_ref(&self) -> (bytes: &[u8])
        ensures
            bytes@ == self@,
            bytes@.len() == U256_LEN,
    {
        proof {
            use_type_invariant(self);
        }
        self.0.as_slice()
    }

    pub fn len(&self) -> (n: usize)
        ensures
            n == self@.len(),
            n == U256_LEN,
    {
        proof {
            use_type_invariant(self);
        }
        self.0.len()
    }

    /// The number of bytes that the value takes on the wire.
    pub fn get_size(&self) -> (size: usize)
        ensures
            size == U256_LEN,
            size == self@.len(),
    {
        proof {
            use_type_invariant(self);
        }
        U256_LEN
    }
}

/// A sequence of at most 255 items.
#[derive(Debug, PartialEq, Eq)]
pub struct Seq0255<T>(Vec<T>);

impl<T> View for Seq0255<T> {
    type V = Seq<T>;

    closed spec fn view(&self) -> Seq<T> {
        self.0@
    }
}

impl<T> Seq0255<T> {
    #[verifier::type_invariant]
    spec fn within_bound(self) -> bool {
        self.0@.len() <= SEQ0255_MAX_LEN
    }

    /// Takes the items as they are, unless there are more than 255.
    pub fn new(items: Vec<T>) -> (res: Result<Self, Error>)
        ensures
            match res {
                Ok(seq) => items@.len() <= SEQ0255_MAX_LEN && seq@ == items@,
                Err(error) => items@.len() > SEQ0255_MAX_LEN && error == Error::CodecLength {
                    len: items.len(),
                    max: SEQ0255_MAX_LEN,
                },
            },
    {
        if items.len() > SEQ0255_MAX_LEN {
            Err(Error::CodecLength { len: items.len(), max: SEQ0255_MAX_LEN })
        } else {
            Ok(Seq0255(items))
        }
    }

    /// The items, handed over.
    pub fn into_inner(self) -> (items: Vec<T>)
        ensures
            items@ == self@,
            items@.len() <= SEQ0255_MAX_LEN,
    {
        proof {
            use_type_invariant(&self);
        }
        self.0
    }

    /// The items, borrowed.
    pub fn inner_as_ref(&self) -> (items: &[T])
        ensures
            items@ == self@,
            items@.len() <= SEQ0255_MAX_LEN,
    {
        proof {
            use_type_invariant(self);
        }
        self.0.as_slice()
    }

    pub fn len(&self) -> (n: usize)
        ensures
            n == self@.len(),
            n <= SEQ0255_MAX_LEN,
    {
        proof {
            use_type_invariant(self);
        }
        self.0.len()
    }

    pub fn is_empty(&self) -> (empty: bool)
        ensures
            empty == (self@.len() == 0),
    {
        self.0.len() == 0
    }
}

impl Seq0255<U256> {
    /// A copy of the values.
    pub fn to_vec(&self) -> (copy: Vec<U256>)
        ensures
            copy@.len() == self@.len(),
            forall|i: int| 0 <= i < self@.len() ==> (#[trigger] copy@[i])@ == self@[i]@,
    {
        let mut copy: Vec<U256> = Vec::new();
        let mut i: usize = 0;
        while i < self.0.len()
            invariant
                i <= self.0@.len(),
                copy@.len() == i,
                forall|j: int| 0 <= j < i ==> (#[trigger] copy@[j])@ == self.0@[j]@,
            decreases self.0@.len() - i,
        {
            copy.push(self.0[i].clone());
            i += 1;
        }
        copy
    }

    /// The number of bytes that the sequence takes on the wire: its length
    /// in one byte, and then its values.
    pub fn get_size(&self) -> (size: usize)
        ensures
            size == 1 + U256_LEN * self@.len(),
            size <= 1 + U256_LEN * SEQ0255_MAX_LEN,
    {
        let mut size: usize = 1;
        let mut i: usize = 0;
        proof {
            use_type_invariant(self);
        }
        while i < self.0.len()
            invariant
                i <= self.0@.len(),
                self.0@.len() <= SEQ0255_MAX_LEN,
                size == 1 + U256_LEN * i,
            decreases self.0@.len() - i,
        {
            size += self.0[i].get_size();
            i += 1;
        }
        size
    }
}

impl Clone for Seq0255<U256> {
    fn clone(&self) -> (res: Self)
        ensures
            res@.len() == self@.len(),
            forall|i: int| 0 <= i < self@.len() ==> (#[trigger] res@[i])@ == self@[i]@,
    {
        proof {
            use_type_invariant(self);
        }
        Seq0255(self.to_vec())
    }
}

} // verus!
