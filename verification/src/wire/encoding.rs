//! Default encoding of the wire format, and the choices that can be
//! made about it.
//!
//! What is written for a value, and what is read for one, is decided by
//! how its type implements [`Encode`] and [`Decode`]: the functions here
//! hand the encoder or decoder of the format to that implementation and
//! return what it returns.

use crate::de::Decode;
use crate::en::Encode;
use crate::encoding::{Fixed, FixedLength, Variable};
use crate::integer::byteorder::{BigEndian, LittleEndian, NetworkEndian};
use crate::mode::DefaultMode;
use crate::reader::{with_position, PositionedReader, SliceReader, SliceReaderError};
use crate::results::kept;
use crate::wire::de::WireDecoder;
use crate::wire::en::WireEncoder;
use crate::wire::integer_encoding::{TypedIntegerEncoding, TypedUsizeEncoding};
use crate::writer::{FixedBytes, FixedBytesWriterError, VecWriterError, Writer};
use std::marker::PhantomData;
use vstd::prelude::*;

verus! {

/// Encode the given value to the given [Writer] using the default
/// encoding: variable integers and variable lengths.
#[inline]
pub fn encode<W: Writer, T: Encode>(writer: &mut W, value: &T) -> Result<(), W::Error> {
    WireEncoding::new().encode(writer, value)
}

/// Encode the given value to a [`Vec`] using the default encoding.
#[inline]
pub fn to_vec<T: Encode>(value: &T) -> Result<Vec<u8>, VecWriterError> {
    WireEncoding::new().to_vec(value)
}

/// Encode the given value to a fixed-size bytes using the default encoding.
#[inline]
pub fn to_fixed_bytes<const N: usize, T: Encode>(value: &T) -> Result<
    FixedBytes<N>,
    FixedBytesWriterError,
> {
    WireEncoding::new().to_fixed_bytes::<N, T>(value)
}

/// Decode the given type `T` from the given [Reader] using the default
/// encoding.
#[inline]
pub fn decode<'de, R: PositionedReader<'de>, T: Decode<'de>>(reader: &mut R) -> Result<T, R::Error> {
    WireEncoding::new().decode(reader)
}

/// Decode the given type `T` from the given slice using the default
/// encoding.
#[inline]
pub fn from_slice<'de, T: Decode<'de>>(bytes: &'de [u8]) -> Result<T, SliceReaderError> {
    WireEncoding::new().from_slice(bytes)
}

/// Setting up encoding with parameters: how integers are written, and how
/// lengths are.
pub struct WireEncoding<I, L, Mode = DefaultMode> {
    marker: PhantomData<(I, L, Mode)>,
}

impl WireEncoding<Variable, Variable, DefaultMode> {
    /// Construct a new encoding instance which uses [Variable] integer
    /// encoding and [Variable] length encoding.
    #[inline]
    pub fn new() -> Self {
        WireEncoding { marker: PhantomData }
    }
}

impl<I: TypedIntegerEncoding, L: TypedUsizeEncoding, Mode> WireEncoding<I, L, Mode> {
    /// Change the mode of the encoding: the mode in which the value that is
    /// handed over is encoded or decoded.
    #[inline]
    pub fn with_mode<M>(self) -> WireEncoding<I, L, M> {
        WireEncoding { marker: PhantomData }
    }

    /// Configure the encoding to use variable integer encoding.
    #[inline]
    pub fn with_variable_integers(self) -> WireEncoding<Variable, L, Mode> {
        WireEncoding { marker: PhantomData }
    }

    /// Configure the encoding to use fixed integer encoding, in network
    /// byte order.
    #[inline]
    pub fn with_fixed_integers(self) -> WireEncoding<Fixed, L, Mode> {
        WireEncoding { marker: PhantomData }
    }

    /// Configure the encoding to use fixed integer little-endian encoding.
    #[inline]
    pub fn with_fixed_integers_le(self) -> WireEncoding<Fixed<LittleEndian>, L, Mode> {
        WireEncoding { marker: PhantomData }
    }

    /// Configure the encoding to use fixed integer big-endian encoding.
    #[inline]
    pub fn with_fixed_integers_be(self) -> WireEncoding<Fixed<BigEndian>, L, Mode> {
        WireEncoding { marker: PhantomData }
    }

    /// Configure the encoding to use fixed integer network-endian encoding.
    #[inline]
    pub fn with_fixed_integers_ne(self) -> WireEncoding<Fixed<NetworkEndian>, L, Mode> {
        WireEncoding { marker: PhantomData }
    }

    /// Configure the encoding to use variable length encoding.
    #[inline]
    pub fn with_variable_lengths(self) -> WireEncoding<I, Variable, Mode> {
        WireEncoding { marker: PhantomData }
    }

    /// Configure the encoding to use fixed length 32-bit encoding when
    /// encoding lengths.
    #[inline]
    pub fn with_fixed_lengths(self) -> WireEncoding<I, FixedLength<u32>, Mode> {
        WireEncoding { marker: PhantomData }
    }

    /// Configure the encoding to use fixed length 64-bit encoding when
    /// encoding lengths.
    #[inline]
    pub fn with_fixed_lengths64(self) -> WireEncoding<I, FixedLength<u64>, Mode> {
        WireEncoding { marker: PhantomData }
    }

    /// Encode the given value to the given [Writer] using the current
    /// configuration.
    #[inline]
    pub fn encode<W: Writer, T: Encode<Mode>>(self, writer: &mut W, value: &T) -> Result<(), W::Error> {
        value.encode(WireEncoder::<W, I, L>::new(writer))
    }

    /// Encode the given value to a [`Vec`] using the current configuration:
    /// what the encoder has written into a vector that was empty.
    #[inline]
    pub fn to_vec<T: Encode<Mode>>(self, value: &T) -> Result<Vec<u8>, VecWriterError> {
        let mut data: Vec<u8> = Vec::new();
        let r = value.encode(WireEncoder::<Vec<u8>, I, L>::new(&mut data));
        kept(r, data)
    }

    /// Encode the given value to a fixed-size bytes using the current
    /// configuration: what the encoder has written into bytes that were
    /// empty, where it came by with the `N` bytes there are.
    #[inline]
    pub fn to_fixed_bytes<const N: usize, T: Encode<Mode>>(self, value: &T) -> Result<
        FixedBytes<N>,
        FixedBytesWriterError,
    > {
        let mut bytes = FixedBytes::<N>::new();
        let r = value.encode(WireEncoder::<FixedBytes<N>, I, L>::new(&mut bytes));
        kept(r, bytes)
    }

    /// Decode the given type `T` from the given [Reader] using the current
    /// configuration.
    #[inline]
    pub fn decode<'de, R: PositionedReader<'de>, T: Decode<'de, Mode>>(self, reader: &mut R) -> Result<
        T,
        R::Error,
    > {
        T::decode(WireDecoder::<R, I, L>::new(reader))
    }

    /// Decode the given type `T` from the given slice using the current
    /// configuration.
    #[inline]
    pub fn from_slice<'de, T: Decode<'de, Mode>>(self, bytes: &'de [u8]) -> Result<T, SliceReaderError> {
        let mut reader = with_position(SliceReader::new(bytes));
        T::decode(WireDecoder::<_, I, L>::new(&mut reader))
    }
}

} // verus!
