//! The encoder that builds a value in memory.

use crate::value::{lemma_mapping, lemma_sequence, pair_trees, trees, Tree, Value, ValueError};
use vstd::prelude::*;
use vstd::slice::slice_to_vec;

verus! {

/// Encoder for a single value, which it puts in the place that it holds.
pub struct ValueEncoder<'a> {
    /// The place of the value.
    pub output: &'a mut Value,
}

/// Encoder for a sequence: it gathers the elements and puts the sequence in
/// its place when it ends.
pub struct SequenceValueEncoder<'a> {
    /// The place of the sequence.
    pub output: &'a mut Value,
    /// The elements so far.
    pub values: Vec<Value>,
}

/// Encoder for a sequence of pairs: it gathers the pairs and puts the
/// sequence in its place when it ends.
pub struct PairsValueEncoder<'a> {
    /// The place of the sequence.
    pub output: &'a mut Value,
    /// The pairs so far.
    pub pairs: Vec<(Value, Value)>,
}

/// Encoder for one pair of a sequence of pairs.
pub struct PairValueEncoder<'a> {
    /// The place of the pair.
    pub output: &'a mut (Value, Value),
}

/// Encoder for a variant: it holds the tag and the content and puts the
/// variant in its place when it ends.
pub struct VariantValueEncoder<'a> {
    /// The place of the variant.
    pub output: &'a mut Value,
    /// The tag and the content so far.
    pub pair: (Value, Value),
}

impl<'a> SequenceValueEncoder<'a> {
    /// Prepare encoding of the next element: a place behind the elements so
    /// far, which holds the unit value until something else is put there.
    #[inline]
    pub fn next(&mut self) -> (r: Result<ValueEncoder<'_>, ValueError>)
        ensures
            r matches Ok(encoder) && *encoder.output == Value::Unit,
            r matches Ok(encoder) && final(self).values@ == old(self).values@.push(
                *final(encoder.output),
            ),
            *final(final(self).output) == *final(old(self).output),
            *final(self).output == *old(self).output,
    {
        self.values.push(Value::Unit);
        let last: usize = self.values.len() - 1;
        Ok(ValueEncoder { output: &mut self.values[last] })
    }

    /// End the sequence: the place holds the sequence of the elements.
    #[inline]
    pub fn end(self) -> (r: Result<(), ValueError>)
        ensures
            r is Ok,
            final(self.output)@ == Tree::Sequence(trees(self.values@)),
    {
        proof {
            lemma_sequence(self.values);
        }
        *self.output = Value::Sequence(self.values);
        Ok(())
    }
}

impl<'a> PairsValueEncoder<'a> {
    /// Encode the next pair: a place behind the pairs so far, which holds
    /// two unit values until something else is put there.
    #[inline]
    pub fn next(&mut self) -> (r: Result<PairValueEncoder<'_>, ValueError>)
        ensures
            r matches Ok(encoder) && *encoder.output == (Value::Unit, Value::Unit),
            r matches Ok(encoder) && final(self).pairs@ == old(self).pairs@.push(
                *final(encoder.output),
            ),
            *final(final(self).output) == *final(old(self).output),
            *final(self).output == *old(self).output,
    {
        self.pairs.push((Value::Unit, Value::Unit));
        let last: usize = self.pairs.len() - 1;
        Ok(PairValueEncoder { output: &mut self.pairs[last] })
    }

    /// Finish encoding pairs: the place holds the sequence of the pairs.
    #[inline]
    pub fn end(self) -> (r: Result<(), ValueError>)
        ensures
            r is Ok,
            final(self.output)@ == Tree::Mapping(pair_trees(self.pairs@)),
    {
        proof {
            lemma_mapping(self.pairs);
        }
        *self.output = Value::Mapping(self.pairs);
        Ok(())
    }
}

impl<'a> PairValueEncoder<'a> {
    /// Return the encoder for the first element in the pair.
    #[inline]
    pub fn first(&mut self) -> (r: Result<ValueEncoder<'_>, ValueError>)
        ensures
            r matches Ok(encoder) && *encoder.output == old(self).output.0 && final(self).output.0
                == *final(encoder.output),
            final(self).output.1 == old(self).output.1,
            *final(final(self).output) == *final(old(self).output),
    {
        Ok(ValueEncoder { output: &mut self.output.0 })
    }

    /// Return encoder for the second element in the pair.
    #[inline]
    pub fn second(&mut self) -> (r: Result<ValueEncoder<'_>, ValueError>)
        ensures
            r matches Ok(encoder) && *encoder.output == old(self).output.1 && final(self).output.1
                == *final(encoder.output),
            final(self).output.0 == old(self).output.0,
            *final(final(self).output) == *final(old(self).output),
    {
        Ok(ValueEncoder { output: &mut self.output.1 })
    }

    /// Stop encoding this pair.
    #[inline]
    pub fn end(self) -> (r: Result<(), ValueError>)
        ensures
            r is Ok,
            *final(self.output) == *old(self.output),
    {
        Ok(())
    }
}

impl<'a> VariantValueEncoder<'a> {
    /// Return the encoder for the tag of the variant.
    #[inline]
    pub fn first(&mut self) -> (r: Result<ValueEncoder<'_>, ValueError>)
        ensures
            r matches Ok(encoder) && *encoder.output == old(self).pair.0 && final(self).pair.0
                == *final(encoder.output),
            final(self).pair.1 == old(self).pair.1,
            *final(final(self).output) == *final(old(self).output),
            *final(self).output == *old(self).output,
    {
        Ok(ValueEncoder { output: &mut self.pair.0 })
    }

    /// Return encoder for the content of the variant.
    #[inline]
    pub fn second(&mut self) -> (r: Result<ValueEncoder<'_>, ValueError>)
        ensures
            r matches Ok(encoder) && *encoder.output == old(self).pair.1 && final(self).pair.1
                == *final(encoder.output),
            final(self).pair.0 == old(self).pair.0,
            *final(final(self).output) == *final(old(self).output),
            *final(self).output == *old(self).output,
    {
        Ok(ValueEncoder { output: &mut self.pair.1 })
    }

    /// End the variant: the place holds the variant of the tag and the
    /// content.
    #[inline]
    pub fn end(self) -> (r: Result<(), ValueError>)
        ensures
            r is Ok,
            final(self.output)@ == Tree::Variant(Box::new(self.pair.0@), Box::new(self.pair.1@)),
    {
        *self.output = Value::Variant(Box::new(self.pair));
        Ok(())
    }
}

impl<'a> ValueEncoder<'a> {
    /// Construct a new encoder for the value at the given place.
    #[inline]
    pub fn new(output: &'a mut Value) -> (encoder: Self)
        ensures
            *encoder.output == *old(output),
            *final(encoder.output) == *final(output),
    {
        Self { output }
    }

    /// Encode a unit.
    #[inline]
    pub fn encode_unit(self) -> (r: Result<(), ValueError>)
        ensures
            r is Ok,
            final(self.output)@ == Tree::Unit,
    {
        *self.output = Value::Unit;
        Ok(())
    }

    /// Encode a unit struct, as a unit.
    #[inline]
    pub fn encode_unit_struct(self) -> (r: Result<(), ValueError>)
        ensures
            r is Ok,
            final(self.output)@ == Tree::Unit,
    {
        *self.output = Value::Unit;
        Ok(())
    }

    /// Encode a boolean value.
    #[inline]
    pub fn encode_bool(self, value: bool) -> (r: Result<(), ValueError>)
        ensures
            r is Ok,
            final(self.output)@ == Tree::Bool(value),
    {
        *self.output = Value::Bool(value);
        Ok(())
    }

    /// Encode a character.
    #[inline]
    pub fn encode_char(self, value: char) -> (r: Result<(), ValueError>)
        ensures
            r is Ok,
            final(self.output)@ == Tree::Char(value),
    {
        *self.output = Value::Char(value);
        Ok(())
    }

    /// Encode an 8-bit unsigned integer, as the unsigned number that it is.
    #[inline]
    pub fn encode_u8(self, value: u8) -> (r: Result<(), ValueError>)
        ensures
            r is Ok,
            final(self.output)@ == Tree::Unsigned(value as u128),
    {
        *self.output = Value::Unsigned(value as u128);
        Ok(())
    }

    /// Encode a 16-bit unsigned integer, as the unsigned number that it is.
    #[inline]
    pub fn encode_u16(self, value: u16) -> (r: Result<(), ValueError>)
        ensures
            r is Ok,
            final(self.output)@ == Tree::Unsigned(value as u128),
    {
        *self.output = Value::Unsigned(value as u128);
        Ok(())
    }

    /// Encode a 32-bit unsigned integer, as the unsigned number that it is.
    #[inline]
    pub fn encode_u32(self, value: u32) -> (r: Result<(), ValueError>)
        ensures
            r is Ok,
            final(self.output)@ == Tree::Unsigned(value as u128),
    {
        *self.output = Value::Unsigned(value as u128);
        Ok(())
    }

    /// Encode a 64-bit unsigned integer, as the unsigned number that it is.
    #[inline]
    pub fn encode_u64(self, value: u64) -> (r: Result<(), ValueError>)
        ensures
            r is Ok,
            final(self.output)@ == Tree::Unsigned(value as u128),
    {
        *self.output = Value::Unsigned(value as u128);
        Ok(())
    }

    /// Encode a 128-bit unsigned integer, as the unsigned number that it is.
    #[inline]
    pub fn encode_u128(self, value: u128) -> (r: Result<(), ValueError>)
        ensures
            r is Ok,
            final(self.output)@ == Tree::Unsigned(value as u128),
    {
        *self.output = Value::Unsigned(value);
        Ok(())
    }

    /// Encode a pointer-sized unsigned integer, as the unsigned number that it is.
    #[inline]
    pub fn encode_usize(self, value: usize) -> (r: Result<(), ValueError>)
        ensures
            r is Ok,
            final(self.output)@ == Tree::Unsigned(value as u128),
    {
        *self.output = Value::Unsigned(value as u128);
        Ok(())
    }

    /// Encode an 8-bit signed integer, as the signed number that it is.
    #[inline]
    pub fn encode_i8(self, value: i8) -> (r: Result<(), ValueError>)
        ensures
            r is Ok,
            final(self.output)@ == Tree::Signed(value as i128),
    {
        *self.output = Value::Signed(value as i128);
        Ok(())
    }

    /// Encode a 16-bit signed integer, as the signed number that it is.
    #[inline]
    pub fn encode_i16(self, value: i16) -> (r: Result<(), ValueError>)
        ensures
            r is Ok,
            final(self.output)@ == Tree::Signed(value as i128),
    {
        *self.output = Value::Signed(value as i128);
        Ok(())
    }

    /// Encode a 32-bit signed integer, as the signed number that it is.
    #[inline]
    pub fn encode_i32(self, value: i32) -> (r: Result<(), ValueError>)
        ensures
            r is Ok,
            final(self.output)@ == Tree::Signed(value as i128),
    {
        *self.output = Value::Signed(value as i128);
        Ok(())
    }

    /// Encode a 64-bit signed integer, as the signed number that it is.
    #[inline]
    pub fn encode_i64(self, value: i64) -> (r: Result<(), ValueError>)
        ensures
            r is Ok,
            final(self.output)@ == Tree::Signed(value as i128),
    {
        *self.output = Value::Signed(value as i128);
        Ok(())
    }

    /// Encode a 128-bit signed integer, as the signed number that it is.
    #[inline]
    pub fn encode_i128(self, value: i128) -> (r: Result<(), ValueError>)
        ensures
            r is Ok,
            final(self.output)@ == Tree::Signed(value as i128),
    {
        *self.output = Value::Signed(value);
        Ok(())
    }

    /// Encode a pointer-sized signed integer, as the signed number that it is.
    #[inline]
    pub fn encode_isize(self, value: isize) -> (r: Result<(), ValueError>)
        ensures
            r is Ok,
            final(self.output)@ == Tree::Signed(value as i128),
    {
        *self.output = Value::Signed(value as i128);
        Ok(())
    }

    /// Encode fixed-length array, as its bytes.
    #[inline]
    pub fn encode_array<const N: usize>(self, array: [u8; N]) -> (r: Result<(), ValueError>)
        ensures
            r is Ok,
            final(self.output)@ == Tree::Bytes(array@),
    {
        *self.output = Value::Bytes(slice_to_vec(array.as_slice()));
        Ok(())
    }

    /// Encode a sequence of bytes.
    #[inline]
    pub fn encode_bytes(self, bytes: &[u8]) -> (r: Result<(), ValueError>)
        ensures
            r is Ok,
            final(self.output)@ == Tree::Bytes(bytes@),
    {
        *self.output = Value::Bytes(slice_to_vec(bytes));
        Ok(())
    }

    /// Encode a string.
    #[inline]
    pub fn encode_string(self, string: &str) -> (r: Result<(), ValueError>)
        ensures
            r is Ok,
            final(self.output)@ == Tree::String(string@),
    {
        *self.output = Value::String(string.to_owned());
        Ok(())
    }

    /// Encode a value that is present: the place holds the presence of what
    /// the returned encoder puts in its own place, the unit value until then.
    #[inline]
    pub fn encode_some(self) -> (r: Result<ValueEncoder<'a>, ValueError>)
        ensures
            r matches Ok(encoder) && *encoder.output == Value::Unit && final(self.output)@
                == Tree::Present(Box::new(final(encoder.output)@)),
    {
        *self.output = Value::Option(Some(Box::new(Value::Unit)));
        match self.output {
            Value::Option(Some(inner)) => Ok(ValueEncoder { output: &mut **inner }),
            _ => Ok(self),
        }
    }

    /// Encode a value that is absent.
    #[inline]
    pub fn encode_none(self) -> (r: Result<(), ValueError>)
        ensures
            r is Ok,
            final(self.output)@ == Tree::Absent,
    {
        *self.output = Value::Option(None);
        Ok(())
    }

    /// Encode a pack: a sequence whose length is not told beforehand.
    #[inline]
    pub fn encode_pack(self) -> (r: Result<SequenceValueEncoder<'a>, ValueError>)
        ensures
            r matches Ok(encoder) && *final(encoder.output) == *final(self.output)
                && encoder.values@ == Seq::<Value>::empty(),
    {
        Ok(SequenceValueEncoder { output: self.output, values: Vec::new() })
    }

    /// Encode a sequence of the given length.
    #[inline]
    pub fn encode_sequence(self, _len: usize) -> (r: Result<SequenceValueEncoder<'a>, ValueError>)
        ensures
            r matches Ok(encoder) && *final(encoder.output) == *final(self.output)
                && encoder.values@ == Seq::<Value>::empty(),
    {
        Ok(SequenceValueEncoder { output: self.output, values: Vec::new() })
    }

    /// Encode a tuple of the given length, as a sequence.
    #[inline]
    pub fn encode_tuple(self, _len: usize) -> (r: Result<SequenceValueEncoder<'a>, ValueError>)
        ensures
            r matches Ok(encoder) && *final(encoder.output) == *final(self.output)
                && encoder.values@ == Seq::<Value>::empty(),
    {
        Ok(SequenceValueEncoder { output: self.output, values: Vec::new() })
    }

    /// Encode a map of the given length.
    #[inline]
    pub fn encode_map(self, _len: usize) -> (r: Result<PairsValueEncoder<'a>, ValueError>)
        ensures
            r matches Ok(encoder) && *final(encoder.output) == *final(self.output)
                && encoder.pairs@ == Seq::<(Value, Value)>::empty(),
    {
        Ok(PairsValueEncoder { output: self.output, pairs: Vec::new() })
    }

    /// Encode a struct of the given number of fields, as a map from what names a field to what it holds.
    #[inline]
    pub fn encode_struct(self, _len: usize) -> (r: Result<PairsValueEncoder<'a>, ValueError>)
        ensures
            r matches Ok(encoder) && *final(encoder.output) == *final(self.output)
                && encoder.pairs@ == Seq::<(Value, Value)>::empty(),
    {
        Ok(PairsValueEncoder { output: self.output, pairs: Vec::new() })
    }

    /// Encode a tuple struct of the given number of fields, as a map from the index of a field to what it holds.
    #[inline]
    pub fn encode_tuple_struct(self, _len: usize) -> (r: Result<PairsValueEncoder<'a>, ValueError>)
        ensures
            r matches Ok(encoder) && *final(encoder.output) == *final(self.output)
                && encoder.pairs@ == Seq::<(Value, Value)>::empty(),
    {
        Ok(PairsValueEncoder { output: self.output, pairs: Vec::new() })
    }

    /// Encode a variant: its tag and its content, two unit values until
    /// something else is put there.
    #[inline]
    pub fn encode_variant(self) -> (r: Result<VariantValueEncoder<'a>, ValueError>)
        ensures
            r matches Ok(encoder) && *final(encoder.output) == *final(self.output)
                && encoder.pair == (Value::Unit, Value::Unit),
    {
        Ok(VariantValueEncoder { output: self.output, pair: (Value::Unit, Value::Unit) })
    }
}

} // verus!
