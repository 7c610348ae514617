//! Values in memory: every kind of value that an encoder takes, as a tree.
//!
//! The tree is a format of its own. An encoder builds it, a decoder walks
//! it, and what went in comes out again.

pub mod de;
pub mod en;
pub mod protocol;

use crate::de::Decode;
use crate::en::Encode;
use crate::error::{Cause, Error, Message};
use crate::results::kept;
use crate::value::de::ValueDecoder;
use crate::value::en::ValueEncoder;
use vstd::prelude::*;

verus! {

/// A value in memory.
#[derive(Debug, PartialEq, Eq)]
pub enum Value {
    /// The default unit value.
    Unit,
    /// A boolean value.
    Bool(bool),
    /// A character.
    Char(char),
    /// An unsigned number.
    Unsigned(u128),
    /// A signed number.
    Signed(i128),
    /// An array of bytes.
    Bytes(Vec<u8>),
    /// A string.
    String(String),
    /// A value that is absent or present.
    Option(Option<Box<Value>>),
    /// A sequence of values.
    Sequence(Vec<Value>),
    /// A sequence of pairs, a key and its value each.
    Mapping(Vec<(Value, Value)>),
    /// A variant: its tag and its content.
    Variant(Box<(Value, Value)>),
}

/// What a value holds.
pub enum Tree {
    /// The default unit value.
    Unit,
    /// A boolean value.
    Bool(bool),
    /// A character.
    Char(char),
    /// An unsigned number.
    Unsigned(u128),
    /// A signed number.
    Signed(i128),
    /// An array of bytes.
    Bytes(Seq<u8>),
    /// A string.
    String(Seq<char>),
    /// A value that is absent.
    Absent,
    /// A value that is present.
    Present(Box<Tree>),
    /// A sequence of values.
    Sequence(Seq<Tree>),
    /// A sequence of pairs, a key and its value each.
    Mapping(Seq<(Tree, Tree)>),
    /// A variant: its tag and its content.
    Variant(Box<Tree>, Box<Tree>),
}

/// What a value holds.
pub open spec fn tree(value: Value) -> Tree
    decreases value,
{
    match value {
        Value::Unit => Tree::Unit,
        Value::Bool(value) => Tree::Bool(value),
        Value::Char(value) => Tree::Char(value),
        Value::Unsigned(value) => Tree::Unsigned(value),
        Value::Signed(value) => Tree::Signed(value),
        Value::Bytes(bytes) => Tree::Bytes(bytes@),
        Value::String(text) => Tree::String(text@),
        Value::Option(None) => Tree::Absent,
        Value::Option(Some(value)) => Tree::Present(Box::new(tree(*value))),
        Value::Sequence(values) => Tree::Sequence(
            Seq::new(
                values@.len(),
                |i: int|
                    if 0 <= i < values.len() {
                        tree(values[i])
                    } else {
                        Tree::Unit
                    },
            ),
        ),
        Value::Mapping(pairs) => Tree::Mapping(
            Seq::new(
                pairs@.len(),
                |i: int|
                    if 0 <= i < pairs.len() {
                        (tree(pairs[i].0), tree(pairs[i].1))
                    } else {
                        (Tree::Unit, Tree::Unit)
                    },
            ),
        ),
        Value::Variant(pair) => Tree::Variant(Box::new(tree(pair.0)), Box::new(tree(pair.1))),
    }
}

/// What a sequence of values holds.
pub open spec fn trees(values: Seq<Value>) -> Seq<Tree> {
    Seq::new(values.len(), |i: int| tree(values[i]))
}

/// What a sequence of pairs holds.
pub open spec fn pair_trees(pairs: Seq<(Value, Value)>) -> Seq<(Tree, Tree)> {
    Seq::new(pairs.len(), |i: int| (tree(pairs[i].0), tree(pairs[i].1)))
}

/// A sequence holds what its elements hold.
pub proof fn lemma_sequence(values: Vec<Value>)
    ensures
        tree(Value::Sequence(values)) == Tree::Sequence(trees(values@)),
{
    assert(tree(Value::Sequence(values))->Sequence_0 =~= trees(values@));
}

/// A sequence of pairs holds what its pairs hold.
pub proof fn lemma_mapping(pairs: Vec<(Value, Value)>)
    ensures
        tree(Value::Mapping(pairs)) == Tree::Mapping(pair_trees(pairs@)),
{
    assert(tree(Value::Mapping(pairs))->Mapping_0 =~= pair_trees(pairs@));
}

impl View for Value {
    type V = Tree;

    open spec fn view(&self) -> Tree {
        tree(*self)
    }
}

/// An error raised while building or walking a value.
#[derive(Debug)]
pub struct ValueError {
    repr: ValueErrorRepr,
}

#[derive(Debug)]
enum ValueErrorRepr {
    Custom(String),
    Message(Message),
}

impl ValueError {
    /// The failure that the library reported, unless the error was made
    /// from a text.
    #[inline]
    pub fn kind(&self) -> (r: Option<Message>)
        ensures
            r == (match self.cause() {
                Cause::Message(message) => Some(message),
                _ => None,
            }),
    {
        match &self.repr {
            ValueErrorRepr::Message(message) => Some(*message),
            ValueErrorRepr::Custom(_) => None,
        }
    }
}

impl Error for ValueError {
    closed spec fn cause(&self) -> Cause {
        match self.repr {
            ValueErrorRepr::Custom(text) => Cause::Custom(text@),
            ValueErrorRepr::Message(message) => Cause::Message(message),
        }
    }

    #[inline]
    fn custom(text: &str) -> (e: Self) {
        Self { repr: ValueErrorRepr::Custom(text.to_owned()) }
    }

    #[inline]
    fn message(message: Message) -> (e: Self) {
        Self { repr: ValueErrorRepr::Message(message) }
    }
}

/// Encode something that implements [Encode] into a [Value]: what the
/// implementation has put in a place that held the unit value.
pub fn encode<T: Encode>(value: &T) -> Result<Value, ValueError> {
    let mut output = Value::Unit;
    let r = value.encode(ValueEncoder::new(&mut output));
    kept(r, output)
}

/// Decode a [Value] into a type which implements [Decode].
pub fn decode<'de, T: Decode<'de>>(value: &'de Value) -> Result<T, ValueError> {
    T::decode(ValueDecoder::new(value))
}

} // verus!
