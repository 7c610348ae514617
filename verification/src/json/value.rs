//! Values in memory as JSON texts: what every kind of value is written as,
//! whatever type it came from.

use crate::error::{Cause, Error, Expecting, Message};
use crate::json::de::{FALSE, NULL, TRUE};
use crate::json::en::{
    bytes_form, decimal_form, key_form, push_byte_array, push_decimal, push_signed, push_string,
    separator, signed_form, string_form,
};
use crate::json::reader::{
    CLOSE_BRACE, CLOSE_BRACKET, COLON, COMMA, OPEN_BRACE, OPEN_BRACKET, QUOTE,
};
use crate::text::push_char;
use crate::value::{lemma_mapping, lemma_sequence, pair_trees, trees, Tree, Value};
use crate::writer::{wrote, Writer};
use vstd::prelude::*;
use vstd::string::StringSliceAdditionalSpecFns;
use vstd::utf8::{encode_scalar, encode_utf8};

verus! {

/// What a value is written as where it is the key of an object: a string
/// as it is, a number between quotes. No other value can be a key.
pub open spec fn key_text(tree: Tree) -> Option<Seq<u8>> {
    match tree {
        Tree::String(text) => Some(string_form(encode_utf8(text))),
        Tree::Unsigned(value) => Some(key_form(decimal_form(value as nat))),
        Tree::Signed(value) => Some(key_form(signed_form(value as int))),
        _ => None,
    }
}

/// Whether a value can be written as a JSON text: it holds no variant, and
/// every key of a map in it is a string or a number.
pub open spec fn representable(tree: Tree) -> bool
    decreases tree,
{
    match tree {
        Tree::Present(inner) => representable(*inner),
        Tree::Sequence(items) => forall|i: int|
            0 <= i < items.len() ==> representable(#[trigger] items[i]),
        Tree::Mapping(pairs) => forall|i: int|
            0 <= i < pairs.len() ==> key_text((#[trigger] pairs[i]).0) is Some && representable(
                pairs[i].1,
            ),
        Tree::Variant(_, _) => false,
        _ => true,
    }
}

/// The text that a value is written as: a unit and an absent value as
/// `null`, a present value as the value, a character as a string, bytes as
/// an array of numbers, a sequence as an array, a map as an object.
pub open spec fn json_form(tree: Tree) -> Seq<u8>
    decreases tree, 0nat,
{
    match tree {
        Tree::Unit => NULL@,
        Tree::Bool(value) => if value {
            TRUE@
        } else {
            FALSE@
        },
        Tree::Char(value) => string_form(encode_scalar(value as u32)),
        Tree::Unsigned(value) => decimal_form(value as nat),
        Tree::Signed(value) => signed_form(value as int),
        Tree::Bytes(bytes) => seq![OPEN_BRACKET] + bytes_form(bytes, bytes.len()) + seq![
            CLOSE_BRACKET,
        ],
        Tree::String(text) => string_form(encode_utf8(text)),
        Tree::Absent => NULL@,
        Tree::Present(inner) => json_form(*inner),
        Tree::Sequence(items) => seq![OPEN_BRACKET] + items_form(items, items.len()) + seq![
            CLOSE_BRACKET,
        ],
        Tree::Mapping(pairs) => seq![OPEN_BRACE] + pairs_form(pairs, pairs.len()) + seq![
            CLOSE_BRACE,
        ],
        Tree::Variant(_, _) => Seq::empty(),
    }
}

/// The text that the first `n` of the given values are written as, with a
/// comma between every two.
pub open spec fn items_form(items: Seq<Tree>, n: nat) -> Seq<u8>
    decreases items, n,
{
    if n == 0 || n > items.len() {
        Seq::empty()
    } else {
        items_form(items, (n - 1) as nat) + separator(n == 1) + json_form(items[n - 1])
    }
}

/// The text that the first `n` of the given pairs are written as: the key
/// of each, a colon and the value, with a comma between every two pairs.
pub open spec fn pairs_form(pairs: Seq<(Tree, Tree)>, n: nat) -> Seq<u8>
    decreases pairs, n,
{
    if n == 0 || n > pairs.len() {
        Seq::empty()
    } else {
        pairs_form(pairs, (n - 1) as nat) + separator(n == 1) + (match key_text(pairs[n - 1].0) {
            Some(key) => key,
            None => Seq::empty(),
        }) + seq![COLON] + json_form(pairs[n - 1].1)
    }
}

/// A sequence that holds a value which cannot be written cannot be
/// written.
proof fn lemma_item_refused(items: Seq<Tree>, i: int)
    requires
        0 <= i < items.len(),
        !representable(items[i]),
    ensures
        !representable(Tree::Sequence(items)),
{
    if representable(Tree::Sequence(items)) {
        assert(Tree::Sequence(items)->Sequence_0 == items);
        assert(forall|j: int| 0 <= j < items.len() ==> representable(#[trigger] items[j]));
        assert(representable(items[i]));
    }
}

/// Append the key of an object to the buffer, where the value can be one.
fn push_key(buffer: &mut Vec<u8>, value: &Value) -> (ok: bool)
    ensures
        ok == key_text(value@) is Some,
        ok ==> final(buffer)@ == old(buffer)@ + key_text(value@)->Some_0,
{
    match value {
        Value::String(text) => {
            push_string(buffer, text.as_str().as_bytes());
            true
        },
        Value::Unsigned(number) => {
            buffer.push(QUOTE);
            push_decimal(buffer, *number);
            buffer.push(QUOTE);
            assert(buffer@ =~= old(buffer)@ + key_form(decimal_form(*number as nat)));
            true
        },
        Value::Signed(number) => {
            buffer.push(QUOTE);
            push_signed(buffer, *number);
            buffer.push(QUOTE);
            assert(buffer@ =~= old(buffer)@ + key_form(signed_form(*number as int)));
            true
        },
        _ => false,
    }
}

/// Append the text of a value to the buffer, where the value can be
/// written as a JSON text. The result tells whether it can.
pub fn push_value(buffer: &mut Vec<u8>, value: &Value) -> (ok: bool)
    ensures
        ok == representable(value@),
        ok ==> final(buffer)@ == old(buffer)@ + json_form(value@),
    decreases value,
{
    match value {
        Value::Unit => {
            buffer.extend_from_slice(NULL.as_slice());
            true
        },
        Value::Bool(flag) => {
            if *flag {
                buffer.extend_from_slice(TRUE.as_slice());
            } else {
                buffer.extend_from_slice(FALSE.as_slice());
            }
            true
        },
        Value::Char(c) => {
            let mut bytes: Vec<u8> = Vec::new();
            push_char(&mut bytes, *c);
            assert(bytes@ =~= encode_scalar(*c as u32));
            push_string(buffer, bytes.as_slice());
            true
        },
        Value::Unsigned(number) => {
            push_decimal(buffer, *number);
            true
        },
        Value::Signed(number) => {
            push_signed(buffer, *number);
            true
        },
        Value::Bytes(bytes) => {
            push_byte_array(buffer, bytes.as_slice());
            true
        },
        Value::String(text) => {
            push_string(buffer, text.as_str().as_bytes());
            true
        },
        Value::Option(None) => {
            buffer.extend_from_slice(NULL.as_slice());
            true
        },
        Value::Option(Some(inner)) => push_value(buffer, &**inner),
        Value::Sequence(items) => {
            proof {
                lemma_sequence(*items);
            }
            let ghost all = trees(items@);
            buffer.push(OPEN_BRACKET);
            let mut i: usize = 0;
            assert(buffer@ =~= old(buffer)@ + seq![OPEN_BRACKET] + items_form(all, 0));
            while i < items.len()
                invariant
                    i <= items@.len(),
                    all == trees(items@),
                    value@ == Tree::Sequence(all),
                    *value == Value::Sequence(*items),
                    forall|j: int| 0 <= j < i ==> representable(#[trigger] all[j]),
                    buffer@ == old(buffer)@ + seq![OPEN_BRACKET] + items_form(all, i as nat),
                decreases items@.len() - i,
            {
                let ghost sofar = buffer@;
                if i > 0 {
                    buffer.push(COMMA);
                }
                assert(buffer@ =~= sofar + separator(i == 0));
                if !push_value(buffer, &items[i]) {
                    proof {
                        lemma_item_refused(all, i as int);
                    }
                    return false;
                }
                proof {
                    assert(buffer@ =~= old(buffer)@ + seq![OPEN_BRACKET] + items_form(
                        all,
                        (i + 1) as nat,
                    ));
                }
                i = i + 1;
            }
            buffer.push(CLOSE_BRACKET);
            true
        },
        Value::Mapping(pairs) => {
            proof {
                lemma_mapping(*pairs);
            }
            let ghost all = pair_trees(pairs@);
            buffer.push(OPEN_BRACE);
            let mut i: usize = 0;
            assert(buffer@ =~= old(buffer)@ + seq![OPEN_BRACE] + pairs_form(all, 0));
            while i < pairs.len()
                invariant
                    i <= pairs@.len(),
                    all == pair_trees(pairs@),
                    value@ == Tree::Mapping(all),
                    *value == Value::Mapping(*pairs),
                    forall|j: int|
                        0 <= j < i ==> key_text((#[trigger] all[j]).0) is Some && representable(
                            all[j].1,
                        ),
                    buffer@ == old(buffer)@ + seq![OPEN_BRACE] + pairs_form(all, i as nat),
                decreases pairs@.len() - i,
            {
                let ghost sofar = buffer@;
                if i > 0 {
                    buffer.push(COMMA);
                }
                assert(buffer@ =~= sofar + separator(i == 0));
                if !push_key(buffer, &pairs[i].0) {
                    assert(key_text(all[i as int].0) is None);
                    return false;
                }
                buffer.push(COLON);
                if !push_value(buffer, &pairs[i].1) {
                    assert(!representable(all[i as int].1));
                    return false;
                }
                proof {
                    assert(buffer@ =~= old(buffer)@ + seq![OPEN_BRACE] + pairs_form(
                        all,
                        (i + 1) as nat,
                    ));
                }
                i = i + 1;
            }
            buffer.push(CLOSE_BRACE);
            true
        },
        Value::Variant(_) => false,
    }
}

/// Write a value in memory as a JSON text, whatever kind it is of.
///
/// A value that cannot be written as a JSON text is refused, and nothing
/// is written. Else the writing fails where the writer has no room for the
/// text.
pub fn encode_value<W: Writer>(writer: &mut W, value: &Value) -> (r: Result<(), W::Error>)
    ensures
        representable(value@) ==> wrote(*old(writer), *final(writer), r is Ok, json_form(value@)),
        !representable(value@) ==> (r matches Err(e) && e.cause() == Cause::Message(
            Message::InvalidType { requested: Expecting::Any },
        ) && *final(writer) == *old(writer)),
{
    let mut buffer: Vec<u8> = Vec::new();
    if !push_value(&mut buffer, value) {
        return Err(W::Error::message(Message::InvalidType { requested: Expecting::Any }));
    }
    assert(buffer@ =~= json_form(value@));
    writer.write_bytes(buffer.as_slice())
}

} // verus!
