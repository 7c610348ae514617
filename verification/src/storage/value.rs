//! Values in memory in the storage format: what every kind of value is
//! written as, whatever type it came from.

use crate::integer::Unsigned;
use crate::storage::en::encode_prefixed;
use crate::storage::format::{bool_form, bytes_form, option_form};
use crate::storage::integer_encoding::{IntegerEncoding, UsizeEncoding};
use crate::value::{lemma_mapping, lemma_sequence, pair_trees, trees, Tree, Value};
use crate::writer::{lemma_wrote_fail, lemma_wrote_part, lemma_wrote_then, wrote, Writer};
use vstd::prelude::*;
use vstd::string::StringSliceAdditionalSpecFns;
use vstd::utf8::encode_utf8;

verus! {

/// Whether a value can be written: the encoding of lengths holds every
/// length in it.
pub open spec fn encodable<L: UsizeEncoding>(tree: Tree) -> bool
    decreases tree,
{
    match tree {
        Tree::Unit => L::holds(0),
        Tree::Bytes(bytes) => L::holds(bytes.len()),
        Tree::String(text) => L::holds(encode_utf8(text).len()),
        Tree::Present(inner) => encodable::<L>(*inner),
        Tree::Sequence(items) => L::holds(items.len()) && forall|i: int|
            0 <= i < items.len() ==> encodable::<L>(#[trigger] items[i]),
        Tree::Mapping(pairs) => L::holds(pairs.len()) && forall|i: int|
            0 <= i < pairs.len() ==> encodable::<L>((#[trigger] pairs[i]).0) && encodable::<L>(
                pairs[i].1,
            ),
        Tree::Variant(tag, content) => encodable::<L>(*tag) && encodable::<L>(*content),
        _ => true,
    }
}

/// The bytes that a value is written as: a unit as an empty sequence, a
/// character as its number, a number in 128 bits, a string as its bytes in
/// UTF-8, a present value behind its marker, a variant as its tag and its
/// content.
pub open spec fn value_form<I: IntegerEncoding, L: UsizeEncoding>(tree: Tree) -> Seq<u8>
    decreases tree, 0nat,
{
    match tree {
        Tree::Unit => L::usize_form(0),
        Tree::Bool(value) => bool_form(value),
        Tree::Char(value) => I::unsigned_form(
            (value as u32) as nat,
            <u32 as Unsigned>::spec_bytes(),
        ),
        Tree::Unsigned(value) => I::unsigned_form(
            value as nat,
            <u128 as Unsigned>::spec_bytes(),
        ),
        Tree::Signed(value) => I::unsigned_form(
            I::unsigned_of(value as int, <u128 as Unsigned>::max_value()),
            <u128 as Unsigned>::spec_bytes(),
        ),
        Tree::Bytes(bytes) => bytes_form::<L>(bytes),
        Tree::String(text) => bytes_form::<L>(encode_utf8(text)),
        Tree::Absent => option_form(false),
        Tree::Present(inner) => option_form(true) + value_form::<I, L>(*inner),
        Tree::Sequence(items) => L::usize_form(items.len()) + values_form::<I, L>(
            items,
            items.len(),
        ),
        Tree::Mapping(pairs) => L::usize_form(pairs.len()) + pairs_form::<
            I,
            L,
        >(pairs, pairs.len()),
        Tree::Variant(tag, content) => value_form::<I, L>(*tag) + value_form::<I, L>(*content),
    }
}

/// The bytes that the first `n` of the given values are written as, one
/// after the other.
pub open spec fn values_form<I: IntegerEncoding, L: UsizeEncoding>(
    items: Seq<Tree>,
    n: nat,
) -> Seq<u8>
    decreases items, n,
{
    if n == 0 || n > items.len() {
        Seq::empty()
    } else {
        values_form::<I, L>(items, (n - 1) as nat) + value_form::<I, L>(items[n - 1])
    }
}

/// The bytes that the first `n` of the given pairs are written as, the
/// first value of each before the second.
pub open spec fn pairs_form<I: IntegerEncoding, L: UsizeEncoding>(
    pairs: Seq<(Tree, Tree)>,
    n: nat,
) -> Seq<u8>
    decreases pairs, n,
{
    if n == 0 || n > pairs.len() {
        Seq::empty()
    } else {
        pairs_form::<I, L>(pairs, (n - 1) as nat) + value_form::<I, L>(pairs[n - 1].0)
            + value_form::<I, L>(pairs[n - 1].1)
    }
}

/// The more values are written, the more bytes.
pub proof fn lemma_values_form_grows<I: IntegerEncoding, L: UsizeEncoding>(
    items: Seq<Tree>,
    i: nat,
    n: nat,
)
    requires
        i <= n <= items.len(),
    ensures
        values_form::<I, L>(items, i).len() <= values_form::<I, L>(items, n).len(),
    decreases n,
{
    if i < n {
        lemma_values_form_grows::<I, L>(items, i, (n - 1) as nat);
    }
}

/// The more pairs are written, the more bytes.
pub proof fn lemma_pairs_form_grows<I: IntegerEncoding, L: UsizeEncoding>(
    pairs: Seq<(Tree, Tree)>,
    i: nat,
    n: nat,
)
    requires
        i <= n <= pairs.len(),
    ensures
        pairs_form::<I, L>(pairs, i).len() <= pairs_form::<I, L>(pairs, n).len(),
    decreases n,
{
    if i < n {
        lemma_pairs_form_grows::<I, L>(pairs, i, (n - 1) as nat);
    }
}

/// What writing a value does to a writer: where the value can be written
/// and the writer takes its bytes, they are appended; else the writing
/// fails, after none or some of the bytes.
pub open spec fn stored<W: Writer, I: IntegerEncoding, L: UsizeEncoding>(
    before: W,
    after: W,
    ok: bool,
    tree: Tree,
) -> bool {
    &&& encodable::<L>(tree) ==> wrote(before, after, ok, value_form::<I, L>(tree))
    &&& !encodable::<L>(tree) ==> !ok
    &&& before.written().is_prefix_of(after.written())
}

/// Write the byte that a boolean is written as, which is also the byte
/// before an optional value that tells whether the value is present.
fn encode_mark<W: Writer>(writer: &mut W, flag: bool) -> (r: Result<(), W::Error>)
    ensures
        wrote(*old(writer), *final(writer), r is Ok, bool_form(flag)),
        wrote(*old(writer), *final(writer), r is Ok, option_form(flag)),
{
    writer.write_byte(if flag {
        1
    } else {
        0
    })
}

/// Encode a value in memory, whatever kind it is of.
///
/// Fails where the encoding of lengths does not hold a length in the
/// value, and where the writer has no room for the bytes.
pub fn encode_value<W: Writer, I: IntegerEncoding, L: UsizeEncoding>(
    writer: &mut W,
    value: &Value,
) -> (r: Result<(), W::Error>)
    ensures
        stored::<W, I, L>(*old(writer), *final(writer), r is Ok, value@),
    decreases value,
{
    match value {
        Value::Unit => L::encode_usize(writer, 0),
        Value::Bool(flag) => encode_mark(writer, *flag),
        Value::Char(c) => I::encode_unsigned::<W, u32>(writer, *c as u32),
        Value::Unsigned(number) => I::encode_unsigned::<W, u128>(writer, *number),
        Value::Signed(number) => I::encode_signed::<W, i128>(writer, *number),
        Value::Bytes(bytes) => encode_prefixed::<W, L>(writer, bytes.as_slice()),
        Value::String(text) => encode_prefixed::<W, L>(writer, text.as_str().as_bytes()),
        Value::Option(None) => encode_mark(writer, false),
        Value::Option(Some(inner)) => {
            match encode_mark(writer, true) {
                Ok(()) => {},
                Err(e) => {
                    proof {
                        lemma_wrote_fail(
                            *old(writer),
                            *writer,
                            option_form(true),
                            value_form::<I, L>(inner@),
                        );
                    }
                    return Err(e);
                },
            }
            let ghost middle = *writer;
            let r = encode_value::<W, I, L>(writer, &**inner);
            proof {
                if encodable::<L>(inner@) {
                    lemma_wrote_then(
                        *old(writer),
                        middle,
                        *writer,
                        option_form(true),
                        value_form::<I, L>(inner@),
                        r is Ok,
                    );
                }
            }
            r
        },
        Value::Sequence(items) => {
            proof {
                lemma_sequence(*items);
            }
            let ghost all = trees(items@);
            let ghost head = L::usize_form(all.len());
            match L::encode_usize(writer, items.len()) {
                Ok(()) => {},
                Err(e) => {
                    proof {
                        if L::holds(all.len()) {
                            lemma_wrote_fail(
                                *old(writer),
                                *writer,
                                head,
                                values_form::<I, L>(all, all.len()),
                            );
                        }
                    }
                    return Err(e);
                },
            }
            let mut i: usize = 0;
            while i < items.len()
                invariant
                    i <= items@.len(),
                    all == trees(items@),
                    head == L::usize_form(all.len()),
                    value@ == Tree::Sequence(all),
                    *value == Value::Sequence(*items),
                    L::holds(all.len()),
                    forall|j: int| 0 <= j < i ==> encodable::<L>(#[trigger] all[j]),
                    wrote(*old(writer), *writer, true, head + values_form::<I, L>(all, i as nat)),
                decreases items@.len() - i,
            {
                let ghost current = *writer;
                let ghost sofar = head + values_form::<I, L>(all, i as nat);
                let ghost form = value_form::<I, L>(all[i as int]);
                let r = encode_value::<W, I, L>(writer, &items[i]);
                proof {
                    assert(values_form::<I, L>(all, (i + 1) as nat) == values_form::<I, L>(
                        all,
                        i as nat,
                    ) + form);
                    assert(head + values_form::<I, L>(all, (i + 1) as nat) =~= sofar + form);
                }
                match r {
                    Ok(()) => {
                        proof {
                            lemma_wrote_then(*old(writer), current, *writer, sofar, form, true);
                        }
                    },
                    Err(e) => {
                        proof {
                            if encodable::<L>(value@) {
                                lemma_wrote_then(
                                    *old(writer),
                                    current,
                                    *writer,
                                    sofar,
                                    form,
                                    false,
                                );
                                lemma_values_form_grows::<I, L>(
                                    all,
                                    (i + 1) as nat,
                                    all.len(),
                                );
                                lemma_wrote_part(
                                    *old(writer),
                                    *writer,
                                    sofar + form,
                                    value_form::<I, L>(value@),
                                );
                            }
                        }
                        return Err(e);
                    },
                }
                i = i + 1;
            }
            Ok(())
        },
        Value::Mapping(pairs) => {
            proof {
                lemma_mapping(*pairs);
            }
            let ghost all = pair_trees(pairs@);
            let ghost head = L::usize_form(all.len());
            match L::encode_usize(writer, pairs.len()) {
                Ok(()) => {},
                Err(e) => {
                    proof {
                        if L::holds(all.len()) {
                            lemma_wrote_fail(
                                *old(writer),
                                *writer,
                                head,
                                pairs_form::<I, L>(all, all.len()),
                            );
                        }
                    }
                    return Err(e);
                },
            }
            let mut i: usize = 0;
            while i < pairs.len()
                invariant
                    i <= pairs@.len(),
                    all == pair_trees(pairs@),
                    head == L::usize_form(all.len()),
                    value@ == Tree::Mapping(all),
                    *value == Value::Mapping(*pairs),
                    L::holds(all.len()),
                    forall|j: int|
                        0 <= j < i ==> encodable::<L>((#[trigger] all[j]).0) && encodable::<L>(
                            all[j].1,
                        ),
                    wrote(*old(writer), *writer, true, head + pairs_form::<I, L>(all, i as nat)),
                decreases pairs@.len() - i,
            {
                let ghost current = *writer;
                let ghost sofar = head + pairs_form::<I, L>(all, i as nat);
                let ghost first = value_form::<I, L>(all[i as int].0);
                let ghost second = value_form::<I, L>(all[i as int].1);
                proof {
                    assert(pairs_form::<I, L>(all, (i + 1) as nat) == pairs_form::<I, L>(
                        all,
                        i as nat,
                    ) + first + second);
                    assert(head + pairs_form::<I, L>(all, (i + 1) as nat) =~= sofar + first
                        + second);
                    lemma_pairs_form_grows::<I, L>(all, (i + 1) as nat, all.len());
                }
                let r = encode_value::<W, I, L>(writer, &pairs[i].0);
                match r {
                    Ok(()) => {
                        proof {
                            lemma_wrote_then(*old(writer), current, *writer, sofar, first, true);
                        }
                    },
                    Err(e) => {
                        proof {
                            if encodable::<L>(value@) {
                                lemma_wrote_then(
                                    *old(writer),
                                    current,
                                    *writer,
                                    sofar,
                                    first,
                                    false,
                                );
                                lemma_wrote_part(
                                    *old(writer),
                                    *writer,
                                    sofar + first,
                                    value_form::<I, L>(value@),
                                );
                            }
                        }
                        return Err(e);
                    },
                }
                let ghost middle = *writer;
                let r = encode_value::<W, I, L>(writer, &pairs[i].1);
                match r {
                    Ok(()) => {
                        proof {
                            lemma_wrote_then(
                                *old(writer),
                                middle,
                                *writer,
                                sofar + first,
                                second,
                                true,
                            );
                        }
                    },
                    Err(e) => {
                        proof {
                            if encodable::<L>(value@) {
                                lemma_wrote_then(
                                    *old(writer),
                                    middle,
                                    *writer,
                                    sofar + first,
                                    second,
                                    false,
                                );
                                lemma_wrote_part(
                                    *old(writer),
                                    *writer,
                                    sofar + first + second,
                                    value_form::<I, L>(value@),
                                );
                            }
                        }
                        return Err(e);
                    },
                }
                i = i + 1;
            }
            Ok(())
        },
        Value::Variant(pair) => {
            let ghost first = value_form::<I, L>(pair.0@);
            let ghost second = value_form::<I, L>(pair.1@);
            match encode_value::<W, I, L>(writer, &pair.0) {
                Ok(()) => {},
                Err(e) => {
                    proof {
                        if encodable::<L>(value@) {
                            lemma_wrote_fail(*old(writer), *writer, first, second);
                        }
                    }
                    return Err(e);
                },
            }
            let ghost middle = *writer;
            let r = encode_value::<W, I, L>(writer, &pair.1);
            proof {
                if encodable::<L>(pair.1@) {
                    lemma_wrote_then(*old(writer), middle, *writer, first, second, r is Ok);
                }
            }
            r
        },
    }
}

} // verus!
