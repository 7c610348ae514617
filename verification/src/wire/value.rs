//! Values in memory in the binary-tagged format: what every kind of value
//! is written as, whatever type it came from.

use crate::encoding::Variable;
use crate::error::Outcome;
use crate::integer::{zigzag, Signed, Unsigned};
use crate::storage::integer_encoding::UsizeEncoding;
use crate::value::{lemma_mapping, lemma_sequence, pair_trees, trees, Tree, Value};
use crate::wire::en::{encode_header, encode_prefixed, encode_tag};
use crate::wire::format::{
    bool_form, header, option_form, prefixed_form, skip_read, variant_form,
};
use crate::wire::integer_encoding::{
    encode_typed_signed, encode_typed_unsigned, typed_unsigned_form, TypedIntegerEncoding,
    TypedUsizeEncoding,
};
use crate::wire::model;
use crate::wire::model::{item_form, item_wf, items_form, lemma_skip_item, writable, Item};
use crate::wire::types::{TypeKind, LEN_MASK};
use crate::writer::{lemma_wrote_fail, lemma_wrote_part, lemma_wrote_then, wrote, Writer};
use vstd::prelude::*;
use vstd::string::StringSliceAdditionalSpecFns;
use vstd::utf8::encode_utf8;

verus! {

/// Whether a length can stand in a header: in the tag itself, or behind it
/// as the encoding of lengths holds it.
pub open spec fn fitting<L: UsizeEncoding>(len: nat) -> bool {
    len < LEN_MASK || L::holds(len)
}

/// Whether a value can be written: every length in it can stand in a
/// header.
pub open spec fn encodable<L: UsizeEncoding>(tree: Tree) -> bool
    decreases tree,
{
    match tree {
        Tree::Bytes(bytes) => fitting::<L>(bytes.len()),
        Tree::String(text) => fitting::<L>(encode_utf8(text).len()),
        Tree::Present(inner) => encodable::<L>(*inner),
        Tree::Sequence(items) => fitting::<L>(items.len()) && forall|i: int|
            0 <= i < items.len() ==> encodable::<L>(#[trigger] items[i]),
        Tree::Mapping(pairs) => fitting::<L>(pairs.len()) && forall|i: int|
            0 <= i < pairs.len() ==> encodable::<L>((#[trigger] pairs[i]).0) && encodable::<L>(
                pairs[i].1,
            ),
        Tree::Variant(tag, content) => encodable::<L>(*tag) && encodable::<L>(*content),
        _ => true,
    }
}

/// The bytes that a value is written as: a unit as an empty sequence, a
/// character as its number, a number in 128 bits, a string as its bytes in
/// UTF-8, a present value behind its marker, a variant as one pair.
pub open spec fn value_form<I: TypedIntegerEncoding, L: UsizeEncoding>(tree: Tree) -> Seq<u8>
    decreases tree, 0nat,
{
    match tree {
        Tree::Unit => header::<L>(TypeKind::Sequence, 0),
        Tree::Bool(value) => bool_form(value),
        Tree::Char(value) => typed_unsigned_form::<I>(
            (value as u32) as nat,
            <u32 as Unsigned>::spec_bytes(),
        ),
        Tree::Unsigned(value) => typed_unsigned_form::<I>(
            value as nat,
            <u128 as Unsigned>::spec_bytes(),
        ),
        Tree::Signed(value) => typed_unsigned_form::<I>(
            I::unsigned_of(value as int, <u128 as Unsigned>::max_value()),
            <u128 as Unsigned>::spec_bytes(),
        ),
        Tree::Bytes(bytes) => prefixed_form::<L>(bytes),
        Tree::String(text) => prefixed_form::<L>(encode_utf8(text)),
        Tree::Absent => option_form(false),
        Tree::Present(inner) => option_form(true) + value_form::<I, L>(*inner),
        Tree::Sequence(items) => header::<L>(TypeKind::Sequence, items.len()) + values_form::<I, L>(
            items,
            items.len(),
        ),
        Tree::Mapping(pairs) => header::<L>(TypeKind::PairSequence, pairs.len()) + pairs_form::<
            I,
            L,
        >(pairs, pairs.len()),
        Tree::Variant(tag, content) => variant_form() + value_form::<I, L>(*tag) + value_form::<
            I,
            L,
        >(*content),
    }
}

/// The bytes that the first `n` of the given values are written as, one
/// after the other.
pub open spec fn values_form<I: TypedIntegerEncoding, L: UsizeEncoding>(
    items: Seq<Tree>,
    n: nat,
) -> Seq<u8>
    decreases items, n,
{
    if n == 0 || n > items.len() {
        Seq::empty()
    } else {
        values_form::<I, L>(items, (n - 1) as nat) + value_form::<I, L>(items[n - 1])
    }
}

/// The bytes that the first `n` of the given pairs are written as, the
/// first value of each before the second.
pub open spec fn pairs_form<I: TypedIntegerEncoding, L: UsizeEncoding>(
    pairs: Seq<(Tree, Tree)>,
    n: nat,
) -> Seq<u8>
    decreases pairs, n,
{
    if n == 0 || n > pairs.len() {
        Seq::empty()
    } else {
        pairs_form::<I, L>(pairs, (n - 1) as nat) + value_form::<I, L>(pairs[n - 1].0)
            + value_form::<I, L>(pairs[n - 1].1)
    }
}

/// The more values are written, the more bytes.
pub proof fn lemma_values_form_grows<I: TypedIntegerEncoding, L: UsizeEncoding>(
    items: Seq<Tree>,
    i: nat,
    n: nat,
)
    requires
        i <= n <= items.len(),
    ensures
        values_form::<I, L>(items, i).len() <= values_form::<I, L>(items, n).len(),
    decreases n,
{
    if i < n {
        lemma_values_form_grows::<I, L>(items, i, (n - 1) as nat);
    }
}

/// The more pairs are written, the more bytes.
pub proof fn lemma_pairs_form_grows<I: TypedIntegerEncoding, L: UsizeEncoding>(
    pairs: Seq<(Tree, Tree)>,
    i: nat,
    n: nat,
)
    requires
        i <= n <= pairs.len(),
    ensures
        pairs_form::<I, L>(pairs, i).len() <= pairs_form::<I, L>(pairs, n).len(),
    decreases n,
{
    if i < n {
        lemma_pairs_form_grows::<I, L>(pairs, i, (n - 1) as nat);
    }
}

/// What writing a value does to a writer: where the value can be written
/// and the writer takes its bytes, they are appended; else the writing
/// fails, after none or some of the bytes.
pub open spec fn stored<W: Writer, I: TypedIntegerEncoding, L: UsizeEncoding>(
    before: W,
    after: W,
    ok: bool,
    tree: Tree,
) -> bool {
    &&& encodable::<L>(tree) ==> wrote(before, after, ok, value_form::<I, L>(tree))
    &&& !encodable::<L>(tree) ==> !ok
    &&& before.written().is_prefix_of(after.written())
}

/// Encode a value in memory, whatever kind it is of.
///
/// Fails where a length in the value cannot stand in a header, and where
/// the writer has no room for the bytes.
pub fn encode_value<W: Writer, I: TypedIntegerEncoding, L: TypedUsizeEncoding>(
    writer: &mut W,
    value: &Value,
) -> (r: Result<(), W::Error>)
    ensures
        stored::<W, I, L>(*old(writer), *final(writer), r is Ok, value@),
    decreases value,
{
    match value {
        Value::Unit => encode_header::<W, L>(writer, TypeKind::Sequence, 0),
        Value::Bool(flag) => encode_tag(writer, TypeKind::Byte, if *flag {
            1
        } else {
            0
        }),
        Value::Char(c) => encode_typed_unsigned::<W, I, u32>(writer, *c as u32),
        Value::Unsigned(number) => encode_typed_unsigned::<W, I, u128>(writer, *number),
        Value::Signed(number) => encode_typed_signed::<W, I, i128>(writer, *number),
        Value::Bytes(bytes) => encode_prefixed::<W, L>(writer, bytes.as_slice()),
        Value::String(text) => encode_prefixed::<W, L>(writer, text.as_str().as_bytes()),
        Value::Option(None) => encode_tag(writer, TypeKind::Mark, 0),
        Value::Option(Some(inner)) => {
            match encode_tag(writer, TypeKind::Mark, 1) {
                Ok(()) => {},
                Err(e) => {
                    proof {
                        lemma_wrote_fail(
                            *old(writer),
                            *writer,
                            option_form(true),
                            value_form::<I, L>(inner@),
                        );
                    }
                    return Err(e);
                },
            }
            let ghost middle = *writer;
            let r = encode_value::<W, I, L>(writer, &**inner);
            proof {
                if encodable::<L>(inner@) {
                    lemma_wrote_then(
                        *old(writer),
                        middle,
                        *writer,
                        option_form(true),
                        value_form::<I, L>(inner@),
                        r is Ok,
                    );
                }
            }
            r
        },
        Value::Sequence(items) => {
            proof {
                lemma_sequence(*items);
            }
            let ghost all = trees(items@);
            let ghost head = header::<L>(TypeKind::Sequence, all.len());
            match encode_header::<W, L>(writer, TypeKind::Sequence, items.len()) {
                Ok(()) => {},
                Err(e) => {
                    proof {
                        if fitting::<L>(all.len()) {
                            lemma_wrote_fail(
                                *old(writer),
                                *writer,
                                head,
                                values_form::<I, L>(all, all.len()),
                            );
                        }
                    }
                    return Err(e);
                },
            }
            let mut i: usize = 0;
            while i < items.len()
                invariant
                    i <= items@.len(),
                    all == trees(items@),
                    head == header::<L>(TypeKind::Sequence, all.len()),
                    value@ == Tree::Sequence(all),
                    *value == Value::Sequence(*items),
                    fitting::<L>(all.len()),
                    forall|j: int| 0 <= j < i ==> encodable::<L>(#[trigger] all[j]),
                    wrote(*old(writer), *writer, true, head + values_form::<I, L>(all, i as nat)),
                decreases items@.len() - i,
            {
                let ghost current = *writer;
                let ghost sofar = head + values_form::<I, L>(all, i as nat);
                let ghost form = value_form::<I, L>(all[i as int]);
                let r = encode_value::<W, I, L>(writer, &items[i]);
                proof {
                    assert(values_form::<I, L>(all, (i + 1) as nat) == values_form::<I, L>(
                        all,
                        i as nat,
                    ) + form);
                    assert(head + values_form::<I, L>(all, (i + 1) as nat) =~= sofar + form);
                }
                match r {
                    Ok(()) => {
                        proof {
                            lemma_wrote_then(*old(writer), current, *writer, sofar, form, true);
                        }
                    },
                    Err(e) => {
                        proof {
                            if encodable::<L>(value@) {
                                lemma_wrote_then(
                                    *old(writer),
                                    current,
                                    *writer,
                                    sofar,
                                    form,
                                    false,
                                );
                                lemma_values_form_grows::<I, L>(
                                    all,
                                    (i + 1) as nat,
                                    all.len(),
                                );
                                lemma_wrote_part(
                                    *old(writer),
                                    *writer,
                                    sofar + form,
                                    value_form::<I, L>(value@),
                                );
                            }
                        }
                        return Err(e);
                    },
                }
                i = i + 1;
            }
            Ok(())
        },
        Value::Mapping(pairs) => {
            proof {
                lemma_mapping(*pairs);
            }
            let ghost all = pair_trees(pairs@);
            let ghost head = header::<L>(TypeKind::PairSequence, all.len());
            match encode_header::<W, L>(writer, TypeKind::PairSequence, pairs.len()) {
                Ok(()) => {},
                Err(e) => {
                    proof {
                        if fitting::<L>(all.len()) {
                            lemma_wrote_fail(
                                *old(writer),
                                *writer,
                                head,
                                pairs_form::<I, L>(all, all.len()),
                            );
                        }
                    }
                    return Err(e);
                },
            }
            let mut i: usize = 0;
            while i < pairs.len()
                invariant
                    i <= pairs@.len(),
                    all == pair_trees(pairs@),
                    head == header::<L>(TypeKind::PairSequence, all.len()),
                    value@ == Tree::Mapping(all),
                    *value == Value::Mapping(*pairs),
                    fitting::<L>(all.len()),
                    forall|j: int|
                        0 <= j < i ==> encodable::<L>((#[trigger] all[j]).0) && encodable::<L>(
                            all[j].1,
                        ),
                    wrote(*old(writer), *writer, true, head + pairs_form::<I, L>(all, i as nat)),
                decreases pairs@.len() - i,
            {
                let ghost current = *writer;
                let ghost sofar = head + pairs_form::<I, L>(all, i as nat);
                let ghost first = value_form::<I, L>(all[i as int].0);
                let ghost second = value_form::<I, L>(all[i as int].1);
                proof {
                    assert(pairs_form::<I, L>(all, (i + 1) as nat) == pairs_form::<I, L>(
                        all,
                        i as nat,
                    ) + first + second);
                    assert(head + pairs_form::<I, L>(all, (i + 1) as nat) =~= sofar + first
                        + second);
                    lemma_pairs_form_grows::<I, L>(all, (i + 1) as nat, all.len());
                }
                let r = encode_value::<W, I, L>(writer, &pairs[i].0);
                match r {
                    Ok(()) => {
                        proof {
                            lemma_wrote_then(*old(writer), current, *writer, sofar, first, true);
                        }
                    },
                    Err(e) => {
                        proof {
                            if encodable::<L>(value@) {
                                lemma_wrote_then(
                                    *old(writer),
                                    current,
                                    *writer,
                                    sofar,
                                    first,
                                    false,
                                );
                                lemma_wrote_part(
                                    *old(writer),
                                    *writer,
                                    sofar + first,
                                    value_form::<I, L>(value@),
                                );
                            }
                        }
                        return Err(e);
                    },
                }
                let ghost middle = *writer;
                let r = encode_value::<W, I, L>(writer, &pairs[i].1);
                match r {
                    Ok(()) => {
                        proof {
                            lemma_wrote_then(
                                *old(writer),
                                middle,
                                *writer,
                                sofar + first,
                                second,
                                true,
                            );
                        }
                    },
                    Err(e) => {
                        proof {
                            if encodable::<L>(value@) {
                                lemma_wrote_then(
                                    *old(writer),
                                    middle,
                                    *writer,
                                    sofar + first,
                                    second,
                                    false,
                                );
                                lemma_wrote_part(
                                    *old(writer),
                                    *writer,
                                    sofar + first + second,
                                    value_form::<I, L>(value@),
                                );
                            }
                        }
                        return Err(e);
                    },
                }
                i = i + 1;
            }
            Ok(())
        },
        Value::Variant(pair) => {
            let ghost first = value_form::<I, L>(pair.0@);
            let ghost second = value_form::<I, L>(pair.1@);
            match encode_tag(writer, TypeKind::PairSequence, 1) {
                Ok(()) => {},
                Err(e) => {
                    proof {
                        lemma_wrote_fail(*old(writer), *writer, variant_form(), first + second);
                        assert(variant_form() + (first + second) =~= variant_form() + first
                            + second);
                    }
                    return Err(e);
                },
            }
            let ghost start = *writer;
            match encode_value::<W, I, L>(writer, &pair.0) {
                Ok(()) => {
                    proof {
                        lemma_wrote_then(
                            *old(writer),
                            start,
                            *writer,
                            variant_form(),
                            first,
                            true,
                        );
                    }
                },
                Err(e) => {
                    proof {
                        if encodable::<L>(value@) {
                            lemma_wrote_then(
                                *old(writer),
                                start,
                                *writer,
                                variant_form(),
                                first,
                                false,
                            );
                            lemma_wrote_fail(
                                *old(writer),
                                *writer,
                                variant_form() + first,
                                second,
                            );
                        }
                    }
                    return Err(e);
                },
            }
            let ghost middle = *writer;
            let r = encode_value::<W, I, L>(writer, &pair.1);
            proof {
                if encodable::<L>(pair.1@) {
                    lemma_wrote_then(
                        *old(writer),
                        middle,
                        *writer,
                        variant_form() + first,
                        second,
                        r is Ok,
                    );
                }
            }
            r
        },
    }
}

/// Whether a value holds no optional value that is present, and tells no
/// length that cannot be read again.
pub open spec fn plain<L: UsizeEncoding>(tree: Tree) -> bool
    decreases tree,
{
    match tree {
        Tree::Bytes(bytes) => writable::<L>(bytes.len()),
        Tree::String(text) => writable::<L>(encode_utf8(text).len()),
        Tree::Present(_) => false,
        Tree::Sequence(items) => writable::<L>(items.len()) && forall|i: int|
            0 <= i < items.len() ==> plain::<L>(#[trigger] items[i]),
        Tree::Mapping(pairs) => writable::<L>(pairs.len()) && forall|i: int|
            0 <= i < pairs.len() ==> plain::<L>((#[trigger] pairs[i]).0) && plain::<L>(
                pairs[i].1,
            ),
        Tree::Variant(tag, content) => plain::<L>(*tag) && plain::<L>(*content),
        _ => true,
    }
}

/// A value as the binary-tagged format holds it, where integers are of
/// variable length.
pub open spec fn item_of(tree: Tree) -> Item
    decreases tree,
{
    match tree {
        Tree::Unit => Item::Sequence(Seq::empty()),
        Tree::Bool(value) => Item::Byte(
            if value {
                1
            } else {
                0
            },
        ),
        Tree::Char(value) => Item::Number((value as u32) as nat),
        Tree::Unsigned(value) => Item::Number(value as nat),
        Tree::Signed(value) => Item::Number(zigzag::encoded(value as int)),
        Tree::Bytes(bytes) => Item::Bytes(bytes),
        Tree::String(text) => Item::Bytes(encode_utf8(text)),
        Tree::Absent => Item::Absent,
        Tree::Present(inner) => item_of(*inner),
        Tree::Sequence(items) => Item::Sequence(
            Seq::new(
                items.len(),
                |i: int|
                    if 0 <= i < items.len() {
                        item_of(items[i])
                    } else {
                        Item::Absent
                    },
            ),
        ),
        Tree::Mapping(pairs) => Item::Pairs(
            Seq::new(
                pairs.len(),
                |i: int|
                    if 0 <= i < pairs.len() {
                        (item_of(pairs[i].0), item_of(pairs[i].1))
                    } else {
                        (Item::Absent, Item::Absent)
                    },
            ),
        ),
        Tree::Variant(tag, content) => Item::Pairs(seq![(item_of(*tag), item_of(*content))]),
    }
}

/// A value is written as what the format holds for it.
pub proof fn lemma_item_of<L: UsizeEncoding>(tree: Tree)
    requires
        plain::<L>(tree),
    ensures
        item_wf::<L>(item_of(tree)),
        item_form::<L>(item_of(tree)) == value_form::<Variable, L>(tree),
    decreases tree, 0nat,
{
    match tree {
        Tree::Unit => {
            assert(item_form::<L>(item_of(tree)) =~= value_form::<Variable, L>(tree));
        },
        Tree::Signed(value) => {
            <i128 as Signed>::lemma_bounded(value);
        },
        Tree::Sequence(items) => {
            let mapped = item_of(tree)->Sequence_0;
            assert forall|i: int| 0 <= i < mapped.len() implies item_wf::<L>(
                #[trigger] mapped[i],
            ) by {
                lemma_item_of::<L>(items[i]);
            }
            lemma_items_of::<L>(items, items.len());
        },
        Tree::Mapping(pairs) => {
            let mapped = item_of(tree)->Pairs_0;
            assert forall|i: int| 0 <= i < mapped.len() implies item_wf::<L>(
                (#[trigger] mapped[i]).0,
            ) && item_wf::<L>(mapped[i].1) by {
                lemma_item_of::<L>(pairs[i].0);
                lemma_item_of::<L>(pairs[i].1);
            }
            lemma_pairs_of::<L>(pairs, pairs.len());
        },
        Tree::Variant(tag, content) => {
            lemma_item_of::<L>(*tag);
            lemma_item_of::<L>(*content);
            let mapped = item_of(tree)->Pairs_0;
            assert(model::pairs_form::<L>(mapped, 0) =~= Seq::<u8>::empty());
            assert(model::pairs_form::<L>(mapped, 1) =~= item_form::<L>(mapped[0].0)
                + item_form::<L>(mapped[0].1));
            assert(item_form::<L>(item_of(tree)) =~= value_form::<Variable, L>(tree));
        },
        _ => {},
    }
}

/// The first values of a sequence are written as what the format holds for
/// them.
proof fn lemma_items_of<L: UsizeEncoding>(items: Seq<Tree>, n: nat)
    requires
        n <= items.len(),
        forall|i: int| 0 <= i < items.len() ==> plain::<L>(#[trigger] items[i]),
    ensures
        items_form::<L>(item_of(Tree::Sequence(items))->Sequence_0, n) == values_form::<
            Variable,
            L,
        >(items, n),
    decreases items, n,
{
    if n > 0 {
        lemma_items_of::<L>(items, (n - 1) as nat);
        lemma_item_of::<L>(items[n - 1]);
    }
}

/// The first pairs of a sequence of pairs are written as what the format
/// holds for them.
proof fn lemma_pairs_of<L: UsizeEncoding>(pairs: Seq<(Tree, Tree)>, n: nat)
    requires
        n <= pairs.len(),
        forall|i: int|
            0 <= i < pairs.len() ==> plain::<L>((#[trigger] pairs[i]).0) && plain::<L>(
                pairs[i].1,
            ),
    ensures
        model::pairs_form::<L>(item_of(Tree::Mapping(pairs))->Pairs_0, n) == pairs_form::<
            Variable,
            L,
        >(pairs, n),
    decreases pairs, n,
{
    if n > 0 {
        lemma_pairs_of::<L>(pairs, (n - 1) as nat);
        lemma_item_of::<L>(pairs[n - 1].0);
        lemma_item_of::<L>(pairs[n - 1].1);
    }
}

/// A value that is written is skipped as a whole, whatever kind it is of
/// and whatever follows it: skipping reads its bytes and no others.
///
/// This holds of the values that hold no optional value that is present.
/// Such a value is written as a marker and the value behind it, and
/// skipping reads the marker alone.
pub proof fn lemma_skip_value<L: UsizeEncoding>(tree: Tree, rest: Seq<u8>)
    requires
        plain::<L>(tree),
    ensures
        skip_read::<L>(value_form::<Variable, L>(tree) + rest) == (Outcome::Value {
            value: (),
            len: value_form::<Variable, L>(tree).len(),
        }),
{
    lemma_item_of::<L>(tree);
    lemma_skip_item::<L>(item_of(tree), rest);
}

} // verus!
