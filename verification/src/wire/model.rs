//! Values as the binary-tagged format holds them, whatever type they were
//! written for, and the law that such a value is skipped as a whole.

use crate::error::Outcome;
use crate::integer::continuation;
use crate::integer::Unsigned;
use crate::storage::integer_encoding::UsizeEncoding;
use crate::wire::format::{
    byte_form, header, lemma_header_round_trip, lemma_skip_len, lemma_skip_many_adds, length_read, option_form, prefixed_form, skip_many, skip_read, tag_byte,
};
use crate::wire::integer_encoding::after;
use crate::wire::types::{TypeKind, TypeTag, LEN_MASK};
use vstd::prelude::*;

verus! {

/// A value as the binary-tagged format holds it.
pub enum Item {
    /// An optional value that is absent.
    Absent,
    /// A byte, which a boolean is written as, too.
    Byte(u8),
    /// An integer of variable length.
    Number(nat),
    /// An integer of the given bytes.
    Fixed(Seq<u8>),
    /// Bytes, which a string is written as, too.
    Bytes(Seq<u8>),
    /// A sequence of values, which a tuple is written as, too.
    Sequence(Seq<Item>),
    /// A sequence of pairs of values, which a map, a struct and a variant are
    /// written as.
    Pairs(Seq<(Item, Item)>),
}

/// Whether a length can be written in a header.
pub open spec fn writable<L: UsizeEncoding>(len: nat) -> bool {
    len <= usize::MAX && (len < LEN_MASK || L::holds(len))
}

/// Whether a value can be written: its numbers are no larger than 128 bits
/// hold, and its lengths can be written.
pub open spec fn item_wf<L: UsizeEncoding>(item: Item) -> bool
    decreases item,
{
    match item {
        Item::Absent => true,
        Item::Byte(_) => true,
        Item::Number(value) => value <= u128::MAX,
        Item::Fixed(bytes) => writable::<L>(bytes.len()),
        Item::Bytes(bytes) => writable::<L>(bytes.len()),
        Item::Sequence(items) => writable::<L>(items.len()) && forall|i: int|
            0 <= i < items.len() ==> item_wf::<L>(#[trigger] items[i]),
        Item::Pairs(pairs) => writable::<L>(pairs.len()) && forall|i: int|
            0 <= i < pairs.len() ==> item_wf::<L>((#[trigger] pairs[i]).0) && item_wf::<L>(
                pairs[i].1,
            ),
    }
}

/// The bytes that a value is written as.
pub open spec fn item_form<L: UsizeEncoding>(item: Item) -> Seq<u8>
    decreases item, 0nat,
{
    match item {
        Item::Absent => option_form(false),
        Item::Byte(value) => byte_form(value),
        Item::Number(value) => seq![tag_byte(TypeKind::Continuation, 0)] + continuation::encoding(
            value,
        ),
        Item::Fixed(bytes) => header::<L>(TypeKind::Fixed, bytes.len()) + bytes,
        Item::Bytes(bytes) => prefixed_form::<L>(bytes),
        Item::Sequence(items) => header::<L>(TypeKind::Sequence, items.len()) + items_form::<L>(
            items,
            items.len(),
        ),
        Item::Pairs(pairs) => header::<L>(TypeKind::PairSequence, pairs.len()) + pairs_form::<L>(
            pairs,
            pairs.len(),
        ),
    }
}

/// The bytes that the first `n` of the given values are written as, one
/// after the other.
pub open spec fn items_form<L: UsizeEncoding>(items: Seq<Item>, n: nat) -> Seq<u8>
    decreases items, n,
{
    if n == 0 || n > items.len() {
        Seq::empty()
    } else {
        items_form::<L>(items, (n - 1) as nat) + item_form::<L>(items[n - 1])
    }
}

/// The bytes that the first `n` of the given pairs are written as, the
/// first value of each before the second.
pub open spec fn pairs_form<L: UsizeEncoding>(pairs: Seq<(Item, Item)>, n: nat) -> Seq<u8>
    decreases pairs, n,
{
    if n == 0 || n > pairs.len() {
        Seq::empty()
    } else {
        pairs_form::<L>(pairs, (n - 1) as nat) + item_form::<L>(pairs[n - 1].0) + item_form::<L>(
            pairs[n - 1].1,
        )
    }
}

/// Skipping `count` values and then one more over what is left is skipping
/// `count + 1` values.
proof fn lemma_skip_one_more<L: UsizeEncoding>(source: Seq<u8>, count: nat, first: nat, one: nat)
    requires
        skip_many::<L>(source, count) == (Outcome::Value { value: (), len: first }),
        first <= source.len(),
        skip_read::<L>(source.skip(first as int)) == (Outcome::Value { value: (), len: one }),
    ensures
        skip_many::<L>(source, count + 1) == (Outcome::Value { value: (), len: first + one }),
{
    lemma_skip_many_adds::<L>(source, count, 1);
    lemma_skip_len::<L>(source.skip(first as int), 1);
    let rest = source.skip(first as int);
    assert(skip_many::<L>(rest.skip(one as int), 0) == (Outcome::Value { value: (), len: 0 }));
}

/// A value that is written is skipped as a whole: skipping reads its bytes
/// and no others, whatever follows them.
pub proof fn lemma_skip_item<L: UsizeEncoding>(item: Item, rest: Seq<u8>)
    requires
        item_wf::<L>(item),
    ensures
        skip_read::<L>(item_form::<L>(item) + rest) == (Outcome::Value {
            value: (),
            len: item_form::<L>(item).len(),
        }),
    decreases item, 0nat,
{
    let form = item_form::<L>(item);
    let all = form + rest;
    match item {
        Item::Absent => {
            (TypeTag { kind: TypeKind::Mark, len: 0 }).lemma_byte_round_trip();
            assert(all[0] == form[0]);
        },
        Item::Byte(value) => {
            if value < LEN_MASK {
                (TypeTag { kind: TypeKind::Byte, len: value }).lemma_byte_round_trip();
            } else {
                (TypeTag { kind: TypeKind::Byte, len: LEN_MASK }).lemma_byte_round_trip();
                assert(all.skip(1).len() >= 1);
            }
            assert(all[0] == form[0]);
        },
        Item::Number(value) => {
            (TypeTag { kind: TypeKind::Continuation, len: 0 }).lemma_byte_round_trip();
            assert(all[0] == form[0]);
            assert(all.skip(1) =~= continuation::encoding(value) + rest);
            <u128 as Unsigned>::lemma_shape();
            continuation::lemma_round_trip(
                value,
                rest,
                <u128 as Unsigned>::max_value(),
                <u128 as Unsigned>::spec_groups(),
            );
        },
        Item::Fixed(bytes) => {
            lemma_skip_payload::<L>(TypeKind::Fixed, bytes, rest);
        },
        Item::Bytes(bytes) => {
            lemma_skip_payload::<L>(TypeKind::Prefixed, bytes, rest);
        },
        Item::Sequence(items) => {
            let head = header::<L>(TypeKind::Sequence, items.len());
            let body = items_form::<L>(items, items.len());
            assert(all =~= head + (body + rest));
            lemma_header_parts::<L>(TypeKind::Sequence, items.len() as usize, body + rest);
            lemma_skip_items::<L>(items, items.len(), rest);
            assert(all.skip(1).skip(head.len() - 1) =~= body + rest);
            assert(form.len() == head.len() + body.len());
        },
        Item::Pairs(pairs) => {
            let head = header::<L>(TypeKind::PairSequence, pairs.len());
            let body = pairs_form::<L>(pairs, pairs.len());
            assert(all =~= head + (body + rest));
            lemma_header_parts::<L>(TypeKind::PairSequence, pairs.len() as usize, body + rest);
            lemma_skip_pairs::<L>(pairs, pairs.len(), rest);
            assert(all.skip(1).skip(head.len() - 1) =~= body + rest);
            assert(form.len() == head.len() + body.len());
        },
    }
}

/// A header that is written is read as its tag and the length that the tag carries.
proof fn lemma_header_parts<L: UsizeEncoding>(kind: TypeKind, len: usize, rest: Seq<u8>)
    requires
        len < LEN_MASK || L::holds(len as nat),
    ensures
        ({
            let form = header::<L>(kind, len as nat);
            let all = form + rest;
            &&& form.len() >= 1
            &&& TypeTag::spec_from_byte(all[0]).kind == kind
            &&& length_read::<L>(TypeTag::spec_from_byte(all[0]), all.skip(1)) == (Outcome::Value {
                value: len as nat,
                len: (form.len() - 1) as nat,
            })
        }),
{
    lemma_header_round_trip::<L>(kind, len, rest, 0);
    let form = header::<L>(kind, len as nat);
    let all = form + rest;
    if len < LEN_MASK {
        (TypeTag { kind, len: len as u8 }).lemma_byte_round_trip();
    } else {
        (TypeTag { kind, len: LEN_MASK }).lemma_byte_round_trip();
    }
    assert(all[0] == form[0]);
}

/// Bytes behind a header of the kind `Fixed` or `Prefixed` are skipped with
/// their header.
proof fn lemma_skip_payload<L: UsizeEncoding>(kind: TypeKind, bytes: Seq<u8>, rest: Seq<u8>)
    requires
        kind == TypeKind::Fixed || kind == TypeKind::Prefixed,
        writable::<L>(bytes.len()),
    ensures
        skip_read::<L>(header::<L>(kind, bytes.len()) + bytes + rest) == (Outcome::Value {
            value: (),
            len: (header::<L>(kind, bytes.len()) + bytes).len(),
        }),
{
    let head = header::<L>(kind, bytes.len());
    let all = head + bytes + rest;
    assert(all =~= head + (bytes + rest));
    lemma_header_parts::<L>(kind, bytes.len() as usize, bytes + rest);
    assert(all.skip(1).skip(head.len() - 1) =~= bytes + rest);
}

/// The first `n` of the values of a sequence are skipped as `n` values.
proof fn lemma_skip_items<L: UsizeEncoding>(items: Seq<Item>, n: nat, rest: Seq<u8>)
    requires
        n <= items.len(),
        forall|i: int| 0 <= i < items.len() ==> item_wf::<L>(#[trigger] items[i]),
    ensures
        skip_many::<L>(items_form::<L>(items, n) + rest, n) == (Outcome::Value {
            value: (),
            len: items_form::<L>(items, n).len(),
        }),
    decreases items, n,
{
    if n == 0 {
    } else {
        let front = items_form::<L>(items, (n - 1) as nat);
        let last = item_form::<L>(items[n - 1]);
        let all = items_form::<L>(items, n) + rest;
        assert(all =~= front + (last + rest));
        lemma_skip_items::<L>(items, (n - 1) as nat, last + rest);
        lemma_skip_item::<L>(items[n - 1], rest);
        assert(all.skip(front.len() as int) =~= last + rest);
        lemma_skip_one_more::<L>(all, (n - 1) as nat, front.len(), last.len());
    }
}

/// The first `n` of the pairs of a sequence are skipped as `2 * n` values.
proof fn lemma_skip_pairs<L: UsizeEncoding>(pairs: Seq<(Item, Item)>, n: nat, rest: Seq<u8>)
    requires
        n <= pairs.len(),
        forall|i: int|
            0 <= i < pairs.len() ==> item_wf::<L>((#[trigger] pairs[i]).0) && item_wf::<L>(
                pairs[i].1,
            ),
    ensures
        skip_many::<L>(pairs_form::<L>(pairs, n) + rest, 2 * n) == (Outcome::Value {
            value: (),
            len: pairs_form::<L>(pairs, n).len(),
        }),
    decreases pairs, n,
{
    if n == 0 {
    } else {
        let front = pairs_form::<L>(pairs, (n - 1) as nat);
        let first = item_form::<L>(pairs[n - 1].0);
        let second = item_form::<L>(pairs[n - 1].1);
        let all = pairs_form::<L>(pairs, n) + rest;
        assert(all =~= front + (first + (second + rest)));
        lemma_skip_pairs::<L>(pairs, (n - 1) as nat, first + (second + rest));
        lemma_skip_item::<L>(pairs[n - 1].0, second + rest);
        lemma_skip_item::<L>(pairs[n - 1].1, rest);
        assert(all.skip(front.len() as int) =~= first + (second + rest));
        lemma_skip_one_more::<L>(all, (2 * (n - 1)) as nat, front.len(), first.len());
        assert(all.skip((front.len() + first.len()) as int) =~= second + rest);
        lemma_skip_one_more::<L>(
            all,
            (2 * (n - 1) + 1) as nat,
            front.len() + first.len(),
            second.len(),
        );
    }
}

} // verus!
