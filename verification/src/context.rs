//! The context of a decoding: where in the value the decoder stands, and
//! the errors that were reported on the way.
//!
//! There are two of them: one that keeps every error with its place, and
//! one that discards everything.

use crate::error::{Cause, Error as ErrorOf, Message};
use vstd::prelude::*;

verus! {

/// A step from a value to a part of it.
#[derive(Debug, PartialEq, Eq)]
pub enum Step {
    /// Into a struct of the given name.
    Struct(&'static str),
    /// Into an enum of the given name.
    Enum(&'static str),
    /// Into a variant of the given name.
    Variant(&'static str),
    /// Into the field of the given name.
    Named(&'static str),
    /// Into the field of the given index.
    Unnamed(u32),
    /// Into the element of a sequence at the given index.
    Index(usize),
    /// Into what a map holds under the given key.
    Key(String),
}

/// An error together with the place where it was reported: the steps that
/// lead to the part of the value that was being decoded, and the bytes of
/// the input from the mark that was set to the mark where decoding stopped.
#[derive(Debug)]
pub struct Report<E> {
    /// The steps to the place.
    pub path: Vec<Step>,
    /// The mark where the part started.
    pub start: usize,
    /// The mark where decoding stopped.
    pub end: usize,
    /// The error.
    pub error: E,
}

/// What a context hands back for an error that it has recorded.
#[derive(Debug, Clone, Copy, PartialEq, Eq, Structural)]
pub struct Error;

/// Buffer used in combination with [`AllocContext`].
///
/// This can be safely re-used.
pub struct AllocBuf {
    string: String,
}

impl View for AllocBuf {
    type V = Seq<char>;

    closed spec fn view(&self) -> Seq<char> {
        self.string@
    }
}

impl Default for AllocBuf {
    #[inline]
    fn default() -> (r: Self)
        ensures
            r@ == Seq::<char>::empty(),
    {
        Self { string: String::new() }
    }
}

impl AllocBuf {
    /// De-allocate the underlying buffer, this can be useful if you're dealing
    /// with infrequent decodings which uses large keys and you don't want the
    /// memory to keep being reserved.
    pub fn free(&mut self)
        ensures
            final(self)@ == Seq::<char>::empty(),
    {
        self.string = String::new();
    }
}

/// A copy of a step.
fn copy_step(step: &Step) -> (r: Step)
    ensures
        r == *step,
{
    match step {
        Step::Struct(name) => Step::Struct(*name),
        Step::Enum(name) => Step::Enum(*name),
        Step::Variant(name) => Step::Variant(*name),
        Step::Named(name) => Step::Named(*name),
        Step::Unnamed(index) => Step::Unnamed(*index),
        Step::Index(index) => Step::Index(*index),
        Step::Key(text) => Step::Key(text.clone()),
    }
}

/// A copy of a path.
fn copy_path(path: &Vec<Step>) -> (r: Vec<Step>)
    ensures
        r@ == path@,
{
    let mut copy: Vec<Step> = Vec::new();
    let mut i: usize = 0;
    while i < path.len()
        invariant
            i <= path@.len(),
            copy@ == path@.take(i as int),
        decreases path@.len() - i,
    {
        copy.push(copy_step(&path[i]));
        i = i + 1;
        assert(copy@ == path@.take(i as int));
    }
    assert(path@.take(path@.len() as int) == path@);
    copy
}

/// A path without its last step, where it has one.
pub open spec fn left(path: Seq<Step>) -> Seq<Step> {
    if path.len() > 0 {
        path.drop_last()
    } else {
        path
    }
}

/// Whether `after` holds the reports of `before` and behind them one more,
/// of an error of the given cause at the given place.
pub open spec fn recorded<E: ErrorOf>(
    before: Seq<Report<E>>,
    after: Seq<Report<E>>,
    path: Seq<Step>,
    start: usize,
    end: usize,
    cause: Cause,
) -> bool {
    &&& after.len() == before.len() + 1
    &&& after.take(before.len() as int) == before
    &&& after.last().path@ == path
    &&& after.last().start == start
    &&& after.last().end == end
    &&& after.last().error.cause() == cause
}

/// A rich context which uses allocations and tracks the exact location of every
/// error.
pub struct AllocContext<'buf, E> {
    /// How far into the input the decoder is.
    pub mark: usize,
    /// Where the context keeps a string for the decoder.
    pub buf: &'buf mut AllocBuf,
    /// The errors that were reported, each with its place.
    pub errors: Vec<Report<E>>,
    /// The steps to where the decoder stands.
    pub path: Vec<Step>,
    /// Whether the steps into structs and enums are kept.
    pub include_type: bool,
}

impl<'buf, E: ErrorOf> AllocContext<'buf, E> {
    /// Construct a new context which uses allocations to store arbitrary
    /// amounts of diagnostics about decoding.
    ///
    /// Or at least until we run out of memory.
    pub fn new(buf: &'buf mut AllocBuf) -> (cx: Self)
        ensures
            cx.mark == 0,
            cx.errors@.len() == 0,
            cx.path@.len() == 0,
            !cx.include_type,
            *cx.buf == *old(buf),
            *final(cx.buf) == *final(buf),
    {
        Self { mark: 0, buf, errors: Vec::new(), path: Vec::new(), include_type: false }
    }

    /// Configure the context to visualize type information, and not just
    /// variant and fields.
    pub fn include_type(&mut self)
        ensures
            final(self).include_type,
            final(self).mark == old(self).mark,
            final(self).errors == old(self).errors,
            final(self).path == old(self).path,
            final(self).buf == old(self).buf,
    {
        self.include_type = true;
    }

    /// All collected errors, in the order in which they were reported.
    pub fn iter(&self) -> (r: &[Report<E>])
        ensures
            r@ == self.errors@,
    {
        self.errors.as_slice()
    }

    /// Record an error at the place where the decoder stands.
    fn record(&mut self, start: usize, error: E)
        ensures
            recorded(
                old(self).errors@,
                final(self).errors@,
                old(self).path@,
                start,
                old(self).mark,
                error.cause(),
            ),
            final(self).errors@.last().error == error,
            final(self).mark == old(self).mark,
            final(self).path == old(self).path,
            final(self).include_type == old(self).include_type,
            final(self).buf == old(self).buf,
    {
        let path = copy_path(&self.path);
        let end = self.mark;
        self.errors.push(Report { path, start, end, error });
        assert(self.errors@.take(old(self).errors@.len() as int) == old(self).errors@);
    }

    /// Report the given error at the current mark.
    #[inline]
    pub fn report(&mut self, error: E) -> (r: Error)
        ensures
            recorded(
                old(self).errors@,
                final(self).errors@,
                old(self).path@,
                old(self).mark,
                old(self).mark,
                error.cause(),
            ),
            final(self).errors@.last().error == error,
            final(self).mark == old(self).mark,
            final(self).path == old(self).path,
            final(self).include_type == old(self).include_type,
            final(self).buf == old(self).buf,
    {
        let start = self.mark;
        self.record(start, error);
        Error
    }

    /// Report the given error for the bytes from the given mark to the
    /// current one.
    #[inline]
    pub fn marked_report(&mut self, mark: usize, error: E) -> (r: Error)
        ensures
            recorded(
                old(self).errors@,
                final(self).errors@,
                old(self).path@,
                mark,
                old(self).mark,
                error.cause(),
            ),
            final(self).errors@.last().error == error,
            final(self).mark == old(self).mark,
            final(self).path == old(self).path,
            final(self).include_type == old(self).include_type,
            final(self).buf == old(self).buf,
    {
        self.record(mark, error);
        Error
    }

    /// Report an error with a text of the caller at the current mark.
    #[inline]
    pub fn custom(&mut self, text: &str) -> (r: Error)
        ensures
            recorded(
                old(self).errors@,
                final(self).errors@,
                old(self).path@,
                old(self).mark,
                old(self).mark,
                Cause::Custom(text@),
            ),
            final(self).mark == old(self).mark,
            final(self).path == old(self).path,
            final(self).include_type == old(self).include_type,
            final(self).buf == old(self).buf,
    {
        let start = self.mark;
        self.record(start, E::custom(text));
        Error
    }

    /// Report a failure of the library at the current mark.
    #[inline]
    pub fn message(&mut self, message: Message) -> (r: Error)
        ensures
            recorded(
                old(self).errors@,
                final(self).errors@,
                old(self).path@,
                old(self).mark,
                old(self).mark,
                Cause::Message(message),
            ),
            final(self).mark == old(self).mark,
            final(self).path == old(self).path,
            final(self).include_type == old(self).include_type,
            final(self).buf == old(self).buf,
    {
        let start = self.mark;
        self.record(start, E::message(message));
        Error
    }

    /// Report a failure of the library for the bytes from the given mark to
    /// the current one.
    #[inline]
    pub fn marked_message(&mut self, mark: usize, message: Message) -> (r: Error)
        ensures
            recorded(
                old(self).errors@,
                final(self).errors@,
                old(self).path@,
                mark,
                old(self).mark,
                Cause::Message(message),
            ),
            final(self).mark == old(self).mark,
            final(self).path == old(self).path,
            final(self).include_type == old(self).include_type,
            final(self).buf == old(self).buf,
    {
        self.record(mark, E::message(message));
        Error
    }

    /// The current mark: how far into the input the decoder is.
    #[inline]
    pub fn mark(&self) -> (mark: usize)
        ensures
            mark == self.mark,
    {
        self.mark
    }

    /// Move the mark forward by `n` bytes. Past the largest number the mark
    /// starts again from zero.
    #[inline]
    pub fn advance(&mut self, n: usize)
        ensures
            final(self).mark as int == (if old(self).mark + n > usize::MAX {
                old(self).mark + n - usize::MAX - 1
            } else {
                old(self).mark + n
            }),
            final(self).errors == old(self).errors,
            final(self).path == old(self).path,
            final(self).include_type == old(self).include_type,
            final(self).buf == old(self).buf,
    {
        self.mark = self.mark.wrapping_add(n);
    }

    /// Keep a copy of the given string, in place of the one kept before.
    #[inline]
    pub fn store_string(&mut self, s: &str)
        ensures
            final(self).buf@ == s@,
            final(self).mark == old(self).mark,
            final(self).errors == old(self).errors,
            final(self).path == old(self).path,
            final(self).include_type == old(self).include_type,
    {
        self.buf.string = s.to_owned();
    }

    /// The string that was kept last.
    #[inline]
    pub fn get_string(&self) -> (r: Option<&str>)
        ensures
            r matches Some(s) && s@ == old(self.buf)@,
    {
        Some(self.buf.string.as_str())
    }

    /// Step into the field of the given name.
    #[inline]
    pub fn enter_named_field(&mut self, name: &'static str)
        ensures
            final(self).path@ == old(self).path@.push(Step::Named(name)),
            final(self).mark == old(self).mark,
            final(self).errors == old(self).errors,
            final(self).include_type == old(self).include_type,
            final(self).buf == old(self).buf,
    {
        self.path.push(Step::Named(name));
    }

    /// Step into the field of the given index.
    #[inline]
    pub fn enter_unnamed_field(&mut self, index: u32)
        ensures
            final(self).path@ == old(self).path@.push(Step::Unnamed(index)),
            final(self).mark == old(self).mark,
            final(self).errors == old(self).errors,
            final(self).include_type == old(self).include_type,
            final(self).buf == old(self).buf,
    {
        self.path.push(Step::Unnamed(index));
    }

    /// Step back out of a field.
    #[inline]
    pub fn leave_field(&mut self)
        ensures
            final(self).path@ == left(old(self).path@),
            final(self).mark == old(self).mark,
            final(self).errors == old(self).errors,
            final(self).include_type == old(self).include_type,
            final(self).buf == old(self).buf,
    {
        self.path.pop();
    }

    /// Step into a struct of the given name, where the context keeps such steps.
    #[inline]
    pub fn enter_struct(&mut self, name: &'static str)
        ensures
            old(self).include_type ==> final(self).path@ == old(self).path@.push(Step::Struct(name)),
            !old(self).include_type ==> final(self).path@ == old(self).path@,
            final(self).mark == old(self).mark,
            final(self).errors == old(self).errors,
            final(self).include_type == old(self).include_type,
            final(self).buf == old(self).buf,
    {
        if self.include_type {
            self.path.push(Step::Struct(name));
        }
    }

    /// Step back out of a struct, where the context keeps such steps.
    #[inline]
    pub fn leave_struct(&mut self)
        ensures
            old(self).include_type ==> final(self).path@ == left(old(self).path@),
            !old(self).include_type ==> final(self).path@ == old(self).path@,
            final(self).mark == old(self).mark,
            final(self).errors == old(self).errors,
            final(self).include_type == old(self).include_type,
            final(self).buf == old(self).buf,
    {
        if self.include_type {
            self.path.pop();
        }
    }

    /// Step into an enum of the given name, where the context keeps such steps.
    #[inline]
    pub fn enter_enum(&mut self, name: &'static str)
        ensures
            old(self).include_type ==> final(self).path@ == old(self).path@.push(Step::Enum(name)),
            !old(self).include_type ==> final(self).path@ == old(self).path@,
            final(self).mark == old(self).mark,
            final(self).errors == old(self).errors,
            final(self).include_type == old(self).include_type,
            final(self).buf == old(self).buf,
    {
        if self.include_type {
            self.path.push(Step::Enum(name));
        }
    }

    /// Step back out of an enum, where the context keeps such steps.
    #[inline]
    pub fn leave_enum(&mut self)
        ensures
            old(self).include_type ==> final(self).path@ == left(old(self).path@),
            !old(self).include_type ==> final(self).path@ == old(self).path@,
            final(self).mark == old(self).mark,
            final(self).errors == old(self).errors,
            final(self).include_type == old(self).include_type,
            final(self).buf == old(self).buf,
    {
        if self.include_type {
            self.path.pop();
        }
    }

    /// Step into the variant of the given name.
    #[inline]
    pub fn enter_variant(&mut self, name: &'static str)
        ensures
            final(self).path@ == old(self).path@.push(Step::Variant(name)),
            final(self).mark == old(self).mark,
            final(self).errors == old(self).errors,
            final(self).include_type == old(self).include_type,
            final(self).buf == old(self).buf,
    {
        self.path.push(Step::Variant(name));
    }

    /// Step back out of a variant.
    #[inline]
    pub fn leave_variant(&mut self)
        ensures
            final(self).path@ == left(old(self).path@),
            final(self).mark == old(self).mark,
            final(self).errors == old(self).errors,
            final(self).include_type == old(self).include_type,
            final(self).buf == old(self).buf,
    {
        self.path.pop();
    }

    /// Step into the element of a sequence at the given index.
    #[inline]
    pub fn enter_sequence_index(&mut self, index: usize)
        ensures
            final(self).path@ == old(self).path@.push(Step::Index(index)),
            final(self).mark == old(self).mark,
            final(self).errors == old(self).errors,
            final(self).include_type == old(self).include_type,
            final(self).buf == old(self).buf,
    {
        self.path.push(Step::Index(index));
    }

    /// Step back out of an element of a sequence.
    #[inline]
    pub fn leave_sequence_index(&mut self)
        ensures
            final(self).path@ == left(old(self).path@),
            final(self).mark == old(self).mark,
            final(self).errors == old(self).errors,
            final(self).include_type == old(self).include_type,
            final(self).buf == old(self).buf,
    {
        self.path.pop();
    }

    /// Step into what a map holds under the given key.
    #[inline]
    pub fn enter_map_key(&mut self, field: &str)
        ensures
            final(self).path@.len() == old(self).path@.len() + 1,
            final(self).path@.drop_last() == old(self).path@,
            final(self).path@.last() matches Step::Key(key) && key@ == field@,
            final(self).mark == old(self).mark,
            final(self).errors == old(self).errors,
            final(self).include_type == old(self).include_type,
            final(self).buf == old(self).buf,
    {
        self.path.push(Step::Key(field.to_owned()));
        assert(self.path@.drop_last() == old(self).path@);
    }

    /// Step back out of what a map holds under a key.
    #[inline]
    pub fn leave_map_key(&mut self)
        ensures
            final(self).path@ == left(old(self).path@),
            final(self).mark == old(self).mark,
            final(self).errors == old(self).errors,
            final(self).include_type == old(self).include_type,
            final(self).buf == old(self).buf,
    {
        self.path.pop();
    }
}

/// A context which discards everything: it keeps no error, no mark and no
/// step.
#[derive(Debug, Clone, Copy, PartialEq, Eq, Default)]
pub struct Ignore;

impl Ignore {
    /// Construct a new context which discards everything.
    #[inline]
    pub fn new() -> Self {
        Ignore
    }

    /// Discard the given error.
    #[inline]
    pub fn report<E>(&mut self, _error: E) -> (r: Error) {
        Error
    }

    /// Discard an error with a text of the caller.
    #[inline]
    pub fn custom(&mut self, _text: &str) -> (r: Error) {
        Error
    }

    /// Discard a failure of the library.
    #[inline]
    pub fn message(&mut self, _message: Message) -> (r: Error) {
        Error
    }

    /// The mark of a context that keeps none: zero.
    #[inline]
    pub fn mark(&self) -> (mark: usize)
        ensures
            mark == 0,
    {
        0
    }

    /// Move no mark.
    #[inline]
    pub fn advance(&mut self, _n: usize) {
    }

    /// Keep no string.
    #[inline]
    pub fn store_string(&mut self, _s: &str) {
    }

    /// The string of a context that keeps none: nothing.
    #[inline]
    pub fn get_string(&self) -> (r: Option<&str>)
        ensures
            r is None,
    {
        None
    }
}

} // verus!
