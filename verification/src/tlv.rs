//! A bounded sink of tagged elements.
//!
//! The writer keeps the elements it was handed, in order, and refuses an
//! element once it holds as many as its capacity allows. Its view is the
//! sequence of the elements it holds.

use crate::error::Error;
use vstd::prelude::*;

verus! {

/// The tag that an element is written under.
#[derive(Clone, Copy, Debug, PartialEq, Eq, Hash)]
pub enum TagType {
    /// No tag: an element of an array.
    Anonymous,
    /// A tag that names a field of the enclosing structure.
    Context(u8),
}

/// One element as it is handed to the writer.
#[derive(Clone, Copy, Debug, PartialEq, Eq, Hash)]
pub enum TlvElement {
    /// Opens a structure.
    StructStart(TagType),
    /// Opens an array.
    ArrayStart(TagType),
    /// An unsigned 16-bit value.
    U16(TagType, u16),
    /// An unsigned 32-bit value.
    U32(TagType, u32),
    /// Closes the innermost open structure or array.
    EndContainer,
}

/// A writer that holds at most `capacity` elements.
pub struct TLVWriter {
    buf: Vec<TlvElement>,
    capacity: usize,
}

impl View for TLVWriter {
    type V = Seq<TlvElement>;

    closed spec fn view(&self) -> Seq<TlvElement> {
        self.buf@
    }
}

/// The first `room` elements of `enc`, or all of `enc` where it is shorter.
pub open spec fn fitting(enc: Seq<TlvElement>, room: nat) -> Seq<TlvElement> {
    if enc.len() <= room {
        enc
    } else {
        enc.take(room as int)
    }
}

/// What one attempt to write does: `after` and `r` are the writer and the
/// result once the elements of `enc` were handed to `before` one by one, up to
/// the first that it refused. The attempt succeeds exactly where all of `enc`
/// fits; the only error is `NoSpace`; the capacity stays.
pub open spec fn wrote(
    before: TLVWriter,
    enc: Seq<TlvElement>,
    r: Result<(), Error>,
    after: TLVWriter,
) -> bool {
    &&& after.spec_capacity() == before.spec_capacity()
    &&& after@ == before.written(enc)
    &&& (r is Ok <==> before.fits(enc))
    &&& (r is Err ==> r == Err::<(), Error>(Error::NoSpace))
}

impl TLVWriter {
    /// The number of elements beyond which the writer refuses to grow.
    pub closed spec fn spec_capacity(&self) -> nat {
        self.capacity as nat
    }

    /// How many more elements the writer accepts.
    pub open spec fn room(&self) -> nat {
        if self@.len() <= self.spec_capacity() {
            (self.spec_capacity() - self@.len()) as nat
        } else {
            0
        }
    }

    /// Whether all of `enc` can still be written.
    pub open spec fn fits(&self, enc: Seq<TlvElement>) -> bool {
        enc.len() <= self.room()
    }

    /// What the writer holds after the elements of `enc` were handed to it one
    /// by one, up to the first that it refused.
    pub open spec fn written(&self, enc: Seq<TlvElement>) -> Seq<TlvElement> {
        self@ + fitting(enc, self.room())
    }

    /// An empty writer with room for `capacity` elements.
    pub fn new(capacity: usize) -> (tw: TLVWriter)
        ensures
            tw@ == Seq::<TlvElement>::empty(),
            tw.spec_capacity() == capacity,
    {
        TLVWriter { buf: Vec::new(), capacity }
    }

    /// The capacity the writer was made with.
    pub fn capacity(&self) -> (c: usize)
        ensures
            c == self.spec_capacity(),
    {
        self.capacity
    }

    /// The number of elements written so far.
    pub fn get_tail(&self) -> (tail: usize)
        ensures
            tail == self@.len(),
    {
        self.buf.len()
    }

    /// The elements written so far, oldest first.
    pub fn elements(&self) -> (elements: &[TlvElement])
        ensures
            elements@ == self@,
    {
        self.buf.as_slice()
    }

    /// Drops every element from position `anchor` on. A position beyond the
    /// tail leaves the writer as it is.
    pub fn rewind_to(&mut self, anchor: usize)
        ensures
            final(self).spec_capacity() == old(self).spec_capacity(),
            anchor <= old(self)@.len() ==> final(self)@ == old(self)@.take(anchor as int),
            anchor > old(self)@.len() ==> final(self)@ == old(self)@,
    {
        self.buf.truncate(anchor);
    }

    /// Appends one element, or refuses it where the writer is full.
    fn put(&mut self, element: TlvElement) -> (r: Result<(), Error>)
        ensures
            wrote(*old(self), seq![element], r, *final(self)),
    {
        if self.buf.len() < self.capacity {
            self.buf.push(element);
            assert(self.buf@ == old(self).buf@ + seq![element]);
            Ok(())
        } else {
            Err(Error::NoSpace)
        }
    }

    /// Opens a structure under `tag`.
    pub fn start_struct(&mut self, tag: TagType) -> (r: Result<(), Error>)
        ensures
            wrote(*old(self), seq![TlvElement::StructStart(tag)], r, *final(self)),
    {
        self.put(TlvElement::StructStart(tag))
    }

    /// Opens an array under `tag`.
    pub fn start_array(&mut self, tag: TagType) -> (r: Result<(), Error>)
        ensures
            wrote(*old(self), seq![TlvElement::ArrayStart(tag)], r, *final(self)),
    {
        self.put(TlvElement::ArrayStart(tag))
    }

    /// Writes an unsigned 16-bit value under `tag`.
    pub fn u16(&mut self, tag: TagType, value: u16) -> (r: Result<(), Error>)
        ensures
            wrote(*old(self), seq![TlvElement::U16(tag, value)], r, *final(self)),
    {
        self.put(TlvElement::U16(tag, value))
    }

    /// Writes an unsigned 32-bit value under `tag`.
    pub fn u32(&mut self, tag: TagType, value: u32) -> (r: Result<(), Error>)
        ensures
            wrote(*old(self), seq![TlvElement::U32(tag, value)], r, *final(self)),
    {
        self.put(TlvElement::U32(tag, value))
    }

    /// Closes the innermost open structure or array.
    pub fn end_container(&mut self) -> (r: Result<(), Error>)
        ensures
            wrote(*old(self), seq![TlvElement::EndContainer], r, *final(self)),
    {
        self.put(TlvElement::EndContainer)
    }
}

/// Writing `first` in full and then attempting `second` is attempting the two
/// in a row.
pub proof fn lemma_wrote_more(
    before: TLVWriter,
    first: Seq<TlvElement>,
    between: TLVWriter,
    second: Seq<TlvElement>,
    r: Result<(), Error>,
    after: TLVWriter,
)
    requires
        wrote(before, first, Ok(()), between),
        wrote(between, second, r, after),
    ensures
        wrote(before, first + second, r, after),
{
    let room = before.room();
    let left = between.room();
    if second.len() <= left {
        assert(after@ == before@ + (first + second));
    } else {
        assert(after@ == before@ + (first + second).take(room as int));
    }
}

/// An attempt that was refused part of the way is refused in the same state
/// whatever was to follow.
pub proof fn lemma_wrote_refused(
    before: TLVWriter,
    attempted: Seq<TlvElement>,
    r: Result<(), Error>,
    after: TLVWriter,
    whole: Seq<TlvElement>,
)
    requires
        wrote(before, attempted, r, after),
        r is Err,
        attempted.is_prefix_of(whole),
    ensures
        wrote(before, whole, r, after),
{
    let room = before.room();
    assert(attempted.take(room as int) == whole.take(room as int));
}

} // verus!
