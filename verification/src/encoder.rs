//! The frame that one attribute read is answered in.
//!
//! A read begins with the encoder, which compares the data version the
//! requester already holds with the current one. Where they differ it opens a
//! frame and hands out a writer for the attribute's value; completing the
//! writer closes the frame. A frame that is not completed leaves no trace:
//! the output is taken back to where the frame began.

use crate::error::Error;
use crate::tlv::{wrote, TLVWriter, TagType, TlvElement};
use vstd::prelude::*;

verus! {

/// The context tag of the data version inside a frame.
pub const DATA_VER_TAG: u8 = 0;

/// The context tag of the attribute's value inside a frame.
pub const DATA_TAG: u8 = 2;

/// What opens a frame bound to the data version `dataver`.
pub open spec fn frame_header(dataver: u32) -> Seq<TlvElement> {
    seq![
        TlvElement::StructStart(TagType::Anonymous),
        TlvElement::U32(TagType::Context(DATA_VER_TAG), dataver),
    ]
}

/// What closes a frame.
pub open spec fn frame_trailer() -> Seq<TlvElement> {
    seq![TlvElement::EndContainer]
}

/// The output `out` taken back to position `anchor`.
pub open spec fn rewound(out: Seq<TlvElement>, anchor: nat) -> Seq<TlvElement> {
    if anchor <= out.len() {
        out.take(anchor as int)
    } else {
        out
    }
}

/// How a frame ends once its value is decided. `before` is the writer after
/// the header, `anchor` the position at which the frame began, `value` the
/// elements of the attribute's value or the error that stands in their place.
/// The frame is completed, with `Ok`, exactly where there is a value and it
/// fits together with the trailer; otherwise the error is returned (that of
/// `value`, else `NoSpace`) and the output is rewound to `anchor`.
pub open spec fn frame_ends(
    before: TLVWriter,
    anchor: nat,
    value: Result<Seq<TlvElement>, Error>,
    r: Result<(), Error>,
    after: TLVWriter,
) -> bool {
    &&& after.spec_capacity() == before.spec_capacity()
    &&& match value {
        Ok(elements) => if before.fits(elements + frame_trailer()) {
            r == Ok::<(), Error>(()) && after@ == before@ + elements + frame_trailer()
        } else {
            r == Err::<(), Error>(Error::NoSpace) && after@ == rewound(before@, anchor)
        },
        Err(e) => r == Err::<(), Error>(e) && after@ == rewound(before@, anchor),
    }
}

/// What a whole read that is not skipped does to the output. `before` is the
/// writer as the read found it, `dataver` the data version the frame is bound
/// to, `value` the elements of the attribute's value or the error that stands
/// in their place.
///
/// The read succeeds exactly where there is a value and header, value and
/// trailer fit; the output then grows by these three. Otherwise the output is
/// as it was, and the error is `NoSpace` where the header or the frame did
/// not fit, else that of `value`.
pub open spec fn frame_written(
    before: TLVWriter,
    dataver: u32,
    value: Result<Seq<TlvElement>, Error>,
    r: Result<(), Error>,
    after: TLVWriter,
) -> bool {
    &&& after.spec_capacity() == before.spec_capacity()
    &&& match value {
        Ok(elements) => if before.fits(frame_header(dataver) + elements + frame_trailer()) {
            r == Ok::<(), Error>(()) && after@ == before@ + frame_header(dataver) + elements
                + frame_trailer()
        } else {
            r == Err::<(), Error>(Error::NoSpace) && after@ == before@
        },
        Err(e) => if before.fits(frame_header(dataver)) {
            r == Err::<(), Error>(e) && after@ == before@
        } else {
            r == Err::<(), Error>(Error::NoSpace) && after@ == before@
        },
    }
}

/// A value that was attempted inside a frame, and the frame then closed or
/// given up by [`AttrDataWriter::finish`], ends the frame as `frame_ends`
/// says of that value.
pub proof fn lemma_value_finished(
    before: TLVWriter,
    anchor: nat,
    elements: Seq<TlvElement>,
    written: Result<(), Error>,
    between: TLVWriter,
    r: Result<(), Error>,
    after: TLVWriter,
)
    requires
        anchor <= before@.len(),
        wrote(before, elements, written, between),
        finished(between, anchor, written, r, after),
    ensures
        frame_ends(before, anchor, Ok(elements), r, after),
{
    assert(between@.take(anchor as int) == before@.take(anchor as int));
    if written is Ok {
    }
}

/// A frame that ended after its header was written is a whole read.
pub proof fn lemma_frame_written(
    before: TLVWriter,
    dataver: u32,
    between: TLVWriter,
    value: Result<Seq<TlvElement>, Error>,
    r: Result<(), Error>,
    after: TLVWriter,
)
    requires
        before.fits(frame_header(dataver)),
        between@ == before@ + frame_header(dataver),
        between.spec_capacity() == before.spec_capacity(),
        frame_ends(between, before@.len(), value, r, after),
    ensures
        frame_written(before, dataver, value, r, after),
{
    assert(between@.take(before@.len() as int) == before@);
    if let Ok(elements) = value {
    }
}

/// How [`AttrDataWriter::finish`] ends a frame after an attempt to write its
/// value came back with `written`: after a success the frame is closed, or
/// given up with `NoSpace` where the trailer does not fit; after an error the
/// frame is given up and the error handed on.
pub open spec fn finished(
    before: TLVWriter,
    anchor: nat,
    written: Result<(), Error>,
    r: Result<(), Error>,
    after: TLVWriter,
) -> bool {
    match written {
        Ok(_) => frame_ends(before, anchor, Ok(Seq::<TlvElement>::empty()), r, after),
        Err(e) => {
            &&& r == written
            &&& after@ == rewound(before@, anchor)
            &&& after.spec_capacity() == before.spec_capacity()
        },
    }
}

/// Decides whether a read is answered at all.
pub struct AttrDataEncoder<'a> {
    /// The data version that the requester already holds, if it named one.
    pub dataver_filter: Option<u32>,
    /// Where the answer is written.
    pub tw: &'a mut TLVWriter,
}

/// Writes the value of one attribute into an open frame.
pub struct AttrDataWriter<'a> {
    /// Where the value is written.
    pub tw: &'a mut TLVWriter,
    /// The position in the output at which the frame began.
    pub anchor: usize,
}

impl<'a> AttrDataEncoder<'a> {
    /// An encoder that answers into `tw` unless the current data version
    /// equals `dataver_filter`.
    pub fn new(dataver_filter: Option<u32>, tw: &'a mut TLVWriter) -> (encoder: AttrDataEncoder<'a>)
        ensures
            encoder.dataver_filter == dataver_filter,
            *encoder.tw == *old(tw),
            *final(encoder.tw) == *final(tw),
    {
        AttrDataEncoder { dataver_filter, tw }
    }

    /// Whether a read at data version `dataver` is skipped.
    pub open spec fn skips(&self, dataver: u32) -> bool {
        self.dataver_filter == Some(dataver)
    }

    /// Begins the answer at data version `dataver`.
    ///
    /// Where the requester already holds that version nothing is written and
    /// there is no writer. Otherwise the frame header is written and the
    /// writer for the value is handed out, anchored where the frame began; if
    /// the header does not fit, the output is left as it was and the error is
    /// `NoSpace`.
    pub fn with_dataver(self, dataver: u32) -> (r: Result<Option<AttrDataWriter<'a>>, Error>)
        ensures
            self.skips(dataver) ==> r is Ok && r->Ok_0 is None
                && *final(self.tw) == *old(self.tw),
            !self.skips(dataver) && !old(self.tw).fits(frame_header(dataver))
                ==> r == Err::<Option<AttrDataWriter<'a>>, Error>(Error::NoSpace)
                && final(self.tw)@ == old(self.tw)@
                && final(self.tw).spec_capacity() == old(self.tw).spec_capacity(),
            !self.skips(dataver) && old(self.tw).fits(frame_header(dataver))
                ==> r is Ok && r->Ok_0 is Some
                && r->Ok_0->Some_0.anchor == old(self.tw)@.len()
                && r->Ok_0->Some_0.wf()
                && r->Ok_0->Some_0.tw@ == old(self.tw)@ + frame_header(dataver)
                && r->Ok_0->Some_0.tw.spec_capacity() == old(self.tw).spec_capacity()
                && *final(r->Ok_0->Some_0.tw) == *final(self.tw),
    {
        let skip = match self.dataver_filter {
            Some(held) => held == dataver,
            None => false,
        };
        if skip {
            return Ok(None);
        }
        let tw = self.tw;
        let ghost start = *tw;
        let anchor = tw.get_tail();
        match tw.start_struct(TagType::Anonymous) {
            Ok(()) => {},
            Err(e) => {
                return Err(e);
            },
        }
        match tw.u32(TagType::Context(DATA_VER_TAG), dataver) {
            Ok(()) => {},
            Err(e) => {
                tw.rewind_to(anchor);
                return Err(e);
            },
        }
        Ok(Some(AttrDataWriter { tw, anchor }))
    }
}

impl<'a> AttrDataWriter<'a> {
    /// The frame began at a position that the output has reached.
    pub open spec fn wf(&self) -> bool {
        self.anchor <= self.tw@.len()
    }

    /// The tag under which the attribute's value is written.
    pub fn tag() -> (tag: TagType)
        ensures
            tag == TagType::Context(DATA_TAG),
    {
        TagType::Context(DATA_TAG)
    }

    /// Gives the frame up: the output is taken back to where the frame began.
    pub fn reset(self)
        ensures
            final(self.tw).spec_capacity() == old(self.tw).spec_capacity(),
            final(self.tw)@ == rewound(old(self.tw)@, self.anchor as nat),
    {
        self.tw.rewind_to(self.anchor);
    }

    /// Closes the frame after its value was written. If the trailer does not
    /// fit, the frame is given up.
    pub fn complete(self) -> (r: Result<(), Error>)
        ensures
            frame_ends(
                *old(self.tw),
                self.anchor as nat,
                Ok(Seq::<TlvElement>::empty()),
                r,
                *final(self.tw),
            ),
    {
        let ghost before = *self.tw;
        match self.tw.end_container() {
            Ok(()) => Ok(()),
            Err(e) => {
                self.reset();
                Err(e)
            },
        }
    }

    /// Ends the frame after an attempt to write its value: closes it where the
    /// attempt succeeded, gives it up and hands the error on where it failed.
    pub fn finish(self, written: Result<(), Error>) -> (r: Result<(), Error>)
        ensures
            finished(*old(self.tw), self.anchor as nat, written, r, *final(self.tw)),
    {
        match written {
            Ok(()) => self.complete(),
            Err(e) => {
                self.reset();
                Err(e)
            },
        }
    }

    /// Writes `value` as the attribute's value and closes the frame.
    pub fn set(self, value: u32) -> (r: Result<(), Error>)
        requires
            self.wf(),
        ensures
            frame_ends(
                *old(self.tw),
                self.anchor as nat,
                Ok(seq![TlvElement::U32(TagType::Context(DATA_TAG), value)]),
                r,
                *final(self.tw),
            ),
    {
        let ghost before = *self.tw;
        let ghost element = seq![TlvElement::U32(TagType::Context(DATA_TAG), value)];
        let mut writer = self;
        let written = writer.tw.u32(TagType::Context(DATA_TAG), value);
        let ghost between = *writer.tw;
        let r = writer.finish(written);
        proof {
            lemma_value_finished(
                before,
                writer.anchor as nat,
                element,
                written,
                between,
                r,
                *final(writer.tw),
            );
        }
        r
    }
}

} // verus!
