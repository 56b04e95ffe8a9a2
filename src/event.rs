//! The events a tokenizer hands over, and the cursor the decoders pull them through.
use vstd::prelude::*;

use crate::error::{DecodeError, ErrorModel};

verus! {

/// How a scalar was written in the source text.
#[derive(Debug, Clone, Copy, PartialEq, Eq, Structural)]
pub enum ScalarStyle {
    Plain,
    SingleQuoted,
    DoubleQuoted,
    Literal,
    Folded,
}

/// A type tag on a node: its handle (such as `!`) and its suffix.
#[derive(Debug, PartialEq, Eq)]
pub struct Tag {
    pub handle: String,
    pub suffix: String,
}

/// One event of the stream.
#[derive(Debug, PartialEq, Eq)]
pub enum Event {
    StreamStart,
    StreamEnd,
    DocumentStart,
    DocumentEnd,
    MappingStart(Option<Tag>),
    MappingEnd,
    SequenceStart(Option<Tag>),
    SequenceEnd,
    Scalar(String, ScalarStyle, Option<Tag>),
}

/// The mathematical value of a [`Tag`].
pub struct TagModel {
    pub handle: Seq<char>,
    pub suffix: Seq<char>,
}

/// The mathematical value of an [`Event`].
pub enum EventModel {
    StreamStart,
    StreamEnd,
    DocumentStart,
    DocumentEnd,
    MappingStart(Option<TagModel>),
    MappingEnd,
    SequenceStart(Option<TagModel>),
    SequenceEnd,
    Scalar(Seq<char>, ScalarStyle, Option<TagModel>),
}

pub open spec fn tag_view(t: Option<Tag>) -> Option<TagModel> {
    match t {
        Some(t) => Some(TagModel { handle: t.handle@, suffix: t.suffix@ }),
        None => None,
    }
}

impl View for Event {
    type V = EventModel;

    open spec fn view(&self) -> EventModel {
        match self {
            Event::StreamStart => EventModel::StreamStart,
            Event::StreamEnd => EventModel::StreamEnd,
            Event::DocumentStart => EventModel::DocumentStart,
            Event::DocumentEnd => EventModel::DocumentEnd,
            Event::MappingStart(t) => EventModel::MappingStart(tag_view(*t)),
            Event::MappingEnd => EventModel::MappingEnd,
            Event::SequenceStart(t) => EventModel::SequenceStart(tag_view(*t)),
            Event::SequenceEnd => EventModel::SequenceEnd,
            Event::Scalar(v, s, t) => EventModel::Scalar(v@, *s, tag_view(*t)),
        }
    }
}

/// What a tokenizer produced from one text: the events up to where it stopped,
/// and its message if it stopped on an error rather than at the end of the text.
#[derive(Debug, PartialEq, Eq)]
pub struct EventStream {
    pub events: Vec<Event>,
    pub failure: Option<String>,
}

/// The mathematical value of an [`EventStream`].
pub struct StreamModel {
    pub events: Seq<EventModel>,
    pub failure: Option<Seq<char>>,
}

impl View for EventStream {
    type V = StreamModel;

    open spec fn view(&self) -> StreamModel {
        StreamModel {
            events: self.events@.map_values(|e: Event| e@),
            failure: match self.failure {
                Some(m) => Some(m@),
                None => None,
            },
        }
    }
}

/// The event at `pos`, or the error that pulling it meets: the tokenizer's own
/// failure where it stopped on one, else the end of the stream.
pub open spec fn event_at(s: StreamModel, pos: int) -> Result<EventModel, ErrorModel> {
    if 0 <= pos < s.events.len() {
        Ok(s.events[pos])
    } else {
        match s.failure {
            Some(m) => Err(ErrorModel::UnderlyingParseError { message: m }),
            None => Err(ErrorModel::UnexpectedEndOfStream),
        }
    }
}

/// A read position in an event stream.
pub struct EventCursor<'a> {
    pub stream: &'a EventStream,
    pub pos: usize,
}

impl<'a> EventCursor<'a> {
    pub open spec fn model(&self) -> StreamModel {
        self.stream@
    }

    /// A cursor before the first event of `stream`.
    pub fn new(stream: &'a EventStream) -> (r: Self)
        ensures
            r.stream == stream,
            r.pos == 0,
    {
        EventCursor { stream, pos: 0 }
    }

    /// Pulls the next event; at the end of the stream the position stays.
    pub fn next(&mut self) -> (r: Result<&'a Event, DecodeError>)
        ensures
            final(self).stream == old(self).stream,
            match event_at(old(self).model(), old(self).pos as int) {
                Ok(m) => r matches Ok(e) && e@ == m && final(self).pos == old(self).pos + 1,
                Err(x) => r matches Err(e) && e@ == x && final(self).pos == old(self).pos,
            },
    {
        let stream: &'a EventStream = self.stream;
        if self.pos < stream.events.len() {
            let e: &'a Event = &stream.events[self.pos];
            self.pos = self.pos + 1;
            Ok(e)
        } else {
            match &stream.failure {
                Some(m) => Err(DecodeError::UnderlyingParseError { message: m.clone() }),
                None => Err(DecodeError::UnexpectedEndOfStream),
            }
        }
    }
}

} // verus!
