//! The framing of a whole document around its one specification object.
use vstd::prelude::*;

use crate::error::{DecodeError, ErrorModel};
use crate::event::{event_at, Event, EventCursor, EventStream, StreamModel};
use crate::read::{event_object_start, keys_unique, object_start};
use crate::specification::{
    decode_specification, default_model, none_seen, specification_fields, Specification,
    SpecificationModel,
};

verus! {

/// What a whole event stream decodes to: the stream's start, one document
/// whose root is a mapping tagged as a specification, the document's end, the
/// stream's end, and nothing after it. A stream that ends early reports that;
/// any other deviation is a malformed document.
pub open spec fn document_spec(s: StreamModel) -> Result<SpecificationModel, ErrorModel> {
    match event_at(s, 0) {
        Err(e) => Err(e),
        Ok(e0) => if !(e0 is StreamStart) {
            Err(ErrorModel::MalformedDocument)
        } else {
            match event_at(s, 1) {
                Err(e) => Err(e),
                Ok(e1) => if !(e1 is DocumentStart) {
                    Err(ErrorModel::MalformedDocument)
                } else {
                    match event_at(s, 2) {
                        Err(e) => Err(e),
                        Ok(e2) => if !(object_start(Ok(e2), "Gem::Specification"@) is Ok) {
                            Err(ErrorModel::MalformedDocument)
                        } else {
                            match specification_fields(s, 3, default_model(), none_seen()) {
                                Err(e) => Err(e),
                                Ok((spec, p)) => trailer_spec(s, p, spec),
                            }
                        },
                    }
                },
            }
        },
    }
}

/// The end of a document and of its stream, from `p` on, after `spec`.
pub open spec fn trailer_spec(s: StreamModel, p: int, spec: SpecificationModel) -> Result<
    SpecificationModel,
    ErrorModel,
> {
    match event_at(s, p) {
        Err(e) => Err(e),
        Ok(a) => if !(a is DocumentEnd) {
            Err(ErrorModel::MalformedDocument)
        } else {
            match event_at(s, p + 1) {
                Err(e) => Err(e),
                Ok(b) => if !(b is StreamEnd) {
                    Err(ErrorModel::MalformedDocument)
                } else {
                    match event_at(s, p + 2) {
                        Ok(_) => Err(ErrorModel::MalformedDocument),
                        Err(e) => if e is UnexpectedEndOfStream {
                            Ok(spec)
                        } else {
                            Err(e)
                        },
                    }
                },
            }
        },
    }
}

/// Decodes the one specification that an event stream holds.
pub fn decode_document(stream: &EventStream) -> (r: Result<Specification, DecodeError>)
    ensures
        match document_spec(stream@) {
            Ok(m) => r matches Ok(x) && x@ == m && keys_unique(m.metadata),
            Err(e) => r matches Err(x) && x@ == e,
        },
{
    let mut c = EventCursor::new(stream);
    match c.next() {
        Err(e) => return Err(e),
        Ok(Event::StreamStart) => {},
        Ok(_) => return Err(DecodeError::MalformedDocument),
    }
    match c.next() {
        Err(e) => return Err(e),
        Ok(Event::DocumentStart) => {},
        Ok(_) => return Err(DecodeError::MalformedDocument),
    }
    match c.next() {
        Err(e) => return Err(e),
        Ok(ev) => match event_object_start(ev, "Gem::Specification") {
            Ok(_) => {},
            Err(_) => return Err(DecodeError::MalformedDocument),
        },
    }
    let spec = match decode_specification(&mut c) {
        Err(e) => return Err(e),
        Ok(spec) => spec,
    };
    match c.next() {
        Err(e) => return Err(e),
        Ok(Event::DocumentEnd) => {},
        Ok(_) => return Err(DecodeError::MalformedDocument),
    }
    match c.next() {
        Err(e) => return Err(e),
        Ok(Event::StreamEnd) => {},
        Ok(_) => return Err(DecodeError::MalformedDocument),
    }
    match c.next() {
        Ok(_) => Err(DecodeError::MalformedDocument),
        Err(DecodeError::UnexpectedEndOfStream) => Ok(spec),
        Err(e) => Err(e),
    }
}

} // verus!
