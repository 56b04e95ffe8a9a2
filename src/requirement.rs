//! Version requirements: lists of operator and version pairs, and their decoder.
use vstd::prelude::*;
use vstd::string::*;

use crate::error::{Container, DecodeError, ErrorModel, ValueKind};
use crate::event::{event_at, Event, EventCursor, EventModel, StreamModel};
use crate::read::{event_kind, event_text, kind_of_event, object_start, read_object_start, read_text, text_of};
use crate::text::text_is;
use crate::version::{decode_version, lemma_version_fields_advance, version_fields, Version, VersionModel};

verus! {

/// The comparison of a requirement. A token outside the known set is kept as
/// `Unknown` rather than refused.
#[derive(Debug, Clone, Copy, PartialEq, Eq, Structural)]
pub enum RequirementOperator {
    Equal,
    GreaterThan,
    GreaterThanOrEqual,
    LessThan,
    LessThanOrEqual,
    NotEqual,
    Tilde,
    Unknown,
}

/// The operator that token `t` denotes.
pub open spec fn operator_of(t: Seq<char>) -> RequirementOperator {
    if t == "="@ {
        RequirementOperator::Equal
    } else if t == ">"@ {
        RequirementOperator::GreaterThan
    } else if t == ">="@ {
        RequirementOperator::GreaterThanOrEqual
    } else if t == "<"@ {
        RequirementOperator::LessThan
    } else if t == "<="@ {
        RequirementOperator::LessThanOrEqual
    } else if t == "!="@ {
        RequirementOperator::NotEqual
    } else if t == "~>"@ {
        RequirementOperator::Tilde
    } else {
        RequirementOperator::Unknown
    }
}

/// Reads an operator token.
pub fn operator_from(t: &str) -> (r: RequirementOperator)
    ensures
        r == operator_of(t@),
{
    if text_is(t, "=") {
        RequirementOperator::Equal
    } else if text_is(t, ">") {
        RequirementOperator::GreaterThan
    } else if text_is(t, ">=") {
        RequirementOperator::GreaterThanOrEqual
    } else if text_is(t, "<") {
        RequirementOperator::LessThan
    } else if text_is(t, "<=") {
        RequirementOperator::LessThanOrEqual
    } else if text_is(t, "!=") {
        RequirementOperator::NotEqual
    } else if text_is(t, "~>") {
        RequirementOperator::Tilde
    } else {
        RequirementOperator::Unknown
    }
}

/// A list of constraints on a version; an empty list leaves it unconstrained.
#[derive(Debug, PartialEq, Eq)]
pub struct Requirement {
    requirements: Vec<(RequirementOperator, Version)>,
}

/// The mathematical value of a [`Requirement`].
pub struct RequirementModel {
    pub requirements: Seq<(RequirementOperator, VersionModel)>,
}

pub open spec fn pairs_view(v: Seq<(RequirementOperator, Version)>) -> Seq<
    (RequirementOperator, VersionModel),
> {
    v.map_values(|p: (RequirementOperator, Version)| (p.0, p.1@))
}

pub open spec fn opt_pairs(o: Option<Vec<(RequirementOperator, Version)>>) -> Option<
    Seq<(RequirementOperator, VersionModel)>,
> {
    match o {
        Some(v) => Some(pairs_view(v@)),
        None => None,
    }
}

impl View for Requirement {
    type V = RequirementModel;

    closed spec fn view(&self) -> RequirementModel {
        RequirementModel { requirements: pairs_view(self.requirements@) }
    }
}

impl Requirement {
    pub fn new(requirements: Vec<(RequirementOperator, Version)>) -> (r: Self)
        ensures
            r@.requirements == pairs_view(requirements@),
    {
        Requirement { requirements }
    }

    pub fn requirements(&self) -> (r: &[(RequirementOperator, Version)])
        ensures
            pairs_view(r@) == self@.requirements,
    {
        self.requirements.as_slice()
    }
}

/// One `[operator, version]` pair whose opening has been pulled, through its end.
pub open spec fn pair_spec(s: StreamModel, p: int) -> Result<
    ((RequirementOperator, VersionModel), int),
    ErrorModel,
> {
    match text_of(event_at(s, p)) {
        Err(e) => Err(e),
        Ok(t) => match object_start(event_at(s, p + 1), "Gem::Version"@) {
            Err(e) => Err(e),
            Ok(_) => match version_fields(s, p + 2, None) {
                Err(e) => Err(e),
                Ok((v, q)) => match event_at(s, q) {
                    Err(e) => Err(e),
                    Ok(ev) => if ev is SequenceEnd {
                        Ok(((operator_of(t), v), q + 1))
                    } else {
                        Err(ErrorModel::MalformedDocument)
                    },
                },
            },
        },
    }
}

pub proof fn lemma_pair_advance(s: StreamModel, p: int)
    ensures
        pair_spec(s, p) matches Ok((_, q)) ==> p < q <= s.events.len(),
{
    lemma_version_fields_advance(s, p + 2, None);
}

/// The pairs of a sequence whose opening has been pulled, `acc` holding those
/// read so far.
pub open spec fn pair_items(
    s: StreamModel,
    p: int,
    acc: Seq<(RequirementOperator, VersionModel)>,
) -> Result<(Seq<(RequirementOperator, VersionModel)>, int), ErrorModel>
    decreases s.events.len() - p,
{
    match event_at(s, p) {
        Err(e) => Err(e),
        Ok(ev) => if ev is SequenceEnd {
            Ok((acc, p + 1))
        } else if ev == EventModel::SequenceStart(None) {
            match pair_spec(s, p + 1) {
                Err(e) => Err(e),
                Ok((pr, q)) => {
                    proof {
                        lemma_pair_advance(s, p + 1);
                    }
                    pair_items(s, q, acc.push(pr))
                },
            }
        } else {
            Err(ErrorModel::ScalarCoercionError { expected: ValueKind::Sequence, got: event_kind(ev) })
        },
    }
}

pub proof fn lemma_pair_items_advance(
    s: StreamModel,
    p: int,
    acc: Seq<(RequirementOperator, VersionModel)>,
)
    ensures
        pair_items(s, p, acc) matches Ok((_, q)) ==> p < q <= s.events.len(),
    decreases s.events.len() - p,
{
    if let Ok(ev) = event_at(s, p) {
        if ev == EventModel::SequenceStart(None) {
            lemma_pair_advance(s, p + 1);
            if let Ok((pr, q)) = pair_spec(s, p + 1) {
                lemma_pair_items_advance(s, q, acc.push(pr));
            }
        }
    }
}

/// A sequence of pairs, from its opening on.
pub open spec fn pair_list(s: StreamModel, p: int) -> Result<
    (Seq<(RequirementOperator, VersionModel)>, int),
    ErrorModel,
> {
    match event_at(s, p) {
        Err(e) => Err(e),
        Ok(ev) => if ev == EventModel::SequenceStart(None) {
            pair_items(s, p + 1, Seq::empty())
        } else {
            Err(ErrorModel::ScalarCoercionError { expected: ValueKind::Sequence, got: event_kind(ev) })
        },
    }
}

/// The fields of a requirement mapping from `pos` on, `acc` holding the pairs
/// of the `"requirements"` key once it has been seen. That key must appear
/// exactly once.
pub open spec fn requirement_fields(
    s: StreamModel,
    pos: int,
    acc: Option<Seq<(RequirementOperator, VersionModel)>>,
) -> Result<(RequirementModel, int), ErrorModel>
    decreases s.events.len() - pos,
{
    match event_at(s, pos) {
        Err(e) => Err(e),
        Ok(ev) => if ev is MappingEnd {
            match acc {
                Some(a) => Ok((RequirementModel { requirements: a }, pos + 1)),
                None => Err(
                    ErrorModel::MissingField { container: Container::Requirement, field: "requirements"@ },
                ),
            }
        } else {
            match text_of(Ok(ev)) {
                Err(e) => Err(e),
                Ok(k) => if k == "requirements"@ && acc is Some {
                    Err(ErrorModel::DuplicateField { container: Container::Requirement, field: k })
                } else if k == "requirements"@ {
                    match pair_list(s, pos + 1) {
                        Err(e) => Err(e),
                        Ok((l, q)) => {
                            proof {
                                lemma_pair_items_advance(s, pos + 2, Seq::empty());
                            }
                            requirement_fields(s, q, Some(l))
                        },
                    }
                } else {
                    Err(ErrorModel::UnknownField { container: Container::Requirement, field: k })
                },
            }
        },
    }
}

pub proof fn lemma_requirement_fields_advance(
    s: StreamModel,
    pos: int,
    acc: Option<Seq<(RequirementOperator, VersionModel)>>,
)
    ensures
        requirement_fields(s, pos, acc) matches Ok((_, q)) ==> pos < q <= s.events.len(),
    decreases s.events.len() - pos,
{
    if let Ok(ev) = event_at(s, pos) {
        if !(ev is MappingEnd) {
            if let Ok(k) = text_of(Ok(ev)) {
                if k == "requirements"@ && acc is None {
                    lemma_pair_items_advance(s, pos + 2, Seq::empty());
                    if let Ok((l, q)) = pair_list(s, pos + 1) {
                        lemma_requirement_fields_advance(s, q, Some(l));
                    }
                }
            }
        }
    }
}

fn decode_pair(c: &mut EventCursor) -> (r: Result<(RequirementOperator, Version), DecodeError>)
    ensures
        final(c).stream == old(c).stream,
        match pair_spec(old(c).model(), old(c).pos as int) {
            Ok((pr, q)) => r matches Ok(x) && (x.0, x.1@) == pr && final(c).pos == q,
            Err(e) => r matches Err(x) && x@ == e,
        },
{
    let t = match read_text(c) {
        Err(e) => return Err(e),
        Ok(t) => t,
    };
    match read_object_start(c, "Gem::Version") {
        Err(e) => return Err(e),
        Ok(_) => {},
    }
    let v = match decode_version(c) {
        Err(e) => return Err(e),
        Ok(v) => v,
    };
    match c.next() {
        Err(e) => Err(e),
        Ok(ev) => match ev {
            Event::SequenceEnd => Ok((operator_from(t.as_str()), v)),
            _ => Err(DecodeError::MalformedDocument),
        },
    }
}

fn decode_pair_list(c: &mut EventCursor) -> (r: Result<
    Vec<(RequirementOperator, Version)>,
    DecodeError,
>)
    ensures
        final(c).stream == old(c).stream,
        match pair_list(old(c).model(), old(c).pos as int) {
            Ok((l, q)) => r matches Ok(x) && pairs_view(x@) == l && final(c).pos == q,
            Err(e) => r matches Err(x) && x@ == e,
        },
{
    let ghost s = c.model();
    match c.next() {
        Err(e) => return Err(e),
        Ok(ev) => match ev {
            Event::SequenceStart(None) => {},
            _ => {
                return Err(
                    DecodeError::ScalarCoercionError {
                        expected: ValueKind::Sequence,
                        got: kind_of_event(ev),
                    },
                )
            },
        },
    }
    let ghost p0 = c.pos as int;
    let mut acc: Vec<(RequirementOperator, Version)> = Vec::new();
    assert(pairs_view(acc@) =~= Seq::empty());
    loop
        invariant
            c.stream == old(c).stream,
            s == c.model(),
            s == old(c).model(),
            p0 == old(c).pos + 1,
            pair_items(s, c.pos as int, pairs_view(acc@)) == pair_items(s, p0, Seq::empty()),
            pair_list(s, old(c).pos as int) == pair_items(s, p0, Seq::empty()),
        decreases s.events.len() - c.pos,
    {
        let ghost p = c.pos as int;
        let ghost a = pairs_view(acc@);
        let ev = match c.next() {
            Err(e) => {
                assert(pair_items(s, p, a) == Err::<
                    (Seq<(RequirementOperator, VersionModel)>, int),
                    ErrorModel,
                >(e@));
                return Err(e);
            },
            Ok(ev) => ev,
        };
        match ev {
            Event::SequenceEnd => {
                return Ok(acc);
            },
            Event::SequenceStart(None) => {},
            _ => {
                let e = DecodeError::ScalarCoercionError {
                    expected: ValueKind::Sequence,
                    got: kind_of_event(ev),
                };
                assert(pair_items(s, p, a) == Err::<
                    (Seq<(RequirementOperator, VersionModel)>, int),
                    ErrorModel,
                >(e@));
                return Err(e);
            },
        }
        let pr = match decode_pair(c) {
            Err(e) => {
                assert(pair_items(s, p, a) == Err::<
                    (Seq<(RequirementOperator, VersionModel)>, int),
                    ErrorModel,
                >(e@));
                return Err(e);
            },
            Ok(pr) => pr,
        };
        proof {
            lemma_pair_advance(s, p + 1);
        }
        let ghost old_acc = acc@;
        acc.push(pr);
        assert(pairs_view(acc@) =~= a.push((pr.0, pr.1@))) by {
            assert(acc@ =~= old_acc.push(pr));
        }
    }
}

/// Decodes a requirement mapping whose start has just been pulled: the one key
/// `"requirements"` with its sequence of `[operator, version]` pairs, through
/// the mapping's end.
pub fn decode_requirement(c: &mut EventCursor) -> (r: Result<Requirement, DecodeError>)
    ensures
        final(c).stream == old(c).stream,
        match requirement_fields(old(c).model(), old(c).pos as int, None) {
            Ok((v, p)) => r matches Ok(x) && x@ == v && final(c).pos == p,
            Err(e) => r matches Err(x) && x@ == e,
        },
{
    let ghost s = c.model();
    let ghost pos0 = c.pos as int;
    let mut acc: Option<Vec<(RequirementOperator, Version)>> = None;
    loop
        invariant
            c.stream == old(c).stream,
            s == c.model(),
            s == old(c).model(),
            pos0 == old(c).pos,
            requirement_fields(s, c.pos as int, opt_pairs(acc)) == requirement_fields(s, pos0, None),
        decreases s.events.len() - c.pos,
    {
        let ghost pos = c.pos as int;
        let ghost a = opt_pairs(acc);
        let ev = match c.next() {
            Err(e) => {
                assert(requirement_fields(s, pos, a) == Err::<(RequirementModel, int), ErrorModel>(
                    e@,
                ));
                return Err(e);
            },
            Ok(ev) => ev,
        };
        if let Event::MappingEnd = ev {
            return match acc {
                Some(l) => {
                    let r = Requirement { requirements: l };
                    assert(r@ == RequirementModel { requirements: a->0 });
                    Ok(r)
                },
                None => {
                    let e = DecodeError::MissingField {
                        container: Container::Requirement,
                        field: String::from_str("requirements"),
                    };
                    assert(requirement_fields(s, pos, a) == Err::<(RequirementModel, int), ErrorModel>(
                        e@,
                    ));
                    Err(e)
                },
            };
        }
        let k = match event_text(ev) {
            Err(e) => {
                assert(requirement_fields(s, pos, a) == Err::<(RequirementModel, int), ErrorModel>(
                    e@,
                ));
                return Err(e);
            },
            Ok(k) => k,
        };
        if text_is(k.as_str(), "requirements") {
            if acc.is_some() {
                let e = DecodeError::DuplicateField { container: Container::Requirement, field: k };
                assert(requirement_fields(s, pos, a) == Err::<(RequirementModel, int), ErrorModel>(
                    e@,
                ));
                return Err(e);
            }
            match decode_pair_list(c) {
                Err(e) => {
                    assert(requirement_fields(s, pos, a) == Err::<
                        (RequirementModel, int),
                        ErrorModel,
                    >(e@));
                    return Err(e);
                },
                Ok(l) => {
                    proof {
                        lemma_pair_items_advance(s, pos + 2, Seq::empty());
                    }
                    acc = Some(l);
                },
            }
        } else {
            let e = DecodeError::UnknownField { container: Container::Requirement, field: k };
            assert(requirement_fields(s, pos, a) == Err::<(RequirementModel, int), ErrorModel>(e@));
            return Err(e);
        }
    }
}

/// A requirement object from its opening on: a mapping tagged as a requirement.
pub open spec fn requirement_object(s: StreamModel, p: int) -> Result<(RequirementModel, int), ErrorModel> {
    match object_start(event_at(s, p), "Gem::Requirement"@) {
        Err(e) => Err(e),
        Ok(_) => requirement_fields(s, p + 1, None),
    }
}

pub proof fn lemma_requirement_object_advance(s: StreamModel, p: int)
    ensures
        requirement_object(s, p) matches Ok((_, q)) ==> p < q <= s.events.len(),
{
    lemma_requirement_fields_advance(s, p + 1, None);
}

/// Pulls a whole requirement object.
pub fn read_requirement(c: &mut EventCursor) -> (r: Result<Requirement, DecodeError>)
    ensures
        final(c).stream == old(c).stream,
        match requirement_object(old(c).model(), old(c).pos as int) {
            Ok((v, p)) => r matches Ok(x) && x@ == v && final(c).pos == p,
            Err(e) => r matches Err(x) && x@ == e,
        },
{
    match read_object_start(c, "Gem::Requirement") {
        Err(e) => Err(e),
        Ok(_) => decode_requirement(c),
    }
}

} // verus!
