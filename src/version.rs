//! Version numbers: their text, their segments, and their decoder.
use vstd::prelude::*;
use vstd::string::*;

use core::cmp::Ordering;

use crate::error::{Container, DecodeError, ErrorModel};
use crate::event::{event_at, Event, EventCursor, StreamModel};
use crate::read::{event_text, object_start, read_object_start, read_text, text_of};
use crate::scalar::{all_digits, digits_value, parse_digits};
use crate::text::{opt_text, text_is};

verus! {

/// One dot-separated piece of a version, numeric where it reads as a `u64`.
#[derive(Debug, PartialEq, Eq)]
pub enum VersionSegment {
    Number(u64),
    Text(String),
}

/// The mathematical value of a [`VersionSegment`].
pub enum SegmentModel {
    Number(u64),
    Text(Seq<char>),
}

impl View for VersionSegment {
    type V = SegmentModel;

    open spec fn view(&self) -> SegmentModel {
        match self {
            VersionSegment::Number(n) => SegmentModel::Number(*n),
            VersionSegment::Text(t) => SegmentModel::Text(t@),
        }
    }
}

/// A version: its text as written, and the segments that the text splits into.
#[derive(Debug, PartialEq, Eq)]
pub struct Version {
    version: String,
    segments: Vec<VersionSegment>,
}

/// The mathematical value of a [`Version`].
pub struct VersionModel {
    pub text: Seq<char>,
    pub segments: Seq<SegmentModel>,
}

impl View for Version {
    type V = VersionModel;

    closed spec fn view(&self) -> VersionModel {
        VersionModel {
            text: self.version@,
            segments: self.segments@.map_values(|g: VersionSegment| g@),
        }
    }
}

/// The pieces of `s` between dots, in order; there is always at least one.
pub open spec fn split_dots(s: Seq<char>) -> Seq<Seq<char>>
    decreases s.len(),
{
    if s.len() == 0 {
        seq![Seq::empty()]
    } else {
        let init = split_dots(s.drop_last());
        if s.last() == '.' {
            init.push(Seq::empty())
        } else {
            init.update(init.len() - 1, init.last().push(s.last()))
        }
    }
}

/// The pieces joined back together, with a dot between each two.
pub open spec fn join_dots(ps: Seq<Seq<char>>) -> Seq<char>
    decreases ps.len(),
{
    if ps.len() <= 1 {
        if ps.len() == 0 {
            Seq::empty()
        } else {
            ps[0]
        }
    } else {
        join_dots(ps.drop_last()) + seq!['.'] + ps.last()
    }
}

/// The value of `p` read as a `u64`: an optional `+`, then decimal digits.
pub open spec fn u64_of_text(p: Seq<char>) -> Option<u64> {
    let d = if p.len() > 0 && p[0] == '+' { p.skip(1) } else { p };
    if d.len() > 0 && all_digits(d) && digits_value(d) <= u64::MAX {
        Some(digits_value(d) as u64)
    } else {
        None
    }
}

pub open spec fn segment_of(p: Seq<char>) -> SegmentModel {
    match u64_of_text(p) {
        Some(n) => SegmentModel::Number(n),
        None => SegmentModel::Text(p),
    }
}

pub open spec fn has_empty_piece(ps: Seq<Seq<char>>) -> bool {
    exists|i: int| 0 <= i < ps.len() && (#[trigger] ps[i]).len() == 0
}

/// The version that text `s` denotes: malformed where a piece between dots is
/// empty (a leading, trailing or doubled dot, or no text at all).
pub open spec fn parse_version_spec(s: Seq<char>) -> Result<VersionModel, ErrorModel> {
    let ps = split_dots(s);
    if has_empty_piece(ps) {
        Err(ErrorModel::MalformedVersion { text: s })
    } else {
        Ok(VersionModel { text: s, segments: ps.map_values(|p: Seq<char>| segment_of(p)) })
    }
}

/// The fields of a version mapping from `pos` on, the text of `"version"`
/// seen so far being `found`; on success, the version and the position after
/// the mapping's end. The key `"version"` must appear exactly once.
pub open spec fn version_fields(s: StreamModel, pos: int, found: Option<Seq<char>>) -> Result<
    (VersionModel, int),
    ErrorModel,
>
    decreases s.events.len() - pos,
{
    match event_at(s, pos) {
        Err(e) => Err(e),
        Ok(ev) => if ev is MappingEnd {
            match found {
                None => Err(ErrorModel::MissingField { container: Container::Version, field: "version"@ }),
                Some(t) => match parse_version_spec(t) {
                    Ok(v) => Ok((v, pos + 1)),
                    Err(e) => Err(e),
                },
            }
        } else {
            match text_of(Ok(ev)) {
                Err(e) => Err(e),
                Ok(k) => if k == "version"@ {
                    if found is Some {
                        Err(ErrorModel::DuplicateField { container: Container::Version, field: k })
                    } else {
                        match text_of(event_at(s, pos + 1)) {
                            Err(e) => Err(e),
                            Ok(t) => version_fields(s, pos + 2, Some(t)),
                        }
                    }
                } else {
                    Err(ErrorModel::UnknownField { container: Container::Version, field: k })
                },
            }
        },
    }
}

/// A successful decode of a version mapping ends past where it started.
pub proof fn lemma_version_fields_advance(s: StreamModel, pos: int, found: Option<Seq<char>>)
    ensures
        version_fields(s, pos, found) matches Ok((_, p)) ==> pos < p <= s.events.len(),
    decreases s.events.len() - pos,
{
    if let Ok(ev) = event_at(s, pos) {
        if !(ev is MappingEnd) {
            if let Ok(k) = text_of(Ok(ev)) {
                if k == "version"@ && found is None {
                    if let Ok(t) = text_of(event_at(s, pos + 1)) {
                        lemma_version_fields_advance(s, pos + 2, Some(t));
                    }
                }
            }
        }
    }
}

/// Decodes a version mapping whose start has just been pulled: the one key
/// `"version"` with the version's text, through the mapping's end.
pub fn decode_version(c: &mut EventCursor) -> (r: Result<Version, DecodeError>)
    ensures
        final(c).stream == old(c).stream,
        match version_fields(old(c).model(), old(c).pos as int, None) {
            Ok((v, p)) => r matches Ok(x) && x@ == v && x.wf() && final(c).pos == p,
            Err(e) => r matches Err(x) && x@ == e,
        },
{
    let ghost s = c.model();
    let ghost pos0 = c.pos as int;
    let mut found: Option<String> = None;
    loop
        invariant
            c.stream == old(c).stream,
            s == c.model(),
            s == old(c).model(),
            pos0 == old(c).pos,
            version_fields(s, c.pos as int, opt_text(found)) == version_fields(s, pos0, None),
        decreases s.events.len() - c.pos,
    {
        let ghost pos = c.pos as int;
        let ghost fv = opt_text(found);
        let ev = match c.next() {
            Err(e) => {
                assert(version_fields(s, pos, fv) == Err::<(VersionModel, int), ErrorModel>(e@));
                return Err(e);
            },
            Ok(ev) => ev,
        };
        if let Event::MappingEnd = ev {
            return match found {
                None => Err(
                    DecodeError::MissingField {
                        container: Container::Version,
                        field: String::from_str("version"),
                    },
                ),
                Some(t) => {
                    let r = Version::from_str(t.as_str());
                    assert(version_fields(s, pos, fv) == match parse_version_spec(t@) {
                        Ok(v) => Ok((v, pos + 1)),
                        Err(e) => Err::<(VersionModel, int), ErrorModel>(e),
                    });
                    r
                },
            };
        }
        let k = match event_text(ev) {
            Err(e) => {
                assert(version_fields(s, pos, fv) == Err::<(VersionModel, int), ErrorModel>(e@));
                return Err(e);
            },
            Ok(k) => k,
        };
        if text_is(k.as_str(), "version") {
            if found.is_some() {
                let e = DecodeError::DuplicateField { container: Container::Version, field: k };
                assert(version_fields(s, pos, fv) == Err::<(VersionModel, int), ErrorModel>(e@));
                return Err(e);
            }
            match read_text(c) {
                Err(e) => {
                    assert(version_fields(s, pos, fv) == Err::<(VersionModel, int), ErrorModel>(
                        e@,
                    ));
                    return Err(e);
                },
                Ok(t) => {
                    found = Some(t);
                },
            }
        } else {
            return Err(DecodeError::UnknownField { container: Container::Version, field: k });
        }
    }
}

fn segment_from(p: &str) -> (r: VersionSegment)
    ensures
        r@ == segment_of(p@),
{
    let n = p.unicode_len();
    let start: usize = if n > 0 && p.get_char(0) == '+' { 1 } else { 0 };
    assert(start == 0 ==> p@.skip(0) =~= p@);
    match parse_digits(p, start, u64::MAX) {
        Some(v) => VersionSegment::Number(v),
        None => VersionSegment::Text(String::from_str(p)),
    }
}

impl Default for Version {
    /// The empty version, with no text and no segments.
    fn default() -> (r: Self)
        ensures
            r@.text == Seq::<char>::empty(),
            r@.segments == Seq::<SegmentModel>::empty(),
    {
        let r = Version { version: String::new(), segments: Vec::new() };
        assert(r@.segments =~= Seq::<SegmentModel>::empty());
        r
    }
}

impl Version {
    /// The well-formedness of a version: it is what its own text parses to.
    pub open spec fn wf(&self) -> bool {
        parse_version_spec(self@.text) == Ok::<VersionModel, ErrorModel>(self@)
    }

    /// The text of the version as written.
    pub fn as_str(&self) -> (r: &str)
        ensures
            r@ == self@.text,
    {
        self.version.as_str()
    }

    /// The segments, in order.
    pub fn segments(&self) -> (r: &[VersionSegment])
        ensures
            r@.map_values(|g: VersionSegment| g@) == self@.segments,
    {
        self.segments.as_slice()
    }

    /// Parses the text of a version: split on `.`; a piece that reads as a
    /// `u64` is a number, any other is text; an empty piece makes it malformed.
    pub fn from_str(s: &str) -> (r: Result<Version, DecodeError>)
        ensures
            match parse_version_spec(s@) {
                Ok(v) => r matches Ok(x) && x@ == v && x.wf(),
                Err(e) => r matches Err(x) && x@ == e,
            },
    {
        let n = s.unicode_len();
        let mut segments: Vec<VersionSegment> = Vec::new();
        let mut start: usize = 0;
        let mut bad = false;
        let mut i: usize = 0;
        let ghost mut parts: Seq<Seq<char>> = split_dots(s@.take(0));
        assert(s@.take(0) =~= Seq::<char>::empty());
        assert(s@.subrange(0, 0) =~= Seq::<char>::empty());
        while i < n
            invariant
                n == s@.len(),
                start <= i <= n,
                parts == split_dots(s@.take(i as int)),
                parts.len() >= 1,
                parts.last() == s@.subrange(start as int, i as int),
                segments@.map_values(|g: VersionSegment| g@) == parts.take(parts.len() - 1).map_values(
                    |p: Seq<char>| segment_of(p),
                ),
                bad == has_empty_piece(parts.take(parts.len() - 1)),
            decreases n - i,
        {
            let c = s.get_char(i);
            let ghost old_parts = parts;
            assert(s@.take(i + 1).drop_last() =~= s@.take(i as int));
            assert(s@.take(i + 1).last() == c);
            if c == '.' {
                let piece = s.substring_char(start, i);
                let seg = segment_from(piece);
                if start == i {
                    bad = true;
                }
                let ghost old_segs = segments@;
                assert(old_segs.len() == old_parts.len() - 1) by {
                    assert(old_segs.map_values(|g: VersionSegment| g@).len() == old_segs.len());
                }
                segments.push(seg);
                proof {
                    parts = old_parts.push(Seq::empty());
                    assert(parts.take(parts.len() - 1) =~= old_parts);
                    assert(old_parts.take(old_parts.len() - 1).push(old_parts.last()) =~= old_parts);
                    assert forall|k: int| 0 <= k < segments@.len() implies #[trigger] segments@[k]@
                        == segment_of(parts.take(parts.len() - 1)[k]) by {
                        assert(parts.take(parts.len() - 1)[k] == old_parts[k]);
                        if k < old_segs.len() {
                            assert(old_segs.map_values(|g: VersionSegment| g@)[k] == old_parts.take(
                                old_parts.len() - 1,
                            ).map_values(|p: Seq<char>| segment_of(p))[k]);
                            assert(segments@[k] == old_segs[k]);
                        } else {
                            assert(segments@[k] == seg);
                            assert(piece@ == old_parts.last());
                        }
                    }
                    assert(segments@.map_values(|g: VersionSegment| g@) =~= parts.take(
                        parts.len() - 1,
                    ).map_values(|p: Seq<char>| segment_of(p)));
                    if bad {
                        if start == i {
                            assert(parts.take(parts.len() - 1)[old_parts.len() - 1].len() == 0);
                        } else {
                            let k = choose|k: int|
                                0 <= k < old_parts.len() - 1 && (#[trigger] old_parts.take(
                                    old_parts.len() - 1,
                                )[k]).len() == 0;
                            assert(parts.take(parts.len() - 1)[k].len() == 0);
                        }
                    } else {
                        assert forall|k: int|
                            0 <= k < parts.take(parts.len() - 1).len() implies (
                            #[trigger] parts.take(parts.len() - 1)[k]).len() != 0 by {
                            if k < old_parts.len() - 1 {
                                assert(old_parts.take(old_parts.len() - 1)[k] == old_parts[k]);
                            }
                        }
                    }
                    assert(s@.subrange(i + 1, i + 1) =~= Seq::<char>::empty());
                }
                start = i + 1;
            } else {
                proof {
                    parts = old_parts.update(old_parts.len() - 1, old_parts.last().push(c));
                    assert(s@.subrange(start as int, i + 1) =~= s@.subrange(
                        start as int,
                        i as int,
                    ).push(c));
                    assert(parts.take(parts.len() - 1) =~= old_parts.take(old_parts.len() - 1));
                }
            }
            i = i + 1;
        }
        assert(s@.take(n as int) =~= s@);
        let piece = s.substring_char(start, n);
        let ghost old_segs = segments@;
        segments.push(segment_from(piece));
        proof {
            assert forall|k: int| 0 <= k < segments@.len() implies #[trigger] segments@[k]@
                == segment_of(parts[k]) by {
                if k < old_segs.len() {
                    assert(old_segs.map_values(|g: VersionSegment| g@)[k] == parts.take(
                        parts.len() - 1,
                    ).map_values(|p: Seq<char>| segment_of(p))[k]);
                }
            }
            assert(parts.take(parts.len() - 1).push(parts.last()) =~= parts);
            assert(segments@.map_values(|g: VersionSegment| g@) =~= parts.map_values(
                |p: Seq<char>| segment_of(p),
            ));
        }
        if bad || start == n {
            proof {
                if start == n {
                    assert(parts[parts.len() - 1].len() == 0);
                } else {
                    let k = choose|k: int|
                        0 <= k < parts.len() - 1 && (#[trigger] parts.take(parts.len() - 1)[k]).len()
                            == 0;
                    assert(parts[k].len() == 0);
                }
            }
            return Err(DecodeError::MalformedVersion { text: String::from_str(s) });
        }
        proof {
            assert forall|k: int| 0 <= k < parts.len() implies (#[trigger] parts[k]).len() != 0 by {
                if k < parts.len() - 1 {
                    assert(parts.take(parts.len() - 1)[k] == parts[k]);
                }
            }
        }
        let v = Version { version: String::from_str(s), segments };
        Ok(v)
    }
}

/// A version object from its opening on: a mapping tagged as a version.
pub open spec fn version_object(s: StreamModel, p: int) -> Result<(VersionModel, int), ErrorModel> {
    match object_start(event_at(s, p), "Gem::Version"@) {
        Err(e) => Err(e),
        Ok(_) => version_fields(s, p + 1, None),
    }
}

pub proof fn lemma_version_object_advance(s: StreamModel, p: int)
    ensures
        version_object(s, p) matches Ok((_, q)) ==> p < q <= s.events.len(),
{
    lemma_version_fields_advance(s, p + 1, None);
}

/// Pulls a whole version object.
pub fn read_version(c: &mut EventCursor) -> (r: Result<Version, DecodeError>)
    ensures
        final(c).stream == old(c).stream,
        match version_object(old(c).model(), old(c).pos as int) {
            Ok((v, p)) => r matches Ok(x) && x@ == v && x.wf() && final(c).pos == p,
            Err(e) => r matches Err(x) && x@ == e,
        },
{
    match read_object_start(c, "Gem::Version") {
        Err(e) => Err(e),
        Ok(_) => decode_version(c),
    }
}

/// The segment at position `i`; past the end a version reads as zero.
pub open spec fn segment_at(segs: Seq<SegmentModel>, i: int) -> SegmentModel {
    if 0 <= i < segs.len() {
        segs[i]
    } else {
        SegmentModel::Number(0)
    }
}

/// Texts in lexicographic order of their characters.
pub open spec fn text_cmp(a: Seq<char>, b: Seq<char>) -> Ordering
    decreases a.len(),
{
    if a.len() == 0 {
        if b.len() == 0 {
            Ordering::Equal
        } else {
            Ordering::Less
        }
    } else if b.len() == 0 {
        Ordering::Greater
    } else if (a[0] as u32) < (b[0] as u32) {
        Ordering::Less
    } else if (a[0] as u32) > (b[0] as u32) {
        Ordering::Greater
    } else {
        text_cmp(a.drop_first(), b.drop_first())
    }
}

/// Two segments: numbers by value, texts by [`text_cmp`], and a number
/// before any text.
pub open spec fn segment_cmp(x: SegmentModel, y: SegmentModel) -> Ordering {
    match x {
        SegmentModel::Number(a) => match y {
            SegmentModel::Number(b) => if a < b {
                Ordering::Less
            } else if a > b {
                Ordering::Greater
            } else {
                Ordering::Equal
            },
            SegmentModel::Text(_) => Ordering::Less,
        },
        SegmentModel::Text(a) => match y {
            SegmentModel::Number(_) => Ordering::Greater,
            SegmentModel::Text(b) => text_cmp(a, b),
        },
    }
}

/// Two segment lists from position `i` on: the first position where they
/// differ decides, the shorter list reading as zero past its end.
pub open spec fn segments_cmp(a: Seq<SegmentModel>, b: Seq<SegmentModel>, i: int) -> Ordering
    decreases a.len() + b.len() - i,
{
    if i >= a.len() && i >= b.len() {
        Ordering::Equal
    } else if segment_cmp(segment_at(a, i), segment_at(b, i)) != Ordering::Equal {
        segment_cmp(segment_at(a, i), segment_at(b, i))
    } else {
        segments_cmp(a, b, i + 1)
    }
}

fn text_compare(a: &str, b: &str) -> (r: Ordering)
    ensures
        r == text_cmp(a@, b@),
{
    let n = a.unicode_len();
    let m = b.unicode_len();
    let mut i: usize = 0;
    assert(a@.skip(0) =~= a@);
    assert(b@.skip(0) =~= b@);
    while i < n && i < m
        invariant
            n == a@.len(),
            m == b@.len(),
            i <= n,
            i <= m,
            text_cmp(a@.skip(i as int), b@.skip(i as int)) == text_cmp(a@, b@),
        decreases n - i,
    {
        let x = a.get_char(i);
        let y = b.get_char(i);
        assert(a@.skip(i as int)[0] == x);
        assert(b@.skip(i as int)[0] == y);
        if (x as u32) < (y as u32) {
            return Ordering::Less;
        }
        if (x as u32) > (y as u32) {
            return Ordering::Greater;
        }
        assert(a@.skip(i as int).drop_first() =~= a@.skip(i + 1));
        assert(b@.skip(i as int).drop_first() =~= b@.skip(i + 1));
        i = i + 1;
    }
    if i < n {
        Ordering::Greater
    } else if i < m {
        Ordering::Less
    } else {
        Ordering::Equal
    }
}

fn segment_compare(x: &VersionSegment, y: &VersionSegment) -> (r: Ordering)
    ensures
        r == segment_cmp(x@, y@),
{
    match x {
        VersionSegment::Number(a) => match y {
            VersionSegment::Number(b) => if *a < *b {
                Ordering::Less
            } else if *a > *b {
                Ordering::Greater
            } else {
                Ordering::Equal
            },
            VersionSegment::Text(_) => Ordering::Less,
        },
        VersionSegment::Text(a) => match y {
            VersionSegment::Number(_) => Ordering::Greater,
            VersionSegment::Text(b) => text_compare(a.as_str(), b.as_str()),
        },
    }
}

impl Version {
    /// Orders two versions segment by segment: the first position where they
    /// differ decides, a number sorts before text there, and the shorter
    /// version reads as zero past its end (so `1.0` equals `1`).
    pub fn compare(&self, other: &Version) -> (r: Ordering)
        ensures
            r == segments_cmp(self@.segments, other@.segments, 0),
    {
        let n = self.segments.len();
        let m = other.segments.len();
        let zero = VersionSegment::Number(0);
        let mut i: usize = 0;
        proof {
            assert(self.segments@.map_values(|g: VersionSegment| g@).len() == n);
            assert(other.segments@.map_values(|g: VersionSegment| g@).len() == m);
        }
        while i < n || i < m
            invariant
                n == self@.segments.len(),
                m == other@.segments.len(),
                n == self.segments@.len(),
                m == other.segments@.len(),
                zero@ == SegmentModel::Number(0),
                self@.segments == self.segments@.map_values(|g: VersionSegment| g@),
                other@.segments == other.segments@.map_values(|g: VersionSegment| g@),
                segments_cmp(self@.segments, other@.segments, i as int) == segments_cmp(
                    self@.segments,
                    other@.segments,
                    0,
                ),
            decreases n + m - i,
        {
            let x = if i < n { &self.segments[i] } else { &zero };
            let y = if i < m { &other.segments[i] } else { &zero };
            assert(x@ == segment_at(self@.segments, i as int));
            assert(y@ == segment_at(other@.segments, i as int));
            match segment_compare(x, y) {
                Ordering::Equal => {},
                c => {
                    return c;
                },
            }
            i = i + 1;
        }
        Ordering::Equal
    }
}

/// The same comparison seen from the other side.
pub open spec fn reversed(o: Ordering) -> Ordering {
    match o {
        Ordering::Less => Ordering::Greater,
        Ordering::Greater => Ordering::Less,
        Ordering::Equal => Ordering::Equal,
    }
}

proof fn lemma_text_cmp_antisymmetric(a: Seq<char>, b: Seq<char>)
    ensures
        text_cmp(b, a) == reversed(text_cmp(a, b)),
    decreases a.len(),
{
    if a.len() > 0 && b.len() > 0 && a[0] as u32 == b[0] as u32 {
        lemma_text_cmp_antisymmetric(a.drop_first(), b.drop_first());
    }
}

/// Comparing two versions the other way round gives the opposite answer.
pub proof fn lemma_compare_antisymmetric(a: Seq<SegmentModel>, b: Seq<SegmentModel>, i: int)
    ensures
        segments_cmp(b, a, i) == reversed(segments_cmp(a, b, i)),
    decreases a.len() + b.len() - i,
{
    let x = segment_at(a, i);
    let y = segment_at(b, i);
    if let (SegmentModel::Text(p), SegmentModel::Text(q)) = (x, y) {
        lemma_text_cmp_antisymmetric(p, q);
    }
    if !(i >= a.len() && i >= b.len()) && segment_cmp(x, y) == Ordering::Equal {
        lemma_compare_antisymmetric(a, b, i + 1);
    }
}

/// Joining the pieces of a text back together with dots gives the text again.
pub proof fn lemma_split_join(s: Seq<char>)
    ensures
        split_dots(s).len() >= 1,
        join_dots(split_dots(s)) == s,
    decreases s.len(),
{
    if s.len() > 0 {
        let init = s.drop_last();
        lemma_split_join(init);
        let ps = split_dots(init);
        if s.last() == '.' {
            let qs = ps.push(Seq::empty());
            assert(qs.drop_last() =~= ps);
            assert(join_dots(qs) =~= init + seq!['.'] + Seq::<char>::empty());
            assert(init + seq!['.'] + Seq::<char>::empty() =~= s);
        } else {
            let qs = ps.update(ps.len() - 1, ps.last().push(s.last()));
            if ps.len() == 1 {
                assert(join_dots(qs) =~= init.push(s.last()));
            } else {
                assert(qs.drop_last() =~= ps.drop_last());
                assert(join_dots(qs) =~= (join_dots(ps.drop_last()) + seq!['.'] + ps.last()).push(
                    s.last(),
                ));
            }
        }
        assert(init.push(s.last()) =~= s);
    } else {
        assert(join_dots(seq![Seq::<char>::empty()]) == Seq::<char>::empty());
        assert(s =~= Seq::<char>::empty());
    }
}

} // verus!
