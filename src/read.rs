//! Reading single values off the cursor: text scalars and the heads of tagged objects.
use vstd::prelude::*;
use vstd::string::*;

use crate::error::{DecodeError, ErrorModel, ValueKind};
use crate::event::{event_at, EventCursor, EventModel, Event, StreamModel, Tag, TagModel};
use crate::scalar::{coerce, coerce_spec, scalar_kind, Scalar, ScalarModel};
use crate::text::{text_is, text_is_concat};

verus! {

/// The kind of value that an event opens.
pub open spec fn event_kind(ev: EventModel) -> ValueKind {
    match ev {
        EventModel::MappingStart(tag) => if tag is Some {
            ValueKind::Tagged
        } else {
            ValueKind::Mapping
        },
        EventModel::SequenceStart(tag) => if tag is Some {
            ValueKind::Tagged
        } else {
            ValueKind::Sequence
        },
        EventModel::Scalar(t, st, tag) => if tag is Some {
            ValueKind::Tagged
        } else {
            scalar_kind(coerce_spec(t, st))
        },
        _ => ValueKind::Other,
    }
}

/// The text that a pulled event holds, where it is a scalar that coerces to text.
pub open spec fn text_of(r: Result<EventModel, ErrorModel>) -> Result<Seq<char>, ErrorModel> {
    match r {
        Err(e) => Err(e),
        Ok(ev) => match ev {
            EventModel::Scalar(t, st, None) => match coerce_spec(t, st) {
                ScalarModel::Str(x) => Ok(x),
                other => Err(
                    ErrorModel::ScalarCoercionError { expected: ValueKind::Str, got: scalar_kind(other) },
                ),
            },
            _ => Err(ErrorModel::ScalarCoercionError { expected: ValueKind::Str, got: event_kind(ev) }),
        },
    }
}

/// The tag `!ruby/object:<name>`.
pub open spec fn is_object_tag(t: Option<TagModel>, name: Seq<char>) -> bool {
    &&& t is Some
    &&& t->0.handle == "!"@
    &&& t->0.suffix == "ruby/object:"@ + name
}

/// What it takes for a pulled event to open the object named `name`: a mapping
/// with that tag. A mapping with another tag or none breaks the document's shape.
pub open spec fn object_start(r: Result<EventModel, ErrorModel>, name: Seq<char>) -> Result<
    (),
    ErrorModel,
> {
    match r {
        Err(e) => Err(e),
        Ok(ev) => match ev {
            EventModel::MappingStart(t) => if is_object_tag(t, name) {
                Ok(())
            } else {
                Err(ErrorModel::MalformedDocument)
            },
            _ => Err(ErrorModel::ScalarCoercionError { expected: ValueKind::Mapping, got: event_kind(ev) }),
        },
    }
}

pub fn kind_of_event(ev: &Event) -> (r: ValueKind)
    ensures
        r == event_kind(ev@),
{
    match ev {
        Event::MappingStart(Some(_)) | Event::SequenceStart(Some(_)) | Event::Scalar(_, _, Some(_)) => {
            ValueKind::Tagged
        },
        Event::MappingStart(None) => ValueKind::Mapping,
        Event::SequenceStart(None) => ValueKind::Sequence,
        Event::Scalar(t, st, None) => kind_of_scalar(&coerce(t.as_str(), *st)),
        _ => ValueKind::Other,
    }
}

pub fn kind_of_scalar(s: &Scalar) -> (r: ValueKind)
    ensures
        r == scalar_kind(s@),
{
    match s {
        Scalar::Str(_) => ValueKind::Str,
        Scalar::Int(_) => ValueKind::Int,
        Scalar::Bool(_) => ValueKind::Bool,
        Scalar::Null => ValueKind::Null,
    }
}

/// The text of `ev`, which must be a scalar that coerces to text.
pub fn event_text(ev: &Event) -> (r: Result<String, DecodeError>)
    ensures
        match text_of(Ok(ev@)) {
            Ok(t) => r matches Ok(x) && x@ == t,
            Err(e) => r matches Err(x) && x@ == e,
        },
{
    match ev {
        Event::Scalar(t, st, None) => match coerce(t.as_str(), *st) {
            Scalar::Str(x) => Ok(x),
            other => Err(
                DecodeError::ScalarCoercionError { expected: ValueKind::Str, got: kind_of_scalar(&other) },
            ),
        },
        _ => Err(DecodeError::ScalarCoercionError { expected: ValueKind::Str, got: kind_of_event(ev) }),
    }
}

/// Pulls one event that must be a scalar coercing to text, and returns its text.
pub fn read_text(c: &mut EventCursor) -> (r: Result<String, DecodeError>)
    ensures
        final(c).stream == old(c).stream,
        match text_of(event_at(old(c).model(), old(c).pos as int)) {
            Ok(t) => r matches Ok(x) && x@ == t && final(c).pos == old(c).pos + 1,
            Err(e) => r matches Err(x) && x@ == e,
        },
{
    match c.next() {
        Err(e) => Err(e),
        Ok(ev) => event_text(ev),
    }
}

/// Whether `tag` is `!ruby/object:<name>`.
pub fn has_object_tag(tag: &Option<Tag>, name: &str) -> (r: bool)
    ensures
        r == is_object_tag(crate::event::tag_view(*tag), name@),
{
    match tag {
        Some(t) => text_is(t.handle.as_str(), "!") && text_is_concat(
            t.suffix.as_str(),
            "ruby/object:",
            name,
        ),
        None => false,
    }
}

/// Checks that `ev` opens the object named `name`.
pub fn event_object_start(ev: &Event, name: &str) -> (r: Result<(), DecodeError>)
    ensures
        match object_start(Ok(ev@), name@) {
            Ok(_) => r is Ok,
            Err(e) => r matches Err(x) && x@ == e,
        },
{
    match ev {
        Event::MappingStart(t) => if has_object_tag(t, name) {
            Ok(())
        } else {
            Err(DecodeError::MalformedDocument)
        },
        _ => Err(DecodeError::ScalarCoercionError { expected: ValueKind::Mapping, got: kind_of_event(ev) }),
    }
}

/// Pulls one event that must open the object named `name`.
pub fn read_object_start(c: &mut EventCursor, name: &str) -> (r: Result<(), DecodeError>)
    ensures
        final(c).stream == old(c).stream,
        match object_start(event_at(old(c).model(), old(c).pos as int), name@) {
            Ok(_) => r is Ok && final(c).pos == old(c).pos + 1,
            Err(e) => r matches Err(x) && x@ == e,
        },
{
    match c.next() {
        Err(e) => Err(e),
        Ok(ev) => event_object_start(ev, name),
    }
}

/// The text of each string.
pub open spec fn texts(v: Seq<String>) -> Seq<Seq<char>> {
    v.map_values(|t: String| t@)
}

/// The texts of each pair of strings.
pub open spec fn text_pairs_view(v: Seq<(String, String)>) -> Seq<(Seq<char>, Seq<char>)> {
    v.map_values(|p: (String, String)| (p.0@, p.1@))
}

/// A pulled scalar that is text or null.
pub open spec fn nullable_text_of(r: Result<EventModel, ErrorModel>) -> Result<
    Option<Seq<char>>,
    ErrorModel,
> {
    match r {
        Err(e) => Err(e),
        Ok(ev) => match ev {
            EventModel::Scalar(t, st, None) => match coerce_spec(t, st) {
                ScalarModel::Null => Ok(None),
                ScalarModel::Str(x) => Ok(Some(x)),
                other => Err(
                    ErrorModel::ScalarCoercionError { expected: ValueKind::Str, got: scalar_kind(other) },
                ),
            },
            _ => Err(ErrorModel::ScalarCoercionError { expected: ValueKind::Str, got: event_kind(ev) }),
        },
    }
}

/// A pulled scalar that is an integer.
pub open spec fn int_of(r: Result<EventModel, ErrorModel>) -> Result<int, ErrorModel> {
    match r {
        Err(e) => Err(e),
        Ok(ev) => match ev {
            EventModel::Scalar(t, st, None) => match coerce_spec(t, st) {
                ScalarModel::Int(n) => Ok(n),
                other => Err(
                    ErrorModel::ScalarCoercionError { expected: ValueKind::Int, got: scalar_kind(other) },
                ),
            },
            _ => Err(ErrorModel::ScalarCoercionError { expected: ValueKind::Int, got: event_kind(ev) }),
        },
    }
}

/// The text items of a sequence whose opening has been pulled, `acc` holding
/// those read so far.
pub open spec fn text_items(s: StreamModel, p: int, acc: Seq<Seq<char>>) -> Result<
    (Seq<Seq<char>>, int),
    ErrorModel,
>
    decreases s.events.len() - p,
{
    match event_at(s, p) {
        Err(e) => Err(e),
        Ok(ev) => if ev is SequenceEnd {
            Ok((acc, p + 1))
        } else {
            match text_of(Ok(ev)) {
                Err(e) => Err(e),
                Ok(t) => text_items(s, p + 1, acc.push(t)),
            }
        },
    }
}

pub proof fn lemma_text_items_advance(s: StreamModel, p: int, acc: Seq<Seq<char>>)
    ensures
        text_items(s, p, acc) matches Ok((_, q)) ==> p < q <= s.events.len(),
    decreases s.events.len() - p,
{
    if let Ok(ev) = event_at(s, p) {
        if let Ok(t) = text_of(Ok(ev)) {
            lemma_text_items_advance(s, p + 1, acc.push(t));
        }
    }
}

/// A sequence of text scalars, from its opening on.
pub open spec fn text_list(s: StreamModel, p: int) -> Result<(Seq<Seq<char>>, int), ErrorModel> {
    match event_at(s, p) {
        Err(e) => Err(e),
        Ok(ev) => if ev == EventModel::SequenceStart(None) {
            text_items(s, p + 1, Seq::empty())
        } else {
            Err(ErrorModel::ScalarCoercionError { expected: ValueKind::Sequence, got: event_kind(ev) })
        },
    }
}

/// A list of texts written as a sequence, as one text scalar standing for a
/// list of one, or as null standing for an empty list.
pub open spec fn text_list_or_scalar(s: StreamModel, p: int) -> Result<
    (Seq<Seq<char>>, int),
    ErrorModel,
> {
    match event_at(s, p) {
        Err(e) => Err(e),
        Ok(ev) => match ev {
            EventModel::SequenceStart(None) => text_items(s, p + 1, Seq::empty()),
            EventModel::Scalar(t, st, None) => match coerce_spec(t, st) {
                ScalarModel::Null => Ok((Seq::empty(), p + 1)),
                ScalarModel::Str(x) => Ok((seq![x], p + 1)),
                other => Err(
                    ErrorModel::ScalarCoercionError {
                        expected: ValueKind::Sequence,
                        got: scalar_kind(other),
                    },
                ),
            },
            _ => Err(ErrorModel::ScalarCoercionError { expected: ValueKind::Sequence, got: event_kind(ev) }),
        },
    }
}

pub proof fn lemma_text_lists_advance(s: StreamModel, p: int)
    ensures
        text_list(s, p) matches Ok((_, q)) ==> p < q <= s.events.len(),
        text_list_or_scalar(s, p) matches Ok((_, q)) ==> p < q <= s.events.len(),
{
    lemma_text_items_advance(s, p + 1, Seq::empty());
}

/// The position of the first entry from `i` on whose key is `k`.
pub open spec fn key_index_from(acc: Seq<(Seq<char>, Seq<char>)>, k: Seq<char>, i: int) -> Option<
    int,
>
    decreases acc.len() - i,
{
    if i < 0 || i >= acc.len() {
        None
    } else if acc[i].0 == k {
        Some(i)
    } else {
        key_index_from(acc, k, i + 1)
    }
}

/// The entries after key `k` is given value `v`: the entry with that key
/// takes the new value in place, or a new entry goes at the end.
pub open spec fn put_entry(acc: Seq<(Seq<char>, Seq<char>)>, k: Seq<char>, v: Seq<char>) -> Seq<
    (Seq<char>, Seq<char>),
> {
    match key_index_from(acc, k, 0) {
        Some(i) => acc.update(i, (k, v)),
        None => acc.push((k, v)),
    }
}

/// No two entries share a key.
pub open spec fn keys_unique(acc: Seq<(Seq<char>, Seq<char>)>) -> bool {
    forall|i: int, j: int| 0 <= i < j < acc.len() ==> (#[trigger] acc[i]).0 != (#[trigger] acc[j]).0
}

proof fn lemma_key_index_from(acc: Seq<(Seq<char>, Seq<char>)>, k: Seq<char>, i: int)
    requires
        0 <= i,
    ensures
        key_index_from(acc, k, i) matches Some(j) ==> i <= j < acc.len() && acc[j].0 == k,
        key_index_from(acc, k, i) is None ==> forall|j: int| i <= j < acc.len() ==> (#[trigger] acc[j]).0 != k,
    decreases acc.len() - i,
{
    if i < acc.len() && acc[i].0 != k {
        lemma_key_index_from(acc, k, i + 1);
    }
}

/// Giving a key a value keeps the keys unique.
pub proof fn lemma_put_entry_unique(acc: Seq<(Seq<char>, Seq<char>)>, k: Seq<char>, v: Seq<char>)
    requires
        keys_unique(acc),
    ensures
        keys_unique(put_entry(acc, k, v)),
{
    lemma_key_index_from(acc, k, 0);
    let r = put_entry(acc, k, v);
    assert forall|i: int, j: int| 0 <= i < j < r.len() implies (#[trigger] r[i]).0 != (#[trigger] r[j]).0 by {
        if key_index_from(acc, k, 0) is None {
            if j == acc.len() {
                assert(acc[i].0 != k);
            } else {
                assert(acc[i] == r[i] && acc[j] == r[j]);
            }
        }
    }
}

/// The text entries of a mapping whose opening has been pulled, `acc`
/// holding those read so far; a key that comes again takes its later value.
pub open spec fn text_entries(s: StreamModel, p: int, acc: Seq<(Seq<char>, Seq<char>)>) -> Result<
    (Seq<(Seq<char>, Seq<char>)>, int),
    ErrorModel,
>
    decreases s.events.len() - p,
{
    match event_at(s, p) {
        Err(e) => Err(e),
        Ok(ev) => if ev is MappingEnd {
            Ok((acc, p + 1))
        } else {
            match text_of(Ok(ev)) {
                Err(e) => Err(e),
                Ok(k) => match text_of(event_at(s, p + 1)) {
                    Err(e) => Err(e),
                    Ok(v) => text_entries(s, p + 2, put_entry(acc, k, v)),
                },
            }
        },
    }
}

pub proof fn lemma_text_entries_advance(s: StreamModel, p: int, acc: Seq<(Seq<char>, Seq<char>)>)
    ensures
        text_entries(s, p, acc) matches Ok((l, q)) ==> p < q <= s.events.len() && (keys_unique(acc)
            ==> keys_unique(l)),
    decreases s.events.len() - p,
{
    if let Ok(ev) = event_at(s, p) {
        if let Ok(k) = text_of(Ok(ev)) {
            if let Ok(v) = text_of(event_at(s, p + 1)) {
                if keys_unique(acc) {
                    lemma_put_entry_unique(acc, k, v);
                }
                lemma_text_entries_advance(s, p + 2, put_entry(acc, k, v));
            }
        }
    }
}

/// A mapping from text to text, from its opening on; its keys are unique,
/// each with the last value given to it.
pub open spec fn text_map(s: StreamModel, p: int) -> Result<
    (Seq<(Seq<char>, Seq<char>)>, int),
    ErrorModel,
> {
    match event_at(s, p) {
        Err(e) => Err(e),
        Ok(ev) => if ev == EventModel::MappingStart(None) {
            text_entries(s, p + 1, Seq::empty())
        } else {
            Err(ErrorModel::ScalarCoercionError { expected: ValueKind::Mapping, got: event_kind(ev) })
        },
    }
}

/// Pulls one scalar that must be text or null.
pub fn read_nullable_text(c: &mut EventCursor) -> (r: Result<Option<String>, DecodeError>)
    ensures
        final(c).stream == old(c).stream,
        match nullable_text_of(event_at(old(c).model(), old(c).pos as int)) {
            Ok(t) => r matches Ok(x) && crate::text::opt_text(x) == t && final(c).pos == old(c).pos + 1,
            Err(e) => r matches Err(x) && x@ == e,
        },
{
    match c.next() {
        Err(e) => Err(e),
        Ok(ev) => match ev {
            Event::Scalar(t, st, None) => match coerce(t.as_str(), *st) {
                Scalar::Null => Ok(None),
                Scalar::Str(x) => Ok(Some(x)),
                other => Err(
                    DecodeError::ScalarCoercionError { expected: ValueKind::Str, got: kind_of_scalar(&other) },
                ),
            },
            _ => Err(DecodeError::ScalarCoercionError { expected: ValueKind::Str, got: kind_of_event(ev) }),
        },
    }
}

/// Pulls one scalar that must be an integer.
pub fn read_int(c: &mut EventCursor) -> (r: Result<i64, DecodeError>)
    ensures
        final(c).stream == old(c).stream,
        match int_of(event_at(old(c).model(), old(c).pos as int)) {
            Ok(n) => r matches Ok(x) && x as int == n && final(c).pos == old(c).pos + 1,
            Err(e) => r matches Err(x) && x@ == e,
        },
{
    match c.next() {
        Err(e) => Err(e),
        Ok(ev) => match ev {
            Event::Scalar(t, st, None) => match coerce(t.as_str(), *st) {
                Scalar::Int(n) => Ok(n),
                other => Err(
                    DecodeError::ScalarCoercionError { expected: ValueKind::Int, got: kind_of_scalar(&other) },
                ),
            },
            _ => Err(DecodeError::ScalarCoercionError { expected: ValueKind::Int, got: kind_of_event(ev) }),
        },
    }
}

/// Pulls the text items of a sequence whose opening has been pulled, through its end.
fn read_text_items(c: &mut EventCursor) -> (r: Result<Vec<String>, DecodeError>)
    ensures
        final(c).stream == old(c).stream,
        match text_items(old(c).model(), old(c).pos as int, Seq::empty()) {
            Ok((l, q)) => r matches Ok(x) && texts(x@) == l && final(c).pos == q,
            Err(e) => r matches Err(x) && x@ == e,
        },
{
    let ghost s = c.model();
    let ghost p0 = c.pos as int;
    let mut acc: Vec<String> = Vec::new();
    assert(texts(acc@) =~= Seq::empty());
    loop
        invariant
            c.stream == old(c).stream,
            s == c.model(),
            s == old(c).model(),
            p0 == old(c).pos,
            text_items(s, c.pos as int, texts(acc@)) == text_items(s, p0, Seq::empty()),
        decreases s.events.len() - c.pos,
    {
        let ghost p = c.pos as int;
        let ghost a = texts(acc@);
        let ev = match c.next() {
            Err(e) => {
                assert(text_items(s, p, a) == Err::<(Seq<Seq<char>>, int), ErrorModel>(e@));
                return Err(e);
            },
            Ok(ev) => ev,
        };
        if let Event::SequenceEnd = ev {
            return Ok(acc);
        }
        let t = match event_text(ev) {
            Err(e) => {
                assert(text_items(s, p, a) == Err::<(Seq<Seq<char>>, int), ErrorModel>(e@));
                return Err(e);
            },
            Ok(t) => t,
        };
        let ghost old_acc = acc@;
        acc.push(t);
        assert(texts(acc@) =~= a.push(t@)) by {
            assert(acc@ =~= old_acc.push(t));
        }
    }
}

/// Pulls a whole sequence of text scalars.
pub fn read_text_list(c: &mut EventCursor) -> (r: Result<Vec<String>, DecodeError>)
    ensures
        final(c).stream == old(c).stream,
        match text_list(old(c).model(), old(c).pos as int) {
            Ok((l, q)) => r matches Ok(x) && texts(x@) == l && final(c).pos == q,
            Err(e) => r matches Err(x) && x@ == e,
        },
{
    match c.next() {
        Err(e) => Err(e),
        Ok(ev) => match ev {
            Event::SequenceStart(None) => read_text_items(c),
            _ => Err(
                DecodeError::ScalarCoercionError { expected: ValueKind::Sequence, got: kind_of_event(ev) },
            ),
        },
    }
}

/// Pulls a list of texts written as a sequence, as one text, or as null.
pub fn read_text_list_or_scalar(c: &mut EventCursor) -> (r: Result<Vec<String>, DecodeError>)
    ensures
        final(c).stream == old(c).stream,
        match text_list_or_scalar(old(c).model(), old(c).pos as int) {
            Ok((l, q)) => r matches Ok(x) && texts(x@) == l && final(c).pos == q,
            Err(e) => r matches Err(x) && x@ == e,
        },
{
    match c.next() {
        Err(e) => Err(e),
        Ok(ev) => match ev {
            Event::SequenceStart(None) => read_text_items(c),
            Event::Scalar(t, st, None) => match coerce(t.as_str(), *st) {
                Scalar::Null => {
                    let v: Vec<String> = Vec::new();
                    assert(texts(v@) =~= Seq::empty());
                    Ok(v)
                },
                Scalar::Str(x) => {
                    let mut v: Vec<String> = Vec::new();
                    v.push(x);
                    assert(texts(v@) =~= seq![x@]);
                    Ok(v)
                },
                other => Err(
                    DecodeError::ScalarCoercionError {
                        expected: ValueKind::Sequence,
                        got: kind_of_scalar(&other),
                    },
                ),
            },
            _ => Err(
                DecodeError::ScalarCoercionError { expected: ValueKind::Sequence, got: kind_of_event(ev) },
            ),
        },
    }
}

/// Gives key `k` the value `v` among the entries `acc`.
fn put_text_entry(acc: &mut Vec<(String, String)>, k: String, v: String)
    ensures
        text_pairs_view(final(acc)@) == put_entry(text_pairs_view(old(acc)@), k@, v@),
{
    let ghost a = text_pairs_view(acc@);
    let n = acc.len();
    let mut i: usize = 0;
    while i < n
        invariant
            n == acc@.len(),
            a == text_pairs_view(acc@),
            a == text_pairs_view(old(acc)@),
            i <= n,
            key_index_from(a, k@, i as int) == key_index_from(a, k@, 0),
        decreases n - i,
    {
        assert(a[i as int] == (acc@[i as int].0@, acc@[i as int].1@));
        if text_is(acc[i].0.as_str(), k.as_str()) {
            let ghost kv = k@;
            let ghost vv = v@;
            acc.set(i, (k, v));
            assert(text_pairs_view(acc@) =~= a.update(i as int, (kv, vv)));
            return;
        }
        i = i + 1;
    }
    let ghost kv = k@;
    let ghost vv = v@;
    acc.push((k, v));
    assert(text_pairs_view(acc@) =~= a.push((kv, vv)));
}

/// Pulls a whole mapping from text to text. Entries keep the order in which
/// their keys first came; a key that comes again takes its later value.
pub fn read_text_map(c: &mut EventCursor) -> (r: Result<Vec<(String, String)>, DecodeError>)
    ensures
        final(c).stream == old(c).stream,
        match text_map(old(c).model(), old(c).pos as int) {
            Ok((l, q)) => r matches Ok(x) && text_pairs_view(x@) == l && final(c).pos == q
                && keys_unique(l),
            Err(e) => r matches Err(x) && x@ == e,
        },
{
    let ghost s = c.model();
    proof {
        lemma_text_entries_advance(s, old(c).pos + 1, Seq::empty());
        assert(keys_unique(Seq::<(Seq<char>, Seq<char>)>::empty()));
    }
    match c.next() {
        Err(e) => return Err(e),
        Ok(ev) => match ev {
            Event::MappingStart(None) => {},
            _ => {
                return Err(
                    DecodeError::ScalarCoercionError {
                        expected: ValueKind::Mapping,
                        got: kind_of_event(ev),
                    },
                )
            },
        },
    }
    let ghost p0 = c.pos as int;
    let mut acc: Vec<(String, String)> = Vec::new();
    assert(text_pairs_view(acc@) =~= Seq::empty());
    loop
        invariant
            c.stream == old(c).stream,
            s == c.model(),
            s == old(c).model(),
            p0 == old(c).pos + 1,
            text_entries(s, c.pos as int, text_pairs_view(acc@)) == text_entries(s, p0, Seq::empty()),
            text_map(s, old(c).pos as int) == text_entries(s, p0, Seq::empty()),
            text_entries(s, p0, Seq::empty()) matches Ok((l, _)) ==> keys_unique(l),
        decreases s.events.len() - c.pos,
    {
        let ghost p = c.pos as int;
        let ghost a = text_pairs_view(acc@);
        let ev = match c.next() {
            Err(e) => {
                assert(text_entries(s, p, a) == Err::<(Seq<(Seq<char>, Seq<char>)>, int), ErrorModel>(
                    e@,
                ));
                return Err(e);
            },
            Ok(ev) => ev,
        };
        if let Event::MappingEnd = ev {
            return Ok(acc);
        }
        let k = match event_text(ev) {
            Err(e) => {
                assert(text_entries(s, p, a) == Err::<(Seq<(Seq<char>, Seq<char>)>, int), ErrorModel>(
                    e@,
                ));
                return Err(e);
            },
            Ok(k) => k,
        };
        let v = match read_text(c) {
            Err(e) => {
                assert(text_entries(s, p, a) == Err::<(Seq<(Seq<char>, Seq<char>)>, int), ErrorModel>(
                    e@,
                ));
                return Err(e);
            },
            Ok(v) => v,
        };
        put_text_entry(&mut acc, k, v);
    }
}

} // verus!
