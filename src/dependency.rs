//! Dependencies on other packages, and their decoder.
use vstd::prelude::*;
use vstd::string::*;

use crate::error::{Container, DecodeError, ErrorModel, ValueKind};
use crate::event::{event_at, Event, EventCursor, EventModel, StreamModel};
use crate::read::{
    event_kind, event_object_start, event_text, kind_of_event, object_start, read_text, text_of,
};
use crate::requirement::{
    lemma_requirement_object_advance, read_requirement, requirement_object, Requirement,
    RequirementModel,
};
use crate::text::{opt_text, text_is};

verus! {

/// Whether a dependency is needed at run time or only for development.
#[derive(Debug, Clone, Copy, PartialEq, Eq, Structural)]
pub enum DependencyType {
    Runtime,
    Development,
}

/// A dependency: the name of a package, the versions of it that are accepted,
/// and its kind.
#[derive(Debug, PartialEq, Eq)]
pub struct Dependency {
    name: String,
    requirement: Requirement,
    kind: DependencyType,
}

/// The mathematical value of a [`Dependency`].
pub struct DependencyModel {
    pub name: Seq<char>,
    pub requirement: RequirementModel,
    pub kind: DependencyType,
}

impl View for Dependency {
    type V = DependencyModel;

    closed spec fn view(&self) -> DependencyModel {
        DependencyModel { name: self.name@, requirement: self.requirement@, kind: self.kind }
    }
}

impl Dependency {
    /// A dependency always names a package: its name is never empty.
    #[verifier::type_invariant]
    spec fn inv(&self) -> bool {
        self.name@.len() > 0
    }

    pub fn new(name: String, requirement: Requirement, kind: DependencyType) -> (r: Self)
        requires
            name@.len() > 0,
        ensures
            r@ == (DependencyModel { name: name@, requirement: requirement@, kind }),
    {
        Dependency { name, requirement, kind }
    }

    pub fn name(&self) -> (r: &str)
        ensures
            r@ == self@.name,
            r@.len() > 0,
    {
        proof {
            use_type_invariant(self);
        }
        self.name.as_str()
    }

    pub fn requirement(&self) -> (r: &Requirement)
        ensures
            r@ == self@.requirement,
    {
        &self.requirement
    }

    pub fn dependency_type(&self) -> (r: DependencyType)
        ensures
            r == self@.kind,
    {
        self.kind
    }
}

pub open spec fn opt_requirement(o: Option<Requirement>) -> Option<RequirementModel> {
    match o {
        Some(r) => Some(r@),
        None => None,
    }
}

/// The kind that the token of a `"type"` field names.
pub open spec fn dependency_type_of(t: Seq<char>) -> Option<DependencyType> {
    if t == ":runtime"@ {
        Some(DependencyType::Runtime)
    } else if t == ":development"@ {
        Some(DependencyType::Development)
    } else {
        None
    }
}

/// Whether key `k` was already read, given what has been seen of the
/// dependency's fields.
pub open spec fn dependency_key_seen(
    k: Seq<char>,
    name: Option<Seq<char>>,
    req: Option<RequirementModel>,
    kind: Option<DependencyType>,
    pre: bool,
    old_req: bool,
) -> bool {
    (k == "name"@ && name is Some) || (k == "requirement"@ && req is Some) || (k == "type"@
        && kind is Some) || (k == "prerelease"@ && pre) || (k == "version_requirements"@ && old_req)
}

/// The fields of a dependency mapping from `pos` on, with what has been seen
/// so far of its name, requirement and kind, and whether `"prerelease"` and
/// `"version_requirements"` were read. Each key may appear once; the name must
/// be present and not empty.
pub open spec fn dependency_fields(
    s: StreamModel,
    pos: int,
    name: Option<Seq<char>>,
    req: Option<RequirementModel>,
    kind: Option<DependencyType>,
    pre: bool,
    old_req: bool,
) -> Result<(DependencyModel, int), ErrorModel>
    decreases s.events.len() - pos,
{
    match event_at(s, pos) {
        Err(e) => Err(e),
        Ok(ev) => if ev is MappingEnd {
            if name is None || name->0.len() == 0 {
                Err(ErrorModel::MissingField { container: Container::Dependency, field: "name"@ })
            } else if req is None {
                Err(ErrorModel::MissingField { container: Container::Dependency, field: "requirement"@ })
            } else if kind is None {
                Err(ErrorModel::MissingField { container: Container::Dependency, field: "type"@ })
            } else {
                Ok((DependencyModel { name: name->0, requirement: req->0, kind: kind->0 }, pos + 1))
            }
        } else {
            match text_of(Ok(ev)) {
                Err(e) => Err(e),
                Ok(k) => if dependency_key_seen(k, name, req, kind, pre, old_req) {
                    Err(ErrorModel::DuplicateField { container: Container::Dependency, field: k })
                } else if k == "name"@ {
                    match text_of(event_at(s, pos + 1)) {
                        Err(e) => Err(e),
                        Ok(t) => dependency_fields(s, pos + 2, Some(t), req, kind, pre, old_req),
                    }
                } else if k == "requirement"@ || k == "version_requirements"@ {
                    match requirement_object(s, pos + 1) {
                        Err(e) => Err(e),
                        Ok((r, q)) => {
                            proof {
                                lemma_requirement_object_advance(s, pos + 1);
                            }
                            if k == "requirement"@ {
                                dependency_fields(s, q, name, Some(r), kind, pre, old_req)
                            } else {
                                dependency_fields(s, q, name, req, kind, pre, true)
                            }
                        },
                    }
                } else if k == "type"@ {
                    match text_of(event_at(s, pos + 1)) {
                        Err(e) => Err(e),
                        Ok(t) => match dependency_type_of(t) {
                            Some(d) => dependency_fields(s, pos + 2, name, req, Some(d), pre, old_req),
                            None => Err(ErrorModel::UnknownDependencyType { value: t }),
                        },
                    }
                } else if k == "prerelease"@ {
                    match event_at(s, pos + 1) {
                        Err(e) => Err(e),
                        Ok(v) => match v {
                            EventModel::Scalar(_, _, None) => dependency_fields(
                                s,
                                pos + 2,
                                name,
                                req,
                                kind,
                                true,
                                old_req,
                            ),
                            _ => Err(
                                ErrorModel::ScalarCoercionError {
                                    expected: ValueKind::Bool,
                                    got: event_kind(v),
                                },
                            ),
                        },
                    }
                } else {
                    Err(ErrorModel::UnknownField { container: Container::Dependency, field: k })
                },
            }
        },
    }
}

/// A successful decode of a dependency mapping ends past where it started,
/// with a name that is not empty.
pub proof fn lemma_dependency_fields_advance(
    s: StreamModel,
    pos: int,
    name: Option<Seq<char>>,
    req: Option<RequirementModel>,
    kind: Option<DependencyType>,
    pre: bool,
    old_req: bool,
)
    ensures
        dependency_fields(s, pos, name, req, kind, pre, old_req) matches Ok((d, q)) ==> pos < q
            <= s.events.len() && d.name.len() > 0,
    decreases s.events.len() - pos,
{
    if let Ok(ev) = event_at(s, pos) {
        if !(ev is MappingEnd) {
            if let Ok(k) = text_of(Ok(ev)) {
                if dependency_key_seen(k, name, req, kind, pre, old_req) {
                } else if k == "name"@ {
                    if let Ok(t) = text_of(event_at(s, pos + 1)) {
                        lemma_dependency_fields_advance(s, pos + 2, Some(t), req, kind, pre, old_req);
                    }
                } else if k == "requirement"@ || k == "version_requirements"@ {
                    lemma_requirement_object_advance(s, pos + 1);
                    if let Ok((r, q)) = requirement_object(s, pos + 1) {
                        lemma_dependency_fields_advance(s, q, name, Some(r), kind, pre, old_req);
                        lemma_dependency_fields_advance(s, q, name, req, kind, pre, true);
                    }
                } else if k == "type"@ {
                    if let Ok(t) = text_of(event_at(s, pos + 1)) {
                        if let Some(d) = dependency_type_of(t) {
                            lemma_dependency_fields_advance(s, pos + 2, name, req, Some(d), pre, old_req);
                        }
                    }
                } else if k == "prerelease"@ {
                    if let Ok(v) = event_at(s, pos + 1) {
                        lemma_dependency_fields_advance(s, pos + 2, name, req, kind, true, old_req);
                    }
                }
            }
        }
    }
}

/// A `"type"` field, not seen before in its mapping, whose token is neither
/// `:runtime` nor `:development` ends the decode of its dependency with an
/// error carrying that token.
pub proof fn lemma_unknown_dependency_type_refused(
    s: StreamModel,
    pos: int,
    name: Option<Seq<char>>,
    req: Option<RequirementModel>,
    pre: bool,
    old_req: bool,
    t: Seq<char>,
)
    requires
        text_of(event_at(s, pos)) == Ok::<Seq<char>, ErrorModel>("type"@),
        text_of(event_at(s, pos + 1)) == Ok::<Seq<char>, ErrorModel>(t),
        t != ":runtime"@,
        t != ":development"@,
    ensures
        dependency_fields(s, pos, name, req, None, pre, old_req) == Err::<
            (DependencyModel, int),
            ErrorModel,
        >(ErrorModel::UnknownDependencyType { value: t }),
{
    reveal_strlit("type");
    reveal_strlit("name");
    reveal_strlit("requirement");
    reveal_strlit("prerelease");
    reveal_strlit("version_requirements");
    assert("type"@.len() != "name"@.len() || "type"@[0] != "name"@[0]);
    assert("type"@.len() != "requirement"@.len());
    assert("type"@.len() != "prerelease"@.len());
    assert("type"@.len() != "version_requirements"@.len());
}

/// Decodes a dependency mapping whose start has just been pulled, through the
/// mapping's end. `"name"`, `"requirement"` and `"type"` must each be present,
/// and the name must not be empty; `"prerelease"` (a scalar) and
/// `"version_requirements"` are read and set aside. No key may appear twice.
pub fn decode_dependency(c: &mut EventCursor) -> (r: Result<Dependency, DecodeError>)
    ensures
        final(c).stream == old(c).stream,
        match dependency_fields(old(c).model(), old(c).pos as int, None, None, None, false, false) {
            Ok((v, p)) => r matches Ok(x) && x@ == v && x@.name.len() > 0 && final(c).pos == p,
            Err(e) => r matches Err(x) && x@ == e,
        },
{
    let ghost s = c.model();
    let ghost pos0 = c.pos as int;
    let mut name: Option<String> = None;
    let mut req: Option<Requirement> = None;
    let mut kind: Option<DependencyType> = None;
    let mut pre = false;
    let mut old_req = false;
    loop
        invariant
            c.stream == old(c).stream,
            s == c.model(),
            s == old(c).model(),
            pos0 == old(c).pos,
            dependency_fields(s, c.pos as int, opt_text(name), opt_requirement(req), kind, pre, old_req)
                == dependency_fields(s, pos0, None, None, None, false, false),
        decreases s.events.len() - c.pos,
    {
        let ghost pos = c.pos as int;
        let ghost cur = dependency_fields(
            s,
            pos,
            opt_text(name),
            opt_requirement(req),
            kind,
            pre,
            old_req,
        );
        let ev = match c.next() {
            Err(e) => {
                assert(cur == Err::<(DependencyModel, int), ErrorModel>(e@));
                return Err(e);
            },
            Ok(ev) => ev,
        };
        if let Event::MappingEnd = ev {
            match (name, req, kind) {
                (Some(n), Some(q), Some(d)) => {
                    if n.as_str().unicode_len() > 0 {
                        let r = Dependency { name: n, requirement: q, kind: d };
                        return Ok(r);
                    }
                    let e = DecodeError::MissingField {
                        container: Container::Dependency,
                        field: String::from_str("name"),
                    };
                    assert(cur == Err::<(DependencyModel, int), ErrorModel>(e@));
                    return Err(e);
                },
                (n, q, _) => {
                    let named = match &n {
                        Some(t) => t.as_str().unicode_len() > 0,
                        None => false,
                    };
                    let f = if !named {
                        "name"
                    } else if q.is_none() {
                        "requirement"
                    } else {
                        "type"
                    };
                    let e = DecodeError::MissingField {
                        container: Container::Dependency,
                        field: String::from_str(f),
                    };
                    assert(cur == Err::<(DependencyModel, int), ErrorModel>(e@));
                    return Err(e);
                },
            }
        }
        let k = match event_text(ev) {
            Err(e) => {
                assert(cur == Err::<(DependencyModel, int), ErrorModel>(e@));
                return Err(e);
            },
            Ok(k) => k,
        };
        let is_name = text_is(k.as_str(), "name");
        let is_req = text_is(k.as_str(), "requirement");
        let is_type = text_is(k.as_str(), "type");
        let is_pre = text_is(k.as_str(), "prerelease");
        let is_old_req = text_is(k.as_str(), "version_requirements");
        if (is_name && name.is_some()) || (is_req && req.is_some()) || (is_type && kind.is_some()) || (
        is_pre && pre) || (is_old_req && old_req) {
            let e = DecodeError::DuplicateField { container: Container::Dependency, field: k };
            assert(cur == Err::<(DependencyModel, int), ErrorModel>(e@));
            return Err(e);
        }
        if is_name {
            match read_text(c) {
                Err(e) => {
                    assert(cur == Err::<(DependencyModel, int), ErrorModel>(e@));
                    return Err(e);
                },
                Ok(t) => {
                    name = Some(t);
                },
            }
        } else if is_req || is_old_req {
            match read_requirement(c) {
                Err(e) => {
                    assert(cur == Err::<(DependencyModel, int), ErrorModel>(e@));
                    return Err(e);
                },
                Ok(r) => {
                    proof {
                        lemma_requirement_object_advance(s, pos + 1);
                    }
                    if is_req {
                        req = Some(r);
                    } else {
                        old_req = true;
                    }
                },
            }
        } else if is_type {
            let t = match read_text(c) {
                Err(e) => {
                    assert(cur == Err::<(DependencyModel, int), ErrorModel>(e@));
                    return Err(e);
                },
                Ok(t) => t,
            };
            if text_is(t.as_str(), ":runtime") {
                kind = Some(DependencyType::Runtime);
            } else if text_is(t.as_str(), ":development") {
                kind = Some(DependencyType::Development);
            } else {
                let e = DecodeError::UnknownDependencyType { value: t };
                assert(cur == Err::<(DependencyModel, int), ErrorModel>(e@));
                return Err(e);
            }
        } else if is_pre {
            match c.next() {
                Err(e) => {
                    assert(cur == Err::<(DependencyModel, int), ErrorModel>(e@));
                    return Err(e);
                },
                Ok(v) => match v {
                    Event::Scalar(_, _, None) => {
                        pre = true;
                    },
                    _ => {
                        let e = DecodeError::ScalarCoercionError {
                            expected: ValueKind::Bool,
                            got: kind_of_event(v),
                        };
                        assert(cur == Err::<(DependencyModel, int), ErrorModel>(e@));
                        return Err(e);
                    },
                },
            }
        } else {
            let e = DecodeError::UnknownField { container: Container::Dependency, field: k };
            assert(cur == Err::<(DependencyModel, int), ErrorModel>(e@));
            return Err(e);
        }
    }
}

pub open spec fn dependencies_view(v: Seq<Dependency>) -> Seq<DependencyModel> {
    v.map_values(|d: Dependency| d@)
}

/// The dependency objects of a sequence whose opening has been pulled, `acc`
/// holding those read so far.
pub open spec fn dependency_items(s: StreamModel, p: int, acc: Seq<DependencyModel>) -> Result<
    (Seq<DependencyModel>, int),
    ErrorModel,
>
    decreases s.events.len() - p,
{
    match event_at(s, p) {
        Err(e) => Err(e),
        Ok(ev) => if ev is SequenceEnd {
            Ok((acc, p + 1))
        } else {
            match object_start(Ok(ev), "Gem::Dependency"@) {
                Err(e) => Err(e),
                Ok(_) => match dependency_fields(s, p + 1, None, None, None, false, false) {
                    Err(e) => Err(e),
                    Ok((d, q)) => {
                        proof {
                            lemma_dependency_fields_advance(s, p + 1, None, None, None, false, false);
                        }
                        dependency_items(s, q, acc.push(d))
                    },
                },
            }
        },
    }
}

pub proof fn lemma_dependency_items_advance(s: StreamModel, p: int, acc: Seq<DependencyModel>)
    ensures
        dependency_items(s, p, acc) matches Ok((_, q)) ==> p < q <= s.events.len(),
    decreases s.events.len() - p,
{
    if let Ok(ev) = event_at(s, p) {
        if let Ok(_) = object_start(Ok(ev), "Gem::Dependency"@) {
            lemma_dependency_fields_advance(s, p + 1, None, None, None, false, false);
            if let Ok((d, q)) = dependency_fields(s, p + 1, None, None, None, false, false) {
                lemma_dependency_items_advance(s, q, acc.push(d));
            }
        }
    }
}

/// What a dependency mapping's decode has kept after some entries: the name,
/// the requirement, and whether `"prerelease"` and `"version_requirements"`
/// were read.
pub struct DependencyState {
    pub name: Option<Seq<char>>,
    pub req: Option<RequirementModel>,
    pub pre: bool,
    pub old_req: bool,
}

/// The state after the entries before index `i`, the entry at index `j`
/// having key `ks[j]` at position `ds[j]`.
pub open spec fn dependency_state(s: StreamModel, ds: Seq<int>, ks: Seq<Seq<char>>, i: int) -> DependencyState
    decreases i,
{
    if i <= 0 {
        DependencyState { name: None, req: None, pre: false, old_req: false }
    } else {
        let st = dependency_state(s, ds, ks, i - 1);
        let k = ks[i - 1];
        let p = ds[i - 1] + 1;
        if k == "name"@ {
            DependencyState { name: Some(text_of(event_at(s, p))->Ok_0), ..st }
        } else if k == "requirement"@ {
            DependencyState { req: Some(requirement_object(s, p)->Ok_0.0), ..st }
        } else if k == "prerelease"@ {
            DependencyState { pre: true, ..st }
        } else {
            DependencyState { old_req: true, ..st }
        }
    }
}

/// Whether key `k` is among the first `n` of `ks`.
pub open spec fn has_key(ks: Seq<Seq<char>>, n: int, k: Seq<char>) -> bool {
    exists|i: int| 0 <= i < n && ks[i] == k
}

/// The first `n` entries of a dependency mapping are well formed, each being
/// `"name"`, `"requirement"`, `"prerelease"` or `"version_requirements"` with
/// a value that decodes and ends where the next entry starts; no key comes
/// twice.
pub open spec fn well_formed_dependency_entries(
    s: StreamModel,
    ds: Seq<int>,
    ks: Seq<Seq<char>>,
    n: int,
) -> bool {
    &&& 0 <= n <= ks.len()
    &&& ds.len() == ks.len() + 1
    &&& forall|i: int|
        0 <= i < n ==> {
            &&& text_of(event_at(s, #[trigger] ds[i])) == Ok::<Seq<char>, ErrorModel>(ks[i])
            &&& {
                ||| ks[i] == "name"@ && text_of(event_at(s, ds[i] + 1)) is Ok && ds[i + 1] == ds[i] + 2
                ||| (ks[i] == "requirement"@ || ks[i] == "version_requirements"@) && requirement_object(
                    s,
                    ds[i] + 1,
                ) is Ok && requirement_object(s, ds[i] + 1)->Ok_0.1 == ds[i + 1]
                ||| ks[i] == "prerelease"@ && (event_at(s, ds[i] + 1) matches Ok(
                    EventModel::Scalar(_, _, None),
                )) && ds[i + 1] == ds[i] + 2
            }
        }
    &&& forall|i: int, j: int| 0 <= i < j < n ==> #[trigger] ks[i] != #[trigger] ks[j]
}

proof fn lemma_dependency_keys_differ()
    ensures
        "name"@ != "requirement"@,
        "name"@ != "prerelease"@,
        "name"@ != "version_requirements"@,
        "name"@ != "type"@,
        "requirement"@ != "prerelease"@,
        "requirement"@ != "version_requirements"@,
        "requirement"@ != "type"@,
        "prerelease"@ != "version_requirements"@,
        "prerelease"@ != "type"@,
        "version_requirements"@ != "type"@,
{
    reveal_strlit("name");
    reveal_strlit("requirement");
    reveal_strlit("prerelease");
    reveal_strlit("version_requirements");
    reveal_strlit("type");
    assert("name"@.len() == 4);
    assert("requirement"@.len() == 11);
    assert("prerelease"@.len() == 10);
    assert("version_requirements"@.len() == 20);
    assert("type"@.len() == 4);
    assert("name"@[0] != "type"@[0]);
}

/// Reading well-formed entries of a dependency mapping: after the first `i`
/// of them, the decode stands where the next one starts, with their state.
proof fn lemma_dependency_entries_read(s: StreamModel, ds: Seq<int>, ks: Seq<Seq<char>>, n: int, i: int)
    requires
        well_formed_dependency_entries(s, ds, ks, n),
        0 <= i <= n,
    ensures
        ({
            let st = dependency_state(s, ds, ks, i);
            &&& dependency_fields(s, ds[0], None, None, None, false, false) == dependency_fields(
                s,
                ds[i],
                st.name,
                st.req,
                None,
                st.pre,
                st.old_req,
            )
            &&& st.name is Some <==> has_key(ks, i, "name"@)
            &&& st.req is Some <==> has_key(ks, i, "requirement"@)
            &&& st.pre <==> has_key(ks, i, "prerelease"@)
            &&& st.old_req <==> has_key(ks, i, "version_requirements"@)
        }),
    decreases i,
{
    lemma_dependency_keys_differ();
    if i > 0 {
        let j = i - 1;
        lemma_dependency_entries_read(s, ds, ks, n, j);
        let k = ks[j];
        assert forall|key: Seq<char>| has_key(ks, i, key) <==> (has_key(ks, j, key) || k == key) by {
            if has_key(ks, i, key) {
                let x = choose|x: int| 0 <= x < i && ks[x] == key;
                if x < j {
                    assert(0 <= x < j && ks[x] == key);
                }
            }
            if has_key(ks, j, key) {
                let x = choose|x: int| 0 <= x < j && ks[x] == key;
                assert(0 <= x < i && ks[x] == key);
            }
            if k == key {
                assert(0 <= j < i && ks[j] == key);
            }
        }
        if has_key(ks, j, k) {
            let x = choose|x: int| 0 <= x < j && ks[x] == k;
            assert(ks[x] != ks[j]);
        }
        assert(text_of(event_at(s, ds[j])) == Ok::<Seq<char>, ErrorModel>(k));
        if k == "requirement"@ || k == "version_requirements"@ {
            lemma_requirement_object_advance(s, ds[j] + 1);
        }
    }
}

/// A dependency whose type token is neither `:runtime` nor `:development` is
/// refused for that token, whatever well-formed entries come before its
/// `"type"` entry, in any order.
pub proof fn lemma_dependency_with_unknown_type_refused(
    s: StreamModel,
    ds: Seq<int>,
    ks: Seq<Seq<char>>,
    n: int,
    t: Seq<char>,
)
    requires
        well_formed_dependency_entries(s, ds, ks, n),
        text_of(event_at(s, ds[n])) == Ok::<Seq<char>, ErrorModel>("type"@),
        text_of(event_at(s, ds[n] + 1)) == Ok::<Seq<char>, ErrorModel>(t),
        t != ":runtime"@,
        t != ":development"@,
    ensures
        dependency_fields(s, ds[0], None, None, None, false, false) == Err::<
            (DependencyModel, int),
            ErrorModel,
        >(ErrorModel::UnknownDependencyType { value: t }),
{
    lemma_dependency_entries_read(s, ds, ks, n, n);
    let st = dependency_state(s, ds, ks, n);
    lemma_unknown_dependency_type_refused(s, ds[n], st.name, st.req, st.pre, st.old_req, t);
}

/// A dependency that fails refuses its whole list, wherever it stands after
/// dependencies that decode: the dependency at index `j` opens at `qs[j]`,
/// those from index `i` up to `n` decode, and the one at index `n` fails with
/// `e`.
pub proof fn lemma_failing_dependency_refuses_list(
    s: StreamModel,
    qs: Seq<int>,
    n: int,
    i: int,
    acc: Seq<DependencyModel>,
    e: ErrorModel,
)
    requires
        0 <= i <= n < qs.len(),
        forall|j: int|
            i <= j < n ==> {
                &&& object_start(event_at(s, #[trigger] qs[j]), "Gem::Dependency"@) is Ok
                &&& dependency_fields(s, qs[j] + 1, None, None, None, false, false) is Ok
                &&& dependency_fields(s, qs[j] + 1, None, None, None, false, false)->Ok_0.1 == qs[j + 1]
            },
        object_start(event_at(s, qs[n]), "Gem::Dependency"@) is Ok,
        dependency_fields(s, qs[n] + 1, None, None, None, false, false) == Err::<
            (DependencyModel, int),
            ErrorModel,
        >(e),
    ensures
        dependency_items(s, qs[i], acc) == Err::<(Seq<DependencyModel>, int), ErrorModel>(e),
    decreases n - i,
{
    if i < n {
        assert(object_start(event_at(s, qs[i]), "Gem::Dependency"@) is Ok);
        let d = dependency_fields(s, qs[i] + 1, None, None, None, false, false)->Ok_0.0;
        lemma_failing_dependency_refuses_list(s, qs, n, i + 1, acc.push(d), e);
    }
}

/// A sequence of dependency objects, from its opening on.
pub open spec fn dependency_list(s: StreamModel, p: int) -> Result<
    (Seq<DependencyModel>, int),
    ErrorModel,
> {
    match event_at(s, p) {
        Err(e) => Err(e),
        Ok(ev) => if ev == EventModel::SequenceStart(None) {
            dependency_items(s, p + 1, Seq::empty())
        } else {
            Err(ErrorModel::ScalarCoercionError { expected: ValueKind::Sequence, got: event_kind(ev) })
        },
    }
}

pub proof fn lemma_dependency_list_advance(s: StreamModel, p: int)
    ensures
        dependency_list(s, p) matches Ok((_, q)) ==> p < q <= s.events.len(),
{
    lemma_dependency_items_advance(s, p + 1, Seq::empty());
}

/// Pulls a whole sequence of dependency objects.
pub fn read_dependency_list(c: &mut EventCursor) -> (r: Result<Vec<Dependency>, DecodeError>)
    ensures
        final(c).stream == old(c).stream,
        match dependency_list(old(c).model(), old(c).pos as int) {
            Ok((l, q)) => r matches Ok(x) && dependencies_view(x@) == l && final(c).pos == q && (
            forall|i: int| 0 <= i < l.len() ==> (#[trigger] l[i]).name.len() > 0),
            Err(e) => r matches Err(x) && x@ == e,
        },
{
    let ghost s = c.model();
    match c.next() {
        Err(e) => return Err(e),
        Ok(ev) => match ev {
            Event::SequenceStart(None) => {},
            _ => {
                return Err(
                    DecodeError::ScalarCoercionError {
                        expected: ValueKind::Sequence,
                        got: kind_of_event(ev),
                    },
                )
            },
        },
    }
    let ghost p0 = c.pos as int;
    let mut acc: Vec<Dependency> = Vec::new();
    assert(dependencies_view(acc@) =~= Seq::empty());
    loop
        invariant
            c.stream == old(c).stream,
            s == c.model(),
            s == old(c).model(),
            p0 == old(c).pos + 1,
            dependency_items(s, c.pos as int, dependencies_view(acc@)) == dependency_items(
                s,
                p0,
                Seq::empty(),
            ),
            dependency_list(s, old(c).pos as int) == dependency_items(s, p0, Seq::empty()),
            forall|i: int| 0 <= i < acc@.len() ==> (#[trigger] acc@[i])@.name.len() > 0,
        decreases s.events.len() - c.pos,
    {
        let ghost p = c.pos as int;
        let ghost a = dependencies_view(acc@);
        let ev = match c.next() {
            Err(e) => {
                assert(dependency_items(s, p, a) == Err::<(Seq<DependencyModel>, int), ErrorModel>(
                    e@,
                ));
                return Err(e);
            },
            Ok(ev) => ev,
        };
        if let Event::SequenceEnd = ev {
            assert forall|i: int| 0 <= i < a.len() implies (#[trigger] a[i]).name.len() > 0 by {
                assert(a[i] == acc@[i]@);
            }
            return Ok(acc);
        }
        match event_object_start(ev, "Gem::Dependency") {
            Err(e) => {
                assert(dependency_items(s, p, a) == Err::<(Seq<DependencyModel>, int), ErrorModel>(
                    e@,
                ));
                return Err(e);
            },
            Ok(_) => {},
        }
        let d = match decode_dependency(c) {
            Err(e) => {
                assert(dependency_items(s, p, a) == Err::<(Seq<DependencyModel>, int), ErrorModel>(
                    e@,
                ));
                return Err(e);
            },
            Ok(d) => d,
        };
        proof {
            lemma_dependency_fields_advance(s, p + 1, None, None, None, false, false);
        }
        let ghost old_acc = acc@;
        acc.push(d);
        assert(dependencies_view(acc@) =~= a.push(d@)) by {
            assert(acc@ =~= old_acc.push(d));
        }
    }
}

} // verus!
