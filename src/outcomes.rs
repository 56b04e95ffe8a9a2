//! What whole documents decode to, whatever the order of their keys. A
//! document whose root mapping holds well-formed entries, each field at most
//! once and every mandatory field among them, decodes and keeps the values of
//! those entries. It is refused when the version is missing, when a key is
//! unknown, or when a field's value fails, as when a dependency's type is
//! unknown.
use vstd::prelude::*;

use crate::dependency::{
    dependency_fields, lemma_dependency_with_unknown_type_refused,
    lemma_failing_dependency_refuses_list, well_formed_dependency_entries,
};
use crate::document::{document_spec, trailer_spec};
use crate::error::{Container, ErrorModel};
use crate::event::{event_at, EventModel, StreamModel, TagModel};
use crate::read::{object_start, text_of};
use crate::specification::{
    default_model, field_of, field_value, first_missing, is_seen, lemma_mandatory_keys,
    lemma_unknown_key_refused, mark, none_seen, specification_fields, Seen, SpecField,
    SpecificationModel,
};
use crate::version::version_object;

verus! {

/// The start of a mapping tagged as the object named `name`.
pub open spec fn object_mapping(name: Seq<char>) -> EventModel {
    EventModel::MappingStart(Some(TagModel { handle: "!"@, suffix: "ruby/object:"@ + name }))
}

/// The checklist after the fields `fs` before index `i` were read.
pub open spec fn entries_seen(fs: Seq<SpecField>, i: int) -> Seen
    decreases i,
{
    if i <= 0 {
        none_seen()
    } else {
        mark(entries_seen(fs, i - 1), fs[i - 1])
    }
}

/// The specification after the entries before index `i` were read, the
/// entry at index `j` being field `fs[j]` with its key at `ps[j]`.
pub open spec fn entries_read(s: StreamModel, ps: Seq<int>, fs: Seq<SpecField>, i: int) -> SpecificationModel
    decreases i,
{
    if i <= 0 {
        default_model()
    } else {
        field_value(s, ps[i - 1] + 1, fs[i - 1], entries_read(s, ps, fs, i - 1))->Ok_0.0
    }
}

/// The first `n` entries of a specification mapping are well formed: the
/// entry at index `i` is a key at `ps[i]` naming field `fs[i]`, whose value
/// decodes and ends where the next entry starts, at `ps[i + 1]`; no field
/// comes twice.
pub open spec fn well_formed_entries(s: StreamModel, ps: Seq<int>, fs: Seq<SpecField>, n: int) -> bool {
    &&& 0 <= n <= fs.len()
    &&& ps.len() == fs.len() + 1
    &&& forall|i: int|
        0 <= i < n ==> {
            &&& text_of(event_at(s, #[trigger] ps[i])) is Ok
            &&& field_of(text_of(event_at(s, ps[i]))->Ok_0) == Some(fs[i])
            &&& field_value(s, ps[i] + 1, fs[i], default_model()) is Ok
            &&& field_value(s, ps[i] + 1, fs[i], default_model())->Ok_0.1 == ps[i + 1]
        }
    &&& forall|i: int, j: int| 0 <= i < j < n ==> #[trigger] fs[i] != #[trigger] fs[j]
}

/// The stream opens one document whose root mapping is tagged as a
/// specification, with its first entry at position 3.
pub open spec fn opens_specification(s: StreamModel, ps: Seq<int>) -> bool {
    &&& event_at(s, 0) == Ok::<EventModel, ErrorModel>(EventModel::StreamStart)
    &&& event_at(s, 1) == Ok::<EventModel, ErrorModel>(EventModel::DocumentStart)
    &&& event_at(s, 2) == Ok::<EventModel, ErrorModel>(object_mapping("Gem::Specification"@))
    &&& ps.len() > 0
    &&& ps[0] == 3
}

/// After the mapping's end at `end`, the document and the stream end, and
/// nothing follows.
pub open spec fn closes_document(s: StreamModel, end: int) -> bool {
    &&& event_at(s, end) == Ok::<EventModel, ErrorModel>(EventModel::MappingEnd)
    &&& event_at(s, end + 1) == Ok::<EventModel, ErrorModel>(EventModel::DocumentEnd)
    &&& event_at(s, end + 2) == Ok::<EventModel, ErrorModel>(EventModel::StreamEnd)
    &&& s.events.len() == end + 3
    &&& s.failure is None
}

/// Whether field `f` is among the first `n` of `fs`.
pub open spec fn has_field(fs: Seq<SpecField>, n: int, f: SpecField) -> bool {
    exists|i: int| 0 <= i < n && fs[i] == f
}

/// Every mandatory field is among the first `n` of `fs`.
pub open spec fn has_mandatory_fields(fs: Seq<SpecField>, n: int) -> bool {
    &&& has_field(fs, n, SpecField::Name)
    &&& has_field(fs, n, SpecField::Version)
    &&& has_field(fs, n, SpecField::Platform)
    &&& has_field(fs, n, SpecField::Dependencies)
    &&& has_field(fs, n, SpecField::RubygemsVersion)
    &&& has_field(fs, n, SpecField::SpecificationVersion)
    &&& has_field(fs, n, SpecField::Summary)
    &&& has_field(fs, n, SpecField::RequirePaths)
    &&& has_field(fs, n, SpecField::Homepage)
    &&& has_field(fs, n, SpecField::Licenses)
    &&& has_field(fs, n, SpecField::Files)
    &&& has_field(fs, n, SpecField::Authors)
}

proof fn lemma_mark_name(seen: Seen, g: SpecField)
    ensures
        is_seen(mark(seen, SpecField::Name), g) == (g == SpecField::Name || is_seen(seen, g)),
{
}

proof fn lemma_mark_version(seen: Seen, g: SpecField)
    ensures
        is_seen(mark(seen, SpecField::Version), g) == (g == SpecField::Version || is_seen(seen, g)),
{
}

proof fn lemma_mark_platform(seen: Seen, g: SpecField)
    ensures
        is_seen(mark(seen, SpecField::Platform), g) == (g == SpecField::Platform || is_seen(seen, g)),
{
}

proof fn lemma_mark_authors(seen: Seen, g: SpecField)
    ensures
        is_seen(mark(seen, SpecField::Authors), g) == (g == SpecField::Authors || is_seen(seen, g)),
{
}

proof fn lemma_mark_autorequire(seen: Seen, g: SpecField)
    ensures
        is_seen(mark(seen, SpecField::Autorequire), g) == (g == SpecField::Autorequire || is_seen(seen, g)),
{
}

proof fn lemma_mark_bindir(seen: Seen, g: SpecField)
    ensures
        is_seen(mark(seen, SpecField::Bindir), g) == (g == SpecField::Bindir || is_seen(seen, g)),
{
}

proof fn lemma_mark_cert_chain(seen: Seen, g: SpecField)
    ensures
        is_seen(mark(seen, SpecField::CertChain), g) == (g == SpecField::CertChain || is_seen(seen, g)),
{
}

proof fn lemma_mark_date(seen: Seen, g: SpecField)
    ensures
        is_seen(mark(seen, SpecField::Date), g) == (g == SpecField::Date || is_seen(seen, g)),
{
}

proof fn lemma_mark_dependencies(seen: Seen, g: SpecField)
    ensures
        is_seen(mark(seen, SpecField::Dependencies), g) == (g == SpecField::Dependencies || is_seen(seen, g)),
{
}

proof fn lemma_mark_description(seen: Seen, g: SpecField)
    ensures
        is_seen(mark(seen, SpecField::Description), g) == (g == SpecField::Description || is_seen(seen, g)),
{
}

proof fn lemma_mark_email(seen: Seen, g: SpecField)
    ensures
        is_seen(mark(seen, SpecField::Email), g) == (g == SpecField::Email || is_seen(seen, g)),
{
}

proof fn lemma_mark_executables(seen: Seen, g: SpecField)
    ensures
        is_seen(mark(seen, SpecField::Executables), g) == (g == SpecField::Executables || is_seen(seen, g)),
{
}

proof fn lemma_mark_extensions(seen: Seen, g: SpecField)
    ensures
        is_seen(mark(seen, SpecField::Extensions), g) == (g == SpecField::Extensions || is_seen(seen, g)),
{
}

proof fn lemma_mark_extra_rdoc_files(seen: Seen, g: SpecField)
    ensures
        is_seen(mark(seen, SpecField::ExtraRdocFiles), g) == (g == SpecField::ExtraRdocFiles || is_seen(seen, g)),
{
}

proof fn lemma_mark_files(seen: Seen, g: SpecField)
    ensures
        is_seen(mark(seen, SpecField::Files), g) == (g == SpecField::Files || is_seen(seen, g)),
{
}

proof fn lemma_mark_homepage(seen: Seen, g: SpecField)
    ensures
        is_seen(mark(seen, SpecField::Homepage), g) == (g == SpecField::Homepage || is_seen(seen, g)),
{
}

proof fn lemma_mark_licenses(seen: Seen, g: SpecField)
    ensures
        is_seen(mark(seen, SpecField::Licenses), g) == (g == SpecField::Licenses || is_seen(seen, g)),
{
}

proof fn lemma_mark_metadata(seen: Seen, g: SpecField)
    ensures
        is_seen(mark(seen, SpecField::Metadata), g) == (g == SpecField::Metadata || is_seen(seen, g)),
{
}

proof fn lemma_mark_post_install_message(seen: Seen, g: SpecField)
    ensures
        is_seen(mark(seen, SpecField::PostInstallMessage), g) == (g == SpecField::PostInstallMessage || is_seen(seen, g)),
{
}

proof fn lemma_mark_rdoc_options(seen: Seen, g: SpecField)
    ensures
        is_seen(mark(seen, SpecField::RdocOptions), g) == (g == SpecField::RdocOptions || is_seen(seen, g)),
{
}

proof fn lemma_mark_require_paths(seen: Seen, g: SpecField)
    ensures
        is_seen(mark(seen, SpecField::RequirePaths), g) == (g == SpecField::RequirePaths || is_seen(seen, g)),
{
}

proof fn lemma_mark_required_ruby_version(seen: Seen, g: SpecField)
    ensures
        is_seen(mark(seen, SpecField::RequiredRubyVersion), g) == (g == SpecField::RequiredRubyVersion || is_seen(seen, g)),
{
}

proof fn lemma_mark_required_rubygems_version(seen: Seen, g: SpecField)
    ensures
        is_seen(mark(seen, SpecField::RequiredRubygemsVersion), g) == (g == SpecField::RequiredRubygemsVersion || is_seen(seen, g)),
{
}

proof fn lemma_mark_requirements(seen: Seen, g: SpecField)
    ensures
        is_seen(mark(seen, SpecField::Requirements), g) == (g == SpecField::Requirements || is_seen(seen, g)),
{
}

proof fn lemma_mark_rubygems_version(seen: Seen, g: SpecField)
    ensures
        is_seen(mark(seen, SpecField::RubygemsVersion), g) == (g == SpecField::RubygemsVersion || is_seen(seen, g)),
{
}

proof fn lemma_mark_signing_key(seen: Seen, g: SpecField)
    ensures
        is_seen(mark(seen, SpecField::SigningKey), g) == (g == SpecField::SigningKey || is_seen(seen, g)),
{
}

proof fn lemma_mark_specification_version(seen: Seen, g: SpecField)
    ensures
        is_seen(mark(seen, SpecField::SpecificationVersion), g) == (g == SpecField::SpecificationVersion || is_seen(seen, g)),
{
}

proof fn lemma_mark_summary(seen: Seen, g: SpecField)
    ensures
        is_seen(mark(seen, SpecField::Summary), g) == (g == SpecField::Summary || is_seen(seen, g)),
{
}

proof fn lemma_mark_test_files(seen: Seen, g: SpecField)
    ensures
        is_seen(mark(seen, SpecField::TestFiles), g) == (g == SpecField::TestFiles || is_seen(seen, g)),
{
}

/// Marking field `f` as read marks it and leaves every other field as it was.
proof fn lemma_is_seen_mark(seen: Seen, f: SpecField, g: SpecField)
    ensures
        is_seen(mark(seen, f), g) == (f == g || is_seen(seen, g)),
{
    match f {
        SpecField::Name => lemma_mark_name(seen, g),
        SpecField::Version => lemma_mark_version(seen, g),
        SpecField::Platform => lemma_mark_platform(seen, g),
        SpecField::Authors => lemma_mark_authors(seen, g),
        SpecField::Autorequire => lemma_mark_autorequire(seen, g),
        SpecField::Bindir => lemma_mark_bindir(seen, g),
        SpecField::CertChain => lemma_mark_cert_chain(seen, g),
        SpecField::Date => lemma_mark_date(seen, g),
        SpecField::Dependencies => lemma_mark_dependencies(seen, g),
        SpecField::Description => lemma_mark_description(seen, g),
        SpecField::Email => lemma_mark_email(seen, g),
        SpecField::Executables => lemma_mark_executables(seen, g),
        SpecField::Extensions => lemma_mark_extensions(seen, g),
        SpecField::ExtraRdocFiles => lemma_mark_extra_rdoc_files(seen, g),
        SpecField::Files => lemma_mark_files(seen, g),
        SpecField::Homepage => lemma_mark_homepage(seen, g),
        SpecField::Licenses => lemma_mark_licenses(seen, g),
        SpecField::Metadata => lemma_mark_metadata(seen, g),
        SpecField::PostInstallMessage => lemma_mark_post_install_message(seen, g),
        SpecField::RdocOptions => lemma_mark_rdoc_options(seen, g),
        SpecField::RequirePaths => lemma_mark_require_paths(seen, g),
        SpecField::RequiredRubyVersion => lemma_mark_required_ruby_version(seen, g),
        SpecField::RequiredRubygemsVersion => lemma_mark_required_rubygems_version(seen, g),
        SpecField::Requirements => lemma_mark_requirements(seen, g),
        SpecField::RubygemsVersion => lemma_mark_rubygems_version(seen, g),
        SpecField::SigningKey => lemma_mark_signing_key(seen, g),
        SpecField::SpecificationVersion => lemma_mark_specification_version(seen, g),
        SpecField::Summary => lemma_mark_summary(seen, g),
        SpecField::TestFiles => lemma_mark_test_files(seen, g),
    }
}

proof fn lemma_entries_seen(fs: Seq<SpecField>, i: int, g: SpecField)
    requires
        0 <= i <= fs.len(),
    ensures
        is_seen(entries_seen(fs, i), g) == has_field(fs, i, g),
    decreases i,
{
    if i > 0 {
        lemma_entries_seen(fs, i - 1, g);
        lemma_is_seen_mark(entries_seen(fs, i - 1), fs[i - 1], g);
        if has_field(fs, i, g) && fs[i - 1] != g {
            let j = choose|j: int| 0 <= j < i && fs[j] == g;
            assert(0 <= j < i - 1 && fs[j] == g);
        }
        if has_field(fs, i - 1, g) {
            let j = choose|j: int| 0 <= j < i - 1 && fs[j] == g;
            assert(0 <= j < i && fs[j] == g);
        }
        if fs[i - 1] == g {
            assert(0 <= i - 1 < i && fs[i - 1] == g);
        }
    } else {
        assert(!has_field(fs, i, g));
    }
}

proof fn lemma_field_value_any_acc(s: StreamModel, p: int, f: SpecField, a: SpecificationModel, b: SpecificationModel)
    ensures
        (field_value(s, p, f, a) is Ok) == (field_value(s, p, f, b) is Ok),
        field_value(s, p, f, a) is Ok ==> field_value(s, p, f, a)->Ok_0.1 == field_value(s, p, f, b)->Ok_0.1,
        field_value(s, p, f, a) is Err ==> field_value(s, p, f, a) == field_value(s, p, f, b),
{
}

proof fn lemma_field_value_keeps(s: StreamModel, p: int, f: SpecField, a: SpecificationModel)
    requires
        field_value(s, p, f, a) is Ok,
    ensures
        f != SpecField::Name ==> field_value(s, p, f, a)->Ok_0.0.name == a.name,
        f != SpecField::Version ==> field_value(s, p, f, a)->Ok_0.0.version == a.version,
        f != SpecField::Platform ==> field_value(s, p, f, a)->Ok_0.0.platform == a.platform,
        f == SpecField::Name ==> field_value(s, p, f, a)->Ok_0.0.name == text_of(event_at(s, p))->Ok_0,
        f == SpecField::Version ==> field_value(s, p, f, a)->Ok_0.0.version == version_object(s, p)->Ok_0.0,
        f == SpecField::Platform ==> field_value(s, p, f, a)->Ok_0.0.platform == text_of(event_at(s, p))->Ok_0,
{
}

proof fn lemma_nothing_missing(fs: Seq<SpecField>, n: int)
    requires
        0 <= n <= fs.len(),
        has_mandatory_fields(fs, n),
    ensures
        first_missing(entries_seen(fs, n)) is None,
{
    lemma_entries_seen(fs, n, SpecField::Name);
    lemma_entries_seen(fs, n, SpecField::Version);
    lemma_entries_seen(fs, n, SpecField::Platform);
    lemma_entries_seen(fs, n, SpecField::Dependencies);
    lemma_entries_seen(fs, n, SpecField::RubygemsVersion);
    lemma_entries_seen(fs, n, SpecField::SpecificationVersion);
    lemma_entries_seen(fs, n, SpecField::Summary);
    lemma_entries_seen(fs, n, SpecField::RequirePaths);
    lemma_entries_seen(fs, n, SpecField::Homepage);
    lemma_entries_seen(fs, n, SpecField::Licenses);
    lemma_entries_seen(fs, n, SpecField::Files);
    lemma_entries_seen(fs, n, SpecField::Authors);
}

/// Reading well-formed entries: after the first `i` of them, the decode of
/// the mapping stands where the next one starts, with those entries read.
proof fn lemma_entries_read(s: StreamModel, ps: Seq<int>, fs: Seq<SpecField>, n: int, i: int)
    requires
        well_formed_entries(s, ps, fs, n),
        0 <= i <= n,
    ensures
        specification_fields(s, ps[0], default_model(), none_seen()) == specification_fields(
            s,
            ps[i],
            entries_read(s, ps, fs, i),
            entries_seen(fs, i),
        ),
    decreases i,
{
    if i > 0 {
        let j = i - 1;
        lemma_entries_read(s, ps, fs, n, j);
        let acc = entries_read(s, ps, fs, j);
        let seen = entries_seen(fs, j);
        lemma_entries_seen(fs, j, fs[j]);
        if has_field(fs, j, fs[j]) {
            let k = choose|k: int| 0 <= k < j && fs[k] == fs[j];
            assert(fs[k] != fs[j]);
        }
        lemma_field_value_any_acc(s, ps[j] + 1, fs[j], acc, default_model());
        assert(text_of(event_at(s, ps[j])) is Ok);
        assert(specification_fields(s, ps[j], acc, seen) == specification_fields(
            s,
            ps[i],
            entries_read(s, ps, fs, i),
            entries_seen(fs, i),
        ));
    }
}

/// What the first `i` well-formed entries leave in the name, version and
/// platform: the value of the entry for that field, where there is one.
proof fn lemma_entries_values(s: StreamModel, ps: Seq<int>, fs: Seq<SpecField>, n: int, i: int, j: int)
    requires
        well_formed_entries(s, ps, fs, n),
        0 <= j < i <= n,
    ensures
        fs[j] == SpecField::Name ==> entries_read(s, ps, fs, i).name == text_of(event_at(s, ps[j] + 1))->Ok_0,
        fs[j] == SpecField::Version ==> entries_read(s, ps, fs, i).version == version_object(s, ps[j] + 1)->Ok_0.0,
        fs[j] == SpecField::Platform ==> entries_read(s, ps, fs, i).platform == text_of(event_at(s, ps[j] + 1))->Ok_0,
    decreases i,
{
    let k = i - 1;
    let acc = entries_read(s, ps, fs, k);
    lemma_field_value_any_acc(s, ps[k] + 1, fs[k], acc, default_model());
    lemma_field_value_keeps(s, ps[k] + 1, fs[k], acc);
    if j < k {
        lemma_entries_values(s, ps, fs, n, k, j);
        assert(fs[j] != fs[k]);
    }
}

/// Every document whose root specification mapping holds well-formed
/// entries, each field at most once and every mandatory field among them, in
/// any order, decodes. The specification's name, version and platform are
/// the values of those entries.
pub proof fn lemma_document_decodes(s: StreamModel, ps: Seq<int>, fs: Seq<SpecField>)
    requires
        opens_specification(s, ps),
        well_formed_entries(s, ps, fs, fs.len() as int),
        closes_document(s, ps[fs.len() as int]),
        has_mandatory_fields(fs, fs.len() as int),
    ensures
        document_spec(s) matches Ok(m) && forall|j: int|
            0 <= j < fs.len() ==> {
                &&& #[trigger] fs[j] == SpecField::Name ==> m.name == text_of(event_at(s, ps[j] + 1))->Ok_0
                &&& fs[j] == SpecField::Version ==> m.version == version_object(s, ps[j] + 1)->Ok_0.0
                &&& fs[j] == SpecField::Platform ==> m.platform == text_of(event_at(s, ps[j] + 1))->Ok_0
            },
{
    let n = fs.len() as int;
    lemma_entries_read(s, ps, fs, n, n);
    let acc = entries_read(s, ps, fs, n);
    let seen = entries_seen(fs, n);
    lemma_nothing_missing(fs, n);
    assert(first_missing(seen) is None);
    assert(specification_fields(s, ps[n], acc, seen) == Ok::<_, ErrorModel>((acc, ps[n] + 1)));
    assert(trailer_spec(s, ps[n] + 1, acc) == Ok::<_, ErrorModel>(acc));
    assert forall|j: int| 0 <= j < n implies {
        &&& #[trigger] fs[j] == SpecField::Name ==> acc.name == text_of(event_at(s, ps[j] + 1))->Ok_0
        &&& fs[j] == SpecField::Version ==> acc.version == version_object(s, ps[j] + 1)->Ok_0.0
        &&& fs[j] == SpecField::Platform ==> acc.platform == text_of(event_at(s, ps[j] + 1))->Ok_0
    } by {
        lemma_entries_values(s, ps, fs, n, n, j);
    }
}

/// Every document whose root specification mapping holds well-formed
/// entries, in any order, with every mandatory field but `"version"` and no
/// `"version"`, is refused for the missing version.
pub proof fn lemma_document_without_version_is_refused(s: StreamModel, ps: Seq<int>, fs: Seq<SpecField>)
    requires
        opens_specification(s, ps),
        well_formed_entries(s, ps, fs, fs.len() as int),
        event_at(s, ps[fs.len() as int]) == Ok::<EventModel, ErrorModel>(EventModel::MappingEnd),
        has_field(fs, fs.len() as int, SpecField::Name),
        !has_field(fs, fs.len() as int, SpecField::Version),
    ensures
        document_spec(s) == Err::<SpecificationModel, ErrorModel>(
            ErrorModel::MissingField { container: Container::Specification, field: "version"@ },
        ),
{
    let n = fs.len() as int;
    lemma_entries_read(s, ps, fs, n, n);
    lemma_entries_seen(fs, n, SpecField::Name);
    lemma_entries_seen(fs, n, SpecField::Version);
    let seen = entries_seen(fs, n);
    assert(first_missing(seen) == Some("version"@));
}

/// A key outside the known set is refused wherever it stands: every document
/// whose root specification mapping holds well-formed entries and then such a
/// key is refused for that key.
pub proof fn lemma_unknown_key_is_refused(s: StreamModel, ps: Seq<int>, fs: Seq<SpecField>, n: int, k: Seq<char>)
    requires
        opens_specification(s, ps),
        well_formed_entries(s, ps, fs, n),
        n < ps.len(),
        text_of(event_at(s, ps[n])) == Ok::<Seq<char>, ErrorModel>(k),
        field_of(k) is None,
    ensures
        document_spec(s) == Err::<SpecificationModel, ErrorModel>(
            ErrorModel::UnknownField { container: Container::Specification, field: k },
        ),
{
    lemma_entries_read(s, ps, fs, n, n);
    lemma_unknown_key_refused(s, ps[n], entries_read(s, ps, fs, n), entries_seen(fs, n), k);
}

/// A field whose value fails ends the decode of every document with that
/// failure, wherever the field stands after well-formed entries: so a
/// `"dependencies"` value holding a dependency of an unknown type refuses the
/// document for that type.
pub proof fn lemma_failing_field_refuses_document(
    s: StreamModel,
    ps: Seq<int>,
    fs: Seq<SpecField>,
    n: int,
    f: SpecField,
    e: ErrorModel,
)
    requires
        opens_specification(s, ps),
        well_formed_entries(s, ps, fs, n),
        n < ps.len(),
        text_of(event_at(s, ps[n])) is Ok,
        field_of(text_of(event_at(s, ps[n]))->Ok_0) == Some(f),
        !has_field(fs, n, f),
        field_value(s, ps[n] + 1, f, default_model()) == Err::<(SpecificationModel, int), ErrorModel>(e),
    ensures
        document_spec(s) == Err::<SpecificationModel, ErrorModel>(e),
{
    lemma_entries_read(s, ps, fs, n, n);
    lemma_entries_seen(fs, n, f);
    lemma_field_value_any_acc(s, ps[n] + 1, f, entries_read(s, ps, fs, n), default_model());
}

/// Every document is refused for an unknown dependency type, in any order of
/// keys at every level: its root specification mapping holds well-formed
/// entries and then a `"dependencies"` entry, whose list holds dependencies
/// that decode and then one with well-formed entries followed by a `"type"`
/// entry whose token is neither `:runtime` nor `:development`.
pub proof fn lemma_unknown_dependency_type_refuses_document(
    s: StreamModel,
    ps: Seq<int>,
    fs: Seq<SpecField>,
    n: int,
    qs: Seq<int>,
    m: int,
    ds: Seq<int>,
    ks: Seq<Seq<char>>,
    l: int,
    t: Seq<char>,
)
    requires
        opens_specification(s, ps),
        well_formed_entries(s, ps, fs, n),
        n < ps.len(),
        text_of(event_at(s, ps[n])) == Ok::<Seq<char>, ErrorModel>("dependencies"@),
        !has_field(fs, n, SpecField::Dependencies),
        event_at(s, ps[n] + 1) == Ok::<EventModel, ErrorModel>(EventModel::SequenceStart(None)),
        0 <= m < qs.len(),
        qs[0] == ps[n] + 2,
        forall|j: int|
            0 <= j < m ==> {
                &&& object_start(event_at(s, #[trigger] qs[j]), "Gem::Dependency"@) is Ok
                &&& dependency_fields(s, qs[j] + 1, None, None, None, false, false) is Ok
                &&& dependency_fields(s, qs[j] + 1, None, None, None, false, false)->Ok_0.1 == qs[j + 1]
            },
        object_start(event_at(s, qs[m]), "Gem::Dependency"@) is Ok,
        well_formed_dependency_entries(s, ds, ks, l),
        ds[0] == qs[m] + 1,
        text_of(event_at(s, ds[l])) == Ok::<Seq<char>, ErrorModel>("type"@),
        text_of(event_at(s, ds[l] + 1)) == Ok::<Seq<char>, ErrorModel>(t),
        t != ":runtime"@,
        t != ":development"@,
    ensures
        document_spec(s) == Err::<SpecificationModel, ErrorModel>(
            ErrorModel::UnknownDependencyType { value: t },
        ),
{
    let e = ErrorModel::UnknownDependencyType { value: t };
    lemma_mandatory_keys();
    lemma_dependency_with_unknown_type_refused(s, ds, ks, l, t);
    lemma_failing_dependency_refuses_list(s, qs, m, 0, Seq::empty(), e);
    assert(field_value(s, ps[n] + 1, SpecField::Dependencies, default_model()) == Err::<
        (SpecificationModel, int),
        ErrorModel,
    >(e));
    lemma_failing_field_refuses_document(s, ps, fs, n, SpecField::Dependencies, e);
}

} // verus!
