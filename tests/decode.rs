use gemspec_rs::dependency::{decode_dependency, DependencyType};
use gemspec_rs::document::decode_document;
use gemspec_rs::error::{Container, DecodeError, ValueKind};
use gemspec_rs::event::{Event, EventCursor, EventStream, ScalarStyle, Tag};
use gemspec_rs::requirement::{decode_requirement, RequirementOperator};
use gemspec_rs::specification::Specification;
use gemspec_rs::version::VersionSegment;

fn tag(name: &str) -> Option<Tag> {
    Some(Tag { handle: "!".to_string(), suffix: format!("ruby/object:{}", name) })
}

fn plain(t: &str) -> Event {
    Event::Scalar(t.to_string(), ScalarStyle::Plain, None)
}

fn quoted(t: &str) -> Event {
    Event::Scalar(t.to_string(), ScalarStyle::SingleQuoted, None)
}

fn version_object(v: &str) -> Vec<Event> {
    vec![
        Event::MappingStart(tag("Gem::Version")),
        plain("version"),
        quoted(v),
        Event::MappingEnd,
    ]
}

fn list(items: &[&str]) -> Vec<Event> {
    let mut v = vec![Event::SequenceStart(None)];
    for i in items {
        v.push(plain(i));
    }
    v.push(Event::SequenceEnd);
    v
}

fn field(key: &str, value: Vec<Event>) -> Vec<Event> {
    let mut v = vec![plain(key)];
    v.extend(value);
    v
}

fn rake_fields() -> Vec<Vec<Event>> {
    vec![
        field("name", vec![plain("rake")]),
        field("version", version_object("13.0.6")),
        field("platform", vec![plain("ruby")]),
        field("dependencies", list(&[])),
        field("rubygems_version", vec![plain("3.4.10")]),
        field("specification_version", vec![plain("4")]),
        field("summary", vec![plain("x")]),
        field("require_paths", list(&["lib"])),
        field("homepage", vec![plain("h")]),
        field("licenses", list(&["MIT"])),
        field("files", list(&[])),
        field("authors", list(&["a"])),
    ]
}

fn document(fields: Vec<Vec<Event>>) -> EventStream {
    let mut events = vec![
        Event::StreamStart,
        Event::DocumentStart,
        Event::MappingStart(tag("Gem::Specification")),
    ];
    for f in fields {
        events.extend(f);
    }
    events.extend(vec![Event::MappingEnd, Event::DocumentEnd, Event::StreamEnd]);
    EventStream { events, failure: None }
}

fn decode(fields: Vec<Vec<Event>>) -> Result<Specification, DecodeError> {
    decode_document(&document(fields))
}

fn json_dependency(kind: &str) -> EventStream {
    let mut events = vec![plain("name"), plain("json"), plain("requirement")];
    events.extend(vec![
        Event::MappingStart(tag("Gem::Requirement")),
        plain("requirements"),
        Event::SequenceStart(None),
        Event::SequenceStart(None),
        quoted("~>"),
    ]);
    events.extend(version_object("2.6"));
    events.extend(vec![Event::SequenceEnd, Event::SequenceEnd, Event::MappingEnd]);
    events.extend(vec![plain("type"), plain(kind), Event::MappingEnd]);
    EventStream { events, failure: None }
}

#[test]
fn minimal_document_keeps_name_version_platform() {
    let spec = decode(rake_fields()).unwrap();
    assert_eq!(spec.name, "rake");
    assert_eq!(spec.version.as_str(), "13.0.6");
    assert_eq!(spec.platform.as_str(), "ruby");
    assert_eq!(spec.specification_version, 4);
    assert_eq!(spec.full_name(), "rake-13.0.6-ruby");
}

#[test]
fn rake_scenario_segments_and_no_dependencies() {
    let spec = decode(rake_fields()).unwrap();
    assert_eq!(
        spec.version.segments(),
        &[VersionSegment::Number(13), VersionSegment::Number(0), VersionSegment::Number(6)]
    );
    assert!(spec.dependencies.is_empty());
    assert_eq!(spec.authors, vec!["a".to_string()]);
    assert_eq!(spec.licenses, vec!["MIT".to_string()]);
    assert_eq!(spec.require_paths, vec!["lib".to_string()]);
    assert_eq!(spec.rubygems_version, "3.4.10");
}

#[test]
fn fields_in_any_order() {
    let mut fields = rake_fields();
    fields.reverse();
    let spec = decode(fields).unwrap();
    assert_eq!(spec.name, "rake");
    assert_eq!(spec.version.as_str(), "13.0.6");
}

#[test]
fn missing_version_is_reported() {
    let fields: Vec<Vec<Event>> = rake_fields().into_iter().filter(|f| f[0] != plain("version")).collect();
    assert_eq!(
        decode(fields).unwrap_err(),
        DecodeError::MissingField { container: Container::Specification, field: "version".to_string() }
    );
}

#[test]
fn unknown_root_field_is_reported() {
    let mut fields = rake_fields();
    fields.insert(3, field("unknown_future_field", vec![plain("1")]));
    assert_eq!(
        decode(fields).unwrap_err(),
        DecodeError::UnknownField {
            container: Container::Specification,
            field: "unknown_future_field".to_string(),
        }
    );
}

#[test]
fn json_dependency_scenario() {
    let stream = json_dependency(":runtime");
    let mut c = EventCursor::new(&stream);
    let dep = decode_dependency(&mut c).unwrap();
    assert_eq!(dep.name(), "json");
    assert_eq!(dep.dependency_type(), DependencyType::Runtime);
    let reqs = dep.requirement().requirements();
    assert_eq!(reqs.len(), 1);
    assert_eq!(reqs[0].0, RequirementOperator::Tilde);
    assert_eq!(reqs[0].1.as_str(), "2.6");
    assert_eq!(c.pos, stream.events.len());
}

#[test]
fn development_dependency() {
    let stream = json_dependency(":development");
    let mut c = EventCursor::new(&stream);
    assert_eq!(decode_dependency(&mut c).unwrap().dependency_type(), DependencyType::Development);
}

#[test]
fn test_dependency_type_is_refused() {
    let stream = json_dependency(":test");
    let mut c = EventCursor::new(&stream);
    assert_eq!(
        decode_dependency(&mut c).unwrap_err(),
        DecodeError::UnknownDependencyType { value: ":test".to_string() }
    );
}

#[test]
fn dependency_prerelease_and_old_requirements_are_set_aside() {
    let mut events = vec![plain("prerelease"), plain("false"), plain("version_requirements")];
    events.extend(vec![
        Event::MappingStart(tag("Gem::Requirement")),
        plain("requirements"),
        Event::SequenceStart(None),
        Event::SequenceEnd,
        Event::MappingEnd,
    ]);
    events.extend(json_dependency(":runtime").events);
    let stream = EventStream { events, failure: None };
    let mut c = EventCursor::new(&stream);
    let dep = decode_dependency(&mut c).unwrap();
    assert_eq!(dep.name(), "json");
    assert_eq!(dep.requirement().requirements().len(), 1);
}

#[test]
fn email_as_list() {
    let mut fields = rake_fields();
    fields.push(field("email", list(&["a@example.com", "b@example.com"])));
    assert_eq!(decode(fields).unwrap().email, vec!["a@example.com".to_string(), "b@example.com".to_string()]);
}

#[test]
fn dependency_without_type_is_refused() {
    let stream = EventStream {
        events: vec![plain("name"), plain("json"), Event::MappingEnd],
        failure: None,
    };
    let mut c = EventCursor::new(&stream);
    assert_eq!(
        decode_dependency(&mut c).unwrap_err(),
        DecodeError::MissingField { container: Container::Dependency, field: "requirement".to_string() }
    );
}

#[test]
fn dependencies_in_a_document() {
    let dependencies = || {
        let mut deps = vec![Event::SequenceStart(None), Event::MappingStart(tag("Gem::Dependency"))];
        deps.extend(json_dependency(":runtime").events);
        deps.push(Event::SequenceEnd);
        deps
    };
    let fields: Vec<Vec<Event>> = rake_fields()
        .into_iter()
        .map(|f| if f[0] == plain("dependencies") { field("dependencies", dependencies()) } else { f })
        .collect();
    let spec = decode(fields).unwrap();
    assert_eq!(spec.dependencies.len(), 1);
    assert_eq!(spec.dependencies[0].name(), "json");
}

#[test]
fn empty_requirements_sequence_is_unconstrained() {
    let stream = EventStream {
        events: vec![plain("requirements"), Event::SequenceStart(None), Event::SequenceEnd, Event::MappingEnd],
        failure: None,
    };
    let mut c = EventCursor::new(&stream);
    let r = decode_requirement(&mut c).unwrap();
    assert!(r.requirements().is_empty());
}

#[test]
fn unknown_operator_is_kept() {
    let mut events = vec![plain("requirements"), Event::SequenceStart(None), Event::SequenceStart(None), quoted("=~")];
    events.extend(version_object("1"));
    events.extend(vec![Event::SequenceEnd, Event::SequenceEnd, Event::MappingEnd]);
    let stream = EventStream { events, failure: None };
    let mut c = EventCursor::new(&stream);
    let r = decode_requirement(&mut c).unwrap();
    assert_eq!(r.requirements()[0].0, RequirementOperator::Unknown);
}

#[test]
fn requirement_refuses_other_keys() {
    let stream = EventStream { events: vec![plain("none"), plain("x"), Event::MappingEnd], failure: None };
    let mut c = EventCursor::new(&stream);
    assert_eq!(
        decode_requirement(&mut c).unwrap_err(),
        DecodeError::UnknownField { container: Container::Requirement, field: "none".to_string() }
    );
}

#[test]
fn malformed_version_in_document() {
    let fields: Vec<Vec<Event>> = rake_fields()
        .into_iter()
        .map(|f| if f[0] == plain("version") { field("version", version_object("1..2")) } else { f })
        .collect();
    assert_eq!(decode(fields).unwrap_err(), DecodeError::MalformedVersion { text: "1..2".to_string() });
}

#[test]
fn version_with_other_key_is_refused() {
    let stream = EventStream { events: vec![plain("prerelease"), plain("x"), Event::MappingEnd], failure: None };
    let mut c = EventCursor::new(&stream);
    assert_eq!(
        gemspec_rs::version::decode_version(&mut c).unwrap_err(),
        DecodeError::UnknownField { container: Container::Version, field: "prerelease".to_string() }
    );
}

#[test]
fn integer_where_text_is_required() {
    let fields: Vec<Vec<Event>> = rake_fields()
        .into_iter()
        .map(|f| if f[0] == plain("name") { field("name", vec![plain("42")]) } else { f })
        .collect();
    assert_eq!(
        decode(fields).unwrap_err(),
        DecodeError::ScalarCoercionError { expected: ValueKind::Str, got: ValueKind::Int }
    );
}

#[test]
fn truncated_stream_ends_early() {
    let mut stream = document(rake_fields());
    stream.events.truncate(10);
    assert_eq!(decode_document(&stream).unwrap_err(), DecodeError::UnexpectedEndOfStream);
}

#[test]
fn tokenizer_failure_is_passed_on() {
    let mut stream = document(rake_fields());
    stream.events.truncate(10);
    stream.failure = Some("bad indentation".to_string());
    assert_eq!(
        decode_document(&stream).unwrap_err(),
        DecodeError::UnderlyingParseError { message: "bad indentation".to_string() }
    );
}

#[test]
fn wrong_root_tag_is_malformed() {
    let mut stream = document(rake_fields());
    stream.events[2] = Event::MappingStart(tag("Gem::Version"));
    assert_eq!(decode_document(&stream).unwrap_err(), DecodeError::MalformedDocument);
}

#[test]
fn trailing_events_are_malformed() {
    let mut stream = document(rake_fields());
    stream.events.push(Event::StreamStart);
    assert_eq!(decode_document(&stream).unwrap_err(), DecodeError::MalformedDocument);
}

#[test]
fn optional_fields_are_read() {
    let mut fields = rake_fields();
    fields.push(field("autorequire", vec![plain("")]));
    fields.push(field("post_install_message", vec![quoted("thanks")]));
    fields.push(field("email", vec![plain("a@example.com")]));
    fields.push(field("bindir", vec![plain("exe")]));
    fields.push(field("cert_chain", list(&[])));
    let mut meta = vec![Event::MappingStart(None), plain("source_code_uri"), plain("https://example.com")];
    meta.push(Event::MappingEnd);
    fields.push(field("metadata", meta));
    let mut req = vec![Event::MappingStart(tag("Gem::Requirement")), plain("requirements"), Event::SequenceStart(None)];
    req.extend(vec![Event::SequenceStart(None), quoted(">=")]);
    req.extend(version_object("2.3"));
    req.extend(vec![Event::SequenceEnd, Event::SequenceEnd, Event::MappingEnd]);
    fields.push(field("required_ruby_version", req));
    let spec = decode(fields).unwrap();
    assert_eq!(spec.autorequire, None);
    assert_eq!(spec.post_install_message, Some("thanks".to_string()));
    assert_eq!(spec.email, vec!["a@example.com".to_string()]);
    assert_eq!(spec.bindir, Some("exe".to_string()));
    assert_eq!(spec.cert_chain, Some(vec![]));
    assert_eq!(spec.metadata, vec![("source_code_uri".to_string(), "https://example.com".to_string())]);
    let r = spec.required_ruby_version.unwrap();
    assert_eq!(r.requirements()[0].0, RequirementOperator::GreaterThanOrEqual);
    assert_eq!(r.requirements()[0].1.as_str(), "2.3");
    assert!(spec.required_rubygems_version.is_none());
}

#[test]
fn null_email_is_empty() {
    let mut fields = rake_fields();
    fields.push(field("email", vec![plain("~")]));
    assert!(decode(fields).unwrap().email.is_empty());
}

#[test]
fn empty_dependency_name_is_refused() {
    let mut events = vec![plain("name"), quoted("")];
    events.extend(json_dependency(":runtime").events.into_iter().skip(2));
    let stream = EventStream { events, failure: None };
    let mut c = EventCursor::new(&stream);
    assert_eq!(
        decode_dependency(&mut c).unwrap_err(),
        DecodeError::MissingField { container: Container::Dependency, field: "name".to_string() }
    );
}

#[test]
fn repeated_dependency_key_is_refused() {
    let mut events = vec![plain("type"), plain(":development")];
    events.extend(json_dependency(":runtime").events);
    let stream = EventStream { events, failure: None };
    let mut c = EventCursor::new(&stream);
    assert_eq!(
        decode_dependency(&mut c).unwrap_err(),
        DecodeError::DuplicateField { container: Container::Dependency, field: "type".to_string() }
    );
}

#[test]
fn repeated_root_key_is_refused() {
    let mut fields = rake_fields();
    fields.push(field("summary", vec![plain("y")]));
    assert_eq!(
        decode(fields).unwrap_err(),
        DecodeError::DuplicateField { container: Container::Specification, field: "summary".to_string() }
    );
}

#[test]
fn repeated_version_key_is_refused() {
    let stream = EventStream {
        events: vec![plain("version"), quoted("1"), plain("version"), quoted("2"), Event::MappingEnd],
        failure: None,
    };
    let mut c = EventCursor::new(&stream);
    assert_eq!(
        gemspec_rs::version::decode_version(&mut c).unwrap_err(),
        DecodeError::DuplicateField { container: Container::Version, field: "version".to_string() }
    );
}

#[test]
fn requirement_without_requirements_is_refused() {
    let stream = EventStream { events: vec![Event::MappingEnd], failure: None };
    let mut c = EventCursor::new(&stream);
    assert_eq!(
        decode_requirement(&mut c).unwrap_err(),
        DecodeError::MissingField { container: Container::Requirement, field: "requirements".to_string() }
    );
}

#[test]
fn repeated_metadata_key_takes_last_value() {
    let mut fields = rake_fields();
    let meta = vec![
        Event::MappingStart(None),
        plain("a"),
        quoted("1"),
        plain("b"),
        quoted("2"),
        plain("a"),
        quoted("3"),
        Event::MappingEnd,
    ];
    fields.push(field("metadata", meta));
    assert_eq!(
        decode(fields).unwrap().metadata,
        vec![("a".to_string(), "3".to_string()), ("b".to_string(), "2".to_string())]
    );
}

fn binary(t: &str) -> Event {
    Event::Scalar(t.to_string(), ScalarStyle::Plain, Some(Tag { handle: "!".to_string(), suffix: "binary".to_string() }))
}

fn replace_field(key: &str, value: Vec<Event>) -> Vec<Vec<Event>> {
    let mut value = Some(value);
    rake_fields()
        .into_iter()
        .map(|f| if f[0] == plain(key) { field(key, value.take().unwrap()) } else { f })
        .collect()
}

#[test]
fn tagged_scalar_value_is_refused() {
    assert_eq!(
        decode(replace_field("summary", vec![binary("eA==")])).unwrap_err(),
        DecodeError::ScalarCoercionError { expected: ValueKind::Str, got: ValueKind::Tagged }
    );
}

#[test]
fn tagged_list_item_is_refused() {
    let files = vec![Event::SequenceStart(None), binary("eA=="), Event::SequenceEnd];
    assert_eq!(
        decode(replace_field("files", files)).unwrap_err(),
        DecodeError::ScalarCoercionError { expected: ValueKind::Str, got: ValueKind::Tagged }
    );
}

#[test]
fn tagged_sequence_is_refused() {
    let authors = vec![Event::SequenceStart(tag("Gem::Version")), plain("a"), Event::SequenceEnd];
    assert_eq!(
        decode(replace_field("authors", authors)).unwrap_err(),
        DecodeError::ScalarCoercionError { expected: ValueKind::Sequence, got: ValueKind::Tagged }
    );
}

#[test]
fn tagged_email_is_refused() {
    let mut fields = rake_fields();
    fields.push(field("email", vec![binary("eA==")]));
    assert_eq!(
        decode(fields).unwrap_err(),
        DecodeError::ScalarCoercionError { expected: ValueKind::Sequence, got: ValueKind::Tagged }
    );
}

#[test]
fn tagged_metadata_mapping_is_refused() {
    let mut fields = rake_fields();
    fields.push(field("metadata", vec![Event::MappingStart(tag("Hash")), Event::MappingEnd]));
    assert_eq!(
        decode(fields).unwrap_err(),
        DecodeError::ScalarCoercionError { expected: ValueKind::Mapping, got: ValueKind::Tagged }
    );
}
