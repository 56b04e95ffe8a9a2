//! Package specifications and their decoder.
use vstd::prelude::*;
use vstd::string::*;

use crate::dependency::{
    dependencies_view, dependency_list, lemma_dependency_list_advance, read_dependency_list,
    Dependency, DependencyModel,
};
use crate::error::{Container, DecodeError, ErrorModel};
use crate::event::{event_at, Event, EventCursor, StreamModel};
use crate::read::{
    event_text, int_of, lemma_text_entries_advance, lemma_text_lists_advance, nullable_text_of,
    read_int, read_nullable_text, read_text, read_text_list, read_text_list_or_scalar,
    read_text_map, text_list, text_list_or_scalar, text_map, text_of, text_pairs_view, texts,
    keys_unique,
};
use crate::requirement::{
    lemma_requirement_object_advance, read_requirement, requirement_object, Requirement,
    RequirementModel,
};
use crate::dependency::opt_requirement;
use crate::text::{opt_text, text_is};
use crate::version::{
    lemma_version_object_advance, read_version, version_object, Version, VersionModel,
};

verus! {

/// The platform a package is built for, such as `ruby`.
#[derive(Debug, PartialEq, Eq)]
pub struct Platform(String);

impl View for Platform {
    type V = Seq<char>;

    closed spec fn view(&self) -> Seq<char> {
        self.0@
    }
}

impl Platform {
    pub fn new(platform: &str) -> (r: Self)
        ensures
            r@ == platform@,
    {
        Platform(String::from_str(platform))
    }

    pub fn as_str(&self) -> (r: &str)
        ensures
            r@ == self@,
    {
        self.0.as_str()
    }
}

impl Default for Platform {
    fn default() -> (r: Self)
        ensures
            r@ == "ruby"@,
    {
        Platform(String::from_str("ruby"))
    }
}

pub open spec fn opt_texts(o: Option<Vec<String>>) -> Option<Seq<Seq<char>>> {
    match o {
        Some(v) => Some(texts(v@)),
        None => None,
    }
}

/// A package specification.
///
/// `name`, `version`, `platform`, `authors`, `dependencies`, `files`,
/// `homepage`, `licenses`, `require_paths`, `rubygems_version`,
/// `specification_version` and `summary` are always read from the document.
/// Any other field the document leaves out is `None` or empty. Of those,
/// `autorequire`, `post_install_message` and `signing_key` may also be written
/// as null, which reads as `None` too. `date` keeps the text as written, and
/// `metadata` keeps its entries in document order.
#[derive(Debug, PartialEq, Eq)]
pub struct Specification {
    pub name: String,
    pub version: Version,
    pub platform: Platform,
    pub authors: Vec<String>,
    pub autorequire: Option<String>,
    pub bindir: Option<String>,
    pub cert_chain: Option<Vec<String>>,
    pub date: Option<String>,
    pub dependencies: Vec<Dependency>,
    pub description: Option<String>,
    pub email: Vec<String>,
    pub executables: Vec<String>,
    pub extensions: Vec<String>,
    pub extra_rdoc_files: Vec<String>,
    pub files: Vec<String>,
    pub homepage: String,
    pub licenses: Vec<String>,
    pub metadata: Vec<(String, String)>,
    pub post_install_message: Option<String>,
    pub rdoc_options: Vec<String>,
    pub require_paths: Vec<String>,
    pub required_ruby_version: Option<Requirement>,
    pub required_rubygems_version: Option<Requirement>,
    pub requirements: Vec<String>,
    pub rubygems_version: String,
    pub signing_key: Option<String>,
    pub specification_version: i64,
    pub summary: String,
    pub test_files: Vec<String>,
}

/// The mathematical value of a [`Specification`].
pub struct SpecificationModel {
    pub name: Seq<char>,
    pub version: VersionModel,
    pub platform: Seq<char>,
    pub authors: Seq<Seq<char>>,
    pub autorequire: Option<Seq<char>>,
    pub bindir: Option<Seq<char>>,
    pub cert_chain: Option<Seq<Seq<char>>>,
    pub date: Option<Seq<char>>,
    pub dependencies: Seq<DependencyModel>,
    pub description: Option<Seq<char>>,
    pub email: Seq<Seq<char>>,
    pub executables: Seq<Seq<char>>,
    pub extensions: Seq<Seq<char>>,
    pub extra_rdoc_files: Seq<Seq<char>>,
    pub files: Seq<Seq<char>>,
    pub homepage: Seq<char>,
    pub licenses: Seq<Seq<char>>,
    pub metadata: Seq<(Seq<char>, Seq<char>)>,
    pub post_install_message: Option<Seq<char>>,
    pub rdoc_options: Seq<Seq<char>>,
    pub require_paths: Seq<Seq<char>>,
    pub required_ruby_version: Option<RequirementModel>,
    pub required_rubygems_version: Option<RequirementModel>,
    pub requirements: Seq<Seq<char>>,
    pub rubygems_version: Seq<char>,
    pub signing_key: Option<Seq<char>>,
    pub specification_version: int,
    pub summary: Seq<char>,
    pub test_files: Seq<Seq<char>>,
}

impl View for Specification {
    type V = SpecificationModel;

    open spec fn view(&self) -> SpecificationModel {
        SpecificationModel {
            name: self.name@,
            version: self.version@,
            platform: self.platform@,
            authors: texts(self.authors@),
            autorequire: opt_text(self.autorequire),
            bindir: opt_text(self.bindir),
            cert_chain: opt_texts(self.cert_chain),
            date: opt_text(self.date),
            dependencies: dependencies_view(self.dependencies@),
            description: opt_text(self.description),
            email: texts(self.email@),
            executables: texts(self.executables@),
            extensions: texts(self.extensions@),
            extra_rdoc_files: texts(self.extra_rdoc_files@),
            files: texts(self.files@),
            homepage: self.homepage@,
            licenses: texts(self.licenses@),
            metadata: text_pairs_view(self.metadata@),
            post_install_message: opt_text(self.post_install_message),
            rdoc_options: texts(self.rdoc_options@),
            require_paths: texts(self.require_paths@),
            required_ruby_version: opt_requirement(self.required_ruby_version),
            required_rubygems_version: opt_requirement(self.required_rubygems_version),
            requirements: texts(self.requirements@),
            rubygems_version: self.rubygems_version@,
            signing_key: opt_text(self.signing_key),
            specification_version: self.specification_version as int,
            summary: self.summary@,
            test_files: texts(self.test_files@),
        }
    }
}

/// The value a specification starts from before any field is read.
pub open spec fn default_model() -> SpecificationModel {
    SpecificationModel {
        name: Seq::empty(),
        version: VersionModel { text: Seq::empty(), segments: Seq::empty() },
        platform: "ruby"@,
        authors: Seq::empty(),
        autorequire: None,
        bindir: None,
        cert_chain: None,
        date: None,
        dependencies: Seq::empty(),
        description: None,
        email: Seq::empty(),
        executables: Seq::empty(),
        extensions: Seq::empty(),
        extra_rdoc_files: Seq::empty(),
        files: Seq::empty(),
        homepage: Seq::empty(),
        licenses: Seq::empty(),
        metadata: Seq::empty(),
        post_install_message: None,
        rdoc_options: Seq::empty(),
        require_paths: Seq::empty(),
        required_ruby_version: None,
        required_rubygems_version: None,
        requirements: Seq::empty(),
        rubygems_version: Seq::empty(),
        signing_key: None,
        specification_version: 0,
        summary: Seq::empty(),
        test_files: Seq::empty(),
    }
}

impl Default for Specification {
    fn default() -> (r: Self)
        ensures
            r@ == default_model(),
    {
        let r = Specification {
            name: String::new(),
            version: Version::default(),
            platform: Platform::default(),
            authors: Vec::new(),
            autorequire: None,
            bindir: None,
            cert_chain: None,
            date: None,
            dependencies: Vec::new(),
            description: None,
            email: Vec::new(),
            executables: Vec::new(),
            extensions: Vec::new(),
            extra_rdoc_files: Vec::new(),
            files: Vec::new(),
            homepage: String::new(),
            licenses: Vec::new(),
            metadata: Vec::new(),
            post_install_message: None,
            rdoc_options: Vec::new(),
            require_paths: Vec::new(),
            required_ruby_version: None,
            required_rubygems_version: None,
            requirements: Vec::new(),
            rubygems_version: String::new(),
            signing_key: None,
            specification_version: 0,
            summary: String::new(),
            test_files: Vec::new(),
        };
        assert(r@.authors =~= Seq::empty());
        assert(r@.dependencies =~= Seq::empty());
        assert(r@.email =~= Seq::empty());
        assert(r@.executables =~= Seq::empty());
        assert(r@.extensions =~= Seq::empty());
        assert(r@.extra_rdoc_files =~= Seq::empty());
        assert(r@.files =~= Seq::empty());
        assert(r@.licenses =~= Seq::empty());
        assert(r@.metadata =~= Seq::empty());
        assert(r@.rdoc_options =~= Seq::empty());
        assert(r@.require_paths =~= Seq::empty());
        assert(r@.requirements =~= Seq::empty());
        assert(r@.test_files =~= Seq::empty());
        r
    }
}

/// The keys that a specification mapping may hold.
#[derive(Debug, Clone, Copy, PartialEq, Eq, Structural)]
pub enum SpecField {
    Name,
    Version,
    Platform,
    Authors,
    Autorequire,
    Bindir,
    CertChain,
    Date,
    Dependencies,
    Description,
    Email,
    Executables,
    Extensions,
    ExtraRdocFiles,
    Files,
    Homepage,
    Licenses,
    Metadata,
    PostInstallMessage,
    RdocOptions,
    RequirePaths,
    RequiredRubyVersion,
    RequiredRubygemsVersion,
    Requirements,
    RubygemsVersion,
    SigningKey,
    SpecificationVersion,
    Summary,
    TestFiles,
}

/// The field that key `k` names, if any.
pub open spec fn field_of(k: Seq<char>) -> Option<SpecField> {
    if k == "name"@ {
        Some(SpecField::Name)
    } else if k == "version"@ {
        Some(SpecField::Version)
    } else if k == "platform"@ {
        Some(SpecField::Platform)
    } else if k == "authors"@ {
        Some(SpecField::Authors)
    } else if k == "autorequire"@ {
        Some(SpecField::Autorequire)
    } else if k == "bindir"@ {
        Some(SpecField::Bindir)
    } else if k == "cert_chain"@ {
        Some(SpecField::CertChain)
    } else if k == "date"@ {
        Some(SpecField::Date)
    } else if k == "dependencies"@ {
        Some(SpecField::Dependencies)
    } else if k == "description"@ {
        Some(SpecField::Description)
    } else if k == "email"@ {
        Some(SpecField::Email)
    } else if k == "executables"@ {
        Some(SpecField::Executables)
    } else if k == "extensions"@ {
        Some(SpecField::Extensions)
    } else if k == "extra_rdoc_files"@ {
        Some(SpecField::ExtraRdocFiles)
    } else if k == "files"@ {
        Some(SpecField::Files)
    } else if k == "homepage"@ {
        Some(SpecField::Homepage)
    } else if k == "licenses"@ {
        Some(SpecField::Licenses)
    } else if k == "metadata"@ {
        Some(SpecField::Metadata)
    } else if k == "post_install_message"@ {
        Some(SpecField::PostInstallMessage)
    } else if k == "rdoc_options"@ {
        Some(SpecField::RdocOptions)
    } else if k == "require_paths"@ {
        Some(SpecField::RequirePaths)
    } else if k == "required_ruby_version"@ {
        Some(SpecField::RequiredRubyVersion)
    } else if k == "required_rubygems_version"@ {
        Some(SpecField::RequiredRubygemsVersion)
    } else if k == "requirements"@ {
        Some(SpecField::Requirements)
    } else if k == "rubygems_version"@ {
        Some(SpecField::RubygemsVersion)
    } else if k == "signing_key"@ {
        Some(SpecField::SigningKey)
    } else if k == "specification_version"@ {
        Some(SpecField::SpecificationVersion)
    } else if k == "summary"@ {
        Some(SpecField::Summary)
    } else if k == "test_files"@ {
        Some(SpecField::TestFiles)
    } else {
        None
    }
}

/// Reads a key of a specification mapping.
pub fn field_from(k: &str) -> (r: Option<SpecField>)
    ensures
        r == field_of(k@),
{
    if text_is(k, "name") {
        Some(SpecField::Name)
    } else if text_is(k, "version") {
        Some(SpecField::Version)
    } else if text_is(k, "platform") {
        Some(SpecField::Platform)
    } else if text_is(k, "authors") {
        Some(SpecField::Authors)
    } else if text_is(k, "autorequire") {
        Some(SpecField::Autorequire)
    } else if text_is(k, "bindir") {
        Some(SpecField::Bindir)
    } else if text_is(k, "cert_chain") {
        Some(SpecField::CertChain)
    } else if text_is(k, "date") {
        Some(SpecField::Date)
    } else if text_is(k, "dependencies") {
        Some(SpecField::Dependencies)
    } else if text_is(k, "description") {
        Some(SpecField::Description)
    } else if text_is(k, "email") {
        Some(SpecField::Email)
    } else if text_is(k, "executables") {
        Some(SpecField::Executables)
    } else if text_is(k, "extensions") {
        Some(SpecField::Extensions)
    } else if text_is(k, "extra_rdoc_files") {
        Some(SpecField::ExtraRdocFiles)
    } else if text_is(k, "files") {
        Some(SpecField::Files)
    } else if text_is(k, "homepage") {
        Some(SpecField::Homepage)
    } else if text_is(k, "licenses") {
        Some(SpecField::Licenses)
    } else if text_is(k, "metadata") {
        Some(SpecField::Metadata)
    } else if text_is(k, "post_install_message") {
        Some(SpecField::PostInstallMessage)
    } else if text_is(k, "rdoc_options") {
        Some(SpecField::RdocOptions)
    } else if text_is(k, "require_paths") {
        Some(SpecField::RequirePaths)
    } else if text_is(k, "required_ruby_version") {
        Some(SpecField::RequiredRubyVersion)
    } else if text_is(k, "required_rubygems_version") {
        Some(SpecField::RequiredRubygemsVersion)
    } else if text_is(k, "requirements") {
        Some(SpecField::Requirements)
    } else if text_is(k, "rubygems_version") {
        Some(SpecField::RubygemsVersion)
    } else if text_is(k, "signing_key") {
        Some(SpecField::SigningKey)
    } else if text_is(k, "specification_version") {
        Some(SpecField::SpecificationVersion)
    } else if text_is(k, "summary") {
        Some(SpecField::Summary)
    } else if text_is(k, "test_files") {
        Some(SpecField::TestFiles)
    } else {
        None
    }
}

/// Which fields have been read.
#[derive(Debug, Clone, Copy, PartialEq, Eq, Structural)]
pub struct Seen {
    pub name: bool,
    pub version: bool,
    pub platform: bool,
    pub authors: bool,
    pub autorequire: bool,
    pub bindir: bool,
    pub cert_chain: bool,
    pub date: bool,
    pub dependencies: bool,
    pub description: bool,
    pub email: bool,
    pub executables: bool,
    pub extensions: bool,
    pub extra_rdoc_files: bool,
    pub files: bool,
    pub homepage: bool,
    pub licenses: bool,
    pub metadata: bool,
    pub post_install_message: bool,
    pub rdoc_options: bool,
    pub require_paths: bool,
    pub required_ruby_version: bool,
    pub required_rubygems_version: bool,
    pub requirements: bool,
    pub rubygems_version: bool,
    pub signing_key: bool,
    pub specification_version: bool,
    pub summary: bool,
    pub test_files: bool,
}

pub open spec fn none_seen() -> Seen {
    Seen {
        name: false,
        version: false,
        platform: false,
        authors: false,
        autorequire: false,
        bindir: false,
        cert_chain: false,
        date: false,
        dependencies: false,
        description: false,
        email: false,
        executables: false,
        extensions: false,
        extra_rdoc_files: false,
        files: false,
        homepage: false,
        licenses: false,
        metadata: false,
        post_install_message: false,
        rdoc_options: false,
        require_paths: false,
        required_ruby_version: false,
        required_rubygems_version: false,
        requirements: false,
        rubygems_version: false,
        signing_key: false,
        specification_version: false,
        summary: false,
        test_files: false,
    }
}

/// Whether field `f` has been read.
pub open spec fn is_seen(seen: Seen, f: SpecField) -> bool {
    match f {
        SpecField::Name => seen.name,
        SpecField::Version => seen.version,
        SpecField::Platform => seen.platform,
        SpecField::Authors => seen.authors,
        SpecField::Autorequire => seen.autorequire,
        SpecField::Bindir => seen.bindir,
        SpecField::CertChain => seen.cert_chain,
        SpecField::Date => seen.date,
        SpecField::Dependencies => seen.dependencies,
        SpecField::Description => seen.description,
        SpecField::Email => seen.email,
        SpecField::Executables => seen.executables,
        SpecField::Extensions => seen.extensions,
        SpecField::ExtraRdocFiles => seen.extra_rdoc_files,
        SpecField::Files => seen.files,
        SpecField::Homepage => seen.homepage,
        SpecField::Licenses => seen.licenses,
        SpecField::Metadata => seen.metadata,
        SpecField::PostInstallMessage => seen.post_install_message,
        SpecField::RdocOptions => seen.rdoc_options,
        SpecField::RequirePaths => seen.require_paths,
        SpecField::RequiredRubyVersion => seen.required_ruby_version,
        SpecField::RequiredRubygemsVersion => seen.required_rubygems_version,
        SpecField::Requirements => seen.requirements,
        SpecField::RubygemsVersion => seen.rubygems_version,
        SpecField::SigningKey => seen.signing_key,
        SpecField::SpecificationVersion => seen.specification_version,
        SpecField::Summary => seen.summary,
        SpecField::TestFiles => seen.test_files,
    }
}

/// The checklist after field `f` has been read.
pub open spec fn mark(seen: Seen, f: SpecField) -> Seen {
    match f {
        SpecField::Name => Seen { name: true, ..seen },
        SpecField::Version => Seen { version: true, ..seen },
        SpecField::Platform => Seen { platform: true, ..seen },
        SpecField::Authors => Seen { authors: true, ..seen },
        SpecField::Autorequire => Seen { autorequire: true, ..seen },
        SpecField::Bindir => Seen { bindir: true, ..seen },
        SpecField::CertChain => Seen { cert_chain: true, ..seen },
        SpecField::Date => Seen { date: true, ..seen },
        SpecField::Dependencies => Seen { dependencies: true, ..seen },
        SpecField::Description => Seen { description: true, ..seen },
        SpecField::Email => Seen { email: true, ..seen },
        SpecField::Executables => Seen { executables: true, ..seen },
        SpecField::Extensions => Seen { extensions: true, ..seen },
        SpecField::ExtraRdocFiles => Seen { extra_rdoc_files: true, ..seen },
        SpecField::Files => Seen { files: true, ..seen },
        SpecField::Homepage => Seen { homepage: true, ..seen },
        SpecField::Licenses => Seen { licenses: true, ..seen },
        SpecField::Metadata => Seen { metadata: true, ..seen },
        SpecField::PostInstallMessage => Seen { post_install_message: true, ..seen },
        SpecField::RdocOptions => Seen { rdoc_options: true, ..seen },
        SpecField::RequirePaths => Seen { require_paths: true, ..seen },
        SpecField::RequiredRubyVersion => Seen { required_ruby_version: true, ..seen },
        SpecField::RequiredRubygemsVersion => Seen { required_rubygems_version: true, ..seen },
        SpecField::Requirements => Seen { requirements: true, ..seen },
        SpecField::RubygemsVersion => Seen { rubygems_version: true, ..seen },
        SpecField::SigningKey => Seen { signing_key: true, ..seen },
        SpecField::SpecificationVersion => Seen { specification_version: true, ..seen },
        SpecField::Summary => Seen { summary: true, ..seen },
        SpecField::TestFiles => Seen { test_files: true, ..seen },
    }
}

/// The first mandatory field, in a fixed order, that has not been read.
pub open spec fn first_missing(seen: Seen) -> Option<Seq<char>> {
    if !seen.name {
        Some("name"@)
    } else if !seen.version {
        Some("version"@)
    } else if !seen.platform {
        Some("platform"@)
    } else if !seen.dependencies {
        Some("dependencies"@)
    } else if !seen.rubygems_version {
        Some("rubygems_version"@)
    } else if !seen.specification_version {
        Some("specification_version"@)
    } else if !seen.summary {
        Some("summary"@)
    } else if !seen.require_paths {
        Some("require_paths"@)
    } else if !seen.homepage {
        Some("homepage"@)
    } else if !seen.licenses {
        Some("licenses"@)
    } else if !seen.files {
        Some("files"@)
    } else if !seen.authors {
        Some("authors"@)
    } else {
        None
    }
}

impl Seen {
    fn none() -> (r: Seen)
        ensures
            r == none_seen(),
    {
        Seen {
            name: false,
            version: false,
            platform: false,
            authors: false,
            autorequire: false,
            bindir: false,
            cert_chain: false,
            date: false,
            dependencies: false,
            description: false,
            email: false,
            executables: false,
            extensions: false,
            extra_rdoc_files: false,
            files: false,
            homepage: false,
            licenses: false,
            metadata: false,
            post_install_message: false,
            rdoc_options: false,
            require_paths: false,
            required_ruby_version: false,
            required_rubygems_version: false,
            requirements: false,
            rubygems_version: false,
            signing_key: false,
            specification_version: false,
            summary: false,
            test_files: false,
        }
    }

    fn has(&self, f: SpecField) -> (r: bool)
        ensures
            r == is_seen(*self, f),
    {
        match f {
            SpecField::Name => self.name,
            SpecField::Version => self.version,
            SpecField::Platform => self.platform,
            SpecField::Authors => self.authors,
            SpecField::Autorequire => self.autorequire,
            SpecField::Bindir => self.bindir,
            SpecField::CertChain => self.cert_chain,
            SpecField::Date => self.date,
            SpecField::Dependencies => self.dependencies,
            SpecField::Description => self.description,
            SpecField::Email => self.email,
            SpecField::Executables => self.executables,
            SpecField::Extensions => self.extensions,
            SpecField::ExtraRdocFiles => self.extra_rdoc_files,
            SpecField::Files => self.files,
            SpecField::Homepage => self.homepage,
            SpecField::Licenses => self.licenses,
            SpecField::Metadata => self.metadata,
            SpecField::PostInstallMessage => self.post_install_message,
            SpecField::RdocOptions => self.rdoc_options,
            SpecField::RequirePaths => self.require_paths,
            SpecField::RequiredRubyVersion => self.required_ruby_version,
            SpecField::RequiredRubygemsVersion => self.required_rubygems_version,
            SpecField::Requirements => self.requirements,
            SpecField::RubygemsVersion => self.rubygems_version,
            SpecField::SigningKey => self.signing_key,
            SpecField::SpecificationVersion => self.specification_version,
            SpecField::Summary => self.summary,
            SpecField::TestFiles => self.test_files,
        }
    }

    fn mark(&mut self, f: SpecField)
        ensures
            *final(self) == mark(*old(self), f),
    {
        let s = *self;
        *self = match f {
            SpecField::Name => Seen { name: true, ..s },
            SpecField::Version => Seen { version: true, ..s },
            SpecField::Platform => Seen { platform: true, ..s },
            SpecField::Authors => Seen { authors: true, ..s },
            SpecField::Autorequire => Seen { autorequire: true, ..s },
            SpecField::Bindir => Seen { bindir: true, ..s },
            SpecField::CertChain => Seen { cert_chain: true, ..s },
            SpecField::Date => Seen { date: true, ..s },
            SpecField::Dependencies => Seen { dependencies: true, ..s },
            SpecField::Description => Seen { description: true, ..s },
            SpecField::Email => Seen { email: true, ..s },
            SpecField::Executables => Seen { executables: true, ..s },
            SpecField::Extensions => Seen { extensions: true, ..s },
            SpecField::ExtraRdocFiles => Seen { extra_rdoc_files: true, ..s },
            SpecField::Files => Seen { files: true, ..s },
            SpecField::Homepage => Seen { homepage: true, ..s },
            SpecField::Licenses => Seen { licenses: true, ..s },
            SpecField::Metadata => Seen { metadata: true, ..s },
            SpecField::PostInstallMessage => Seen { post_install_message: true, ..s },
            SpecField::RdocOptions => Seen { rdoc_options: true, ..s },
            SpecField::RequirePaths => Seen { require_paths: true, ..s },
            SpecField::RequiredRubyVersion => Seen { required_ruby_version: true, ..s },
            SpecField::RequiredRubygemsVersion => Seen { required_rubygems_version: true, ..s },
            SpecField::Requirements => Seen { requirements: true, ..s },
            SpecField::RubygemsVersion => Seen { rubygems_version: true, ..s },
            SpecField::SigningKey => Seen { signing_key: true, ..s },
            SpecField::SpecificationVersion => Seen { specification_version: true, ..s },
            SpecField::Summary => Seen { summary: true, ..s },
            SpecField::TestFiles => Seen { test_files: true, ..s },
        };
    }

    fn first_missing(&self) -> (r: Option<String>)
        ensures
            opt_text(r) == first_missing(*self),
    {
        if !self.name {
            Some(String::from_str("name"))
        } else if !self.version {
            Some(String::from_str("version"))
        } else if !self.platform {
            Some(String::from_str("platform"))
        } else if !self.dependencies {
            Some(String::from_str("dependencies"))
        } else if !self.rubygems_version {
            Some(String::from_str("rubygems_version"))
        } else if !self.specification_version {
            Some(String::from_str("specification_version"))
        } else if !self.summary {
            Some(String::from_str("summary"))
        } else if !self.require_paths {
            Some(String::from_str("require_paths"))
        } else if !self.homepage {
            Some(String::from_str("homepage"))
        } else if !self.licenses {
            Some(String::from_str("licenses"))
        } else if !self.files {
            Some(String::from_str("files"))
        } else if !self.authors {
            Some(String::from_str("authors"))
        } else {
            None
        }
    }
}

/// The value of field `f`, from `p` on, stored into `acc`; on success, the
/// new value and the position after the field's value.
pub open spec fn field_value(s: StreamModel, p: int, f: SpecField, acc: SpecificationModel) -> Result<
    (SpecificationModel, int),
    ErrorModel,
> {
    match f {
        SpecField::Name => match text_of(event_at(s, p)) {
            Err(e) => Err(e),
            Ok(v) => Ok((SpecificationModel { name: v, ..acc }, p + 1)),
        },
        SpecField::Version => match version_object(s, p) {
            Err(e) => Err(e),
            Ok((v, q)) => Ok((SpecificationModel { version: v, ..acc }, q)),
        },
        SpecField::Platform => match text_of(event_at(s, p)) {
            Err(e) => Err(e),
            Ok(v) => Ok((SpecificationModel { platform: v, ..acc }, p + 1)),
        },
        SpecField::Authors => match text_list(s, p) {
            Err(e) => Err(e),
            Ok((v, q)) => Ok((SpecificationModel { authors: v, ..acc }, q)),
        },
        SpecField::Autorequire => match nullable_text_of(event_at(s, p)) {
            Err(e) => Err(e),
            Ok(v) => Ok((SpecificationModel { autorequire: v, ..acc }, p + 1)),
        },
        SpecField::Bindir => match text_of(event_at(s, p)) {
            Err(e) => Err(e),
            Ok(v) => Ok((SpecificationModel { bindir: Some(v), ..acc }, p + 1)),
        },
        SpecField::CertChain => match text_list(s, p) {
            Err(e) => Err(e),
            Ok((v, q)) => Ok((SpecificationModel { cert_chain: Some(v), ..acc }, q)),
        },
        SpecField::Date => match text_of(event_at(s, p)) {
            Err(e) => Err(e),
            Ok(v) => Ok((SpecificationModel { date: Some(v), ..acc }, p + 1)),
        },
        SpecField::Dependencies => match dependency_list(s, p) {
            Err(e) => Err(e),
            Ok((v, q)) => Ok((SpecificationModel { dependencies: v, ..acc }, q)),
        },
        SpecField::Description => match text_of(event_at(s, p)) {
            Err(e) => Err(e),
            Ok(v) => Ok((SpecificationModel { description: Some(v), ..acc }, p + 1)),
        },
        SpecField::Email => match text_list_or_scalar(s, p) {
            Err(e) => Err(e),
            Ok((v, q)) => Ok((SpecificationModel { email: v, ..acc }, q)),
        },
        SpecField::Executables => match text_list(s, p) {
            Err(e) => Err(e),
            Ok((v, q)) => Ok((SpecificationModel { executables: v, ..acc }, q)),
        },
        SpecField::Extensions => match text_list(s, p) {
            Err(e) => Err(e),
            Ok((v, q)) => Ok((SpecificationModel { extensions: v, ..acc }, q)),
        },
        SpecField::ExtraRdocFiles => match text_list(s, p) {
            Err(e) => Err(e),
            Ok((v, q)) => Ok((SpecificationModel { extra_rdoc_files: v, ..acc }, q)),
        },
        SpecField::Files => match text_list(s, p) {
            Err(e) => Err(e),
            Ok((v, q)) => Ok((SpecificationModel { files: v, ..acc }, q)),
        },
        SpecField::Homepage => match text_of(event_at(s, p)) {
            Err(e) => Err(e),
            Ok(v) => Ok((SpecificationModel { homepage: v, ..acc }, p + 1)),
        },
        SpecField::Licenses => match text_list(s, p) {
            Err(e) => Err(e),
            Ok((v, q)) => Ok((SpecificationModel { licenses: v, ..acc }, q)),
        },
        SpecField::Metadata => match text_map(s, p) {
            Err(e) => Err(e),
            Ok((v, q)) => Ok((SpecificationModel { metadata: v, ..acc }, q)),
        },
        SpecField::PostInstallMessage => match nullable_text_of(event_at(s, p)) {
            Err(e) => Err(e),
            Ok(v) => Ok((SpecificationModel { post_install_message: v, ..acc }, p + 1)),
        },
        SpecField::RdocOptions => match text_list(s, p) {
            Err(e) => Err(e),
            Ok((v, q)) => Ok((SpecificationModel { rdoc_options: v, ..acc }, q)),
        },
        SpecField::RequirePaths => match text_list(s, p) {
            Err(e) => Err(e),
            Ok((v, q)) => Ok((SpecificationModel { require_paths: v, ..acc }, q)),
        },
        SpecField::RequiredRubyVersion => match requirement_object(s, p) {
            Err(e) => Err(e),
            Ok((v, q)) => Ok((SpecificationModel { required_ruby_version: Some(v), ..acc }, q)),
        },
        SpecField::RequiredRubygemsVersion => match requirement_object(s, p) {
            Err(e) => Err(e),
            Ok((v, q)) => Ok((SpecificationModel { required_rubygems_version: Some(v), ..acc }, q)),
        },
        SpecField::Requirements => match text_list(s, p) {
            Err(e) => Err(e),
            Ok((v, q)) => Ok((SpecificationModel { requirements: v, ..acc }, q)),
        },
        SpecField::RubygemsVersion => match text_of(event_at(s, p)) {
            Err(e) => Err(e),
            Ok(v) => Ok((SpecificationModel { rubygems_version: v, ..acc }, p + 1)),
        },
        SpecField::SigningKey => match nullable_text_of(event_at(s, p)) {
            Err(e) => Err(e),
            Ok(v) => Ok((SpecificationModel { signing_key: v, ..acc }, p + 1)),
        },
        SpecField::SpecificationVersion => match int_of(event_at(s, p)) {
            Err(e) => Err(e),
            Ok(v) => Ok((SpecificationModel { specification_version: v, ..acc }, p + 1)),
        },
        SpecField::Summary => match text_of(event_at(s, p)) {
            Err(e) => Err(e),
            Ok(v) => Ok((SpecificationModel { summary: v, ..acc }, p + 1)),
        },
        SpecField::TestFiles => match text_list(s, p) {
            Err(e) => Err(e),
            Ok((v, q)) => Ok((SpecificationModel { test_files: v, ..acc }, q)),
        },
    }
}

pub proof fn lemma_field_value_advance(s: StreamModel, p: int, f: SpecField, acc: SpecificationModel)
    ensures
        field_value(s, p, f, acc) matches Ok((a, q)) ==> p < q <= s.events.len() && (keys_unique(
            acc.metadata,
        ) ==> keys_unique(a.metadata)),
{
    assert(keys_unique(Seq::<(Seq<char>, Seq<char>)>::empty()));
    lemma_text_lists_advance(s, p);
    lemma_version_object_advance(s, p);
    lemma_requirement_object_advance(s, p);
    lemma_dependency_list_advance(s, p);
    lemma_text_entries_advance(s, p + 1, Seq::empty());
}

/// Pulls the value of field `f` and stores it into `acc`.
fn decode_field(c: &mut EventCursor, f: SpecField, acc: &mut Specification) -> (r: Result<(), DecodeError>)
    ensures
        final(c).stream == old(c).stream,
        match field_value(old(c).model(), old(c).pos as int, f, old(acc)@) {
            Ok((a, q)) => r is Ok && final(acc)@ == a && final(c).pos == q,
            Err(e) => r matches Err(x) && x@ == e,
        },
{
    match f {
        SpecField::Name => match read_text(c) {
            Err(e) => Err(e),
            Ok(v) => {
                acc.name = v;
                Ok(())
            },
        },
        SpecField::Version => match read_version(c) {
            Err(e) => Err(e),
            Ok(v) => {
                acc.version = v;
                Ok(())
            },
        },
        SpecField::Platform => match read_text(c) {
            Err(e) => Err(e),
            Ok(v) => {
                acc.platform = Platform(v);
                Ok(())
            },
        },
        SpecField::Authors => match read_text_list(c) {
            Err(e) => Err(e),
            Ok(v) => {
                acc.authors = v;
                Ok(())
            },
        },
        SpecField::Autorequire => match read_nullable_text(c) {
            Err(e) => Err(e),
            Ok(v) => {
                acc.autorequire = v;
                Ok(())
            },
        },
        SpecField::Bindir => match read_text(c) {
            Err(e) => Err(e),
            Ok(v) => {
                acc.bindir = Some(v);
                Ok(())
            },
        },
        SpecField::CertChain => match read_text_list(c) {
            Err(e) => Err(e),
            Ok(v) => {
                acc.cert_chain = Some(v);
                Ok(())
            },
        },
        SpecField::Date => match read_text(c) {
            Err(e) => Err(e),
            Ok(v) => {
                acc.date = Some(v);
                Ok(())
            },
        },
        SpecField::Dependencies => match read_dependency_list(c) {
            Err(e) => Err(e),
            Ok(v) => {
                acc.dependencies = v;
                Ok(())
            },
        },
        SpecField::Description => match read_text(c) {
            Err(e) => Err(e),
            Ok(v) => {
                acc.description = Some(v);
                Ok(())
            },
        },
        SpecField::Email => match read_text_list_or_scalar(c) {
            Err(e) => Err(e),
            Ok(v) => {
                acc.email = v;
                Ok(())
            },
        },
        SpecField::Executables => match read_text_list(c) {
            Err(e) => Err(e),
            Ok(v) => {
                acc.executables = v;
                Ok(())
            },
        },
        SpecField::Extensions => match read_text_list(c) {
            Err(e) => Err(e),
            Ok(v) => {
                acc.extensions = v;
                Ok(())
            },
        },
        SpecField::ExtraRdocFiles => match read_text_list(c) {
            Err(e) => Err(e),
            Ok(v) => {
                acc.extra_rdoc_files = v;
                Ok(())
            },
        },
        SpecField::Files => match read_text_list(c) {
            Err(e) => Err(e),
            Ok(v) => {
                acc.files = v;
                Ok(())
            },
        },
        SpecField::Homepage => match read_text(c) {
            Err(e) => Err(e),
            Ok(v) => {
                acc.homepage = v;
                Ok(())
            },
        },
        SpecField::Licenses => match read_text_list(c) {
            Err(e) => Err(e),
            Ok(v) => {
                acc.licenses = v;
                Ok(())
            },
        },
        SpecField::Metadata => match read_text_map(c) {
            Err(e) => Err(e),
            Ok(v) => {
                acc.metadata = v;
                Ok(())
            },
        },
        SpecField::PostInstallMessage => match read_nullable_text(c) {
            Err(e) => Err(e),
            Ok(v) => {
                acc.post_install_message = v;
                Ok(())
            },
        },
        SpecField::RdocOptions => match read_text_list(c) {
            Err(e) => Err(e),
            Ok(v) => {
                acc.rdoc_options = v;
                Ok(())
            },
        },
        SpecField::RequirePaths => match read_text_list(c) {
            Err(e) => Err(e),
            Ok(v) => {
                acc.require_paths = v;
                Ok(())
            },
        },
        SpecField::RequiredRubyVersion => match read_requirement(c) {
            Err(e) => Err(e),
            Ok(v) => {
                acc.required_ruby_version = Some(v);
                Ok(())
            },
        },
        SpecField::RequiredRubygemsVersion => match read_requirement(c) {
            Err(e) => Err(e),
            Ok(v) => {
                acc.required_rubygems_version = Some(v);
                Ok(())
            },
        },
        SpecField::Requirements => match read_text_list(c) {
            Err(e) => Err(e),
            Ok(v) => {
                acc.requirements = v;
                Ok(())
            },
        },
        SpecField::RubygemsVersion => match read_text(c) {
            Err(e) => Err(e),
            Ok(v) => {
                acc.rubygems_version = v;
                Ok(())
            },
        },
        SpecField::SigningKey => match read_nullable_text(c) {
            Err(e) => Err(e),
            Ok(v) => {
                acc.signing_key = v;
                Ok(())
            },
        },
        SpecField::SpecificationVersion => match read_int(c) {
            Err(e) => Err(e),
            Ok(v) => {
                acc.specification_version = v;
                Ok(())
            },
        },
        SpecField::Summary => match read_text(c) {
            Err(e) => Err(e),
            Ok(v) => {
                acc.summary = v;
                Ok(())
            },
        },
        SpecField::TestFiles => match read_text_list(c) {
            Err(e) => Err(e),
            Ok(v) => {
                acc.test_files = v;
                Ok(())
            },
        },
    }
}

/// The fields of a specification mapping from `pos` on, `acc` holding what has
/// been read and `seen` which mandatory fields were among it.
pub open spec fn specification_fields(
    s: StreamModel,
    pos: int,
    acc: SpecificationModel,
    seen: Seen,
) -> Result<(SpecificationModel, int), ErrorModel>
    decreases s.events.len() - pos,
{
    match event_at(s, pos) {
        Err(e) => Err(e),
        Ok(ev) => if ev is MappingEnd {
            match first_missing(seen) {
                Some(f) => Err(ErrorModel::MissingField { container: Container::Specification, field: f }),
                None => Ok((acc, pos + 1)),
            }
        } else {
            match text_of(Ok(ev)) {
                Err(e) => Err(e),
                Ok(k) => match field_of(k) {
                    None => Err(ErrorModel::UnknownField { container: Container::Specification, field: k }),
                    Some(f) => if is_seen(seen, f) {
                        Err(ErrorModel::DuplicateField { container: Container::Specification, field: k })
                    } else {
                        match field_value(s, pos + 1, f, acc) {
                        Err(e) => Err(e),
                        Ok((a, q)) => {
                            proof {
                                lemma_field_value_advance(s, pos + 1, f, acc);
                            }
                            specification_fields(s, q, a, mark(seen, f))
                        },
                    }
                    },
                },
            }
        },
    }
}

pub proof fn lemma_specification_fields_advance(
    s: StreamModel,
    pos: int,
    acc: SpecificationModel,
    seen: Seen,
)
    ensures
        specification_fields(s, pos, acc, seen) matches Ok((m, q)) ==> pos < q <= s.events.len() && (
        keys_unique(acc.metadata) ==> keys_unique(m.metadata)),
    decreases s.events.len() - pos,
{
    if let Ok(ev) = event_at(s, pos) {
        if let Ok(k) = text_of(Ok(ev)) {
            if let Some(f) = field_of(k) {
                if is_seen(seen, f) {
                    return;
                }
                lemma_field_value_advance(s, pos + 1, f, acc);
                if let Ok((a, q)) = field_value(s, pos + 1, f, acc) {
                    lemma_specification_fields_advance(s, q, a, mark(seen, f));
                }
            }
        }
    }
}

/// Decodes a specification mapping whose start has just been pulled, through
/// the mapping's end. Keys may come in any order, each at most once. A key
/// outside the known set is refused, and so is the mapping if a mandatory
/// field is absent from it.
pub fn decode_specification(c: &mut EventCursor) -> (r: Result<Specification, DecodeError>)
    ensures
        final(c).stream == old(c).stream,
        match specification_fields(old(c).model(), old(c).pos as int, default_model(), none_seen()) {
            Ok((v, p)) => r matches Ok(x) && x@ == v && final(c).pos == p && keys_unique(v.metadata),
            Err(e) => r matches Err(x) && x@ == e,
        },
{
    let ghost s = c.model();
    let ghost pos0 = c.pos as int;
    proof {
        lemma_specification_fields_advance(s, pos0, default_model(), none_seen());
        assert(keys_unique(default_model().metadata));
    }
    let mut acc = Specification::default();
    let mut seen = Seen::none();
    loop
        invariant
            c.stream == old(c).stream,
            s == c.model(),
            s == old(c).model(),
            pos0 == old(c).pos,
            specification_fields(s, c.pos as int, acc@, seen) == specification_fields(
                s,
                pos0,
                default_model(),
                none_seen(),
            ),
            specification_fields(s, pos0, default_model(), none_seen()) matches Ok((m, _))
                ==> keys_unique(m.metadata),
        decreases s.events.len() - c.pos,
    {
        let ghost pos = c.pos as int;
        let ghost cur = specification_fields(s, pos, acc@, seen);
        let ev = match c.next() {
            Err(e) => {
                assert(cur == Err::<(SpecificationModel, int), ErrorModel>(e@));
                return Err(e);
            },
            Ok(ev) => ev,
        };
        if let Event::MappingEnd = ev {
            return match seen.first_missing() {
                Some(f) => {
                    let e = DecodeError::MissingField { container: Container::Specification, field: f };
                    assert(cur == Err::<(SpecificationModel, int), ErrorModel>(e@));
                    Err(e)
                },
                None => Ok(acc),
            };
        }
        let k = match event_text(ev) {
            Err(e) => {
                assert(cur == Err::<(SpecificationModel, int), ErrorModel>(e@));
                return Err(e);
            },
            Ok(k) => k,
        };
        let f = match field_from(k.as_str()) {
            None => {
                let e = DecodeError::UnknownField { container: Container::Specification, field: k };
                assert(cur == Err::<(SpecificationModel, int), ErrorModel>(e@));
                return Err(e);
            },
            Some(f) => f,
        };
        if seen.has(f) {
            let e = DecodeError::DuplicateField { container: Container::Specification, field: k };
            assert(cur == Err::<(SpecificationModel, int), ErrorModel>(e@));
            return Err(e);
        }
        let ghost a0 = acc@;
        match decode_field(c, f, &mut acc) {
            Err(e) => {
                assert(cur == Err::<(SpecificationModel, int), ErrorModel>(e@));
                return Err(e);
            },
            Ok(_) => {},
        }
        proof {
            lemma_field_value_advance(s, pos + 1, f, a0);
        }
        seen.mark(f);
    }
}

/// The keys of the mandatory fields name those fields. Keys of different
/// lengths differ; of keys of equal length, one letter tells them apart.
pub proof fn lemma_mandatory_keys()
    ensures
        field_of("name"@) == Some(SpecField::Name),
        field_of("version"@) == Some(SpecField::Version),
        field_of("platform"@) == Some(SpecField::Platform),
        field_of("authors"@) == Some(SpecField::Authors),
        field_of("dependencies"@) == Some(SpecField::Dependencies),
        field_of("files"@) == Some(SpecField::Files),
        field_of("homepage"@) == Some(SpecField::Homepage),
        field_of("licenses"@) == Some(SpecField::Licenses),
        field_of("require_paths"@) == Some(SpecField::RequirePaths),
        field_of("rubygems_version"@) == Some(SpecField::RubygemsVersion),
        field_of("specification_version"@) == Some(SpecField::SpecificationVersion),
        field_of("summary"@) == Some(SpecField::Summary),
{
    reveal_strlit("name");
    reveal_strlit("version");
    reveal_strlit("platform");
    reveal_strlit("authors");
    reveal_strlit("autorequire");
    reveal_strlit("bindir");
    reveal_strlit("cert_chain");
    reveal_strlit("date");
    reveal_strlit("dependencies");
    reveal_strlit("description");
    reveal_strlit("email");
    reveal_strlit("executables");
    reveal_strlit("extensions");
    reveal_strlit("extra_rdoc_files");
    reveal_strlit("files");
    reveal_strlit("homepage");
    reveal_strlit("licenses");
    reveal_strlit("metadata");
    reveal_strlit("post_install_message");
    reveal_strlit("rdoc_options");
    reveal_strlit("require_paths");
    reveal_strlit("required_ruby_version");
    reveal_strlit("required_rubygems_version");
    reveal_strlit("requirements");
    reveal_strlit("rubygems_version");
    reveal_strlit("signing_key");
    reveal_strlit("specification_version");
    reveal_strlit("summary");
    reveal_strlit("test_files");
    assert("name"@.len() == 4);
    assert("version"@.len() == 7);
    assert("platform"@.len() == 8);
    assert("authors"@.len() == 7);
    assert("autorequire"@.len() == 11);
    assert("bindir"@.len() == 6);
    assert("cert_chain"@.len() == 10);
    assert("date"@.len() == 4);
    assert("dependencies"@.len() == 12);
    assert("description"@.len() == 11);
    assert("email"@.len() == 5);
    assert("executables"@.len() == 11);
    assert("extensions"@.len() == 10);
    assert("extra_rdoc_files"@.len() == 16);
    assert("files"@.len() == 5);
    assert("homepage"@.len() == 8);
    assert("licenses"@.len() == 8);
    assert("metadata"@.len() == 8);
    assert("post_install_message"@.len() == 20);
    assert("rdoc_options"@.len() == 12);
    assert("require_paths"@.len() == 13);
    assert("required_ruby_version"@.len() == 21);
    assert("required_rubygems_version"@.len() == 25);
    assert("requirements"@.len() == 12);
    assert("rubygems_version"@.len() == 16);
    assert("signing_key"@.len() == 11);
    assert("specification_version"@.len() == 21);
    assert("summary"@.len() == 7);
    assert("test_files"@.len() == 10);
    assert("authors"@[0] != "version"@[0]);
    assert("files"@[0] != "email"@[0]);
    assert("homepage"@[0] != "platform"@[0]);
    assert("licenses"@[0] != "platform"@[0]);
    assert("licenses"@[0] != "homepage"@[0]);
    assert("rubygems_version"@[0] != "extra_rdoc_files"@[0]);
    assert("specification_version"@[0] != "required_ruby_version"@[0]);
    assert("summary"@[0] != "version"@[0]);
    assert("summary"@[0] != "authors"@[0]);
}

/// A key outside the known set, met where a specification mapping expects its
/// next key, ends the decode with an unknown-field error naming that key.
pub proof fn lemma_unknown_key_refused(
    s: StreamModel,
    pos: int,
    acc: SpecificationModel,
    seen: Seen,
    k: Seq<char>,
)
    requires
        text_of(event_at(s, pos)) == Ok::<Seq<char>, ErrorModel>(k),
        field_of(k) is None,
    ensures
        specification_fields(s, pos, acc, seen) == Err::<(SpecificationModel, int), ErrorModel>(
            ErrorModel::UnknownField { container: Container::Specification, field: k },
        ),
{
}

impl Specification {
    /// The name, version and platform joined by `-`, as in `rake-13.0.6-ruby`.
    pub fn full_name(&self) -> (r: String)
        ensures
            r@ == self@.name + "-"@ + self@.version.text + "-"@ + self@.platform,
    {
        let mut r = self.name.clone();
        r.append("-");
        r.append(self.version.as_str());
        r.append("-");
        r.append(self.platform.as_str());
        r
    }
}

} // verus!
