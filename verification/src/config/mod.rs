//! The configuration of a templated repository, and its validation.

pub mod serde_default;

use vstd::prelude::*;
use vstd::utf8::*;

use gix::url::Scheme as GitScheme;

use crate::fs::paths::{spec_is_absolute, spec_path_text, utf8_text, PathBuf};

verus! {

/// What makes a configuration invalid. No check rejects a configuration yet: the library
/// never makes a value of this type, and nothing outside it can.
#[derive(Debug)]
pub struct ValidationError {
    unused: (),
}

/// Problems found in a configuration that do not make it invalid.
#[derive(Debug)]
pub struct Warnings<T = String>(Vec<T>);

impl<T> View for Warnings<T> {
    type V = Seq<T>;

    closed spec fn view(&self) -> Seq<T> {
        self.0@
    }
}

impl<T> Warnings<T> {
    /// No warnings.
    pub fn new() -> (r: Self)
        ensures
            r@ == Seq::<T>::empty(),
    {
        Warnings(Vec::new())
    }

    /// The warnings, or `None` when there are none.
    pub fn to_option(self) -> (r: Option<Self>)
        ensures
            match r {
                None => self@.len() == 0,
                Some(w) => self@.len() > 0 && w@ == self@,
            },
    {
        if self.0.len() == 0 {
            None
        } else {
            Some(self)
        }
    }

    /// The warnings, in the order in which they were found.
    pub fn inner(self) -> (r: Vec<T>)
        ensures
            r@ == self@,
    {
        self.0
    }
}

impl<T> core::ops::Deref for Warnings<T> {
    type Target = Vec<T>;

    /// The warnings, borrowed.
    fn deref(&self) -> (r: &Vec<T>)
        ensures
            r@ == self@,
    {
        &self.0
    }
}

impl core::ops::DerefMut for Warnings<String> {
    /// The warnings, borrowed for change.
    fn deref_mut(&mut self) -> (r: &mut Vec<String>)
        ensures
            r@ == old(self)@,
            final(self)@ == final(r)@,
    {
        &mut self.0
    }
}

/// The warnings `w` with `items` pushed onto them one after the other.
pub open spec fn pushed<T>(w: Seq<T>, items: Seq<T>) -> Seq<T>
    decreases items.len(),
{
    if items.len() == 0 {
        w
    } else {
        pushed(w, items.drop_last()).push(items.last())
    }
}

/// Pushing items one by one onto warnings, starting from none, leaves exactly those
/// items, each once, in the order in which they were pushed.
pub proof fn lemma_warnings_push_order<T>(items: Seq<T>)
    ensures
        pushed(Seq::<T>::empty(), items) == items,
    decreases items.len(),
{
    if items.len() > 0 {
        lemma_warnings_push_order(items.drop_last());
        assert(items.drop_last().push(items.last()) == items);
    }
}

/// The texts of the given strings.
pub open spec fn texts(ws: Seq<String>) -> Seq<Seq<char>> {
    ws.map_values(|s: String| s@)
}

/// The kind of location a template source URL names.
#[derive(Debug, PartialEq, Eq)]
pub enum Scheme {
    File,
    Git,
    Ssh,
    Http,
    Https,
    Ext,
    Helper(String),
    HelperUrl(String),
}

/// A [`Scheme`] as a mathematical value.
pub enum SchemeView {
    File,
    Git,
    Ssh,
    Http,
    Https,
    Ext,
    Helper(Seq<char>),
    HelperUrl(Seq<char>),
}

impl View for Scheme {
    type V = SchemeView;

    open spec fn view(&self) -> SchemeView {
        match self {
            Scheme::File => SchemeView::File,
            Scheme::Git => SchemeView::Git,
            Scheme::Ssh => SchemeView::Ssh,
            Scheme::Http => SchemeView::Http,
            Scheme::Https => SchemeView::Https,
            Scheme::Ext => SchemeView::Ext,
            Scheme::Helper(n) => SchemeView::Helper(n@),
            Scheme::HelperUrl(n) => SchemeView::HelperUrl(n@),
        }
    }
}

/// The location of the template source.
///
/// This can be a local directory path, or a git repository URL (https/ssh), for example
/// `path/to/template`, `https://github.com/my-org/my-template` or
/// `ssh://github.com:my-org/my-template?path=custom/template_dir`.
///
/// Besides the scheme, the path and the URL written out, it keeps every field of the URL
/// (as the URL's derived `Debug` writes them), so that two sources are equal exactly when
/// their URLs are.
#[derive(Debug, PartialEq, Eq)]
pub struct SourceIdentifier {
    scheme: Scheme,
    path: String,
    text: String,
    fields: String,
}

/// A [`SourceIdentifier`] as a mathematical value: the URL's scheme, its path as text, the
/// URL written out for display (password redacted), and all the URL's fields written out.
pub struct SourceIdentifierView {
    pub scheme: SchemeView,
    pub path: Seq<char>,
    pub text: Seq<char>,
    pub fields: Seq<char>,
}

impl View for SourceIdentifier {
    type V = SourceIdentifierView;

    closed spec fn view(&self) -> SourceIdentifierView {
        SourceIdentifierView {
            scheme: self.scheme@,
            path: self.path@,
            text: self.text@,
            fields: self.fields@,
        }
    }
}

/// What `gix` makes of `input` as a git URL: the source it names, or the message of the
/// error with which it rejects `input`.
pub uninterp spec fn git_url(input: Seq<char>) -> Result<SourceIdentifierView, Seq<char>>;

/// Parses `input` with `gix::Url::try_from(&str)`. Of an accepted URL it keeps the scheme,
/// the path (the display of `Url::path`), the URL as `Url`'s `Display` writes it (with a
/// password redacted) and all its fields as `Url`'s derived `Debug` writes them; of a
/// rejection, the error's message. The outcome depends on `input` alone; it is named
/// [`git_url`] and not stated further.
#[verifier::external_body]
fn parse_git_url(input: &str) -> (r: Result<SourceIdentifier, String>)
    ensures
        match r {
            Ok(id) => git_url(input@) == Ok::<SourceIdentifierView, Seq<char>>(id@),
            Err(m) => git_url(input@) == Err::<SourceIdentifierView, Seq<char>>(m@),
        },
{
    let url = match gix::Url::try_from(input) { Ok(url) => url, Err(e) => return Err(e.to_string()) };
    let (path, text, fields) = (url.path.to_string(), url.to_string(), format!("{url:?}"));
    let scheme = match url.scheme {
        GitScheme::File => Scheme::File, GitScheme::Git => Scheme::Git,
        GitScheme::Ssh => Scheme::Ssh, GitScheme::Http => Scheme::Http,
        GitScheme::Https => Scheme::Https, GitScheme::Ext => Scheme::Ext,
        GitScheme::Helper(name) => Scheme::Helper(name),
        GitScheme::HelperUrl(name) => Scheme::HelperUrl(name),
    };
    Ok(SourceIdentifier { scheme, path, text, fields })
}

/// A template source that is not a valid git URL or path.
#[derive(Debug, PartialEq, Eq)]
pub struct SourceIdentifierError {
    pub message: String,
}

impl SourceIdentifier {
    /// The source that `input` names, read as a git URL or path.
    pub fn parse(input: &str) -> (r: Result<SourceIdentifier, SourceIdentifierError>)
        ensures
            match git_url(input@) {
                Ok(v) => r matches Ok(id) && id@ == v,
                Err(m) => r matches Err(e) && e.message@ == m,
            },
    {
        match parse_git_url(input) {
            Ok(id) => Ok(id),
            Err(message) => Err(SourceIdentifierError { message }),
        }
    }

    /// The scheme of the URL.
    pub fn scheme(&self) -> (r: &Scheme)
        ensures
            r@ == self@.scheme,
    {
        &self.scheme
    }

    /// The path of the URL, as a file-system path.
    pub fn path(&self) -> (r: PathBuf)
        ensures
            r@ == encode_utf8(self@.path),
    {
        PathBuf::from_str(self.path.as_str())
    }

    /// The URL written out, as it is stored in a configuration file.
    pub fn to_url_string(&self) -> (r: String)
        ensures
            r@ == self@.text,
    {
        self.text.clone()
    }
}

/// What follows a path in the warning about a path that is not absolute.
pub const NOT_ABSOLUTE_SUFFIX: &'static str = " is not an absolute path";

/// The warnings about a template source: one when it names a local file location whose
/// path is not absolute, none otherwise.
pub open spec fn template_warnings(source: SourceIdentifierView) -> Seq<Seq<char>> {
    if source.scheme is File && !spec_is_absolute(encode_utf8(source.path)) {
        seq![source.path + NOT_ABSOLUTE_SUFFIX@]
    } else {
        seq![]
    }
}

/// Only a local template source is checked: a source of any other scheme gets no warning,
/// whatever its path. A local source whose path starts with `/` gets none either; any other
/// local source gets exactly one, naming its path.
pub proof fn lemma_template_warnings(source: SourceIdentifierView)
    ensures
        !(source.scheme is File) ==> template_warnings(source) == Seq::<Seq<char>>::empty(),
        (source.scheme is File) && source.path.len() > 0 && source.path[0] == '/'
            ==> template_warnings(source) == Seq::<Seq<char>>::empty(),
        (source.scheme is File) && !(source.path.len() > 0 && source.path[0] == '/')
            ==> template_warnings(source) == seq![source.path + NOT_ABSOLUTE_SUFFIX@],
{
    crate::fs::paths::lemma_encoding_starts_with_separator(source.path);
}

/// Configuration pertaining to the template source.
#[derive(Debug, PartialEq)]
pub struct TemplateConfig {
    /// The location of the template source: a local directory path, or a git repository URL.
    pub source: SourceIdentifier,
    /// A committish naming a commit, tag, or branch; the repository's default branch
    /// (`HEAD`) when unset. Only used when the source is a git repository.
    pub reference: Option<String>,
}

impl TemplateConfig {
    /// Checks the template configuration: a local source path that is not absolute is
    /// reported.
    pub fn validate(&self) -> (r: Result<Option<Warnings<String>>, ValidationError>)
        ensures
            match r {
                Ok(Some(w)) => w@.len() > 0 && texts(w@) == template_warnings(self.source@),
                Ok(None) => template_warnings(self.source@).len() == 0,
                Err(_) => false,
            },
    {
        let mut warnings: Warnings<String> = Warnings::new();
        match self.source.scheme() {
            Scheme::File => {
                let path = self.source.path();
                if !path.is_absolute() {
                    let mut message = self.source.path.clone();
                    message.append(NOT_ABSOLUTE_SUFFIX);
                    warnings.push(message);
                    assert(texts(warnings@) == template_warnings(self.source@));
                }
            },
            _ => {},
        }
        assert(warnings@.len() == 0 ==> texts(warnings@) == Seq::<Seq<char>>::empty());
        Ok(warnings.to_option())
    }
}

/// Why a pull request template source cannot be read or written.
#[derive(Debug, PartialEq, Eq)]
pub enum TemplateSourceError {
    /// The path of a template file is not valid UTF-8, so it cannot be written out.
    InvalidUtf8Path,
    /// The path names something that exists but is not a file.
    NotAFile,
}

impl TemplateSourceError {
    /// The message that describes the error.
    pub fn message(&self) -> (r: &'static str)
        ensures
            r@ == match self {
                TemplateSourceError::InvalidUtf8Path => INVALID_UTF8_PATH_MESSAGE@,
                TemplateSourceError::NotAFile => NOT_A_FILE_MESSAGE@,
            },
    {
        match self {
            TemplateSourceError::InvalidUtf8Path => INVALID_UTF8_PATH_MESSAGE,
            TemplateSourceError::NotAFile => NOT_A_FILE_MESSAGE,
        }
    }
}

/// The message of [`TemplateSourceError::InvalidUtf8Path`].
pub const INVALID_UTF8_PATH_MESSAGE: &'static str = "path contains invalid UTF-8 characters";

/// The message of [`TemplateSourceError::NotAFile`].
pub const NOT_A_FILE_MESSAGE: &'static str = "template path is not a file";

/// Content for the pull request title and body: an inline template, or a file holding one.
#[derive(Debug, PartialEq)]
pub enum PullRequestTemplateSource {
    /// Inline content template
    Template(String),
    /// Content template from a file
    File(PathBuf),
}

/// A [`PullRequestTemplateSource`] as a mathematical value.
pub enum TemplateSourceView {
    Template(Seq<char>),
    File(Seq<u8>),
}

impl View for PullRequestTemplateSource {
    type V = TemplateSourceView;

    open spec fn view(&self) -> TemplateSourceView {
        match self {
            PullRequestTemplateSource::Template(s) => TemplateSourceView::Template(s@),
            PullRequestTemplateSource::File(p) => TemplateSourceView::File(p@),
        }
    }
}

/// The text that stands for a template source in a configuration file: the inline template
/// itself, or the path of the template file; `None` for a path that is not UTF-8.
pub open spec fn spec_serialized(source: TemplateSourceView) -> Option<Seq<char>> {
    match source {
        TemplateSourceView::Template(s) => Some(s),
        TemplateSourceView::File(p) => spec_path_text(p),
    }
}

/// The template source that the text `v` of a configuration file stands for, given what
/// the file system holds at the path `v` (made absolute): `Some(true)` for a file,
/// `Some(false)` for something else, `None` when nothing can be found there. Empty text,
/// and text that names nothing, are inline templates; text naming a file is that file.
pub open spec fn spec_read_template_source(v: Seq<char>, target_is_file: Option<bool>) -> Result<
    TemplateSourceView,
    TemplateSourceError,
> {
    if v.len() == 0 {
        Ok(TemplateSourceView::Template(v))
    } else {
        match target_is_file {
            Some(true) => Ok(TemplateSourceView::File(encode_utf8(v))),
            Some(false) => Err(TemplateSourceError::NotAFile),
            None => Ok(TemplateSourceView::Template(v)),
        }
    }
}

impl PullRequestTemplateSource {
    /// The text that stands for this source in a configuration file.
    pub fn serialize_str(&self) -> (r: Result<&str, TemplateSourceError>)
        ensures
            match spec_serialized(self@) {
                Some(t) => r matches Ok(s) && s@ == t,
                None => r == Err::<&str, TemplateSourceError>(TemplateSourceError::InvalidUtf8Path),
            },
    {
        match self {
            PullRequestTemplateSource::Template(s) => Ok(s.as_str()),
            PullRequestTemplateSource::File(path) => match utf8_text(path.as_bytes()) {
                Some(s) => Ok(s),
                None => Err(TemplateSourceError::InvalidUtf8Path),
            },
        }
    }

    /// The source that the text `v` of a configuration file stands for. `target_is_file` says
    /// what the file system holds at the path `v` made absolute (see
    /// [`spec_read_template_source`]); it is only consulted when `v` is not empty.
    pub fn from_config_str(v: &str, target_is_file: Option<bool>) -> (r: Result<
        PullRequestTemplateSource,
        TemplateSourceError,
    >)
        ensures
            match r {
                Ok(s) => spec_read_template_source(v@, target_is_file) == Ok::<
                    TemplateSourceView,
                    TemplateSourceError,
                >(s@),
                Err(e) => spec_read_template_source(v@, target_is_file) == Err::<
                    TemplateSourceView,
                    TemplateSourceError,
                >(e),
            },
    {
        if v.is_empty() {
            return Ok(PullRequestTemplateSource::Template(v.to_owned()));
        }
        match target_is_file {
            Some(true) => Ok(PullRequestTemplateSource::File(PathBuf::from_str(v))),
            Some(false) => Err(TemplateSourceError::NotAFile),
            None => Ok(PullRequestTemplateSource::Template(v.to_owned())),
        }
    }
}

/// How configuration text is read: empty text is an empty inline template; other text is a
/// template file when a file is at its path, an error when something else is there, and an
/// inline template when nothing is.
pub proof fn lemma_read_template_source(v: Seq<char>)
    ensures
        forall|t: Option<bool>|
            v.len() == 0 ==> #[trigger] spec_read_template_source(v, t) == Ok::<
                TemplateSourceView,
                TemplateSourceError,
            >(TemplateSourceView::Template(v)),
        v.len() > 0 ==> spec_read_template_source(v, Some(false)) == Err::<
            TemplateSourceView,
            TemplateSourceError,
        >(TemplateSourceError::NotAFile),
        v.len() > 0 ==> spec_read_template_source(v, Some(true)) == Ok::<
            TemplateSourceView,
            TemplateSourceError,
        >(TemplateSourceView::File(encode_utf8(v))),
        v.len() > 0 ==> spec_read_template_source(v, None) == Ok::<
            TemplateSourceView,
            TemplateSourceError,
        >(TemplateSourceView::Template(v)),
{
}

/// Writing out a template source that was read from the text `v` gives back `v`.
pub proof fn lemma_template_source_roundtrip(v: Seq<char>, target_is_file: Option<bool>)
    requires
        spec_read_template_source(v, target_is_file) is Ok,
    ensures
        spec_serialized(spec_read_template_source(v, target_is_file)->Ok_0) == Some(v),
{
    broadcast use encode_utf8_valid_utf8, encode_utf8_decode_utf8;

}

/// Configuration pertaining to raising pull (merge) requests.
#[derive(Debug, PartialEq)]
pub struct PullRequestConfig {
    enabled: bool,
    draft: bool,
    title: PullRequestTemplateSource,
    body: PullRequestTemplateSource,
    labels: Option<Vec<String>>,
    assignees: Option<Vec<String>>,
}

/// A [`PullRequestConfig`] as a mathematical value.
pub struct PullRequestConfigView {
    pub enabled: bool,
    pub draft: bool,
    pub title: TemplateSourceView,
    pub body: TemplateSourceView,
    pub labels: Option<Seq<Seq<char>>>,
    pub assignees: Option<Seq<Seq<char>>>,
}

/// The texts of an optional list of strings.
pub open spec fn list_texts(l: Option<Vec<String>>) -> Option<Seq<Seq<char>>> {
    match l {
        Some(v) => Some(texts(v@)),
        None => None,
    }
}

impl View for PullRequestConfig {
    type V = PullRequestConfigView;

    closed spec fn view(&self) -> PullRequestConfigView {
        PullRequestConfigView {
            enabled: self.enabled,
            draft: self.draft,
            title: self.title@,
            body: self.body@,
            labels: list_texts(self.labels),
            assignees: list_texts(self.assignees),
        }
    }
}

impl PullRequestConfig {
    /// A pull request configuration: whether pull requests are raised, whether as drafts,
    /// their title and body, and the labels and assignees to give them.
    pub fn new(
        enabled: bool,
        draft: bool,
        title: PullRequestTemplateSource,
        body: PullRequestTemplateSource,
        labels: Option<Vec<String>>,
        assignees: Option<Vec<String>>,
    ) -> (r: PullRequestConfig)
        ensures
            r@ == (PullRequestConfigView {
                enabled,
                draft,
                title: title@,
                body: body@,
                labels: list_texts(labels),
                assignees: list_texts(assignees),
            }),
    {
        PullRequestConfig { enabled, draft, title, body, labels, assignees }
    }

    /// Checks the pull request configuration. Nothing in it is checked yet.
    pub fn validate(&self) -> (r: Result<Option<Warnings<String>>, ValidationError>)
        ensures
            r matches Ok(None),
    {
        Ok(None)
    }

    /// Whether pull requests are raised.
    pub fn enabled(&self) -> (r: bool)
        ensures
            r == self@.enabled,
    {
        self.enabled
    }

    /// Whether pull requests are marked as drafts.
    pub fn draft(&self) -> (r: bool)
        ensures
            r == self@.draft,
    {
        self.draft
    }

    /// The source of the pull request title.
    pub fn title(&self) -> (r: &PullRequestTemplateSource)
        ensures
            r@ == self@.title,
    {
        &self.title
    }

    /// The source of the pull request body.
    pub fn body(&self) -> (r: &PullRequestTemplateSource)
        ensures
            r@ == self@.body,
    {
        &self.body
    }

    /// The labels (tags) to attach to pull requests.
    pub fn labels(&self) -> (r: &Option<Vec<String>>)
        ensures
            list_texts(*r) == self@.labels,
    {
        &self.labels
    }

    /// The assignees of pull requests.
    pub fn assignees(&self) -> (r: &Option<Vec<String>>)
        ensures
            list_texts(*r) == self@.assignees,
    {
        &self.assignees
    }
}

/// The semantic version of the `semver` crate, carried through unchanged.
#[verifier::external_type_specification]
#[verifier::external_body]
pub struct ExVersion(semver::Version);

/// The configuration of a templated repository.
#[derive(Debug, PartialEq)]
pub struct Config {
    /// The configuration schema semantic version, used to handle breaking changes across
    /// versions.
    pub version: semver::Version,
    /// Configuration pertaining to the template source.
    pub template: TemplateConfig,
    /// Configuration pertaining to raising pull (merge) requests.
    pub pull_request: Option<PullRequestConfig>,
}

impl Config {
    /// Checks the configuration. Every configuration passes; the warnings found in its parts
    /// are returned together, in order, possibly none.
    pub fn validate(&self) -> (r: Result<Option<Warnings<String>>, ValidationError>)
        ensures
            r matches Ok(Some(w)) && texts(w@) == template_warnings(self.template.source@),
    {
        let mut warnings: Warnings<String> = Warnings::new();
        match self.template.validate() {
            Ok(Some(w)) => {
                let mut found = w.inner();
                warnings.append(&mut found);
            },
            Ok(None) => {},
            Err(e) => return Err(e),
        }
        let ghost found = warnings@;
        match &self.pull_request {
            Some(pull_request) => match pull_request.validate() {
                Ok(Some(w)) => {
                let mut found = w.inner();
                warnings.append(&mut found);
            },
                Ok(None) => {},
                Err(e) => return Err(e),
            },
            None => {},
        }
        assert(warnings@ == found);
        assert(texts(warnings@) == template_warnings(self.template.source@));
        Ok(Some(warnings))
    }
}

/// Reading back the text that a template source is written as gives the same source, as
/// long as the file system agrees with it: an inline template that is not empty must name
/// nothing on the file system, and a template file must be a file (with a non-empty path).
pub proof fn lemma_template_source_write_read(source: TemplateSourceView, target_is_file: Option<bool>)
    requires
        spec_serialized(source) is Some,
        match source {
            TemplateSourceView::Template(s) => s.len() == 0 || target_is_file is None,
            TemplateSourceView::File(p) => p.len() > 0 && target_is_file == Some(true),
        },
    ensures
        spec_read_template_source(spec_serialized(source)->Some_0, target_is_file) == Ok::<
            TemplateSourceView,
            TemplateSourceError,
        >(source),
{
    broadcast use decode_utf8_encode_utf8;

    if let TemplateSourceView::File(p) = source {
        assert(decode_utf8(p).len() > 0) by {
            reveal_with_fuel(decode_utf8, 2);
        }
    }
}

} // verus!
