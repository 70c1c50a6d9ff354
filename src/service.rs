use vstd::prelude::*;
use vstd::utf8::encode_utf8;
use crate::error::{Error, ErrorKind};
use crate::frontmatter::{apply_frontmatter, with_frontmatter};
use crate::listing::PaginatedLister;
use crate::path::{is_nested, is_root, is_root_dir, parse_page_path, spec_is_root, spec_is_root_dir, strip_md};
use crate::properties::{ascending_pairs, normalized_fields, notion_page_to_properties, Page};
use crate::time::{Timestamp, TimestampModel};

verus! {

/// The content type of every document.
pub const CONTENT_TYPE: &'static str = "text/markdown";

/// Configuration of the read-only service.
#[derive(Clone, Debug, Default)]
pub struct NotionConfig {
    /// The integration token.
    pub token: Option<String>,
    /// The collection that `list` enumerates.
    pub database_id: Option<String>,
    /// Whether documents start with their properties as frontmatter.
    pub frontmatter: bool,
}

/// The view of an optional text.
pub open spec fn opt_text(o: Option<String>) -> Option<Seq<char>> {
    match o {
        Some(s) => Some(s@),
        None => None,
    }
}

/// A configuration as mathematics.
pub struct ConfigModel {
    pub token: Option<Seq<char>>,
    pub database_id: Option<Seq<char>>,
    pub frontmatter: bool,
}

impl View for NotionConfig {
    type V = ConfigModel;

    open spec fn view(&self) -> ConfigModel {
        ConfigModel {
            token: opt_text(self.token),
            database_id: opt_text(self.database_id),
            frontmatter: self.frontmatter,
        }
    }
}

impl NotionConfig {
    /// A builder that starts from this configuration.
    pub fn into_builder(self) -> (r: NotionServiceBuilder)
        ensures
            r@ == self@,
    {
        NotionServiceBuilder { config: self }
    }
}

/// Builds the accessor step by step.
#[derive(Clone, Default)]
pub struct NotionServiceBuilder {
    config: NotionConfig,
}

impl View for NotionServiceBuilder {
    type V = ConfigModel;

    closed spec fn view(&self) -> ConfigModel {
        self.config@
    }
}

impl NotionServiceBuilder {
    /// Sets the token; an empty one leaves the builder as it was.
    pub fn token(self, token: &str) -> (r: Self)
        ensures
            token@.len() == 0 ==> r@ == self@,
            token@.len() > 0 ==> r@ == (ConfigModel { token: Some(token@), ..self@ }),
    {
        let mut b = self;
        if !token.is_empty() {
            b.config.token = Some(token.to_owned());
        }
        b
    }

    /// Sets the collection that `list` enumerates; an empty id leaves the
    /// builder as it was.
    pub fn database_id(self, database_id: &str) -> (r: Self)
        ensures
            database_id@.len() == 0 ==> r@ == self@,
            database_id@.len() > 0 ==> r@ == (ConfigModel {
                database_id: Some(database_id@),
                ..self@
            }),
    {
        let mut b = self;
        if !database_id.is_empty() {
            b.config.database_id = Some(database_id.to_owned());
        }
        b
    }

    /// Turns frontmatter on documents on or off.
    pub fn frontmatter(self, enabled: bool) -> (r: Self)
        ensures
            r@ == (ConfigModel { frontmatter: enabled, ..self@ }),
    {
        let mut b = self;
        b.config.frontmatter = enabled;
        b
    }

    /// The configuration built so far.
    pub fn config(&self) -> (r: &NotionConfig)
        ensures
            r@ == self@,
    {
        &self.config
    }

    /// The token and the accessor; without a token the configuration is invalid.
    pub fn build(self) -> (r: Result<(String, NotionAccessor), Error>)
        ensures
            r is Err <==> self@.token is None,
            r matches Err(e) ==> e.kind == ErrorKind::ConfigInvalid,
            r matches Ok((token, a)) ==> {
                &&& Some(token@) == self@.token
                &&& a.spec_database_id() == self@.database_id
                &&& a.spec_frontmatter() == self@.frontmatter
            },
    {
        let config = self.config;
        match config.token {
            Some(token) => Ok((token, NotionAccessor::new(config.database_id, config.frontmatter))),
            None => Err(Error::new(ErrorKind::ConfigInvalid, "notion token is required")),
        }
    }
}

/// What a `stat` path names.
#[derive(Clone, Debug)]
pub enum StatTarget {
    /// The root container.
    Root,
    /// The page with this id.
    Page(String),
}

/// The metadata of a document.
#[derive(Clone, Debug)]
pub struct DocumentMetadata {
    /// The length of the content in bytes.
    pub content_length: u64,
    pub last_modified: Timestamp,
}

/// The text of a document: the rendered body, after the page's properties as
/// frontmatter when that is turned on.
pub open spec fn document_text(frontmatter: bool, page: Page, markdown: Seq<char>) -> Seq<char> {
    if frontmatter {
        with_frontmatter(ascending_pairs(normalized_fields(page.properties@)), markdown)
    } else {
        markdown
    }
}

/// The text of the document for `page`, rendered as `markdown`, with the
/// page's properties as frontmatter when `frontmatter` is set.
pub fn render_document(page: &Page, markdown: String, frontmatter: bool) -> (r: String)
    ensures
        r@ == document_text(frontmatter, *page, markdown@),
{
    if frontmatter {
        let properties = notion_page_to_properties(page);
        apply_frontmatter(&properties, markdown.as_str())
    } else {
        markdown
    }
}

/// The length in bytes of the UTF-8 form of a text.
pub open spec fn byte_length(s: Seq<char>) -> nat {
    encode_utf8(s).len()
}

/// Answers stat, read and list on the decisions that need no remote call;
/// the caller performs the calls.
#[derive(Clone, Debug)]
pub struct NotionAccessor {
    database_id: Option<String>,
    frontmatter: bool,
}

impl NotionAccessor {
    pub closed spec fn spec_database_id(&self) -> Option<Seq<char>> {
        opt_text(self.database_id)
    }

    pub closed spec fn spec_frontmatter(&self) -> bool {
        self.frontmatter
    }

    /// An accessor that lists `database_id`, if any.
    pub fn new(database_id: Option<String>, frontmatter: bool) -> (r: NotionAccessor)
        ensures
            r.spec_database_id() == opt_text(database_id),
            r.spec_frontmatter() == frontmatter,
    {
        NotionAccessor { database_id, frontmatter }
    }

    /// Whether `list` is offered: only with a collection to list.
    pub fn can_list(&self) -> (r: bool)
        ensures
            r == self.spec_database_id() is Some,
    {
        self.database_id.is_some()
    }

    /// Whether documents start with frontmatter.
    pub fn frontmatter(&self) -> (r: bool)
        ensures
            r == self.spec_frontmatter(),
    {
        self.frontmatter
    }

    /// What a `stat` of `path` is about: the root, or a page.
    pub fn stat_target(&self, path: &str) -> (r: Result<StatTarget, Error>)
        ensures
            spec_is_root(path@) ==> r matches Ok(StatTarget::Root),
            !spec_is_root(path@) ==> match r {
                Ok(StatTarget::Page(id)) => !is_nested(path@) && id@ == strip_md(path@) && id@.len() > 0,
                Ok(StatTarget::Root) => false,
                Err(e) => e.kind == ErrorKind::NotFound && (is_nested(path@) || strip_md(path@).len() == 0),
            },
    {
        if is_root(path) {
            return Ok(StatTarget::Root);
        }
        match parse_page_path(path) {
            Ok(id) => Ok(StatTarget::Page(id)),
            Err(e) => Err(e),
        }
    }

    /// The page that a read of `path` is about; only whole documents can be
    /// read, so a partial range is unsupported.
    pub fn read_target(&self, path: &str, full_range: bool) -> (r: Result<String, Error>)
        ensures
            !full_range ==> (r matches Err(e) && e.kind == ErrorKind::Unsupported),
            full_range ==> match r {
                Ok(id) => !is_nested(path@) && id@ == strip_md(path@) && id@.len() > 0,
                Err(e) => e.kind == ErrorKind::NotFound && (is_nested(path@) || strip_md(path@).len() == 0),
            },
    {
        if !full_range {
            return Err(Error::new(ErrorKind::Unsupported, "range reads are not supported for notion"));
        }
        parse_page_path(path)
    }

    /// The collection to list and a listing of all of it. Without a
    /// collection listing is unsupported; only the root is a directory.
    pub fn list(&self, path: &str) -> (r: Result<(String, PaginatedLister), Error>)
        ensures
            self.spec_database_id() is None ==> (r matches Err(e) && e.kind == ErrorKind::Unsupported),
            self.spec_database_id() is Some && !spec_is_root_dir(path@) ==> (r matches Err(e) && e.kind
                == ErrorKind::NotADirectory),
            self.spec_database_id() is Some && spec_is_root_dir(path@) ==> (r matches Ok((id, l)) && {
                &&& Some(id@) == self.spec_database_id()
                &&& l.wf()
                &&& l.spec_mode() == crate::listing::ListingMode::All
                &&& l.seen().len() == 0
                &&& !l.spec_finished()
                &&& l.spec_cursor() is None
            }),
    {
        match &self.database_id {
            None => Err(Error::new(ErrorKind::Unsupported, "list requires a database_id")),
            Some(id) => {
                if !is_root_dir(path) {
                    return Err(Error::new(ErrorKind::NotADirectory, "only root directory is listable"));
                }
                Ok((id.clone(), PaginatedLister::all()))
            },
        }
    }

    /// The text of the document for `page`, rendered as `markdown`.
    pub fn document(&self, page: &Page, markdown: String) -> (r: String)
        ensures
            r@ == document_text(self.spec_frontmatter(), *page, markdown@),
    {
        render_document(page, markdown, self.frontmatter)
    }

    /// The metadata of the document for `page`.
    pub fn stat_page(&self, page: &Page, markdown: String) -> (r: DocumentMetadata)
        ensures
            r.content_length == byte_length(document_text(self.spec_frontmatter(), *page, markdown@)),
            r.last_modified == page.last_edited_time,
    {
        let content = self.document(page, markdown);
        DocumentMetadata { content_length: content.as_str().as_bytes().len() as u64, last_modified: page.last_edited_time }
    }

    /// The content of the document for `page`, and its length in bytes.
    pub fn read_page(&self, page: &Page, markdown: String) -> (r: (String, u64))
        ensures
            r.0@ == document_text(self.spec_frontmatter(), *page, markdown@),
            r.1 == byte_length(r.0@),
    {
        let content = self.document(page, markdown);
        let size = content.as_str().as_bytes().len() as u64;
        (content, size)
    }
}

/// A read of a record yields as many bytes as a stat of it declares.
pub proof fn lemma_read_length_matches_stat(
    a: NotionAccessor,
    page: Page,
    markdown: Seq<char>,
    meta: DocumentMetadata,
    content: Seq<char>,
)
    requires
        meta.content_length == byte_length(document_text(a.spec_frontmatter(), page, markdown)),
        content == document_text(a.spec_frontmatter(), page, markdown),
    ensures
        byte_length(content) == meta.content_length,
{
}

} // verus!
