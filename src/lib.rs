//! A read-only storage accessor over a hosted workspace of pages.
//!
//! Paths resolve to page ids, page fields normalise to typed property values,
//! properties render as a deterministic frontmatter block, collections are
//! listed page by page through a cursor, and remote failures map to a small
//! set of error kinds. The remote calls themselves are made by the caller:
//! the types here take what those calls returned and decide what follows.

pub mod error;
pub mod frontmatter;
pub mod http;
pub mod listing;
pub mod path;
pub mod properties;
pub mod property;
pub mod service;
pub mod text;
pub mod time;

pub use error::{
    error_kind_for_status, map_notion_error, translate_failure, Error, ErrorKind, RemoteFailure,
};
pub use frontmatter::{apply_frontmatter, escape, join_with_commas, property_value_to_string};
pub use http::{
    is_valid_id, notion_token_from_header, page_response_format, token_from_headers,
    PageResponseFormat,
};
pub use listing::{ListingMode, NotionLister, PaginatedLister, PAGE_SIZE};
pub use path::{is_root, is_root_dir, parse_page_path};
pub use properties::{key_eq, key_less, notion_page_to_properties, Page, PropertyMap};
pub use property::{
    date_or_datetime_to_datetime, date_to_datetime, property_to_value, rich_text_to_string,
    DateOrDateTime, DatePropertyValue, PageProperty, PropertyValue, SelectOption, User,
};
pub use service::{
    render_document, DocumentMetadata, NotionAccessor, NotionConfig, NotionServiceBuilder,
    StatTarget, CONTENT_TYPE,
};
pub use time::{CalendarDate, Timestamp};
