//! The text rules of the blog: the file of a post, its entry in the listing,
//! slugs, and reading a post back. Files and directories are left to the
//! caller.

pub mod listing;
pub mod post;
pub mod reader;
pub mod slug;

pub use self::listing::{
    existing_post, generate_listing_entry, get_existing_posts, insert_listing_entry,
    BlogDirectory, ExistingPost, ExistingPostView, LISTING_MARKER,
};
pub use self::post::{
    generate_post_template, new_post, tag_list_text, PostMetadata, PostMetadataView,
};
pub use self::reader::{
    parse_post, read_post, update_post, PostContent, PostContentView, PostSource, PostUpdate,
};
pub use self::slug::slugify;
