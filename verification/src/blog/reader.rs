//! Reading a post back from its file, and rewriting it.

use crate::blog::post::{PostMetadata, PostMetadataView, generate_post_template, post_template};
use crate::blog::slug::title_of_slug;
use crate::search::{between, find, find_text, replace, text_between};
use crate::split::{nonempty_parts, split, split_chars};
use crate::text::{chars_of, lemma_chars_view, string_of, strip, stripped, trim, trimmed};
use vstd::prelude::*;
use vstd::string::StringExecFns;

verus! {

/// A post as it is read back from its file.
#[derive(Debug)]
pub struct PostContent {
    pub slug: String,
    pub title: String,
    pub date: String,
    pub excerpt: String,
    pub tags: Vec<String>,
    pub content: String,
}

/// The mathematical value of a [`PostContent`].
pub struct PostContentView {
    pub slug: Seq<char>,
    pub title: Seq<char>,
    pub date: Seq<char>,
    pub excerpt: Seq<char>,
    pub tags: Seq<Seq<char>>,
    pub content: Seq<char>,
}

impl View for PostContent {
    type V = PostContentView;

    open spec fn view(&self) -> PostContentView {
        PostContentView {
            slug: self.slug@,
            title: self.title@,
            date: self.date@,
            excerpt: self.excerpt@,
            tags: self.tags.deep_view(),
            content: self.content@,
        }
    }
}

/// What reading the file of a post gave.
#[derive(Debug)]
pub enum PostSource {
    /// There is no such file.
    Missing,
    /// The file is there and could not be read; the system's message.
    Unreadable(String),
    /// The text of the file.
    Text(String),
}

/// What opens the metadata of a post in its file.
pub const METADATA_OPEN: &'static str = "export const metadata = {";

/// What opens the body of a post in its file.
pub const BODY_OPEN: &'static str = "<div class=\"post-content\">";

/// The metadata block of a post file: from the opening of the metadata to
/// the first `};` after it, both included.
pub open spec fn metadata_block(file: Seq<char>) -> Option<Seq<char>> {
    match find(file, METADATA_OPEN@) {
        Some(start) => match find(file.skip(start), "};"@) {
            Some(end) => Some(file.subrange(start, start + end + 2)),
            None => None,
        },
        None => None,
    }
}

/// What stands in the metadata block between `opener` and the next
/// `closer`.
pub open spec fn block_field(block: Option<Seq<char>>, opener: Seq<char>, closer: Seq<char>) -> Option<
    Seq<char>,
> {
    match block {
        Some(text) => between(text, opener, closer),
        None => None,
    }
}

/// The tags written in a list: the items between the commas, each trimmed
/// and without the quotes around it, blank ones left out.
pub open spec fn tag_names(list: Seq<char>) -> Seq<Seq<char>> {
    nonempty_parts(split(list, ',').map_values(|item: Seq<char>| stripped(trimmed(item), '"')))
}

/// `found` where there is one, else `default`.
pub open spec fn or_else(found: Option<Seq<char>>, default: Seq<char>) -> Seq<char> {
    match found {
        Some(text) => text,
        None => default,
    }
}

/// The post that the text of a post file holds. What the file does not give
/// is left empty, but for the title, which then comes from the slug.
pub open spec fn post_of(slug: Seq<char>, file: Seq<char>) -> PostContentView {
    let block = metadata_block(file);
    PostContentView {
        slug,
        title: or_else(block_field(block, "title: \""@, "\""@), title_of_slug(slug)),
        date: or_else(block_field(block, "date: \""@, "\""@), Seq::empty()),
        excerpt: or_else(block_field(block, "excerpt: \""@, "\""@), Seq::empty()),
        tags: match block_field(block, "tags: ["@, "]"@) {
            Some(list) => tag_names(list),
            None => Seq::empty(),
        },
        content: match between(file, BODY_OPEN@, "</div>"@) {
            Some(body) => trimmed(body),
            None => Seq::empty(),
        },
    }
}

/// The metadata block of a post file.
fn metadata_block_of(v: &Vec<char>) -> (r: Option<Vec<char>>)
    ensures
        r.deep_view() == metadata_block(v@),
{
    let open = chars_of(METADATA_OPEN);
    let close = chars_of("};");
    assert(v@.skip(0) =~= v@);
    proof {
        reveal_strlit("};");
    }
    match find_text(v, 0, &open) {
        Some(start) => match find_text(v, start, &close) {
            Some(end) => {
                let mut block: Vec<char> = Vec::new();
                let mut i: usize = start;
                while i < end + 2
                    invariant
                        start <= i <= end + 2 <= v.len(),
                        block@ =~= v@.subrange(start as int, i as int),
                    decreases end + 2 - i,
                {
                    block.push(v[i]);
                    i += 1;
                }
                proof {
                    lemma_chars_view(block);
                }
                Some(block)
            },
            None => None,
        },
        None => None,
    }
}

/// What stands in the metadata block between `opener` and the next `closer`.
fn block_field_of(block: &Option<Vec<char>>, opener: &str, closer: &str) -> (r: Option<String>)
    ensures
        r.deep_view() == block_field(block.deep_view(), opener@, closer@),
{
    match block {
        Some(text) => {
            proof {
                lemma_chars_view(*text);
            }
            match text_between(text, opener, closer) {
                Some(found) => {
                    proof {
                        lemma_chars_view(found);
                    }
                    Some(string_of(&found))
                },
                None => None,
            }
        },
        None => None,
    }
}

/// The tags written in a list.
fn tag_names_of(list: &str) -> (tags: Vec<String>)
    ensures
        tags.deep_view() == tag_names(list@),
{
    let v = chars_of(list);
    let items = split_chars(&v, ',');
    let ghost cleaned = items.deep_view().map_values(
        |item: Seq<char>| stripped(trimmed(item), '"'),
    );
    let mut tags: Vec<String> = Vec::new();
    let mut i: usize = 0;
    assert(cleaned.take(0) =~= Seq::<Seq<char>>::empty());
    assert(tags.deep_view() =~= Seq::<Seq<char>>::empty());
    while i < items.len()
        invariant
            i <= items.len(),
            cleaned == items.deep_view().map_values(
                |item: Seq<char>| stripped(trimmed(item), '"'),
            ),
            tags.deep_view() == nonempty_parts(cleaned.take(i as int)),
        decreases items.len() - i,
    {
        proof {
            assert(cleaned.take(i + 1).drop_last() =~= cleaned.take(i as int));
            lemma_chars_view(items[i as int]);
        }
        let item = string_of(&items[i]);
        let tag = strip(trim(item.as_str()).as_str(), '"');
        if !tag.as_str().is_empty() {
            let ghost before = tags.deep_view();
            tags.push(tag);
            assert(tags.deep_view() =~= before.push(tag@));
        }
        i += 1;
    }
    assert(cleaned.take(items.len() as int) =~= cleaned);
    tags
}

/// Reads a post back from the text of its file.
pub fn parse_post(slug: String, file_content: &str) -> (post: PostContent)
    ensures
        post@ == post_of(slug@, file_content@),
{
    let v = chars_of(file_content);
    let block = metadata_block_of(&v);
    let title = match block_field_of(&block, "title: \"", "\"") {
        Some(text) => text,
        None => replace(slug.as_str(), "-", " "),
    };
    let date = match block_field_of(&block, "date: \"", "\"") {
        Some(text) => text,
        None => String::new(),
    };
    let excerpt = match block_field_of(&block, "excerpt: \"", "\"") {
        Some(text) => text,
        None => String::new(),
    };
    let tags = match block_field_of(&block, "tags: [", "]") {
        Some(list) => tag_names_of(list.as_str()),
        None => Vec::new(),
    };
    let content = match text_between(&v, BODY_OPEN, "</div>") {
        Some(body) => {
            proof {
                lemma_chars_view(body);
            }
            trim(string_of(&body).as_str())
        },
        None => String::new(),
    };
    assert(tags.deep_view() =~= post_of(slug@, file_content@).tags);
    PostContent { slug, title, date, excerpt, tags, content }
}

/// The error for a post whose file gave no text; `None` for one that was
/// read.
pub open spec fn post_error(slug: Seq<char>, source: PostSource) -> Option<Seq<char>> {
    match source {
        PostSource::Missing => Some("Post not found: "@ + slug),
        PostSource::Unreadable(why) => Some("Failed to read post: "@ + why@),
        PostSource::Text(_) => None,
    }
}

/// Reads a post back from what reading its file gave.
pub fn read_post(slug: String, source: &PostSource) -> (r: Result<PostContent, String>)
    ensures
        match r {
            Ok(post) => source matches PostSource::Text(text) && post@ == post_of(slug@, text@),
            Err(message) => post_error(slug@, *source) == Some(message@),
        },
{
    match source {
        PostSource::Missing => {
            let mut message = String::from_str("Post not found: ");
            message.append(slug.as_str());
            Err(message)
        },
        PostSource::Unreadable(why) => {
            let mut message = String::from_str("Failed to read post: ");
            message.append(why.as_str());
            Err(message)
        },
        PostSource::Text(text) => Ok(parse_post(slug, text.as_str())),
    }
}

/// The new text of a post's file and the message that reports the update.
#[derive(Debug)]
pub struct PostUpdate {
    pub content: String,
    pub message: String,
}

/// The metadata of a post after an update: what was given, the date that
/// the post had, and no keywords.
pub open spec fn updated_metadata(
    old_post: PostContentView,
    title: Seq<char>,
    excerpt: Seq<char>,
    content: Seq<char>,
    tags: Seq<Seq<char>>,
) -> PostMetadataView {
    PostMetadataView {
        title,
        slug: old_post.slug,
        excerpt,
        content,
        tags,
        date: old_post.date,
        keywords: Seq::empty(),
    }
}

/// Rewrites a post: the file of the post with the new title, excerpt,
/// content and tags, under the date that its file had before.
pub fn update_post(
    slug: String,
    title: String,
    excerpt: String,
    content: String,
    tags: Vec<String>,
    source: &PostSource,
) -> (r: Result<PostUpdate, String>)
    ensures
        match r {
            Ok(update) => source matches PostSource::Text(text) && update.content@
                == post_template(
                updated_metadata(
                    post_of(slug@, text@),
                    title@,
                    excerpt@,
                    content@,
                    tags.deep_view(),
                ),
            ) && update.message@ == "Updated post: "@ + slug@,
            Err(message) => post_error(slug@, *source) == Some(message@),
        },
{
    let mut message = String::from_str("Updated post: ");
    message.append(slug.as_str());
    match read_post(slug, source) {
        Ok(existing) => {
            let metadata = PostMetadata {
                title,
                slug: existing.slug,
                excerpt,
                content,
                tags,
                date: existing.date,
                keywords: String::new(),
            };
            Ok(PostUpdate { content: generate_post_template(&metadata), message })
        },
        Err(why) => Err(why),
    }
}

} // verus!
