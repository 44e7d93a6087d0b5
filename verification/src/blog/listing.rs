//! The listing of the blog: the entry of a post in it, and the posts that
//! the blog directory holds.

use crate::blog::post::{PostMetadata, PostMetadataView, tag_list, tag_list_text};
use crate::blog::slug::title_of_slug;
use crate::search::{find, find_text, replace};
use crate::text::{chars_of, string_of, string_of_range};
use vstd::prelude::*;
use vstd::string::StringExecFns;

verus! {

/// A post as the listing of existing posts shows it.
#[derive(Debug)]
pub struct ExistingPost {
    pub slug: String,
    pub title: String,
    pub date: String,
    pub excerpt: String,
    pub tags: Vec<String>,
}

/// The mathematical value of an [`ExistingPost`].
pub struct ExistingPostView {
    pub slug: Seq<char>,
    pub title: Seq<char>,
    pub date: Seq<char>,
    pub excerpt: Seq<char>,
    pub tags: Seq<Seq<char>>,
}

impl View for ExistingPost {
    type V = ExistingPostView;

    open spec fn view(&self) -> ExistingPostView {
        ExistingPostView {
            slug: self.slug@,
            title: self.title@,
            date: self.date@,
            excerpt: self.excerpt@,
            tags: self.tags.deep_view(),
        }
    }
}

/// What marks the list of posts in the listing.
pub const LISTING_MARKER: &'static str = "const posts = [";

/// A listing entry up to the slug.
pub const LISTING_OPEN: &'static str = r#"        {
            slug: ""#;

/// A listing entry between the slug and the title.
pub const LISTING_BEFORE_TITLE: &'static str = r#"",
            title: ""#;

/// A listing entry between the title and the date.
pub const LISTING_BEFORE_DATE: &'static str = r#"",
            date: ""#;

/// A listing entry between the date and the excerpt.
pub const LISTING_BEFORE_EXCERPT: &'static str = r#"",
            excerpt: ""#;

/// A listing entry between the excerpt and the tags.
pub const LISTING_BEFORE_TAGS: &'static str = r#"",
            tags: ["#;

/// A listing entry between the tags and the keywords.
pub const LISTING_BEFORE_KEYWORDS: &'static str = r#"],
            content: ""#;

/// A listing entry after the keywords.
pub const LISTING_CLOSE: &'static str = r#"",
        },"#;

/// The text of the entry of a post in the listing. What the entry calls its
/// content are the keywords of the post.
pub open spec fn listing_entry(m: PostMetadataView) -> Seq<char> {
    LISTING_OPEN@ + m.slug + LISTING_BEFORE_TITLE@ + m.title + LISTING_BEFORE_DATE@ + m.date
        + LISTING_BEFORE_EXCERPT@ + m.excerpt + LISTING_BEFORE_TAGS@ + tag_list(m.tags)
        + LISTING_BEFORE_KEYWORDS@ + m.keywords + LISTING_CLOSE@
}

/// Renders the entry of a post in the listing from its metadata.
pub fn generate_listing_entry(metadata: &PostMetadata) -> (text: String)
    ensures
        text@ == listing_entry(metadata@),
{
    let mut text = String::from_str(LISTING_OPEN);
    text.append(metadata.slug.as_str());
    text.append(LISTING_BEFORE_TITLE);
    text.append(metadata.title.as_str());
    text.append(LISTING_BEFORE_DATE);
    text.append(metadata.date.as_str());
    text.append(LISTING_BEFORE_EXCERPT);
    text.append(metadata.excerpt.as_str());
    text.append(LISTING_BEFORE_TAGS);
    text.append(tag_list_text(&metadata.tags).as_str());
    text.append(LISTING_BEFORE_KEYWORDS);
    text.append(metadata.keywords.as_str());
    text.append(LISTING_CLOSE);
    text
}

/// The listing with `entry` put in on a line of its own right behind the
/// opening of the list of posts; `None` for a listing without such a list.
pub open spec fn listing_with(listing: Seq<char>, entry: Seq<char>) -> Option<Seq<char>> {
    match find(listing, LISTING_MARKER@) {
        Some(at) => Some(
            listing.take(at + LISTING_MARKER@.len()) + "\n"@ + entry + listing.skip(
                at + LISTING_MARKER@.len(),
            ),
        ),
        None => None,
    }
}

/// Puts the entry of a post into the listing, at the head of the list of
/// posts. A listing that holds no list of posts is an error.
pub fn insert_listing_entry(listing: &str, metadata: &PostMetadata) -> (r: Result<String, String>)
    ensures
        match r {
            Ok(text) => listing_with(listing@, listing_entry(metadata@)) == Some(text@),
            Err(message) => listing_with(listing@, listing_entry(metadata@)) is None && message@
                == "Could not find posts array in blog listing"@,
        },
{
    let v = chars_of(listing);
    let marker = chars_of(LISTING_MARKER);
    assert(v@.skip(0) =~= v@);
    match find_text(&v, 0, &marker) {
        Some(at) => {
            let cut = at + marker.len();
            let mut text = string_of_range(&v, 0, cut);
            assert(v@.subrange(0, cut as int) =~= v@.take(cut as int));
            text.append("\n");
            text.append(generate_listing_entry(metadata).as_str());
            let rest = string_of_range(&v, cut, v.len());
            assert(v@.subrange(cut as int, v.len() as int) =~= v@.skip(cut as int));
            text.append(rest.as_str());
            Ok(text)
        },
        None => Err(String::from_str("Could not find posts array in blog listing")),
    }
}

/// What looking into the blog directory gave.
#[derive(Debug)]
pub enum BlogDirectory {
    /// There is no such directory.
    Missing,
    /// The directory could not be listed; the system's message.
    Unreadable(String),
    /// The names of the directories it holds, in the order they were listed.
    Names(Vec<String>),
}

/// The error for a blog directory that gave no names.
pub open spec fn directory_error(directory: BlogDirectory) -> Option<Seq<char>> {
    match directory {
        BlogDirectory::Missing => Some("Blog directory not found"@),
        BlogDirectory::Unreadable(why) => Some(why@),
        BlogDirectory::Names(_) => None,
    }
}

/// The post that the directory `name` stands for in the list of existing
/// posts; none for a blank name or one that starts with a dot.
pub open spec fn existing_post_of(name: Seq<char>) -> Option<ExistingPostView> {
    if name.len() == 0 || name[0] == '.' {
        None
    } else {
        Some(
            ExistingPostView {
                slug: name,
                title: title_of_slug(name),
                date: Seq::empty(),
                excerpt: Seq::empty(),
                tags: Seq::empty(),
            },
        )
    }
}

/// The posts that a list of directory names stands for, in order.
pub open spec fn existing_posts_of(names: Seq<Seq<char>>) -> Seq<ExistingPostView>
    decreases names.len(),
{
    if names.len() == 0 {
        Seq::empty()
    } else {
        match existing_post_of(names.last()) {
            Some(post) => existing_posts_of(names.drop_last()).push(post),
            None => existing_posts_of(names.drop_last()),
        }
    }
}

/// The views of a list of existing posts.
pub open spec fn existing_views(posts: Seq<ExistingPost>) -> Seq<ExistingPostView> {
    posts.map_values(|p: ExistingPost| p@)
}

/// The post that a directory name stands for, if any.
pub fn existing_post(name: &str) -> (r: Option<ExistingPost>)
    ensures
        match r {
            Some(post) => existing_post_of(name@) == Some(post@),
            None => existing_post_of(name@) is None,
        },
{
    let v = chars_of(name);
    if v.len() == 0 || v[0] == '.' {
        return None;
    }
    let post = ExistingPost {
        slug: string_of(&v),
        title: replace(name, "-", " "),
        date: String::new(),
        excerpt: String::new(),
        tags: Vec::new(),
    };
    assert(post.tags.deep_view() =~= Seq::<Seq<char>>::empty());
    Some(post)
}

/// Lists the existing posts: one for each directory of the blog whose name
/// is not blank and does not start with a dot.
pub fn get_existing_posts(directory: &BlogDirectory) -> (r: Result<Vec<ExistingPost>, String>)
    ensures
        match r {
            Ok(posts) => directory matches BlogDirectory::Names(names) && existing_views(posts@)
                == existing_posts_of(names.deep_view()),
            Err(message) => directory_error(*directory) == Some(message@),
        },
{
    match directory {
        BlogDirectory::Missing => Err(String::from_str("Blog directory not found")),
        BlogDirectory::Unreadable(why) => Err(why.clone()),
        BlogDirectory::Names(names) => {
            let ghost all = names.deep_view();
            let mut posts: Vec<ExistingPost> = Vec::new();
            let mut i: usize = 0;
            assert(all.take(0) =~= Seq::<Seq<char>>::empty());
            while i < names.len()
                invariant
                    i <= names.len(),
                    all == names.deep_view(),
                    existing_views(posts@) == existing_posts_of(all.take(i as int)),
                decreases names.len() - i,
            {
                assert(all.take(i + 1).drop_last() =~= all.take(i as int));
                let ghost before = existing_views(posts@);
                match existing_post(names[i].as_str()) {
                    Some(post) => {
                        posts.push(post);
                        assert(existing_views(posts@) =~= before.push(post@));
                    },
                    None => {},
                }
                i += 1;
            }
            assert(all.take(names.len() as int) =~= all);
            Ok(posts)
        },
    }
}

} // verus!
