//! The file of a post: its metadata and the text made from it.

use crate::search::gap;
use crate::split::joined;
use std::fmt::Write;
use vstd::prelude::*;
use vstd::string::StringExecFns;

verus! {

/// What a post is made from.
#[derive(Debug)]
pub struct PostMetadata {
    pub title: String,
    pub slug: String,
    pub excerpt: String,
    pub content: String,
    pub tags: Vec<String>,
    pub date: String,
    pub keywords: String,
}

/// The mathematical value of a [`PostMetadata`].
pub struct PostMetadataView {
    pub title: Seq<char>,
    pub slug: Seq<char>,
    pub excerpt: Seq<char>,
    pub content: Seq<char>,
    pub tags: Seq<Seq<char>>,
    pub date: Seq<char>,
    pub keywords: Seq<char>,
}

impl View for PostMetadata {
    type V = PostMetadataView;

    open spec fn view(&self) -> PostMetadataView {
        PostMetadataView {
            title: self.title@,
            slug: self.slug@,
            excerpt: self.excerpt@,
            content: self.content@,
            tags: self.tags.deep_view(),
            date: self.date@,
            keywords: self.keywords@,
        }
    }
}

/// The post file up to the title.
pub const POST_OPEN: &'static str = r#"<script context="module">
    export const metadata = {
        title: ""#;

/// The post file between the title and the date.
pub const POST_BEFORE_DATE: &'static str = r#"",
        date: ""#;

/// The post file between the date and the excerpt.
pub const POST_BEFORE_EXCERPT: &'static str = r#"",
        excerpt: ""#;

/// The post file between the excerpt and the tags.
pub const POST_BEFORE_TAGS: &'static str = r#"",
        tags: ["#;

/// The post file between the tags and the body: the end of the metadata, the
/// script, the head and the header of the article.
pub const POST_BEFORE_BODY: &'static str = r#"]
    };
</script>

<script lang="ts">
    import Citation from '$lib/components/Citation.svelte';
    import References from '$lib/components/References.svelte';
    
    function formatDate(dateString: string): string {
        return new Date(dateString).toLocaleDateString('en-US', {
            year: 'numeric', month: 'long', day: 'numeric'
        });
    }
</script>

<svelte:head>
    <title>{metadata.title} | Mr. Wong's Blog</title>
    <meta name="description" content={metadata.excerpt} />
</svelte:head>

<article class="blog-post">
    <div class="container">
        <header class="post-header">
            <a href="/blog" class="back-link">
                <svg width="20" height="20" viewBox="0 0 24 24" fill="none" stroke="currentColor" stroke-width="2">
                    <path d="M19 12H5M12 19l-7-7 7-7" />
                </svg>
                Back to Blog
            </a>
            <div class="post-meta">
                <time datetime={metadata.date}>{formatDate(metadata.date)}</time>
                <div class="post-tags">
                    {#each metadata.tags as tag}
                        <span class="tag">{tag}</span>
                    {/each}
                </div>
            </div>
            <h1 class="post-title">{metadata.title}</h1>
        </header>
        
        <div class="post-content">

"#;

/// The post file after the body: the footer of the article and the styles.
pub const POST_CLOSE: &'static str = r#"

        </div>
        
        <footer class="post-footer">
            <a href="/blog" class="back-link">
                <svg width="20" height="20" viewBox="0 0 24 24" fill="none" stroke="currentColor" stroke-width="2">
                    <path d="M19 12H5M12 19l-7-7 7-7" />
                </svg>
                Back to Blog
            </a>
        </footer>
    </div>
</article>

<style>
    .blog-post { min-height: calc(100vh - 72px); padding: var(--space-4xl) 0; background: var(--color-bg-primary); }
    .blog-post .container { max-width: 800px; }
    .back-link { display: inline-flex; align-items: center; gap: var(--space-sm); color: var(--color-text-secondary); font-size: var(--font-size-sm); font-weight: 500; margin-bottom: var(--space-xl); transition: color var(--transition-fast); }
    .back-link:hover { color: var(--color-accent); }
    .post-header { margin-bottom: var(--space-2xl); }
    .post-meta { display: flex; align-items: center; gap: var(--space-md); margin-bottom: var(--space-lg); flex-wrap: wrap; }
    .post-meta time { font-size: var(--font-size-sm); color: var(--color-text-muted); }
    .post-tags { display: flex; gap: var(--space-xs); flex-wrap: wrap; }
    .tag { font-size: var(--font-size-xs); padding: var(--space-xs) var(--space-sm); background: rgba(59, 130, 246, 0.15); color: var(--color-accent-light); border-radius: var(--radius-sm); font-weight: 500; }
    .post-title { font-size: var(--font-size-4xl); font-weight: 700; line-height: 1.2; color: var(--color-text-primary); }
    .post-content { color: var(--color-text-secondary); line-height: 1.8; font-size: var(--font-size-lg); }
    .post-content :global(h1), .post-content :global(h2), .post-content :global(h3) { color: var(--color-text-primary); margin-top: var(--space-2xl); margin-bottom: var(--space-md); font-weight: 600; }
    .post-content :global(h1) { font-size: var(--font-size-3xl); }
    .post-content :global(h2) { font-size: var(--font-size-2xl); }
    .post-content :global(h3) { font-size: var(--font-size-xl); }
    .post-content :global(p) { margin-bottom: var(--space-lg); }
    .post-content :global(a) { color: var(--color-accent-light); text-decoration: underline; }
    .post-content :global(ul), .post-content :global(ol) { margin-bottom: var(--space-lg); padding-left: var(--space-xl); }
    .post-content :global(li) { margin-bottom: var(--space-sm); }
    .post-content :global(blockquote) { border-left: 3px solid var(--color-accent); background: rgba(59, 130, 246, 0.1); padding: var(--space-md) var(--space-lg); margin: var(--space-lg) 0; border-radius: 0 var(--radius-lg) var(--radius-lg) 0; font-style: italic; }
    .post-content :global(strong) { color: var(--color-text-primary); font-weight: 600; }
    .post-content :global(em) { font-style: italic; }
    .post-content :global(hr) { border: none; border-top: 1px solid var(--color-border); margin: var(--space-2xl) 0; }
    .post-footer { margin-top: var(--space-4xl); padding-top: var(--space-xl); border-top: 1px solid var(--color-border); }
</style>
"#;

/// A tag between quotes.
pub open spec fn quoted(tag: Seq<char>) -> Seq<char> {
    "\""@ + tag + "\""@
}

/// The tags as the items of a list: each between quotes, with a comma and a
/// space between each two.
pub open spec fn tag_list(tags: Seq<Seq<char>>) -> Seq<char> {
    joined(tags.map_values(|tag: Seq<char>| quoted(tag)), ", "@)
}

/// The body of a post: its content, and for a post without content a
/// heading with the title above a placeholder.
pub open spec fn post_body(m: PostMetadataView) -> Seq<char> {
    if m.content.len() == 0 {
        "# "@ + m.title + "\n\n<!-- Write your content here -->"@
    } else {
        m.content
    }
}

/// The text of the file of a post.
pub open spec fn post_template(m: PostMetadataView) -> Seq<char> {
    POST_OPEN@ + m.title + POST_BEFORE_DATE@ + m.date + POST_BEFORE_EXCERPT@ + m.excerpt
        + POST_BEFORE_TAGS@ + tag_list(m.tags) + POST_BEFORE_BODY@ + post_body(m) + POST_CLOSE@
}

/// The tags as the items of a list.
pub fn tag_list_text(tags: &Vec<String>) -> (list: String)
    ensures
        list@ == tag_list(tags.deep_view()),
{
    let ghost items = tags.deep_view().map_values(|tag: Seq<char>| quoted(tag));
    let mut list = String::new();
    let mut i: usize = 0;
    assert(items.take(0) =~= Seq::<Seq<char>>::empty());
    while i < tags.len()
        invariant
            i <= tags.len(),
            items == tags.deep_view().map_values(|tag: Seq<char>| quoted(tag)),
            list@ == joined(items.take(i as int), ", "@),
        decreases tags.len() - i,
    {
        assert(items.take(i + 1).drop_last() =~= items.take(i as int));
        assert(items.take(i + 1).last() == quoted(tags[i as int]@));
        let mut item = String::from_str("\"");
        item.append(tags[i].as_str());
        item.append("\"");
        if i == 0 {
            list = item;
        } else {
            list.append(", ");
            list.append(item.as_str());
        }
        i += 1;
    }
    assert(items.take(tags.len() as int) =~= items);
    list
}

/// Renders the file of a post from its metadata.
pub fn generate_post_template(metadata: &PostMetadata) -> (text: String)
    ensures
        text@ == post_template(metadata@),
{
    let mut text = String::from_str(POST_OPEN);
    text.append(metadata.title.as_str());
    text.append(POST_BEFORE_DATE);
    text.append(metadata.date.as_str());
    text.append(POST_BEFORE_EXCERPT);
    text.append(metadata.excerpt.as_str());
    text.append(POST_BEFORE_TAGS);
    text.append(tag_list_text(&metadata.tags).as_str());
    text.append(POST_BEFORE_BODY);
    if metadata.content.as_str().is_empty() {
        let mut body = String::from_str("# ");
        body.append(metadata.title.as_str());
        body.append("\n\n<!-- Write your content here -->");
        text.append(body.as_str());
    } else {
        text.append(metadata.content.as_str());
    }
    text.append(POST_CLOSE);
    text
}

/// The date of today in local time, which the `chrono` crate reads from the
/// system's clock with `chrono::Local::now` and writes in the given format.
///
/// Trusted, and nothing is claimed of the result: it changes from day to
/// day. `None` stands for a format that `chrono` cannot write.
#[verifier::external_body]
fn local_date(format: &str) -> Option<String> {
    let mut date = String::new();
    write!(date, "{}", chrono::Local::now().format(format)).ok()?;
    Some(date)
}

/// Whether `m` holds the given texts and tags, whatever its date is.
pub open spec fn holds_post(
    m: PostMetadataView,
    title: Seq<char>,
    slug: Seq<char>,
    excerpt: Seq<char>,
    content: Seq<char>,
    tags: Seq<Seq<char>>,
    keywords: Seq<char>,
) -> bool {
    &&& m.title == title
    &&& m.slug == slug
    &&& m.excerpt == excerpt
    &&& m.content == content
    &&& m.tags == tags
    &&& m.keywords == keywords
}

/// The metadata of a post that is made today: what was given, dated with
/// the day on which the call is made.
pub fn new_post(
    title: String,
    slug: String,
    excerpt: String,
    content: String,
    tags: Vec<String>,
    keywords: String,
) -> (metadata: PostMetadata)
    ensures
        holds_post(metadata@, title@, slug@, excerpt@, content@, tags.deep_view(), keywords@),
{
    let date = match local_date("%Y-%m-%d") {
        Some(date) => date,
        None => String::new(),
    };
    PostMetadata { title, slug, excerpt, content, tags, date, keywords }
}

} // verus!
