use blog_manager::blog::{
    existing_post, generate_listing_entry, generate_post_template, get_existing_posts,
    insert_listing_entry, new_post, parse_post, read_post, slugify, tag_list_text, update_post,
    BlogDirectory, PostMetadata, PostSource,
};

fn metadata(content: &str, tags: &[&str]) -> PostMetadata {
    PostMetadata {
        title: "My First Post".to_string(),
        slug: "my-first-post".to_string(),
        excerpt: "An excerpt.".to_string(),
        content: content.to_string(),
        tags: tags.iter().map(|t| t.to_string()).collect(),
        date: "2024-05-06".to_string(),
        keywords: "first, post".to_string(),
    }
}

fn expected_post(m: &PostMetadata) -> String {
    let tags = m.tags.iter().map(|t| format!("\"{}\"", t)).collect::<Vec<_>>().join(", ");
    let body = if m.content.is_empty() {
        format!("# {}\n\n<!-- Write your content here -->", m.title)
    } else {
        m.content.clone()
    };
    format!(
        r#"<script context="module">
    export const metadata = {{
        title: "{}",
        date: "{}",
        excerpt: "{}",
        tags: [{}]
    }};
</script>

<script lang="ts">
    import Citation from '$lib/components/Citation.svelte';
    import References from '$lib/components/References.svelte';
    
    function formatDate(dateString: string): string {{
        return new Date(dateString).toLocaleDateString('en-US', {{
            year: 'numeric', month: 'long', day: 'numeric'
        }});
    }}
</script>

<svelte:head>
    <title>{{metadata.title}} | Mr. Wong's Blog</title>
    <meta name="description" content={{metadata.excerpt}} />
</svelte:head>

<article class="blog-post">
    <div class="container">
        <header class="post-header">
            <a href="/blog" class="back-link">
                <svg width="20" height="20" viewBox="0 0 24 24" fill="none" stroke="currentColor" stroke-width="2">
                    <path d="M19 12H5M12 19l-7-7 7-7" />
                </svg>
                Back to Blog
            </a>
            <div class="post-meta">
                <time datetime={{metadata.date}}>{{formatDate(metadata.date)}}</time>
                <div class="post-tags">
                    {{#each metadata.tags as tag}}
                        <span class="tag">{{tag}}</span>
                    {{/each}}
                </div>
            </div>
            <h1 class="post-title">{{metadata.title}}</h1>
        </header>
        
        <div class="post-content">

{}

        </div>
        
        <footer class="post-footer">
            <a href="/blog" class="back-link">
                <svg width="20" height="20" viewBox="0 0 24 24" fill="none" stroke="currentColor" stroke-width="2">
                    <path d="M19 12H5M12 19l-7-7 7-7" />
                </svg>
                Back to Blog
            </a>
        </footer>
    </div>
</article>

<style>
    .blog-post {{ min-height: calc(100vh - 72px); padding: var(--space-4xl) 0; background: var(--color-bg-primary); }}
    .blog-post .container {{ max-width: 800px; }}
    .back-link {{ display: inline-flex; align-items: center; gap: var(--space-sm); color: var(--color-text-secondary); font-size: var(--font-size-sm); font-weight: 500; margin-bottom: var(--space-xl); transition: color var(--transition-fast); }}
    .back-link:hover {{ color: var(--color-accent); }}
    .post-header {{ margin-bottom: var(--space-2xl); }}
    .post-meta {{ display: flex; align-items: center; gap: var(--space-md); margin-bottom: var(--space-lg); flex-wrap: wrap; }}
    .post-meta time {{ font-size: var(--font-size-sm); color: var(--color-text-muted); }}
    .post-tags {{ display: flex; gap: var(--space-xs); flex-wrap: wrap; }}
    .tag {{ font-size: var(--font-size-xs); padding: var(--space-xs) var(--space-sm); background: rgba(59, 130, 246, 0.15); color: var(--color-accent-light); border-radius: var(--radius-sm); font-weight: 500; }}
    .post-title {{ font-size: var(--font-size-4xl); font-weight: 700; line-height: 1.2; color: var(--color-text-primary); }}
    .post-content {{ color: var(--color-text-secondary); line-height: 1.8; font-size: var(--font-size-lg); }}
    .post-content :global(h1), .post-content :global(h2), .post-content :global(h3) {{ color: var(--color-text-primary); margin-top: var(--space-2xl); margin-bottom: var(--space-md); font-weight: 600; }}
    .post-content :global(h1) {{ font-size: var(--font-size-3xl); }}
    .post-content :global(h2) {{ font-size: var(--font-size-2xl); }}
    .post-content :global(h3) {{ font-size: var(--font-size-xl); }}
    .post-content :global(p) {{ margin-bottom: var(--space-lg); }}
    .post-content :global(a) {{ color: var(--color-accent-light); text-decoration: underline; }}
    .post-content :global(ul), .post-content :global(ol) {{ margin-bottom: var(--space-lg); padding-left: var(--space-xl); }}
    .post-content :global(li) {{ margin-bottom: var(--space-sm); }}
    .post-content :global(blockquote) {{ border-left: 3px solid var(--color-accent); background: rgba(59, 130, 246, 0.1); padding: var(--space-md) var(--space-lg); margin: var(--space-lg) 0; border-radius: 0 var(--radius-lg) var(--radius-lg) 0; font-style: italic; }}
    .post-content :global(strong) {{ color: var(--color-text-primary); font-weight: 600; }}
    .post-content :global(em) {{ font-style: italic; }}
    .post-content :global(hr) {{ border: none; border-top: 1px solid var(--color-border); margin: var(--space-2xl) 0; }}
    .post-footer {{ margin-top: var(--space-4xl); padding-top: var(--space-xl); border-top: 1px solid var(--color-border); }}
</style>
"#,
        m.title, m.date, m.excerpt, tags, body
    )
}

fn expected_entry(m: &PostMetadata) -> String {
    let tags = m.tags.iter().map(|t| format!("\"{}\"", t)).collect::<Vec<_>>().join(", ");
    format!(
        r#"        {{
            slug: "{}",
            title: "{}",
            date: "{}",
            excerpt: "{}",
            tags: [{}],
            content: "{}",
        }},"#,
        m.slug, m.title, m.date, m.excerpt, tags, m.keywords
    )
}

#[test]
fn tag_lists() {
    assert_eq!(tag_list_text(&vec![]), "");
    assert_eq!(tag_list_text(&vec!["a".to_string()]), "\"a\"");
    assert_eq!(
        tag_list_text(&vec!["a".to_string(), "".to_string(), "b c".to_string()]),
        "\"a\", \"\", \"b c\""
    );
}

#[test]
fn post_template_with_content() {
    let m = metadata("Some *content*.", &["rust", "verus"]);
    let text = generate_post_template(&m);
    assert_eq!(text, expected_post(&m));
    assert!(text.starts_with("<script context=\"module\">\n    export const metadata = {\n        title: \"My First Post\",\n        date: \"2024-05-06\",\n        excerpt: \"An excerpt.\",\n        tags: [\"rust\", \"verus\"]\n    };\n</script>\n"));
    assert!(text.contains("        <div class=\"post-content\">\n\nSome *content*.\n\n        </div>\n"));
    assert!(text.ends_with("border-top: 1px solid var(--color-border); }\n</style>\n"));
}

#[test]
fn post_template_without_content() {
    let m = metadata("", &[]);
    let text = generate_post_template(&m);
    assert_eq!(text, expected_post(&m));
    assert!(text.contains("        tags: []\n"));
    assert!(text.contains("\n\n# My First Post\n\n<!-- Write your content here -->\n\n"));
}

#[test]
fn listing_entry_text() {
    let m = metadata("body", &["a", "b"]);
    let text = generate_listing_entry(&m);
    assert_eq!(text, expected_entry(&m));
    assert_eq!(
        text,
        "        {\n            slug: \"my-first-post\",\n            title: \"My First Post\",\n            date: \"2024-05-06\",\n            excerpt: \"An excerpt.\",\n            tags: [\"a\", \"b\"],\n            content: \"first, post\",\n        },"
    );
}

#[test]
fn slugs() {
    assert_eq!(slugify("Hello, World!".to_string()), "hello-world");
    assert_eq!(slugify("  Rust & Verus: 2024  ".to_string()), "rust-verus-2024");
    assert_eq!(slugify("".to_string()), "");
    assert_eq!(slugify("---".to_string()), "");
    assert_eq!(slugify("a".to_string()), "a");
    assert_eq!(slugify("Crème Brûlée".to_string()), "crème-brûlée");
    assert_eq!(slugify("already-a-slug".to_string()), "already-a-slug");
    assert_eq!(slugify("snake_case and CamelCase".to_string()), "snake-case-and-camelcase");
}

#[test]
fn slug_agrees_with_the_iterator_chain() {
    for text in ["", "A", "A  B", "--a--b--", "x!y?z", "¡Hola! ¿Qué tal?", "1 + 1 = 2", "İstanbul"] {
        let expected = text
            .to_lowercase()
            .chars()
            .map(|c| if c.is_alphanumeric() { c } else { '-' })
            .collect::<String>()
            .split('-')
            .filter(|s| !s.is_empty())
            .collect::<Vec<_>>()
            .join("-");
        assert_eq!(slugify(text.to_string()), expected, "text {:?}", text);
    }
}

#[test]
fn new_post_keeps_what_was_given() {
    let m = new_post(
        "T".to_string(),
        "t".to_string(),
        "E".to_string(),
        "C".to_string(),
        vec!["x".to_string()],
        "K".to_string(),
    );
    assert_eq!(m.title, "T");
    assert_eq!(m.slug, "t");
    assert_eq!(m.excerpt, "E");
    assert_eq!(m.content, "C");
    assert_eq!(m.tags, vec!["x".to_string()]);
    assert_eq!(m.keywords, "K");
    let date: Vec<char> = m.date.chars().collect();
    assert_eq!(date.len(), 10);
    assert_eq!(date[4], '-');
    assert_eq!(date[7], '-');
    assert!(date.iter().enumerate().all(|(i, c)| i == 4 || i == 7 || c.is_ascii_digit()));
}

#[test]
fn listing_gets_the_entry_at_the_head() {
    let m = metadata("body", &["a"]);
    let listing = "<script>\n    const posts = [\n        { slug: \"old\" },\n    ];\n</script>\n";
    let text = insert_listing_entry(listing, &m).unwrap();
    let expected = format!(
        "<script>\n    const posts = [\n{}\n        {{ slug: \"old\" }},\n    ];\n</script>\n",
        expected_entry(&m)
    );
    assert_eq!(text, expected);
}

#[test]
fn listing_uses_the_first_marker() {
    let m = metadata("", &[]);
    let listing = "const posts = [];const posts = [];";
    let text = insert_listing_entry(listing, &m).unwrap();
    assert_eq!(text, format!("const posts = [\n{}];const posts = [];", expected_entry(&m)));
}

#[test]
fn listing_without_marker_is_an_error() {
    let m = metadata("", &[]);
    let r = insert_listing_entry("const post = [];", &m);
    assert_eq!(r.err(), Some("Could not find posts array in blog listing".to_string()));
}

#[test]
fn existing_posts_from_directory_names() {
    assert!(existing_post("").is_none());
    assert!(existing_post(".git").is_none());
    let p = existing_post("my-first-post").unwrap();
    assert_eq!(p.slug, "my-first-post");
    assert_eq!(p.title, "my first post");
    assert_eq!(p.date, "");
    assert_eq!(p.excerpt, "");
    assert!(p.tags.is_empty());

    let names = vec!["b-post".to_string(), ".hidden".to_string(), "".to_string(), "a".to_string()];
    let posts = get_existing_posts(&BlogDirectory::Names(names)).unwrap();
    let slugs: Vec<&str> = posts.iter().map(|p| p.slug.as_str()).collect();
    assert_eq!(slugs, vec!["b-post", "a"]);
    assert_eq!(posts[0].title, "b post");
}

#[test]
fn existing_posts_errors() {
    let r = get_existing_posts(&BlogDirectory::Missing);
    assert_eq!(r.err(), Some("Blog directory not found".to_string()));
    let r = get_existing_posts(&BlogDirectory::Unreadable("denied".to_string()));
    assert_eq!(r.err(), Some("denied".to_string()));
}

#[test]
fn post_is_read_back_from_its_file() {
    let m = metadata("Line one.\n\nLine two.", &["rust", "verus"]);
    let file = generate_post_template(&m);
    let post = parse_post("my-first-post".to_string(), &file);
    assert_eq!(post.slug, "my-first-post");
    assert_eq!(post.title, "My First Post");
    assert_eq!(post.date, "2024-05-06");
    assert_eq!(post.excerpt, "An excerpt.");
    assert_eq!(post.tags, vec!["rust".to_string(), "verus".to_string()]);
    assert_eq!(post.content, "Line one.\n\nLine two.");
}

#[test]
fn post_without_metadata() {
    let post = parse_post("some-old-post".to_string(), "plain text");
    assert_eq!(post.slug, "some-old-post");
    assert_eq!(post.title, "some old post");
    assert_eq!(post.date, "");
    assert_eq!(post.excerpt, "");
    assert!(post.tags.is_empty());
    assert_eq!(post.content, "");
}

#[test]
fn post_with_partial_metadata() {
    let file = "x export const metadata = {\n  date: \"2020-01-02\",\n  tags: [ \"a\" , b,, \"\" ,\"c d\"]\n}; title: \"outside\" <div class=\"post-content\">  body </div> more </div>";
    let post = parse_post("s-l".to_string(), file);
    assert_eq!(post.title, "s l");
    assert_eq!(post.date, "2020-01-02");
    assert_eq!(post.excerpt, "");
    assert_eq!(post.tags, vec!["a".to_string(), "b".to_string(), "c d".to_string()]);
    assert_eq!(post.content, "body");
}

#[test]
fn post_with_unclosed_metadata() {
    let file = "export const metadata = {\n  title: \"T\"\n <div class=\"post-content\">body";
    let post = parse_post("s".to_string(), file);
    assert_eq!(post.title, "s");
    assert_eq!(post.content, "");
}

#[test]
fn read_post_errors() {
    let r = read_post("gone".to_string(), &PostSource::Missing);
    assert_eq!(r.err(), Some("Post not found: gone".to_string()));
    let r = read_post("bad".to_string(), &PostSource::Unreadable("denied".to_string()));
    assert_eq!(r.err(), Some("Failed to read post: denied".to_string()));
    let r = read_post("ok".to_string(), &PostSource::Text("x".to_string())).unwrap();
    assert_eq!(r.title, "ok");
}

#[test]
fn update_keeps_the_date() {
    let old = generate_post_template(&metadata("old body", &["a"]));
    let update = update_post(
        "my-first-post".to_string(),
        "New Title".to_string(),
        "New excerpt".to_string(),
        "new body".to_string(),
        vec!["b".to_string(), "c".to_string()],
        &PostSource::Text(old),
    )
    .unwrap();
    let expected = PostMetadata {
        title: "New Title".to_string(),
        slug: "my-first-post".to_string(),
        excerpt: "New excerpt".to_string(),
        content: "new body".to_string(),
        tags: vec!["b".to_string(), "c".to_string()],
        date: "2024-05-06".to_string(),
        keywords: String::new(),
    };
    assert_eq!(update.content, expected_post(&expected));
    assert_eq!(update.message, "Updated post: my-first-post");
}

#[test]
fn update_of_a_missing_post_is_an_error() {
    let r = update_post(
        "gone".to_string(),
        "T".to_string(),
        "E".to_string(),
        "C".to_string(),
        vec![],
        &PostSource::Missing,
    );
    assert_eq!(r.err(), Some("Post not found: gone".to_string()));
}

fn field_by_find(block: &str, opener: &str, closer: &str) -> Option<String> {
    let start = block.find(opener)?;
    let rest = &block[start + opener.len()..];
    let end = rest.find(closer)?;
    Some(rest[..end].to_string())
}

fn post_by_find(slug: &str, file: &str) -> (String, String, String, Vec<String>, String) {
    let mut title = slug.replace('-', " ");
    let mut date = String::new();
    let mut excerpt = String::new();
    let mut tags = Vec::new();
    let mut content = String::new();
    if let Some(start) = file.find("export const metadata = {") {
        if let Some(end) = file[start..].find("};") {
            let block = &file[start..start + end + 2];
            if let Some(t) = field_by_find(block, "title: \"", "\"") {
                title = t;
            }
            if let Some(d) = field_by_find(block, "date: \"", "\"") {
                date = d;
            }
            if let Some(e) = field_by_find(block, "excerpt: \"", "\"") {
                excerpt = e;
            }
            if let Some(list) = field_by_find(block, "tags: [", "]") {
                tags = list
                    .split(',')
                    .map(|t| t.trim().trim_matches('"').to_string())
                    .filter(|t| !t.is_empty())
                    .collect();
            }
        }
    }
    if let Some(body) = field_by_find(file, "<div class=\"post-content\">", "</div>") {
        content = body.trim().to_string();
    }
    (title, date, excerpt, tags, content)
}

#[test]
fn parse_post_agrees_with_searching_by_find() {
    let full = generate_post_template(&metadata("Body with </span> and ünïcödé.", &["a", "b c"]));
    let inputs = [
        "",
        "export const metadata = {",
        "export const metadata = {};",
        "export const metadata = { title: \"T\" };",
        "export const metadata = { title: \"T };",
        "export const metadata = { title: \"a};b\" }; date: \"late\"",
        "title: \"early\" export const metadata = { date: \"D\", excerpt: \"É — x\", tags: [] };",
        "export const metadata = { tags: [\"x\", \"\"y\"\",  , \" z \", q] };",
        "export const metadata = { tags: [\"x\" }; ]",
        "<div class=\"post-content\"></div>",
        "<div class=\"post-content\"> \n a </div> b </div>",
        "<div class=\"post-content\"> no end",
        "</div><div class=\"post-content\">x</div>",
        "ünï export const metadata = { title: \"Ünï\", date: \"2020\" }; <div class=\"post-content\">çà</div>",
        full.as_str(),
    ];
    for input in inputs {
        for slug in ["a-b", "", "plain"] {
            let post = parse_post(slug.to_string(), input);
            let expected = post_by_find(slug, input);
            assert_eq!(post.slug, slug);
            assert_eq!(
                (post.title, post.date, post.excerpt, post.tags, post.content),
                expected,
                "input {:?}",
                input
            );
        }
    }
}
