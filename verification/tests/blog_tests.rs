use photo_site::blog::{
    recent_posts_context, sneak_peek_amount, split_header, update, BlogError, BlogState,
    ParsedMeta, PostContext, SEPARATOR_LEN,
};
use photo_site::text::{
    ascii_string, bytes_eq, bytes_le_exec, is_ascii_bytes, push_decimal, str_chars, str_eq,
    str_le, string_from_chars,
};
use photo_site::time::CaptureTime;

fn header(title: &str, day: u8, tags: &[&str]) -> ParsedMeta {
    ParsedMeta {
        title: title.to_string(),
        tab_title: None,
        description: "A *post*".to_string(),
        first_published: CaptureTime::new(2021, 11, day, 12, 0, 0, 0).unwrap(),
        updated: vec![
            CaptureTime::new(2021, 12, 1, 0, 0, 0, 0).unwrap(),
            CaptureTime::new(2022, 1, 2, 0, 0, 0, 60).unwrap(),
        ],
        tags: tags.iter().map(|t| t.to_string()).collect(),
    }
}

fn post(path: &str, day: u8, tags: &[&str]) -> PostContext {
    PostContext::from_file_content(path, header(path, day, tags), "Body of the post.")
}

#[test]
fn a_post_is_put_together_from_header_and_body() {
    let mut parsed = header("On walking", 7, &["walks", "notes"]);
    parsed.tab_title = Some("Walking".to_string());
    let post = PostContext::from_file_content("on-walking", parsed, "# Walking\n\nIt is *good*.");
    assert_eq!(post.meta.path, "on-walking");
    assert_eq!(post.meta.title, "On walking");
    assert_eq!(post.meta.tab_title, "Walking");
    assert_eq!(post.meta.description, "<p>A <em>post</em></p>\n");
    assert_eq!(post.meta.first_published, "Nov 7, 2021");
    assert_eq!(post.meta.updated, vec!["Dec 1, 2021", "Jan 2, 2022"]);
    assert_eq!(post.meta.tags, vec!["walks", "notes"]);
    assert_eq!(post.meta.published_unix_time, 1_636_286_400);
    assert_eq!(post.meta.sneak_peek, "<h1>Walking</h1>\n<p>It is <em>good</em>.</p>\n");
    assert_eq!(post.html_body_content, "<h1>Walking</h1>\n<p>It is <em>good</em>.</p>\n");
    let untitled = PostContext::from_file_content("x", header("Title", 1, &[]), "");
    assert_eq!(untitled.meta.tab_title, "Title");
    assert_eq!(untitled.meta.sneak_peek, "");
}

#[test]
fn the_sneak_peek_ends_at_a_paragraph_after_the_least_amount() {
    let first = "a".repeat(60);
    let second = "b".repeat(60);
    let third = "c".repeat(60);
    let body = format!("{}\n\n{}\n\n{}", first, second, third);
    assert_eq!(sneak_peek_amount(body.as_bytes()), 122);
    let post = PostContext::from_file_content("p", header("T", 1, &[]), &body);
    assert_eq!(post.meta.sneak_peek, format!("<p>{}</p>\n<p>{}</p>\n", first, second));
    assert_eq!(sneak_peek_amount(b"short\n\nbody"), 11);
    assert_eq!(sneak_peek_amount(b""), 0);
    let exact = format!("{}\n\nrest", "x".repeat(100));
    assert_eq!(sneak_peek_amount(exact.as_bytes()), 100);
    let just_short = format!("{}\n\nrest", "x".repeat(99));
    assert_eq!(sneak_peek_amount(just_short.as_bytes()), just_short.len());
}

#[test]
fn paragraph_breaks_are_counted_without_overlap() {
    let body = format!("{}\n\n\nrest", "x".repeat(99));
    assert_eq!(sneak_peek_amount(body.as_bytes()), body.len());
    let body = format!("{}\n\n\n\nrest", "x".repeat(99));
    assert_eq!(sneak_peek_amount(body.as_bytes()), 101);
    let accents = format!("{}\n\nrest", "\u{e9}".repeat(50));
    assert_eq!(sneak_peek_amount(accents.as_bytes()), 100);
    let post = PostContext::from_file_content("p", header("T", 1, &[]), &accents);
    assert_eq!(post.meta.sneak_peek, format!("<p>{}</p>\n", "\u{e9}".repeat(50)));
}

#[test]
fn posts_are_listed_from_the_newest() {
    let state = BlogState::new(vec![
        post("second", 2, &["a"]),
        post("third", 3, &["b", "a"]),
        post("first", 1, &["b"]),
    ])
    .unwrap();
    assert_eq!(state.recent_posts_context(), vec!["third", "second", "first"]);
    assert_eq!(recent_posts_context(&state), vec!["third", "second", "first"]);
    let (posts, tags) = state.index_context();
    assert_eq!(posts, vec!["third", "second", "first"]);
    assert_eq!(tags, vec!["a", "b"]);
    assert_eq!(state.post_context("third").unwrap().meta.title, "third");
    assert!(state.post_context("fourth").is_none());
    let tagged = state.tag_context("b").unwrap();
    assert_eq!(tagged.tag, "b");
    assert_eq!(tagged.posts, vec!["third", "first"]);
    assert!(state.tag_context("c").is_none());
}

#[test]
fn posts_of_one_moment_are_both_listed() {
    let state = BlogState::new(vec![post("one", 5, &["t"]), post("two", 5, &["t"])]).unwrap();
    assert_eq!(state.recent_posts_context(), vec!["two", "one"]);
    assert_eq!(state.tag_context("t").unwrap().posts, vec!["two", "one"]);
    assert!(state.post_context("one").is_some());
}

#[test]
fn posts_need_names_that_are_uri_safe_and_their_own() {
    let result = BlogState::new(vec![post("fine", 1, &[]), post("not fine", 2, &[])]);
    assert!(matches!(result, Err(BlogError::BadFileName(ref n)) if n == "not fine"));
    let result = BlogState::new(vec![post("a", 1, &[]), post("b", 2, &[]), post("a", 3, &[])]);
    assert!(matches!(result, Err(BlogError::DuplicatePost(ref n)) if n == "a"));
    assert!(BlogState::new(Vec::new()).unwrap().recent_posts_context().is_empty());
}

#[test]
fn update_replaces_the_index_or_leaves_it() {
    let mut state = BlogState::new(vec![post("old", 1, &[])]).unwrap();
    assert!(update(&mut state, vec![post("bad name", 2, &[])]).is_err());
    assert_eq!(state.recent_posts_context(), vec!["old"]);
    assert!(update(&mut state, vec![post("new", 2, &[]), post("newer", 3, &[])]).is_ok());
    assert_eq!(state.recent_posts_context(), vec!["newer", "new"]);
    assert!(state.post_context("old").is_none());
}

#[test]
fn texts_are_ordered_by_their_bytes() {
    assert!(str_le("", ""));
    assert!(str_le("", "a"));
    assert!(!str_le("a", ""));
    assert!(str_le("Zoo", "apple"));
    assert!(str_le("apple", "apples"));
    assert!(!str_le("apples", "apple"));
    assert!(str_le("z", "\u{e9}"));
    assert!(bytes_le_exec(b"ab", b"ab"));
    assert!(!bytes_le_exec(b"ac", b"ab"));
    assert!(str_eq("same", "same"));
    assert!(!str_eq("same", "Same"));
    assert!(!str_eq("same", "same "));
    assert!(bytes_eq(b"", b""));
    assert!(!bytes_eq(b"a", b"b"));
}

#[test]
fn texts_are_made_of_characters_and_digits() {
    assert_eq!(str_chars("a\u{e9}z"), vec!['a', '\u{e9}', 'z']);
    assert_eq!(str_chars(""), Vec::<char>::new());
    assert_eq!(string_from_chars(&vec!['h', '\u{e9}', '!']), "h\u{e9}!");
    assert_eq!(string_from_chars(&Vec::new()), "");
    assert_eq!(ascii_string(b"K-1 II"), "K-1 II");
    assert_eq!(ascii_string(&[0xe9]), "\u{e9}");
    assert!(is_ascii_bytes(b"plain"));
    assert!(is_ascii_bytes(&[0x7f]));
    assert!(!is_ascii_bytes(&[0x41, 0x80]));
    let mut digits = vec!['#'];
    push_decimal(&mut digits, 0);
    push_decimal(&mut digits, 7);
    push_decimal(&mut digits, 1030);
    push_decimal(&mut digits, u32::MAX);
    assert_eq!(string_from_chars(&digits), "#0710304294967295");
}

#[test]
fn a_file_is_split_at_its_first_separating_line() {
    let file = b"title = \"x\"\n+++\nbody\n+++\nmore";
    let end = split_header(file).unwrap();
    assert_eq!(&file[..end], b"title = \"x\"");
    assert_eq!(&file[end + SEPARATOR_LEN..], b"body\n+++\nmore");
    assert_eq!(split_header(b"\n+++\n"), Some(0));
    assert_eq!(split_header(b"a\n+++\n"), Some(1));
    assert_eq!(split_header(b"+++\nbody"), None);
    assert_eq!(split_header(b"head\n+++"), None);
    assert_eq!(split_header(b"head\n++++\nbody"), None);
    assert_eq!(split_header(b"head\n++\nbody"), None);
    assert_eq!(split_header(b""), None);
    assert_eq!(split_header(b"\n++"), None);
}
