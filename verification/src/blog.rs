//! The index of the blog: its posts by name, by tag and by the time at which
//! they were first published.

use vstd::prelude::*;
use vstd::utf8::{
    decode_utf8, encode_utf8, encode_utf8_decode_utf8, encode_utf8_valid_utf8,
    is_char_boundary_iff_not_is_continuation_byte, is_char_boundary_start_end_of_seq,
    is_continuation_byte,
};

use crate::albums::{captures, contains_text, insert_by_time, texts, with_photo};
use crate::manifest::{find_repeat, find_unsafe, first_repeat, first_unsafe};
use crate::text::str_eq;
use crate::time::{CaptureTime, TimeView};
use crate::util::{format_datetime, markdown_html, markdown_to_html, FormatLevel};

verus! {

/// Least number of bytes of markdown in the sneak peek of a post.
pub const MIN_SNEAK_PEEK_AMOUNT: usize = 100;

/// Whether two line feeds stand at `i`.
pub open spec fn paragraph_break(bytes: Seq<u8>, i: int) -> bool {
    0 <= i && i + 1 < bytes.len() && bytes[i] == 0x0a && bytes[i + 1] == 0x0a
}

/// Where the sneak peek of a body ends: at the first paragraph break at or
/// after the least amount, counting breaks from `from` on without overlap,
/// or at the end of the body.
pub open spec fn sneak_peek_end(bytes: Seq<u8>, from: int) -> int
    decreases bytes.len() - from,
{
    if from < 0 || from >= bytes.len() {
        bytes.len() as int
    } else if paragraph_break(bytes, from) {
        if from >= MIN_SNEAK_PEEK_AMOUNT {
            from
        } else {
            sneak_peek_end(bytes, from + 2)
        }
    } else {
        sneak_peek_end(bytes, from + 1)
    }
}

/// What `sneak_peek_end` finds: the end of the body or a line feed in it.
pub proof fn lemma_sneak_peek_end(bytes: Seq<u8>, from: int)
    requires
        0 <= from,
    ensures
        0 <= sneak_peek_end(bytes, from) <= bytes.len(),
        sneak_peek_end(bytes, from) < bytes.len() ==> bytes[sneak_peek_end(bytes, from)] == 0x0a,
    decreases bytes.len() - from,
{
    if from < bytes.len() {
        if paragraph_break(bytes, from) {
            if from < MIN_SNEAK_PEEK_AMOUNT {
                lemma_sneak_peek_end(bytes, from + 2);
            }
        } else {
            lemma_sneak_peek_end(bytes, from + 1);
        }
    }
}

/// The number of bytes of a body that its sneak peek shows.
pub fn sneak_peek_amount(body: &[u8]) -> (amount: usize)
    ensures
        amount == sneak_peek_end(body@, 0),
        amount <= body@.len(),
{
    let n: usize = body.len();
    let mut i: usize = 0;
    while i < n
        invariant
            n == body@.len(),
            sneak_peek_end(body@, 0) == sneak_peek_end(body@, i as int),
        decreases n - i,
    {
        if i < n - 1 && body[i] == 0x0a && body[i + 1] == 0x0a {
            if i >= MIN_SNEAK_PEEK_AMOUNT {
                return i;
            }
            if i >= n - 2 {
                assert(sneak_peek_end(body@, i + 2) == n);
                return n;
            }
            i += 2;
        } else {
            i += 1;
        }
    }
    n
}

/// The number of bytes of the line that parts the header of a post's file
/// from its body, with the line feeds before and after it.
pub const SEPARATOR_LEN: usize = 5;

/// Whether the line `+++` stands at `i`, between two line feeds.
pub open spec fn separator_at(bytes: Seq<u8>, i: int) -> bool {
    &&& 0 <= i
    &&& i + SEPARATOR_LEN <= bytes.len()
    &&& bytes[i] == 0x0a
    &&& bytes[i + 1] == 0x2b
    &&& bytes[i + 2] == 0x2b
    &&& bytes[i + 3] == 0x2b
    &&& bytes[i + 4] == 0x0a
}

/// The first place from `from` on at which the separating line stands, or
/// the length of the file.
pub open spec fn separator_index(bytes: Seq<u8>, from: int) -> int
    decreases bytes.len() - from,
{
    if from < 0 || from >= bytes.len() {
        bytes.len() as int
    } else if separator_at(bytes, from) {
        from
    } else {
        separator_index(bytes, from + 1)
    }
}

/// Where the header of a post's file ends: at the first line `+++`. The
/// header is what stands before that place, the body what stands
/// `SEPARATOR_LEN` bytes after it; a file without the line is no post.
pub fn split_header(content: &[u8]) -> (r: Option<usize>)
    ensures
        match r {
            Some(end) => end == separator_index(content@, 0) && separator_at(content@, end as int),
            None => separator_index(content@, 0) == content@.len(),
        },
{
    let n: usize = content.len();
    if n < SEPARATOR_LEN {
        proof {
            lemma_no_separator(content@, 0);
        }
        return None;
    }
    let mut i: usize = 0;
    while i <= n - SEPARATOR_LEN
        invariant
            n == content@.len(),
            n >= SEPARATOR_LEN,
            i <= n - SEPARATOR_LEN + 1,
            separator_index(content@, 0) == separator_index(content@, i as int),
        decreases n - i,
    {
        if content[i] == 0x0a && content[i + 1] == 0x2b && content[i + 2] == 0x2b && content[i + 3]
            == 0x2b && content[i + 4] == 0x0a {
            return Some(i);
        }
        i += 1;
    }
    proof {
        lemma_no_separator(content@, i as int);
    }
    None
}

/// No separating line stands so near the end of a file that it does not fit.
proof fn lemma_no_separator(bytes: Seq<u8>, from: int)
    requires
        0 <= from,
        from + SEPARATOR_LEN > bytes.len(),
    ensures
        separator_index(bytes, from) == bytes.len(),
    decreases bytes.len() - from,
{
    if from < bytes.len() {
        lemma_no_separator(bytes, from + 1);
    }
}

/// What the header of a post holds.
#[derive(Debug)]
pub struct ParsedMeta {
    pub title: String,
    pub tab_title: Option<String>,
    pub description: String,
    pub first_published: CaptureTime,
    pub updated: Vec<CaptureTime>,
    pub tags: Vec<String>,
}

/// What a `PostContext` stands for.
pub struct PostModel {
    pub path: Seq<char>,
    pub title: Seq<char>,
    pub tab_title: Seq<char>,
    pub sneak_peek: Seq<char>,
    pub description: Seq<char>,
    pub first_published: Seq<char>,
    pub updated: Seq<Seq<char>>,
    pub tags: Seq<Seq<char>>,
    pub published_unix_time: i64,
    pub html_body_content: Seq<char>,
}

/// What is shown of a post beside its body.
#[derive(Debug)]
pub struct PostMeta {
    /// The name of the post, by which it is found.
    pub path: String,
    /// The name of the post displayed at the top of the page.
    pub title: String,
    /// The name used for titling the tab; the title where none is given.
    pub tab_title: String,
    /// The first paragraphs of the post, as HTML.
    pub sneak_peek: String,
    /// The subtitle of the post, as HTML.
    pub description: String,
    /// The date at which the post was first published.
    pub first_published: String,
    /// The dates at which the post was updated.
    pub updated: Vec<String>,
    /// The tags of the post.
    pub tags: Vec<String>,
    /// The time at which the post was first published, in seconds since the
    /// Unix epoch; posts are ordered by it.
    pub published_unix_time: i64,
}

/// A post of the blog.
#[derive(Debug)]
pub struct PostContext {
    pub meta: PostMeta,
    /// The body of the post, as HTML.
    pub html_body_content: String,
}

impl View for PostContext {
    type V = PostModel;

    open spec fn view(&self) -> PostModel {
        PostModel {
            path: self.meta.path@,
            title: self.meta.title@,
            tab_title: self.meta.tab_title@,
            sneak_peek: self.meta.sneak_peek@,
            description: self.meta.description@,
            first_published: self.meta.first_published@,
            updated: texts(self.meta.updated@),
            tags: texts(self.meta.tags@),
            published_unix_time: self.meta.published_unix_time,
            html_body_content: self.html_body_content@,
        }
    }
}

/// The views of a list of posts.
pub open spec fn posts_model(v: Seq<PostContext>) -> Seq<PostModel> {
    Seq::new(v.len(), |i: int| v[i]@)
}

/// The views of a list of times.
pub open spec fn times_model(v: Seq<CaptureTime>) -> Seq<TimeView> {
    Seq::new(v.len(), |i: int| v[i]@)
}

/// The dates of a list of times, as they are displayed.
pub open spec fn dates_text(times: Seq<TimeView>) -> Seq<Seq<char>> {
    Seq::new(times.len(), |i: int| times[i].formatted(FormatLevel::Date.pattern()))
}

impl PostContext {
    /// Puts a post together from its name, its header and its body.
    pub fn from_file_content(path: &str, parsed: ParsedMeta, body: &str) -> (post: PostContext)
        ensures
            post@ == (PostModel {
                path: path@,
                title: parsed.title@,
                tab_title: match parsed.tab_title {
                    Some(t) => t@,
                    None => parsed.title@,
                },
                sneak_peek: markdown_html(
                    decode_utf8(
                        encode_utf8(body@).subrange(0, sneak_peek_end(encode_utf8(body@), 0)),
                    ),
                ),
                description: markdown_html(parsed.description@),
                first_published: parsed.first_published@.formatted(FormatLevel::Date.pattern()),
                updated: dates_text(times_model(parsed.updated@)),
                tags: texts(parsed.tags@),
                published_unix_time: parsed.first_published@.unix_seconds,
                html_body_content: markdown_html(body@),
            }),
    {
        let amount = sneak_peek_amount(body.as_bytes());
        proof {
            let bytes = encode_utf8(body@);
            encode_utf8_valid_utf8(body@);
            lemma_sneak_peek_end(bytes, 0);
            if amount < bytes.len() {
                is_char_boundary_iff_not_is_continuation_byte(bytes, amount as int);
                let b = bytes[amount as int];
                assert(b == 0x0a ==> b & 0xc0 != 0x80) by (bit_vector);
                assert(!is_continuation_byte(b));
            } else {
                is_char_boundary_start_end_of_seq(bytes);
            }
        }
        let (peek, _rest) = body.split_at(amount);
        proof {
            encode_utf8_decode_utf8(peek@);
        }
        let sneak_peek = markdown_to_html(peek);
        let tab_title = match &parsed.tab_title {
            Some(t) => t.clone(),
            None => parsed.title.clone(),
        };
        let mut updated: Vec<String> = Vec::new();
        let mut i: usize = 0;
        while i < parsed.updated.len()
            invariant
                i <= parsed.updated.len(),
                updated@.len() == i,
                forall|j: int|
                    0 <= j < i ==> (#[trigger] updated@[j])@ == dates_text(
                        times_model(parsed.updated@),
                    )[j],
            decreases parsed.updated.len() - i,
        {
            updated.push(format_datetime(&parsed.updated[i], FormatLevel::Date));
            i += 1;
        }
        assert(texts(updated@) =~= dates_text(times_model(parsed.updated@)));
        let meta = PostMeta {
            path: String::from_str(path),
            tab_title,
            sneak_peek,
            description: markdown_to_html(parsed.description.as_str()),
            first_published: format_datetime(&parsed.first_published, FormatLevel::Date),
            updated,
            published_unix_time: parsed.first_published.unix_seconds(),
            title: parsed.title,
            tags: parsed.tags,
        };
        PostContext { meta, html_body_content: markdown_to_html(body) }
    }
}

/// Why no index of the blog could be built.
#[derive(Debug)]
pub enum BlogError {
    /// The name of a post is not URI encoded to itself.
    BadFileName(String),
    /// Two files give the same name to their post.
    DuplicatePost(String),
}

/// What a `BlogError` stands for.
pub enum BlogErrorModel {
    BadFileName(Seq<char>),
    DuplicatePost(Seq<char>),
}

impl View for BlogError {
    type V = BlogErrorModel;

    open spec fn view(&self) -> BlogErrorModel {
        match self {
            BlogError::BadFileName(n) => BlogErrorModel::BadFileName(n@),
            BlogError::DuplicatePost(n) => BlogErrorModel::DuplicatePost(n@),
        }
    }
}

/// The names of the posts, in order.
pub open spec fn post_paths(posts: Seq<PostModel>) -> Seq<Seq<char>> {
    Seq::new(posts.len(), |i: int| posts[i].path)
}

/// What is wrong with a list of posts, if anything.
pub open spec fn blog_error(posts: Seq<PostModel>) -> Option<BlogErrorModel> {
    if first_unsafe(post_paths(posts), 0) < posts.len() {
        Some(BlogErrorModel::BadFileName(posts[first_unsafe(post_paths(posts), 0)].path))
    } else if first_repeat(post_paths(posts), 0) < posts.len() {
        Some(BlogErrorModel::DuplicatePost(posts[first_repeat(post_paths(posts), 0)].path))
    } else {
        None
    }
}

/// The first `n` posts that have the tag, or all of them where no tag is
/// asked for, by the time at which they were first published: the oldest
/// first, and those published at one time in the order of the list.
pub open spec fn timeline(posts: Seq<PostModel>, tag: Option<Seq<char>>, n: int) -> Seq<
    (i64, Seq<char>),
>
    decreases n,
{
    if n <= 0 {
        Seq::empty()
    } else if tag is None || posts[n - 1].tags.contains(tag->0) {
        with_photo(timeline(posts, tag, n - 1), posts[n - 1].published_unix_time, posts[n - 1].path)
    } else {
        timeline(posts, tag, n - 1)
    }
}

/// Whether one of the first `n` posts has the tag.
pub open spec fn tag_used(posts: Seq<PostModel>, tag: Seq<char>, n: int) -> bool
    decreases n,
{
    n > 0 && (tag_used(posts, tag, n - 1) || posts[n - 1].tags.contains(tag))
}

/// The names in a timeline from its last to its first.
pub open spec fn newest_first(line: Seq<(i64, Seq<char>)>) -> Seq<Seq<char>> {
    Seq::new(line.len(), |i: int| line[line.len() - 1 - i].1)
}

/// The last post from the first `n` with the name, or -1.
pub open spec fn post_index(posts: Seq<PostModel>, name: Seq<char>, n: int) -> int
    decreases n,
{
    if n <= 0 {
        -1
    } else if posts[n - 1].path == name {
        n - 1
    } else {
        post_index(posts, name, n - 1)
    }
}

/// The index of the blog.
#[derive(Debug)]
pub struct BlogState {
    /// Every post, in the order in which the files were handed in.
    pub files: Vec<PostContext>,
    /// The names of the posts by the time at which they were first
    /// published.
    pub by_time: Vec<(i64, String)>,
}

/// What a `BlogState` stands for.
pub struct BlogModel {
    pub files: Seq<PostModel>,
    pub by_time: Seq<(i64, Seq<char>)>,
}

impl View for BlogState {
    type V = BlogModel;

    open spec fn view(&self) -> BlogModel {
        BlogModel { files: posts_model(self.files@), by_time: captures(self.by_time@) }
    }
}

/// The posts of a tag, the newest first.
#[derive(Debug)]
pub struct TagContext {
    pub tag: String,
    pub posts: Vec<String>,
}

/// The names of a timeline from its last to its first.
fn names_newest_first(line: &Vec<(i64, String)>) -> (names: Vec<String>)
    ensures
        texts(names@) == newest_first(captures(line@)),
{
    let n: usize = line.len();
    let mut names: Vec<String> = Vec::new();
    let mut i: usize = 0;
    while i < n
        invariant
            n == line@.len(),
            i <= n,
            names@.len() == i,
            forall|j: int|
                0 <= j < i ==> (#[trigger] names@[j])@ == newest_first(captures(line@))[j],
        decreases n - i,
    {
        names.push(line[n - 1 - i].1.clone());
        i += 1;
    }
    assert(texts(names@) =~= newest_first(captures(line@)));
    names
}

impl BlogState {
    /// Builds the index of the blog from its posts.
    pub fn new(posts: Vec<PostContext>) -> (r: Result<BlogState, BlogError>)
        ensures
            match blog_error(posts_model(posts@)) {
                Some(e) => r matches Err(x) && x@ == e,
                None => r matches Ok(state) && state@ == (BlogModel {
                    files: posts_model(posts@),
                    by_time: timeline(posts_model(posts@), None, posts@.len() as int),
                }),
            },
    {
        let ghost model = posts_model(posts@);
        let mut paths: Vec<String> = Vec::new();
        let mut i: usize = 0;
        while i < posts.len()
            invariant
                i <= posts.len(),
                paths@.len() == i,
                forall|j: int| 0 <= j < i ==> (#[trigger] paths@[j])@ == posts@[j].meta.path@,
            decreases posts.len() - i,
        {
            paths.push(posts[i].meta.path.clone());
            i += 1;
        }
        assert(texts(paths@) =~= post_paths(model));
        match find_unsafe(&paths) {
            Some(k) => {
                return Err(BlogError::BadFileName(posts[k].meta.path.clone()));
            },
            None => {},
        }
        match find_repeat(&paths) {
            Some(k) => {
                return Err(BlogError::DuplicatePost(posts[k].meta.path.clone()));
            },
            None => {},
        }
        let mut by_time: Vec<(i64, String)> = Vec::new();
        let mut k: usize = 0;
        assert(captures(by_time@) =~= timeline(model, None, 0));
        while k < posts.len()
            invariant
                k <= posts.len(),
                model == posts_model(posts@),
                captures(by_time@) == timeline(model, None, k as int),
            decreases posts.len() - k,
        {
            insert_by_time(
                &mut by_time,
                posts[k].meta.published_unix_time,
                posts[k].meta.path.clone(),
            );
            k += 1;
        }
        Ok(BlogState { files: posts, by_time })
    }

    /// The names of all posts, the newest first, and every tag once.
    pub fn index_context(&self) -> (r: (Vec<String>, Vec<String>))
        ensures
            texts(r.0@) == newest_first(self@.by_time),
            texts(r.1@).no_duplicates(),
            forall|t: Seq<char>|
                #[trigger] texts(r.1@).contains(t) <==> tag_used(
                    self@.files,
                    t,
                    self@.files.len() as int,
                ),
    {
        let mut tags: Vec<String> = Vec::new();
        let mut i: usize = 0;
        while i < self.files.len()
            invariant
                i <= self.files.len(),
                texts(tags@).no_duplicates(),
                forall|t: Seq<char>|
                    #[trigger] texts(tags@).contains(t) <==> tag_used(self@.files, t, i as int),
            decreases self.files.len() - i,
        {
            let post_tags = &self.files[i].meta.tags;
            assert(self@.files[i as int] == self.files@[i as int]@);
            let mut j: usize = 0;
            while j < post_tags.len()
                invariant
                    i < self.files.len(),
                    j <= post_tags.len(),
                    *post_tags == self.files@[i as int].meta.tags,
                    self@.files[i as int] == self.files@[i as int]@,
                    texts(tags@).no_duplicates(),
                    forall|t: Seq<char>|
                        #[trigger] texts(tags@).contains(t) <==> tag_used(
                            self@.files,
                            t,
                            i as int,
                        ) || texts(post_tags@).take(j as int).contains(t),
                decreases post_tags.len() - j,
            {
                let ghost before = texts(tags@);
                let ghost tag = texts(post_tags@)[j as int];
                assert(tag == post_tags@[j as int]@);
                if !contains_text(&tags, post_tags[j].as_str()) {
                    tags.push(post_tags[j].clone());
                    assert(texts(tags@) =~= before.push(tag));
                }
                assert forall|t: Seq<char>| #[trigger]
                    texts(tags@).contains(t) <==> tag_used(self@.files, t, i as int) || texts(
                        post_tags@,
                    ).take(j + 1).contains(t) by {
                    let now = texts(tags@);
                    let seen = texts(post_tags@).take(j as int);
                    let next = texts(post_tags@).take(j + 1);
                    assert(next =~= seen.push(tag));
                    if now.contains(t) {
                        let k = choose|k: int| 0 <= k < now.len() && now[k] == t;
                        if k < before.len() {
                            assert(before[k] == t);
                            assert(before.contains(t));
                            if seen.contains(t) {
                                let q = choose|q: int| 0 <= q < seen.len() && seen[q] == t;
                                assert(next[q] == t);
                            }
                        } else {
                            assert(t == tag);
                            assert(next[j as int] == t);
                        }
                    }
                    if tag_used(self@.files, t, i as int) {
                        assert(before.contains(t));
                        let k = choose|k: int| 0 <= k < before.len() && before[k] == t;
                        assert(now[k] == t);
                    }
                    if next.contains(t) {
                        let q = choose|q: int| 0 <= q < next.len() && next[q] == t;
                        if q < j {
                            assert(seen[q] == t);
                            assert(before.contains(t));
                            let k = choose|k: int| 0 <= k < before.len() && before[k] == t;
                            assert(now[k] == t);
                        } else {
                            assert(t == tag);
                            if before.contains(t) {
                                let k = choose|k: int| 0 <= k < before.len() && before[k] == t;
                                assert(now[k] == t);
                            } else {
                                assert(now[before.len() as int] == t);
                            }
                        }
                    }
                }
                j += 1;
            }
            assert(texts(post_tags@).take(j as int) =~= self@.files[i as int].tags);
            i += 1;
        }
        (names_newest_first(&self.by_time), tags)
    }

    /// The post with the name, if there is one.
    pub fn post_context(&self, name: &str) -> (r: Option<&PostContext>)
        ensures
            match r {
                Some(post) => post_index(self@.files, name@, self.files@.len() as int) >= 0
                    && *post == self.files@[post_index(
                    self@.files,
                    name@,
                    self.files@.len() as int,
                )],
                None => post_index(self@.files, name@, self.files@.len() as int) == -1,
            },
    {
        let mut k: usize = self.files.len();
        while k > 0
            invariant
                k <= self.files.len(),
                post_index(self@.files, name@, self.files@.len() as int) == post_index(
                    self@.files,
                    name@,
                    k as int,
                ),
            decreases k,
        {
            assert(self@.files[k - 1] == self.files@[k - 1]@);
            if str_eq(self.files[k - 1].meta.path.as_str(), name) {
                return Some(&self.files[k - 1]);
            }
            k -= 1;
        }
        None
    }

    /// The posts that have the tag, the newest first; nothing where no post
    /// has it.
    pub fn tag_context(&self, name: &str) -> (r: Option<TagContext>)
        ensures
            match r {
                Some(context) => tag_used(self@.files, name@, self.files@.len() as int)
                    && context.tag@ == name@ && texts(context.posts@) == newest_first(
                    timeline(self@.files, Some(name@), self.files@.len() as int),
                ),
                None => !tag_used(self@.files, name@, self.files@.len() as int),
            },
    {
        let mut line: Vec<(i64, String)> = Vec::new();
        let mut used = false;
        let mut k: usize = 0;
        assert(captures(line@) =~= timeline(self@.files, Some(name@), 0));
        while k < self.files.len()
            invariant
                k <= self.files.len(),
                used == tag_used(self@.files, name@, k as int),
                captures(line@) == timeline(self@.files, Some(name@), k as int),
            decreases self.files.len() - k,
        {
            assert(self@.files[k as int] == self.files@[k as int]@);
            if contains_text(&self.files[k].meta.tags, name) {
                used = true;
                insert_by_time(
                    &mut line,
                    self.files[k].meta.published_unix_time,
                    self.files[k].meta.path.clone(),
                );
            }
            k += 1;
        }
        if used {
            Some(TagContext { tag: String::from_str(name), posts: names_newest_first(&line) })
        } else {
            None
        }
    }

    /// The names of all posts, the newest first.
    pub fn recent_posts_context(&self) -> (r: Vec<String>)
        ensures
            texts(r@) == newest_first(self@.by_time),
    {
        names_newest_first(&self.by_time)
    }
}

/// Builds the index of the blog anew and puts it in the place of the old
/// one; the old one stays where the new one cannot be built.
pub fn update(state: &mut BlogState, posts: Vec<PostContext>) -> (r: Result<(), BlogError>)
    ensures
        match blog_error(posts_model(posts@)) {
            Some(e) => r matches Err(x) && x@ == e && *final(state) == *old(state),
            None => r is Ok && final(state)@ == (BlogModel {
                files: posts_model(posts@),
                by_time: timeline(posts_model(posts@), None, posts@.len() as int),
            }),
        },
{
    match BlogState::new(posts) {
        Ok(new_state) => {
            *state = new_state;
            Ok(())
        },
        Err(e) => Err(e),
    }
}

/// The names of all posts, the newest first.
pub fn recent_posts_context(state: &BlogState) -> (r: Vec<String>)
    ensures
        texts(r@) == newest_first(state@.by_time),
{
    state.recent_posts_context()
}

} // verus!
