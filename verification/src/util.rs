//! Helpers shared by the photo and blog indexes.

use vstd::prelude::*;

use crate::text::{str_chars, string_from_chars};
use crate::time::CaptureTime;

verus! {

/// Whether `c` is one of the characters that URI encoding leaves as they are:
/// ASCII letters, ASCII digits, and `-`, `~`, `.`, `_`.
pub open spec fn uri_unreserved(c: char) -> bool {
    ||| 'A' <= c <= 'Z'
    ||| 'a' <= c <= 'z'
    ||| '0' <= c <= '9'
    ||| c == '-'
    ||| c == '~'
    ||| c == '.'
    ||| c == '_'
}

/// Whether every character of `s` is URI encoded to itself.
pub open spec fn uri_idempotent(s: Seq<char>) -> bool {
    forall|i: int| 0 <= i < s.len() ==> uri_unreserved(#[trigger] s[i])
}

/// The place of the first dot of `name` at or after `from`, or the length of
/// `name` where no dot follows.
pub open spec fn first_dot(name: Seq<char>, from: int) -> int
    decreases name.len() - from,
{
    if from >= name.len() {
        name.len() as int
    } else if name[from] == '.' {
        from
    } else {
        first_dot(name, from + 1)
    }
}

/// The part of a file's name that names what the file holds: the text before
/// the first dot, where a dot that the name begins with does not count.
pub open spec fn prefix_text(name: Seq<char>) -> Seq<char> {
    name.take(first_dot(name, 1))
}

/// The name of a file without its extensions: `a` for `a.tar.gz`, `.a` for
/// `.a.b`, and the whole name where no dot follows its first character.
pub fn file_prefix(name: &str) -> (id: String)
    ensures
        id@ == prefix_text(name@),
        id@.len() <= name@.len(),
        id@ == name@.take(id@.len() as int),
        forall|i: int| 1 <= i < id@.len() ==> id@[i] != '.',
        id@.len() == name@.len() || name@[id@.len() as int] == '.',
        name@.len() > 0 ==> id@.len() > 0,
{
    let chars = str_chars(name);
    let mut kept: Vec<char> = Vec::new();
    let mut i: usize = 0;
    while i < chars.len() && (i == 0 || chars[i] != '.')
        invariant
            i <= chars.len(),
            kept@ == chars@.take(i as int),
            forall|j: int| 1 <= j < i ==> chars@[j] != '.',
            first_dot(chars@, 1) == first_dot(chars@, if i == 0 { 1 } else { i as int }),
        decreases chars.len() - i,
    {
        kept.push(chars[i]);
        assert(chars@.take(i + 1) =~= chars@.take(i as int).push(chars@[i as int]));
        i += 1;
    }
    string_from_chars(&kept)
}

/// Decides `uri_unreserved` for one character.
pub fn is_uri_unreserved(c: char) -> (b: bool)
    ensures
        b == uri_unreserved(c),
{
    ('A' <= c && c <= 'Z') || ('a' <= c && c <= 'z') || ('0' <= c && c <= '9') || c == '-'
        || c == '~' || c == '.' || c == '_'
}

/// Returns false if the string has any character that is not URI encoded to
/// itself.
pub fn is_uri_idempotent(s: &str) -> (b: bool)
    ensures
        b == uri_idempotent(s@),
{
    let chars = str_chars(s);
    let mut i: usize = 0;
    while i < chars.len()
        invariant
            chars@ == s@,
            i <= chars.len(),
            forall|j: int| 0 <= j < i ==> uri_unreserved(#[trigger] s@[j]),
        decreases chars.len() - i,
    {
        if !is_uri_unreserved(chars[i]) {
            return false;
        }
        i += 1;
    }
    true
}

/// Selector for how much of a capture time `format_datetime` writes.
#[derive(Clone, Copy, Debug, PartialEq, Eq, Structural)]
pub enum FormatLevel {
    /// Month, day, year; e.g. "Nov 7, 2021"
    Date,
    /// Time, month, day, year, offset; e.g. "13:27:45 Nov 07 2021 -08:00"
    DateTime,
    /// Hour:minute:second; e.g. "13:27:45"
    LocalTime,
    /// Offset from UTC; e.g. "-08:00"
    Offset,
}

impl FormatLevel {
    /// The strftime pattern that stands for this level.
    pub open spec fn pattern(self) -> Seq<char> {
        match self {
            FormatLevel::Date => "%b %-d, %Y"@,
            FormatLevel::DateTime => "%H:%M:%S %b %d %Y %Z"@,
            FormatLevel::LocalTime => "%H:%M:%S"@,
            FormatLevel::Offset => "%Z"@,
        }
    }
}

/// Standard formatting of a capture time at the given level of detail.
pub fn format_datetime(datetime: &CaptureTime, selector: FormatLevel) -> (s: String)
    ensures
        s@ == datetime@.formatted(selector.pattern()),
{
    match selector {
        FormatLevel::Date => datetime.format("%b %-d, %Y"),
        FormatLevel::DateTime => datetime.format("%H:%M:%S %b %d %Y %Z"),
        FormatLevel::LocalTime => datetime.format("%H:%M:%S"),
        FormatLevel::Offset => datetime.format("%Z"),
    }
}

/// An answer to a request, or the address at which the request is to be
/// made again: images are served under addresses that hold the hash of their
/// content, so that an address goes out of date when the image changes.
#[derive(Debug)]
pub enum MaybeRedirect<R> {
    Dont(R),
    Redirect { new_url: String, is_permanent: bool },
}

/// The HTML that pulldown-cmark renders a markdown text to, with
/// strikethrough, footnotes, tables and task lists switched on.
pub uninterp spec fn markdown_html(md: Seq<char>) -> Seq<char>;

/// Converts the markdown string to HTML.
///
/// pulldown-cmark's `Parser::new_ext` and `html::push_html`; the text that
/// comes out is taken on trust as `markdown_html`.
#[verifier::external_body]
pub fn markdown_to_html(md: &str) -> (html: String)
    ensures
        html@ == markdown_html(md@),
{
    let mut options = pulldown_cmark::Options::empty();
    options.insert(pulldown_cmark::Options::ENABLE_STRIKETHROUGH);
    options.insert(pulldown_cmark::Options::ENABLE_FOOTNOTES);
    options.insert(pulldown_cmark::Options::ENABLE_TABLES);
    options.insert(pulldown_cmark::Options::ENABLE_TASKLISTS);
    let mut html = String::new();
    pulldown_cmark::html::push_html(&mut html, pulldown_cmark::Parser::new_ext(md, options));
    html
}

} // verus!
