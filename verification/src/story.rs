//! A story as the list shows it, and the text of its entry.

use vstd::prelude::*;

use crate::decimal::{decimal, decimal_string, pad_left, spaces, spaces_string};

verus! {

/// A story of the list: what the entry shows of it and what the keys act on.
#[derive(Debug, PartialEq, Eq)]
pub struct Story {
    pub id: u32,
    pub title: String,
    pub url: String,
    pub author: String,
    pub points: u32,
    pub num_comments: usize,
    pub time: u64,
}

/// The domain that the `url` crate finds in `input`: the host of the URL
/// that `url::Url::parse` reads from it, when that succeeds and the host is
/// a domain name (not an IP address, and not absent).
pub uninterp spec fn url_domain(input: Seq<char>) -> Option<Seq<char>>;

/// A host written with lowercase ASCII letters and dots only, not empty.
pub open spec fn is_letters_and_dots(host: Seq<char>) -> bool {
    &&& host.len() > 0
    &&& forall|i: int| 0 <= i < host.len() ==> ('a' <= #[trigger] host[i] <= 'z' || host[i] == '.')
}

/// A path that is empty, or `/` followed by lowercase ASCII letters,
/// digits, `/`, `.`, `_` and `-`.
pub open spec fn is_plain_path(tail: Seq<char>) -> bool {
    tail.len() == 0 || {
        &&& tail[0] == '/'
        &&& forall|i: int|
            0 <= i < tail.len() ==> {
                let c = #[trigger] tail[i];
                ('a' <= c <= 'z') || ('0' <= c <= '9') || c == '/' || c == '.' || c == '_' || c == '-'
            }
    }
}

/// `input` is `http://` or `https://`, then the domain `host`, then the
/// path `tail`, and it is not longer than a million characters.
pub open spec fn is_plain_web_url(input: Seq<char>, host: Seq<char>, tail: Seq<char>) -> bool {
    &&& is_letters_and_dots(host)
    &&& is_plain_path(tail)
    &&& input.len() <= 1_000_000
    &&& (input == "http://"@ + host + tail || input == "https://"@ + host + tail)
}

/// Calls `url::Url::parse` on `input` and then `Url::domain` on the result.
/// The contract claims that the answer is a function of `input` (the name
/// `url_domain`), and one fact of the `url` crate's source: an `http` or
/// `https` URL whose host is lowercase letters and dots and whose path is
/// plain parses (the host passes `idna` unchanged, parser.rs `parse_host`,
/// host.rs `parse_cow`, idna uts46.rs `process_inner`; it does not end in a
/// number, so it is a domain), and its domain is that host. What the crate
/// finds in other inputs is left unsaid.
#[verifier::external_body]
pub(crate) fn parse_url_domain(input: &str) -> (domain: Option<String>)
    ensures
        match domain {
            Some(d) => url_domain(input@) == Some(d@),
            None => url_domain(input@) is None,
        },
        forall|host: Seq<char>, tail: Seq<char>|
            #[trigger] is_plain_web_url(input@, host, tail) ==> (domain is Some && domain->0@ == host),
{
    match url::Url::parse(input) {
        Ok(parsed) => match parsed.domain() {
            Some(d) => Some(d.to_string()),
            None => None,
        },
        Err(_) => None,
    }
}

/// What follows the title when the story links to a domain: ` (domain)`.
pub open spec fn domain_suffix(domain: Option<Seq<char>>) -> Seq<char> {
    match domain {
        Some(d) => " ("@ + d + ")"@,
        None => Seq::empty(),
    }
}

/// The second line of an entry: indented by `max_id_len + 2` spaces, so
/// that it starts under the title, then points, author, age and comments.
pub open spec fn metadata_line(max_id_len: nat, story: Story, elapsed: Seq<char>) -> Seq<char> {
    spaces(max_id_len + 2) + decimal(story.points as nat) + " points | by "@ + story.author@
        + " | "@ + elapsed + " ago | "@ + decimal(story.num_comments as nat) + " comments"@
}

/// The text of an entry after its number: the title, the domain it links
/// to, a line break, and the metadata line.
pub open spec fn story_text(
    max_id_len: nat,
    story: Story,
    domain: Option<Seq<char>>,
    elapsed: Seq<char>,
) -> Seq<char> {
    story.title@ + domain_suffix(domain) + "\n"@ + metadata_line(max_id_len, story, elapsed)
}

/// The number of an entry, right-aligned in `max_id_len` columns, then `. `.
pub open spec fn id_prefix(id: nat, max_id_len: nat) -> Seq<char> {
    pad_left(decimal(id), max_id_len) + ". "@
}

/// The whole text of an entry.
pub open spec fn story_item_text(
    story: Story,
    id: nat,
    max_id_len: nat,
    domain: Option<Seq<char>>,
    elapsed: Seq<char>,
) -> Seq<char> {
    id_prefix(id, max_id_len) + story_text(max_id_len, story, domain, elapsed)
}

/// The look of a piece of an entry's text.
#[derive(Clone, Copy, Debug, PartialEq, Eq, Structural)]
pub enum TextStyle {
    /// The story's title.
    Title,
    /// The domain the story links to.
    Link,
    /// Unstyled text.
    Plain,
    /// The number of the entry, and the line of points, author, age and
    /// comments.
    Metadata,
}

/// A piece of an entry's text in one style.
#[derive(Debug, PartialEq, Eq)]
pub struct StyledSpan {
    pub text: String,
    pub style: TextStyle,
}

/// The pieces of the text of an entry after its number: the title, the
/// domain in the link style, a plain line break, and the metadata line in
/// the metadata style.
pub open spec fn story_spans(
    max_id_len: nat,
    story: Story,
    domain: Option<Seq<char>>,
    elapsed: Seq<char>,
) -> Seq<(Seq<char>, TextStyle)> {
    seq![(story.title@, TextStyle::Title)] + match domain {
        Some(d) => seq![(domain_suffix(domain), TextStyle::Link)],
        None => Seq::empty(),
    } + seq![("\n"@, TextStyle::Plain), (metadata_line(max_id_len, story, elapsed), TextStyle::Metadata)]
}

/// The pieces of a whole entry: its number in the metadata style, then the
/// pieces of its text.
pub open spec fn story_item_spans(
    story: Story,
    id: nat,
    max_id_len: nat,
    domain: Option<Seq<char>>,
    elapsed: Seq<char>,
) -> Seq<(Seq<char>, TextStyle)> {
    seq![(id_prefix(id, max_id_len), TextStyle::Metadata)] + story_spans(max_id_len, story, domain, elapsed)
}

/// The text that a list of pieces spells, styles aside.
pub open spec fn spans_text(spans: Seq<(Seq<char>, TextStyle)>) -> Seq<char>
    decreases spans.len(),
{
    if spans.len() == 0 {
        Seq::empty()
    } else {
        spans_text(spans.drop_last()) + spans.last().0
    }
}

/// Whether a list of styled pieces holds exactly the pieces of `spec`.
pub open spec fn styled_spans_match(spans: Seq<StyledSpan>, spec: Seq<(Seq<char>, TextStyle)>) -> bool {
    &&& spans.len() == spec.len()
    &&& forall|k: int|
        0 <= k < spans.len() ==> (#[trigger] spans[k]).text@ == spec[k].0 && spans[k].style == spec[k].1
}

/// Appending a piece appends its text.
proof fn lemma_spans_text_push(spans: Seq<(Seq<char>, TextStyle)>, piece: (Seq<char>, TextStyle))
    ensures
        spans_text(spans.push(piece)) == spans_text(spans) + piece.0,
{
    assert(spans.push(piece).drop_last() =~= spans);
}

/// The pieces of an entry's text spell the text of the entry.
pub proof fn lemma_story_spans_text(
    story: Story,
    id: nat,
    max_id_len: nat,
    domain: Option<Seq<char>>,
    elapsed: Seq<char>,
)
    ensures
        spans_text(story_spans(max_id_len, story, domain, elapsed)) == story_text(
            max_id_len,
            story,
            domain,
            elapsed,
        ),
        spans_text(story_item_spans(story, id, max_id_len, domain, elapsed)) == story_item_text(
            story,
            id,
            max_id_len,
            domain,
            elapsed,
        ),
{
    let title = (story.title@, TextStyle::Title);
    let prefix = (id_prefix(id, max_id_len), TextStyle::Metadata);
    let newline = ("\n"@, TextStyle::Plain);
    let meta = (metadata_line(max_id_len, story, elapsed), TextStyle::Metadata);
    let e = Seq::<(Seq<char>, TextStyle)>::empty();
    lemma_spans_text_push(e, title);
    lemma_spans_text_push(e, prefix);
    lemma_spans_text_push(seq![prefix], title);
    assert(e.push(title) =~= seq![title]);
    assert(e.push(prefix) =~= seq![prefix]);
    assert(seq![prefix].push(title) =~= seq![prefix, title]);
    assert(spans_text(e) == Seq::<char>::empty());
    let (head, item_head) = match domain {
        Some(d) => {
            let link = (domain_suffix(domain), TextStyle::Link);
            lemma_spans_text_push(seq![title], link);
            lemma_spans_text_push(seq![prefix, title], link);
            assert(seq![title].push(link) =~= seq![title, link]);
            assert(seq![prefix, title].push(link) =~= seq![prefix, title, link]);
            (seq![title, link], seq![prefix, title, link])
        },
        None => (seq![title], seq![prefix, title]),
    };
    assert(story_spans(max_id_len, story, domain, elapsed) =~= head.push(newline).push(meta));
    assert(story_item_spans(story, id, max_id_len, domain, elapsed) =~= item_head.push(newline).push(meta));
    lemma_spans_text_push(head, newline);
    lemma_spans_text_push(head.push(newline), meta);
    lemma_spans_text_push(item_head, newline);
    lemma_spans_text_push(item_head.push(newline), meta);
    assert(spans_text(head) == story.title@ + domain_suffix(domain));
    assert(spans_text(item_head) == id_prefix(id, max_id_len) + story.title@ + domain_suffix(domain));
    assert(story.title@ + domain_suffix(domain) + "\n"@ + metadata_line(max_id_len, story, elapsed)
        =~= story_text(max_id_len, story, domain, elapsed));
    assert(id_prefix(id, max_id_len) + story.title@ + domain_suffix(domain) + "\n"@ + metadata_line(
        max_id_len,
        story,
        elapsed,
    ) =~= story_item_text(story, id, max_id_len, domain, elapsed));
}

/// The metadata line of an entry.
fn metadata_string(max_id_len: usize, story: &Story, elapsed: &str) -> (line: String)
    requires
        max_id_len + 2 <= usize::MAX,
    ensures
        line@ == metadata_line(max_id_len as nat, *story, elapsed@),
{
    let mut line = spaces_string(max_id_len + 2);
    let points = decimal_string(story.points as usize);
    line.append(points.as_str());
    line.append(" points | by ");
    line.append(story.author.as_str());
    line.append(" | ");
    line.append(elapsed);
    line.append(" ago | ");
    let comments = decimal_string(story.num_comments);
    line.append(comments.as_str());
    line.append(" comments");
    line
}

/// The styled text of an entry after its number, given the domain that the
/// story's URL names (`None` when it names none) and how long ago it was
/// posted.
pub fn story_text_with_domain(
    max_id_len: usize,
    story: &Story,
    domain: Option<&str>,
    elapsed: &str,
) -> (spans: Vec<StyledSpan>)
    requires
        max_id_len + 2 <= usize::MAX,
    ensures
        styled_spans_match(
            spans@,
            story_spans(
                max_id_len as nat,
                *story,
                match domain {
                    Some(d) => Some(d@),
                    None => None,
                },
                elapsed@,
            ),
        ),
{
    let ghost dom = match domain {
        Some(d) => Some(d@),
        None => None,
    };
    let mut spans: Vec<StyledSpan> = Vec::new();
    spans.push(StyledSpan { text: String::from_str(story.title.as_str()), style: TextStyle::Title });
    match domain {
        Some(d) => {
            let mut link = String::from_str(" (");
            link.append(d);
            link.append(")");
            spans.push(StyledSpan { text: link, style: TextStyle::Link });
        },
        None => {},
    }
    spans.push(StyledSpan { text: String::from_str("\n"), style: TextStyle::Plain });
    let line = metadata_string(max_id_len, story, elapsed);
    spans.push(StyledSpan { text: line, style: TextStyle::Metadata });
    assert(styled_spans_match(spans@, story_spans(max_id_len as nat, *story, dom, elapsed@)));
    spans
}

} // verus!
