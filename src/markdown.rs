use vstd::prelude::*;

use crate::tag_adder::opt_view;
use pulldown_cmark::{BrokenLink, CowStr, Event, LinkType, Options, Parser, Tag, TagEnd};

verus! {

/// How a link was written.
#[derive(Clone, Copy, Debug, PartialEq, Eq, Structural)]
pub enum LinkKind {
    /// `[text](dest)`
    Inline,
    /// `[text][label]`
    Reference,
    /// `[text][label]` whose label has no definition
    ReferenceUnknown,
    /// `[text][]`
    Collapsed,
    /// `[text][]` whose text has no definition
    CollapsedUnknown,
    /// `[text]`
    Shortcut,
    /// `[text]` whose text has no definition
    ShortcutUnknown,
    /// `<scheme:dest>`
    Autolink,
    /// `<name@host>`
    Email,
    /// `[[dest]]`
    WikiLink,
}

/// A markdown token, as far as the heading and link passes read it.
#[derive(Debug)]
pub enum MdEvent {
    /// The start of a fenced or indented code block.
    CodeBlockStart,
    /// The end of a code block.
    CodeBlockEnd,
    /// The start of a heading, with the id written as `{#id}`, if any.
    HeadingStart(Option<String>),
    /// The end of a heading.
    HeadingEnd,
    /// The start of a link: how it was written, and its destination.
    LinkStart(LinkKind, String),
    /// The end of a link.
    LinkEnd,
    /// Plain text.
    Text(String),
    /// An inline code span.
    Code(String),
    /// Raw HTML, block or inline.
    Html(String),
    /// Any other token.
    Other,
}

/// `pulldown_cmark::Event`, a parsed token, carried through unread.
#[verifier::external_type_specification]
#[verifier::external_body]
pub struct ExEvent<'a>(Event<'a>);

/// `pulldown_cmark::Options`, the syntax extensions of the parser.
#[verifier::external_type_specification]
#[verifier::external_body]
pub struct ExOptions(Options);

/// `pulldown_cmark::LinkType`, how a link was written.
#[verifier::external_type_specification]
#[verifier::external_body]
pub struct ExLinkType(LinkType);

/// The tokens that `pulldown_cmark::Parser::new_ext` yields for a document
/// (footnotes, math and GitHub-flavoured syntax on), each owning its text.
pub uninterp spec fn parsed_tokens(content: Seq<char>) -> Seq<Event<'static>>;

/// The library's view (`event_view`) of each token of `parsed_tokens(content)`.
pub uninterp spec fn token_views(content: Seq<char>) -> Seq<MdEvent>;

/// The tokens, with their byte ranges, that the link pass reads: what
/// `Parser::new_with_broken_link_callback` and its offset iterator yield for a
/// document, each token in the library's view (`event_view`).
pub uninterp spec fn link_tokens_of(content: Seq<char>) -> Seq<(MdEvent, usize, usize)>;

/// The raw HTML token that `Event::Html` makes of this markup.
pub uninterp spec fn html_token(markup: Seq<char>) -> Event<'static>;

/// What `pulldown_cmark_to_cmark::cmark` writes for these tokens: the markdown
/// text, or `None` where it reports an error.
pub uninterp spec fn cmark_of(tokens: Seq<Event<'static>>) -> Option<Seq<char>>;

/// Relies on `pulldown_cmark::Options`: footnotes, math and GitHub-flavoured
/// syntax, for the parser and the serializer alike.
#[verifier::external_body]
fn parser_options() -> Options {
    Options::ENABLE_FOOTNOTES | Options::ENABLE_MATH | Options::ENABLE_GFM
}

/// Relies on `pulldown_cmark::Parser::new_ext`: the token stream of `content`,
/// each token owning its text, and the view of each token.
#[verifier::external_body]
pub(crate) fn parse_tokens(content: &str) -> (r: (Vec<Event<'static>>, Vec<MdEvent>))
    ensures
        r.0@ == parsed_tokens(content@),
        r.1@ == token_views(content@),
        r.0@.len() == r.1@.len(),
{
    let events: Vec<Event<'static>> =
        Parser::new_ext(content, parser_options()).map(|e| e.into_static()).collect();
    let views = events.iter().map(event_view).collect();
    (events, views)
}

/// Relies on `pulldown_cmark::Parser::new_with_broken_link_callback` and its
/// offset iterator: the token stream of `content`, each token in the library's
/// view with its byte range. A reference to an undefined label is kept as a
/// link, of one of the `*Unknown` kinds, whose destination (and title) is the
/// label itself.
#[verifier::external_body]
pub(crate) fn link_tokens(content: &str) -> (r: Vec<(MdEvent, usize, usize)>)
    ensures
        r@ == link_tokens_of(content@),
{
    let keep_label = |b: BrokenLink<'_>| {
        Some((b.reference.clone().into_static(), b.reference.into_static()))
    };
    let parser = Parser::new_with_broken_link_callback(content, parser_options(), Some(keep_label));
    parser.into_offset_iter().map(|(e, r)| (event_view(&e), r.start, r.end)).collect()
}

/// Relies on `pulldown_cmark::LinkType`: one kind for each of its variants.
#[verifier::external_body]
fn link_kind(t: &LinkType) -> LinkKind {
    match t {
        LinkType::Inline => LinkKind::Inline,
        LinkType::Reference => LinkKind::Reference,
        LinkType::ReferenceUnknown => LinkKind::ReferenceUnknown,
        LinkType::Collapsed => LinkKind::Collapsed,
        LinkType::CollapsedUnknown => LinkKind::CollapsedUnknown,
        LinkType::Shortcut => LinkKind::Shortcut,
        LinkType::ShortcutUnknown => LinkKind::ShortcutUnknown,
        LinkType::Autolink => LinkKind::Autolink,
        LinkType::Email => LinkKind::Email,
        LinkType::WikiLink { .. } => LinkKind::WikiLink,
    }
}

/// Relies on `pulldown_cmark::Event` and `Tag::Link`: the link type and
/// destination of a link's start token.
#[verifier::external_body]
fn link_start<'a>(e: &Event<'a>) -> Option<(LinkType, String)> {
    match e {
        Event::Start(Tag::Link { link_type, dest_url, .. }) => {
            Some((*link_type, dest_url.to_string()))
        },
        _ => None,
    }
}

/// Relies on `pulldown_cmark::Event`, `Tag` and `TagEnd`: the start and end
/// tokens of code blocks and headings, with a heading's `{#id}`, and the end
/// token of a link.
#[verifier::external_body]
fn structure_view<'a>(e: &Event<'a>) -> MdEvent {
    match e {
        Event::Start(Tag::CodeBlock(_)) => MdEvent::CodeBlockStart,
        Event::End(TagEnd::CodeBlock) => MdEvent::CodeBlockEnd,
        Event::Start(Tag::Heading { id, .. }) => {
            MdEvent::HeadingStart(id.as_deref().map(String::from))
        },
        Event::End(TagEnd::Heading(_)) => MdEvent::HeadingEnd,
        Event::End(TagEnd::Link) => MdEvent::LinkEnd,
        _ => MdEvent::Other,
    }
}

/// Relies on `pulldown_cmark::Event`: the text of a text, code or HTML token.
#[verifier::external_body]
fn text_view<'a>(e: &Event<'a>) -> MdEvent {
    match e {
        Event::Text(t) => MdEvent::Text(t.to_string()),
        Event::Code(t) => MdEvent::Code(t.to_string()),
        Event::Html(t) | Event::InlineHtml(t) => MdEvent::Html(t.to_string()),
        _ => MdEvent::Other,
    }
}

/// The library's view of a parsed token.
pub fn event_view<'a>(e: &Event<'a>) -> (r: MdEvent) {
    if let Some((t, url)) = link_start(e) {
        return MdEvent::LinkStart(link_kind(&t), url);
    }
    let v = structure_view(e);
    if let MdEvent::Other = v {
        text_view(e)
    } else {
        v
    }
}

/// Relies on `pulldown_cmark::Event::Html`: a raw HTML token of this markup.
#[verifier::external_body]
pub(crate) fn html_event(markup: String) -> (r: Event<'static>)
    ensures
        r == html_token(markup@),
{
    Event::Html(CowStr::from(markup))
}

/// Relies on `pulldown_cmark_to_cmark::cmark`: the markdown text of `events`,
/// written with the parser's options, or `None` where it reports an error.
#[verifier::external_body]
pub(crate) fn serialize_events(events: &Vec<Event<'static>>) -> (r: Option<String>)
    ensures
        opt_view(r) == cmark_of(events@),
{
    let mut out = String::new();
    match pulldown_cmark_to_cmark::cmark(events.iter(), &mut out, parser_options()) {
        Ok(_) => Some(out),
        Err(_) => None,
    }
}

} // verus!
