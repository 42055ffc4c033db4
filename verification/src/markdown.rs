//! Rendering a log's Markdown to HTML. The parsing and the HTML writing are
//! pulldown-cmark's; this module decides what reaches the writer: raw HTML in
//! the input is shown as text, never embedded, and an image whose address
//! names a video or audio file becomes a player.

use vstd::prelude::*;
use pulldown_cmark::{Event, Options, Parser, Tag, TagEnd};
use crate::filestuff::{media_mime_of, media_mime_type, media_type, media_type_of, MediaType};
use crate::text::push_char;

verus! {

#[verifier::external_type_specification]
#[verifier::external_body]
pub struct ExEvent<'a>(Event<'a>);

/// What the rendering rules read of one Markdown event.
#[derive(Debug)]
pub enum MdEventKind {
    /// A line of an HTML block, with its text.
    Html(String),
    /// An inline HTML tag, with its text.
    InlineHtml(String),
    /// The start of an image, with its destination address.
    ImageStart(String),
    /// The end of an image.
    ImageEnd,
    /// Any other event.
    Other,
}

/// `MdEventKind` with its strings taken as character sequences.
pub enum MdEventKindView {
    Html(Seq<char>),
    InlineHtml(Seq<char>),
    ImageStart(Seq<char>),
    ImageEnd,
    Other,
}

impl View for MdEventKind {
    type V = MdEventKindView;

    open spec fn view(&self) -> MdEventKindView {
        match self {
            MdEventKind::Html(t) => MdEventKindView::Html(t@),
            MdEventKind::InlineHtml(t) => MdEventKindView::InlineHtml(t@),
            MdEventKind::ImageStart(u) => MdEventKindView::ImageStart(u@),
            MdEventKind::ImageEnd => MdEventKindView::ImageEnd,
            MdEventKind::Other => MdEventKindView::Other,
        }
    }
}

/// What becomes of one event on its way to the HTML writer.
#[derive(Debug)]
pub enum EventRewrite {
    /// The event is written as it came.
    Keep,
    /// The event's HTML text is written as plain (escaped) text.
    ToText,
    /// The event is replaced by this raw HTML.
    EmitHtml(String),
}

pub enum EventRewriteView {
    Keep,
    ToText,
    EmitHtml(Seq<char>),
}

impl View for EventRewrite {
    type V = EventRewriteView;

    open spec fn view(&self) -> EventRewriteView {
        match self {
            EventRewrite::Keep => EventRewriteView::Keep,
            EventRewrite::ToText => EventRewriteView::ToText,
            EventRewrite::EmitHtml(h) => EventRewriteView::EmitHtml(h@),
        }
    }
}

pub open spec fn kinds_view(kinds: Seq<MdEventKind>) -> Seq<MdEventKindView> {
    kinds.map_values(|k: MdEventKind| k@)
}

pub open spec fn rewrites_view(rs: Seq<EventRewrite>) -> Seq<EventRewriteView> {
    rs.map_values(|r: EventRewrite| r@)
}

/// Whether an image address names a file that a player shows: a video or an
/// audio file, by its extension in any letter case.
pub open spec fn is_player_url(url: Seq<char>) -> bool {
    media_type_of(url) == MediaType::Video || media_type_of(url) == MediaType::Audio
}

/// The tag of the player for a media type: `video` for video, `audio` else.
pub open spec fn player_tag(m: MediaType) -> Seq<char> {
    if m == MediaType::Video {
        "video"@
    } else {
        "audio"@
    }
}

/// A character as it is written inside a double-quoted HTML attribute.
pub open spec fn attr_escape_char(c: char) -> Seq<char> {
    if c == '&' {
        "&amp;"@
    } else if c == '"' {
        "&quot;"@
    } else if c == '<' {
        "&lt;"@
    } else if c == '>' {
        "&gt;"@
    } else {
        seq![c]
    }
}

/// A text as it is written inside a double-quoted HTML attribute, so that it
/// cannot end the attribute or open a tag.
pub open spec fn attr_escaped(s: Seq<char>) -> Seq<char>
    decreases s.len(),
{
    if s.len() == 0 {
        Seq::empty()
    } else {
        attr_escaped(s.drop_last()) + attr_escape_char(s.last())
    }
}

/// The HTML that opens a player for the media at `url`.
pub open spec fn player_open_html(url: Seq<char>) -> Seq<char> {
    "<"@ + player_tag(media_type_of(url)) + " controls><source src=\""@ + attr_escaped(url)
        + "\" type=\""@ + media_mime_of(url) + "\"></source>"@
}

/// The HTML that closes a player of a media type.
pub open spec fn player_close_html(m: MediaType) -> Seq<char> {
    "</"@ + player_tag(m) + ">"@
}

/// The media type of the player open after the first `n` events, if any.
pub open spec fn player_open_after(kinds: Seq<MdEventKindView>, n: int) -> Option<MediaType>
    decreases n,
{
    if n <= 0 {
        None
    } else {
        let before = player_open_after(kinds, n - 1);
        match kinds[n - 1] {
            MdEventKindView::ImageStart(url) => if is_player_url(url) {
                Some(media_type_of(url))
            } else {
                before
            },
            MdEventKindView::ImageEnd => None,
            _ => before,
        }
    }
}

/// The start of an image whose address names a video or audio file.
pub open spec fn is_player_start(k: MdEventKindView) -> bool {
    k matches MdEventKindView::ImageStart(url) && is_player_url(url)
}

/// The media type named by the address of an image start (`Unsupported` for
/// any other event).
pub open spec fn start_media(k: MdEventKindView) -> MediaType {
    match k {
        MdEventKindView::ImageStart(url) => media_type_of(url),
        _ => MediaType::Unsupported,
    }
}

/// What becomes of event `i`, given the events before it.
pub open spec fn rewrite_at(kinds: Seq<MdEventKindView>, i: int) -> EventRewriteView {
    match kinds[i] {
        MdEventKindView::Html(_) => EventRewriteView::ToText,
        MdEventKindView::InlineHtml(_) => EventRewriteView::ToText,
        MdEventKindView::ImageStart(url) => if is_player_url(url) {
            EventRewriteView::EmitHtml(player_open_html(url))
        } else {
            EventRewriteView::Keep
        },
        MdEventKindView::ImageEnd => match player_open_after(kinds, i) {
            Some(m) => EventRewriteView::EmitHtml(player_close_html(m)),
            None => EventRewriteView::Keep,
        },
        MdEventKindView::Other => EventRewriteView::Keep,
    }
}

/// What becomes of each event of a stream.
pub open spec fn rewrites_of(kinds: Seq<MdEventKindView>) -> Seq<EventRewriteView> {
    Seq::new(kinds.len(), |i: int| rewrite_at(kinds, i))
}

/// Writes a text for a double-quoted HTML attribute.
pub fn escape_attr(s: &str) -> (r: String)
    ensures
        r@ == attr_escaped(s@),
{
    let n = s.unicode_len();
    let mut out = String::new();
    let mut i: usize = 0;
    while i < n
        invariant
            n == s@.len(),
            i <= n,
            out@ == attr_escaped(s@.subrange(0, i as int)),
        decreases n - i,
    {
        let c = s.get_char(i);
        proof {
            reveal_strlit("&amp;");
            reveal_strlit("&quot;");
            reveal_strlit("&lt;");
            reveal_strlit("&gt;");
        }
        if c == '&' {
            out.append("&amp;");
        } else if c == '"' {
            out.append("&quot;");
        } else if c == '<' {
            out.append("&lt;");
        } else if c == '>' {
            out.append("&gt;");
        } else {
            push_char(&mut out, c);
        }
        assert(s@.subrange(0, i + 1).drop_last() =~= s@.subrange(0, i as int));
        i = i + 1;
    }
    assert(s@.subrange(0, n as int) =~= s@);
    out
}

fn player_open(url: &str, m: MediaType) -> (r: String)
    requires
        m == media_type_of(url@),
        m == MediaType::Video || m == MediaType::Audio,
    ensures
        r@ == player_open_html(url@),
{
    let tag = if m == MediaType::Video {
        "video"
    } else {
        "audio"
    };
    let mut h = String::from_str("<");
    h.append(tag);
    h.append(" controls><source src=\"");
    let escaped = escape_attr(url);
    h.append(escaped.as_str());
    h.append("\" type=\"");
    h.append(media_mime_type(url));
    h.append("\"></source>");
    h
}

fn player_close(m: MediaType) -> (r: String)
    ensures
        r@ == player_close_html(m),
{
    let tag = if m == MediaType::Video {
        "video"
    } else {
        "audio"
    };
    let mut h = String::from_str("</");
    h.append(tag);
    h.append(">");
    h
}

/// Decides, for a stream of Markdown events, what becomes of each.
pub fn rewrite_events(kinds: &Vec<MdEventKind>) -> (r: Vec<EventRewrite>)
    ensures
        rewrites_view(r@) == rewrites_of(kinds_view(kinds@)),
{
    let ghost kv = kinds_view(kinds@);
    let mut out: Vec<EventRewrite> = Vec::new();
    let mut open: Option<MediaType> = None;
    let n = kinds.len();
    let mut i: usize = 0;
    while i < n
        invariant
            n == kinds@.len(),
            kv == kinds_view(kinds@),
            i <= n,
            out@.len() == i,
            open == player_open_after(kv, i as int),
            forall|j: int| 0 <= j < i ==> (#[trigger] out@[j])@ == rewrite_at(kv, j),
        decreases n - i,
    {
        assert(kv[i as int] == kinds@[i as int]@);
        let action = match &kinds[i] {
            MdEventKind::Html(_) => EventRewrite::ToText,
            MdEventKind::InlineHtml(_) => EventRewrite::ToText,
            MdEventKind::ImageStart(url) => {
                let m = media_type(url.as_str());
                if m == MediaType::Video || m == MediaType::Audio {
                    open = Some(m);
                    EventRewrite::EmitHtml(player_open(url.as_str(), m))
                } else {
                    EventRewrite::Keep
                }
            },
            MdEventKind::ImageEnd => {
                match open {
                    Some(m) => {
                        open = None;
                        EventRewrite::EmitHtml(player_close(m))
                    },
                    None => EventRewrite::Keep,
                }
            },
            MdEventKind::Other => EventRewrite::Keep,
        };
        out.push(action);
        i = i + 1;
    }
    assert(rewrites_view(out@) =~= rewrites_of(kv));
    out
}

/// The events pulldown-cmark parses from a Markdown text under the given
/// options, as this library reads them.
pub uninterp spec fn cmark_event_kinds(
    input: Seq<char>,
    tables: bool,
    strikethrough: bool,
) -> Seq<MdEventKindView>;

/// `pulldown_cmark::Parser::new_ext`, run to its end: each event of `input`,
/// with what this library reads of it. The reading is a function of the input
/// and the options alone.
#[verifier::external_body]
fn parse_markdown(input: &str, tables: bool, strikethrough: bool) -> (r: Vec<MdEventKind>)
    ensures
        kinds_view(r@) == cmark_event_kinds(input@, tables, strikethrough),
{
    let mut options = Options::empty();
    options.set(Options::ENABLE_TABLES, tables);
    options.set(Options::ENABLE_STRIKETHROUGH, strikethrough);
    Parser::new_ext(input, options).map(|e| match e {
        Event::Html(t) => MdEventKind::Html(t.to_string()),
        Event::InlineHtml(t) => MdEventKind::InlineHtml(t.to_string()),
        Event::Start(Tag::Image { dest_url, .. }) => MdEventKind::ImageStart(dest_url.to_string()),
        Event::End(TagEnd::Image) => MdEventKind::ImageEnd,
        _ => MdEventKind::Other,
    }).collect()
}

/// One event of the stream that is handed to the HTML writer.
#[derive(Debug)]
pub enum HtmlPiece {
    /// The event that pulldown-cmark parsed at this position of the input,
    /// as it came.
    Parsed(usize),
    /// `Event::Text` holding this text (written escaped).
    Text(String),
    /// `Event::Html` holding this HTML (written as it is).
    Html(String),
}

pub enum HtmlPieceView {
    Parsed(usize),
    Text(Seq<char>),
    Html(Seq<char>),
}

impl View for HtmlPiece {
    type V = HtmlPieceView;

    open spec fn view(&self) -> HtmlPieceView {
        match self {
            HtmlPiece::Parsed(i) => HtmlPieceView::Parsed(*i),
            HtmlPiece::Text(t) => HtmlPieceView::Text(t@),
            HtmlPiece::Html(h) => HtmlPieceView::Html(h@),
        }
    }
}

pub open spec fn pieces_view(ps: Seq<HtmlPiece>) -> Seq<HtmlPieceView> {
    ps.map_values(|p: HtmlPiece| p@)
}

/// Whether every piece that stands for a parsed event names one that exists
/// among `count` events.
pub open spec fn pieces_within(pieces: Seq<HtmlPieceView>, count: nat) -> bool {
    forall|j: int|
        0 <= j < pieces.len() ==> (#[trigger] pieces[j] matches HtmlPieceView::Parsed(i) ==> i
            < count)
}

/// The HTML that pulldown-cmark's writer makes of the stream `pieces`
/// describes, where `Parsed(i)` is the event at position `i` of what
/// `Parser::new_ext` parses from `input` under the given options.
pub uninterp spec fn cmark_html(
    input: Seq<char>,
    tables: bool,
    strikethrough: bool,
    pieces: Seq<HtmlPieceView>,
) -> Seq<char>;

/// `pulldown_cmark::html::push_html` on the events that `pieces` describe,
/// the parsed ones taken from `Parser::new_ext` on `input`.
#[verifier::external_body]
fn write_html(input: &str, tables: bool, strikethrough: bool, pieces: &Vec<HtmlPiece>) -> (r: String)
    requires
        pieces_within(pieces_view(pieces@), cmark_event_kinds(input@, tables, strikethrough).len()),
    ensures
        r@ == cmark_html(input@, tables, strikethrough, pieces_view(pieces@)),
{
    let mut options = Options::empty();
    options.set(Options::ENABLE_TABLES, tables);
    options.set(Options::ENABLE_STRIKETHROUGH, strikethrough);
    let parsed: Vec<Event> = Parser::new_ext(input, options).collect();
    let events = pieces.iter().map(|p| match p {
        HtmlPiece::Parsed(i) => parsed[*i].clone(),
        HtmlPiece::Text(t) => Event::Text(t.clone().into()),
        HtmlPiece::Html(h) => Event::Html(h.clone().into()),
    });
    let mut out = String::new();
    pulldown_cmark::html::push_html(&mut out, events);
    out
}

/// The text of an HTML event (empty for any other event).
pub open spec fn html_text(k: MdEventKindView) -> Seq<char> {
    match k {
        MdEventKindView::Html(t) => t,
        MdEventKindView::InlineHtml(t) => t,
        _ => Seq::empty(),
    }
}

/// The piece that event `i` becomes on its way to the writer.
pub open spec fn piece_at(kinds: Seq<MdEventKindView>, i: int) -> HtmlPieceView {
    match rewrite_at(kinds, i) {
        EventRewriteView::Keep => HtmlPieceView::Parsed(i as usize),
        EventRewriteView::ToText => HtmlPieceView::Text(html_text(kinds[i])),
        EventRewriteView::EmitHtml(h) => HtmlPieceView::Html(h),
    }
}

/// The stream handed to the writer for a stream of parsed events.
pub open spec fn html_plan(kinds: Seq<MdEventKindView>) -> Seq<HtmlPieceView> {
    Seq::new(kinds.len(), |i: int| piece_at(kinds, i))
}

/// The stream handed to the HTML writer for the parsed events `kinds`: each
/// event as `rewrite_events` decides, an HTML event becoming text.
pub fn html_plan_of(kinds: &Vec<MdEventKind>) -> (r: Vec<HtmlPiece>)
    ensures
        pieces_view(r@) == html_plan(kinds_view(kinds@)),
{
    let ghost kv = kinds_view(kinds@);
    let rewrites = rewrite_events(kinds);
    assert(rewrites@.len() == rewrites_view(rewrites@).len());
    let n = kinds.len();
    let mut out: Vec<HtmlPiece> = Vec::new();
    let mut i: usize = 0;
    while i < n
        invariant
            n == kinds@.len(),
            kv == kinds_view(kinds@),
            rewrites_view(rewrites@) == rewrites_of(kv),
            rewrites@.len() == n,
            i <= n,
            out@.len() == i,
            forall|j: int| 0 <= j < i ==> (#[trigger] out@[j])@ == piece_at(kv, j),
        decreases n - i,
    {
        assert(kv[i as int] == kinds@[i as int]@);
        assert(rewrites@[i as int]@ == rewrites_of(kv)[i as int]);
        let piece = match &rewrites[i] {
            EventRewrite::Keep => HtmlPiece::Parsed(i),
            EventRewrite::ToText => match &kinds[i] {
                MdEventKind::Html(t) => HtmlPiece::Text(t.clone()),
                MdEventKind::InlineHtml(t) => HtmlPiece::Text(t.clone()),
                _ => HtmlPiece::Text(String::new()),
            },
            EventRewrite::EmitHtml(h) => HtmlPiece::Html(h.clone()),
        };
        out.push(piece);
        i = i + 1;
    }
    assert(pieces_view(out@) =~= html_plan(kv));
    out
}

/// Renders a log's Markdown (CommonMark with tables and strikethrough) to
/// HTML: pulldown-cmark's HTML of the stream `html_plan` makes of the events
/// it parses, so that raw HTML of the log is written as text and an image of
/// a video or audio file becomes a player.
pub fn render_markdown_to_html(markdown_input: &str) -> (r: String)
    ensures
        r@ == cmark_html(
            markdown_input@,
            true,
            true,
            html_plan(cmark_event_kinds(markdown_input@, true, true)),
        ),
{
    let kinds = parse_markdown(markdown_input, true, true);
    let pieces = html_plan_of(&kinds);
    proof {
        lemma_plan_within(kinds_view(kinds@));
    }
    write_html(markdown_input, true, true, &pieces)
}

proof fn lemma_plan_within(kinds: Seq<MdEventKindView>)
    ensures
        pieces_within(html_plan(kinds), kinds.len()),
{
}

/// Raw HTML in a log never reaches the page: in the stream handed to the
/// writer, every HTML event of the input stands as text holding its HTML,
/// every event handed on as parsed is not HTML, and the only raw HTML is the
/// opening of a player for a video or audio image, with its address escaped,
/// or the closing of one.
pub proof fn law_no_html_embedding(kinds: Seq<MdEventKindView>, i: int)
    requires
        0 <= i < kinds.len(),
    ensures
        html_plan(kinds).len() == kinds.len(),
        (kinds[i] is Html || kinds[i] is InlineHtml) ==> html_plan(kinds)[i] == HtmlPieceView::Text(
            html_text(kinds[i]),
        ),
        html_plan(kinds)[i] is Parsed ==> !(kinds[i] is Html) && !(kinds[i] is InlineHtml),
        html_plan(kinds)[i] matches HtmlPieceView::Html(h) ==> (exists|url: Seq<char>|
            kinds[i] == MdEventKindView::ImageStart(url) && is_player_url(url) && h
                == player_open_html(url)) || (kinds[i] is ImageEnd && (h == player_close_html(
            MediaType::Video,
        ) || h == player_close_html(MediaType::Audio))),
{
    if kinds[i] is ImageEnd {
        lemma_open_player_kind(kinds, i);
    }
}

/// Every event reaches the writer in its place: an event that is neither HTML
/// nor the start or end of an image is handed on as parsed.
pub proof fn law_other_events_kept(kinds: Seq<MdEventKindView>, i: int)
    requires
        0 <= i < kinds.len(),
        kinds[i] is Other,
    ensures
        html_plan(kinds)[i] == HtmlPieceView::Parsed(i as usize),
{
}

/// An escaped address holds no `"`, `<` or `>`: it cannot end the `src`
/// attribute of a player or open a tag.
pub proof fn law_escaped_address_stays_in_attribute(url: Seq<char>)
    ensures
        !attr_escaped(url).contains('"'),
        !attr_escaped(url).contains('<'),
        !attr_escaped(url).contains('>'),
    decreases url.len(),
{
    reveal_strlit("&amp;");
    reveal_strlit("&quot;");
    reveal_strlit("&lt;");
    reveal_strlit("&gt;");
    if url.len() > 0 {
        law_escaped_address_stays_in_attribute(url.drop_last());
        let a = attr_escaped(url.drop_last());
        let b = attr_escape_char(url.last());
        assert forall|c: char| (c == '"' || c == '<' || c == '>') implies !(a + b).contains(c) by {
            if (a + b).contains(c) {
                let k = choose|k: int| 0 <= k < (a + b).len() && (a + b)[k] == c;
                if k < a.len() {
                    assert(a[k] == c);
                } else {
                    assert(b[k - a.len()] == c);
                }
            }
        }
    }
}

proof fn lemma_open_player_kind(kinds: Seq<MdEventKindView>, n: int)
    requires
        0 <= n <= kinds.len(),
    ensures
        player_open_after(kinds, n) matches Some(m) ==> m == MediaType::Video || m
            == MediaType::Audio,
    decreases n,
{
    if n > 0 {
        lemma_open_player_kind(kinds, n - 1);
    }
}

/// Every player that is closed was opened, and of the same kind: a closing
/// tag is written only for an image end that follows the start of an image of
/// that media type, with no image end between them.
pub proof fn law_player_close_follows_open(kinds: Seq<MdEventKindView>, i: int, m: MediaType)
    requires
        0 <= i < kinds.len(),
        kinds[i] is ImageEnd,
        m == MediaType::Video || m == MediaType::Audio,
        html_plan(kinds)[i] == HtmlPieceView::Html(player_close_html(m)),
    ensures
        exists|j: int|
            0 <= j < i && #[trigger] is_player_start(kinds[j]) && start_media(kinds[j]) == m
                && forall|k: int| j < k < i ==> !(#[trigger] kinds[k] is ImageEnd),
{
    lemma_open_player_kind(kinds, i);
    let o = player_open_after(kinds, i);
    assert(o is Some);
    let m2 = o->0;
    reveal_strlit("video");
    reveal_strlit("audio");
    reveal_strlit("</");
    reveal_strlit(">");
    assert(player_close_html(m2) == player_close_html(m));
    assert(player_tag(m2) == player_tag(m)) by {
        assert(player_close_html(m2).subrange(2, 7) =~= player_tag(m2));
        assert(player_close_html(m).subrange(2, 7) =~= player_tag(m));
    }
    if m2 != m {
        assert(player_tag(m2)[0] != player_tag(m)[0]);
    }
    lemma_open_has_start(kinds, i);
}

proof fn lemma_open_has_start(kinds: Seq<MdEventKindView>, n: int)
    requires
        0 <= n <= kinds.len(),
        player_open_after(kinds, n) is Some,
    ensures
        exists|j: int|
            0 <= j < n && #[trigger] is_player_start(kinds[j]) && Some(start_media(kinds[j]))
                == player_open_after(kinds, n) && forall|k: int|
                j < k < n ==> !(#[trigger] kinds[k] is ImageEnd),
    decreases n,
{
    let last = kinds[n - 1];
    if is_player_start(last) {
        assert(forall|k: int| n - 1 < k < n ==> !(#[trigger] kinds[k] is ImageEnd));
    } else {
        assert(!(last is ImageEnd));
        assert(player_open_after(kinds, n) == player_open_after(kinds, n - 1));
        lemma_open_has_start(kinds, n - 1);
        let j = choose|j: int|
            0 <= j < n - 1 && #[trigger] is_player_start(kinds[j]) && Some(start_media(kinds[j]))
                == player_open_after(kinds, n - 1) && forall|k: int|
                j < k < n - 1 ==> !(#[trigger] kinds[k] is ImageEnd);
        assert forall|k: int| j < k < n implies !(#[trigger] kinds[k] is ImageEnd) by {
            if k == n - 1 {
            }
        }
    }
}

} // verus!
