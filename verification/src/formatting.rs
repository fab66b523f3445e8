//! Plain text from snippets of HTML: the text of the snippet in document
//! order, with a line break after every block element.

use crate::text::str_eq;
use ego_tree::iter::Edge;
use scraper::{Html, Node};
use vstd::prelude::*;

verus! {

/// One step of a walk through a parsed snippet, in document order.
pub enum HtmlEvent {
    /// A piece of text.
    Text(String),
    /// The start of an element, with its tag.
    Open(String),
    /// The end of an element, with its tag.
    Close(String),
    /// Anything else, such as a comment.
    Other,
}

/// What an `HtmlEvent` holds.
pub enum HtmlEventView {
    Text(Seq<char>),
    Open(Seq<char>),
    Close(Seq<char>),
    Other,
}

impl DeepView for HtmlEvent {
    type V = HtmlEventView;

    open spec fn deep_view(&self) -> HtmlEventView {
        match self {
            HtmlEvent::Text(text) => HtmlEventView::Text(text@),
            HtmlEvent::Open(tag) => HtmlEventView::Open(tag@),
            HtmlEvent::Close(tag) => HtmlEventView::Close(tag@),
            HtmlEvent::Other => HtmlEventView::Other,
        }
    }
}

/// The walk through the tree that `Html::parse_fragment` builds of a snippet.
pub uninterp spec fn parsed_fragment(html: Seq<char>) -> Seq<HtmlEventView>;

/// What `str::trim` leaves of a text.
pub uninterp spec fn trimmed(text: Seq<char>) -> Seq<char>;

/// `Html::parse_fragment`, and `traverse` from the root element of the
/// result: every edge of the walk as one event. The start of a text node is
/// its text, the start and the end of an element carry its tag, and every
/// other edge is `Other`. The contract only gives the walk a name.
#[verifier::external_body]
fn fragment_events(html: &str) -> (events: Vec<HtmlEvent>)
    ensures
        events.deep_view() == parsed_fragment(html@),
{
    let document = Html::parse_fragment(html);
    let walk = document.root_element().traverse();
    walk.map(|edge| match edge {
        Edge::Open(node) => match node.value() {
            Node::Text(text) => HtmlEvent::Text(text.to_string()),
            Node::Element(element) => HtmlEvent::Open(element.name().to_string()),
            _ => HtmlEvent::Other,
        },
        Edge::Close(node) => match node.value() {
            Node::Element(element) => HtmlEvent::Close(element.name().to_string()),
            _ => HtmlEvent::Other,
        },
    }).collect()
}

/// Whether `inner` is `text` without some characters at its beginning and
/// some at its end.
pub open spec fn is_inner_part(inner: Seq<char>, text: Seq<char>) -> bool {
    exists|start: int, end: int|
        0 <= start <= end <= text.len() && inner == #[trigger] text.subrange(start, end)
}

/// `str::trim`: the text without the white space at its two ends. The
/// contract gives the result a name and says that it is the text without a
/// beginning and an end.
#[verifier::external_body]
fn trim(text: &str) -> (inner: &str)
    ensures
        inner@ == trimmed(text@),
        is_inner_part(inner@, text@),
{
    text.trim()
}

/// Whether a tag is that of a block element.
pub open spec fn is_block_tag(tag: Seq<char>) -> bool {
    tag == "p"@ || tag == "div"@ || tag == "li"@ || tag == "ul"@ || tag == "ol"@ || tag == "h1"@
        || tag == "h2"@ || tag == "h3"@ || tag == "h4"@ || tag == "h5"@ || tag == "h6"@
}

/// Whether a tag is that of a block element: a paragraph, a division, a
/// list or one of its items, or a heading.
pub fn is_block_element(tag_name: &str) -> (block: bool)
    ensures
        block == is_block_tag(tag_name@),
{
    str_eq(tag_name, "p") || str_eq(tag_name, "div") || str_eq(tag_name, "li") || str_eq(
        tag_name,
        "ul",
    ) || str_eq(tag_name, "ol") || str_eq(tag_name, "h1") || str_eq(tag_name, "h2") || str_eq(
        tag_name,
        "h3",
    ) || str_eq(tag_name, "h4") || str_eq(tag_name, "h5") || str_eq(tag_name, "h6")
}

/// What one event adds to the text: a piece of text adds itself, the end of
/// a block element adds a line break, and nothing else adds anything.
pub open spec fn event_text(event: HtmlEventView) -> Seq<char> {
    match event {
        HtmlEventView::Text(text) => text,
        HtmlEventView::Close(tag) => if is_block_tag(tag) {
            seq!['\n']
        } else {
            Seq::empty()
        },
        _ => Seq::empty(),
    }
}

/// The text of a walk: what its events add, one after the other.
pub open spec fn rendered(events: Seq<HtmlEventView>) -> Seq<char>
    decreases events.len(),
{
    if events.len() == 0 {
        Seq::empty()
    } else {
        rendered(events.drop_last()) + event_text(events.last())
    }
}

/// The pieces of text of a walk, in their order.
pub open spec fn text_pieces(events: Seq<HtmlEventView>) -> Seq<Seq<char>> {
    events.filter_map(
        |event: HtmlEventView|
            match event {
                HtmlEventView::Text(text) => Some(text),
                _ => None,
            },
    )
}

/// Pieces of text joined by single spaces.
pub open spec fn spaced(pieces: Seq<Seq<char>>) -> Seq<char>
    decreases pieces.len(),
{
    if pieces.len() == 0 {
        Seq::empty()
    } else if pieces.len() == 1 {
        pieces[0]
    } else {
        spaced(pieces.drop_last()) + seq![' '] + pieces.last()
    }
}

/// The text of a walk, with a line break after every block element.
pub fn render_events(events: &Vec<HtmlEvent>) -> (text: String)
    ensures
        text@ == rendered(events.deep_view()),
{
    let mut text = String::new();
    let mut i: usize = 0;
    proof {
        reveal_strlit("\n");
        assert("\n"@ =~= seq!['\n']);
        assert(events.deep_view().take(0) =~= Seq::<HtmlEventView>::empty());
    }
    while i < events.len()
        invariant
            i <= events.len(),
            "\n"@ == seq!['\n'],
            text@ == rendered(events.deep_view().take(i as int)),
        decreases events.len() - i,
    {
        proof {
            assert(events.deep_view().take(i + 1).drop_last() =~= events.deep_view().take(
                i as int,
            ));
            assert(events.deep_view().take(i + 1).last() == events[i as int].deep_view());
        }
        let ghost before = text@;
        match &events[i] {
            HtmlEvent::Text(piece) => {
                text.append(piece.as_str());
            },
            HtmlEvent::Close(tag) => {
                if is_block_element(tag.as_str()) {
                    text.append("\n");
                } else {
                    assert(text@ =~= before + Seq::<char>::empty());
                }
            },
            _ => {
                assert(text@ =~= before + Seq::<char>::empty());
            },
        }
        i += 1;
    }
    assert(events.deep_view().take(events.len() as int) =~= events.deep_view());
    text
}

/// The pieces of text of a walk, joined by single spaces.
pub fn join_text(events: &Vec<HtmlEvent>) -> (text: String)
    ensures
        text@ == spaced(text_pieces(events.deep_view())),
{
    let mut text = String::new();
    let mut i: usize = 0;
    let mut pieces: usize = 0;
    proof {
        reveal_strlit(" ");
        assert(" "@ =~= seq![' ']);
        assert(events.deep_view().take(0) =~= Seq::<HtmlEventView>::empty());
    }
    while i < events.len()
        invariant
            i <= events.len(),
            " "@ == seq![' '],
            pieces == text_pieces(events.deep_view().take(i as int)).len(),
            pieces <= i,
            text@ == spaced(text_pieces(events.deep_view().take(i as int))),
        decreases events.len() - i,
    {
        proof {
            assert(events.deep_view().take(i + 1).drop_last() =~= events.deep_view().take(
                i as int,
            ));
            assert(events.deep_view().take(i + 1).last() == events[i as int].deep_view());
        }
        let ghost seen = text_pieces(events.deep_view().take(i as int));
        match &events[i] {
            HtmlEvent::Text(piece) => {
                if pieces > 0 {
                    text.append(" ");
                }
                text.append(piece.as_str());
                proof {
                    let longer = seen + seq![piece@];
                    assert(longer.drop_last() =~= seen);
                    assert(longer.last() == piece@);
                    assert(text@ =~= spaced(longer));
                }
                pieces += 1;
            },
            _ => {},
        }
        i += 1;
    }
    assert(events.deep_view().take(events.len() as int) =~= events.deep_view());
    text
}

/// The plain text of each snippet: its pieces of text joined by single
/// spaces.
pub fn extract_text_from_vec(html_snippets: &Vec<&str>) -> (texts: Vec<String>)
    ensures
        texts.len() == html_snippets.len(),
        forall|i: int|
            0 <= i < texts.len() ==> (#[trigger] texts[i])@ == spaced(
                text_pieces(parsed_fragment(html_snippets[i]@)),
            ),
{
    let mut texts: Vec<String> = Vec::new();
    let mut i: usize = 0;
    while i < html_snippets.len()
        invariant
            i <= html_snippets.len(),
            texts.len() == i,
            forall|j: int|
                0 <= j < i ==> (#[trigger] texts[j])@ == spaced(
                    text_pieces(parsed_fragment(html_snippets[j]@)),
                ),
        decreases html_snippets.len() - i,
    {
        let events = fragment_events(html_snippets[i]);
        texts.push(join_text(&events));
        i += 1;
    }
    texts
}

/// The plain text of each snippet, as `extract_text_with_formatting` gives
/// it.
pub fn extract_texts_with_formatting(html_snippets: &Vec<&str>) -> (texts: Vec<String>)
    ensures
        texts.len() == html_snippets.len(),
        forall|i: int|
            0 <= i < texts.len() ==> (#[trigger] texts[i])@ == trimmed(
                rendered(parsed_fragment(html_snippets[i]@)),
            ) && is_inner_part(texts[i]@, rendered(parsed_fragment(html_snippets[i]@))),
{
    let mut texts: Vec<String> = Vec::new();
    let mut i: usize = 0;
    while i < html_snippets.len()
        invariant
            i <= html_snippets.len(),
            texts.len() == i,
            forall|j: int|
                0 <= j < i ==> (#[trigger] texts[j])@ == trimmed(
                    rendered(parsed_fragment(html_snippets[j]@)),
                ) && is_inner_part(texts[j]@, rendered(parsed_fragment(html_snippets[j]@))),
        decreases html_snippets.len() - i,
    {
        texts.push(extract_text_with_formatting(html_snippets[i]));
        i += 1;
    }
    texts
}

/// The plain text of a snippet of HTML: its text in document order, with a
/// line break after every block element, and without the white space at the
/// two ends.
pub fn extract_text_with_formatting(html_snippet: &str) -> (text: String)
    ensures
        text@ == trimmed(rendered(parsed_fragment(html_snippet@))),
        is_inner_part(text@, rendered(parsed_fragment(html_snippet@))),
{
    let events = fragment_events(html_snippet);
    let extracted = render_events(&events);
    trim(extracted.as_str()).to_owned()
}

} // verus!
