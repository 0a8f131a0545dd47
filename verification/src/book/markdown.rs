//! Markdown events as the preprocessor handles them: read from a text by pulldown-cmark and
//! written back as markdown by pulldown-cmark-to-cmark. Each event is kept with where it came
//! from, so that what is written back can be stated over plain values.
use crate::book::MdEventClass;
use pulldown_cmark::{CodeBlockKind, Event, Options, Parser, Tag, TagEnd};
use pulldown_cmark_to_cmark::cmark;
use vstd::prelude::*;

verus! {

#[verifier::external_type_specification]
#[verifier::external_body]
pub struct ExEvent<'a>(Event<'a>);

/// Where a markdown event comes from: the event at an index among the events of a text, or
/// raw HTML.
pub enum MdOrigin {
    Parsed(Seq<char>, int),
    Html(Seq<char>),
}

/// The kinds of the markdown events of `text`, in the order pulldown-cmark reads them.
pub uninterp spec fn md_event_classes(text: Seq<char>) -> Seq<MdEventClass>;

/// The markdown text that pulldown-cmark-to-cmark writes for the events that `events` name.
pub uninterp spec fn cmark_markdown(events: Seq<MdOrigin>) -> Seq<char>;

/// Starting with `links` open links, `images` open images and a heading open or not, each
/// end of a link, image or heading in `classes` closes one that is open, and no heading starts
/// while one is open.
pub open spec fn tags_close_open_ones(
    classes: Seq<MdEventClass>,
    links: nat,
    images: nat,
    heading: bool,
) -> bool
    decreases classes.len(),
{
    if classes.len() == 0 {
        true
    } else {
        let rest = classes.drop_first();
        match classes[0] {
            MdEventClass::LinkStart => tags_close_open_ones(rest, links + 1, images, heading),
            MdEventClass::LinkEnd => links > 0 && tags_close_open_ones(
                rest,
                (links - 1) as nat,
                images,
                heading,
            ),
            MdEventClass::ImageStart => tags_close_open_ones(rest, links, images + 1, heading),
            MdEventClass::ImageEnd => images > 0 && tags_close_open_ones(
                rest,
                links,
                (images - 1) as nat,
                heading,
            ),
            MdEventClass::HeadingStart => !heading && tags_close_open_ones(rest, links, images, true),
            MdEventClass::HeadingEnd => heading && tags_close_open_ones(rest, links, images, false),
            _ => tags_close_open_ones(rest, links, images, heading),
        }
    }
}

/// Each end of a link, image or heading closes one that is open, and headings do not nest.
pub open spec fn tags_well_nested(classes: Seq<MdEventClass>) -> bool {
    tags_close_open_ones(classes, 0, 0, false)
}

/// Events that open or close no link, image or heading.
pub open spec fn tag_neutral(c: MdEventClass) -> bool {
    match c {
        MdEventClass::FencedCodeStart(_) | MdEventClass::Text(_) | MdEventClass::CodeBlockEnd
        | MdEventClass::Other => true,
        _ => false,
    }
}

/// Replacing events that open or close no link, image or heading by other such events keeps
/// the links, images and headings well nested.
pub proof fn lemma_neutral_replacement(
    old: Seq<MdEventClass>,
    new: Seq<MdEventClass>,
    links: nat,
    images: nat,
    heading: bool,
)
    requires
        old.len() == new.len(),
        forall|k: int|
            0 <= k < old.len() ==> #[trigger] new[k] == old[k] || (new[k] == MdEventClass::Other
                && tag_neutral(old[k])),
        tags_close_open_ones(old, links, images, heading),
    ensures
        tags_close_open_ones(new, links, images, heading),
    decreases old.len(),
{
    if old.len() > 0 {
        let (l2, i2, h2): (nat, nat, bool) = match old[0] {
            MdEventClass::LinkStart => (links + 1, images, heading),
            MdEventClass::LinkEnd => ((links - 1) as nat, images, heading),
            MdEventClass::ImageStart => (links, images + 1, heading),
            MdEventClass::ImageEnd => (links, (images - 1) as nat, heading),
            MdEventClass::HeadingStart => (links, images, true),
            MdEventClass::HeadingEnd => (links, images, false),
            _ => (links, images, heading),
        };
        assert forall|k: int| 0 <= k < old.drop_first().len() implies #[trigger] new.drop_first()[k]
            == old.drop_first()[k] || (new.drop_first()[k] == MdEventClass::Other && tag_neutral(
            old.drop_first()[k],
        )) by {
            assert(new[k + 1] == old[k + 1] || (new[k + 1] == MdEventClass::Other && tag_neutral(
                old[k + 1],
            )));
        }
        assert(new[0] == old[0] || (new[0] == MdEventClass::Other && tag_neutral(old[0])));
        lemma_neutral_replacement(old.drop_first(), new.drop_first(), l2, i2, h2);
    }
}

/// A markdown event with where it came from. Only the functions of this module make one.
pub struct MdEvent<'a> {
    event: Event<'a>,
    source: &'a str,
    index: usize,
    html: Option<String>,
}

impl<'a> MdEvent<'a> {
    /// Where the event comes from.
    pub closed spec fn origin(&self) -> MdOrigin {
        match self.html {
            Some(h) => MdOrigin::Html(h@),
            None => MdOrigin::Parsed(self.source@, self.index as int),
        }
    }

    /// What kind of event it is; raw HTML counts as any other event.
    pub open spec fn class(&self) -> MdEventClass {
        class_of_origin(self.origin())
    }
}

/// The kind of the event that `o` names.
pub open spec fn class_of_origin(o: MdOrigin) -> MdEventClass {
    match o {
        MdOrigin::Parsed(text, i) => md_event_classes(text)[i],
        MdOrigin::Html(_) => MdEventClass::Other,
    }
}

/// `Parser::new_ext` with all the options: the markdown events of `content`, each with its
/// index among them. pulldown-cmark documents that its start and end events are balanced, and
/// a heading holds inline content only, so headings do not nest.
#[verifier::external_body]
pub fn markdown_events<'a>(content: &'a str) -> (r: Vec<MdEvent<'a>>)
    ensures
        r@.len() == md_event_classes(content@).len(),
        forall|i: int| 0 <= i < r@.len() ==> #[trigger] r@[i].origin() == MdOrigin::Parsed(content@, i),
        tags_well_nested(r@.map_values(|e: MdEvent<'a>| e.class())),
{
    Parser::new_ext(content, Options::all()).enumerate().map(
        |(index, event)| MdEvent { event, source: content, index, html: None },
    ).collect()
}

/// Tells which kind of markdown event `e` is, with the texts it holds.
#[verifier::external_body]
pub fn event_class(e: &MdEvent) -> (r: MdEventClass)
    ensures
        r == e.class(),
{
    match &e.event {
        Event::Start(Tag::CodeBlock(CodeBlockKind::Fenced(l))) => MdEventClass::FencedCodeStart(l.to_string()),
        Event::Text(text) => MdEventClass::Text(text.to_string()),
        Event::End(TagEnd::CodeBlock) => MdEventClass::CodeBlockEnd,
        Event::Start(Tag::Link { .. }) => MdEventClass::LinkStart,
        Event::End(TagEnd::Link) => MdEventClass::LinkEnd,
        Event::Start(Tag::Image { .. }) => MdEventClass::ImageStart,
        Event::End(TagEnd::Image) => MdEventClass::ImageEnd,
        Event::Start(Tag::Heading { .. }) => MdEventClass::HeadingStart,
        Event::End(TagEnd::Heading(_)) => MdEventClass::HeadingEnd,
        _ => MdEventClass::Other,
    }
}

/// `Event::Html`: an event of the raw HTML `html`.
#[verifier::external_body]
pub fn html_event(html: String) -> (r: MdEvent<'static>)
    ensures
        r.origin() == MdOrigin::Html(html@),
{
    MdEvent { event: Event::Html(html.clone().into()), source: "", index: 0, html: Some(html) }
}

/// `pulldown_cmark_to_cmark::cmark`: the markdown text of the events. It takes the open link,
/// image or heading off its stack at each end of one, and asserts that no heading is open when
/// one starts: hence the `requires`. Writing to a `String` does not fail.
#[verifier::external_body]
pub fn events_to_markdown(events: Vec<MdEvent>) -> (r: String)
    requires
        tags_well_nested(events@.map_values(|e: MdEvent| e.class())),
    ensures
        r@ == cmark_markdown(events@.map_values(|e: MdEvent| e.origin())),
{
    let mut content = String::new();
    let _ = cmark(events.iter().map(|e| &e.event), &mut content);
    content
}

} // verus!
