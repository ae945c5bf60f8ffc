//! The markdown event stream: pulldown-cmark's offset events over a source,
//! under CommonMark plus GFM tables, reduced to what block chunking reads.
//!
//! The stream is read in two passes over the same source, each converting
//! every event one for one: the first gives each event's shape and byte
//! range, the second each event's start tag (`Other` for an event that starts
//! nothing). The parser is deterministic, so the i-th entries of the two
//! passes describe the same event; `attach_tags` joins them.

use vstd::prelude::*;

use pulldown_cmark::{CodeBlockKind as Ck, Event as E, Options, Parser, Tag as T};

use crate::md_json::{
    BlockTag as B, BlockTag, CodeBlockKind, EventKind, EventKindView, EventView, MdEvent, TagView,
    events_view, events_well_formed,
};

verus! {

/// What one parser event is, with a start tag left unread.
pub enum EventShape {
    Start,
    End,
    Text(String),
    Code(String),
    Rule,
    Other,
}

/// One parser event's shape and the byte range of the source it covers.
pub struct ShapedEvent {
    pub shape: EventShape,
    pub start: usize,
    pub end: usize,
}

pub enum ShapeView {
    Start,
    End,
    Text(Seq<char>),
    Code(Seq<char>),
    Rule,
    Other,
}

pub struct ShapedEventView {
    pub shape: ShapeView,
    pub start: usize,
    pub end: usize,
}

impl View for ShapedEvent {
    type V = ShapedEventView;

    open spec fn view(&self) -> ShapedEventView {
        ShapedEventView {
            shape: match &self.shape {
                EventShape::Start => ShapeView::Start,
                EventShape::End => ShapeView::End,
                EventShape::Text(t) => ShapeView::Text(t@),
                EventShape::Code(t) => ShapeView::Code(t@),
                EventShape::Rule => ShapeView::Rule,
                EventShape::Other => ShapeView::Other,
            },
            start: self.start,
            end: self.end,
        }
    }
}

pub open spec fn shapes_view(shapes: Seq<ShapedEvent>) -> Seq<ShapedEventView> {
    shapes.map_values(|e: ShapedEvent| e@)
}

pub open spec fn tags_view(tags: Seq<BlockTag>) -> Seq<TagView> {
    tags.map_values(|t: BlockTag| t@)
}

/// The shapes and byte ranges of the events pulldown-cmark emits for a source.
pub uninterp spec fn markdown_event_shapes_of(source: Seq<char>) -> Seq<ShapedEventView>;

/// The start tag of each event pulldown-cmark emits for a source, in order
/// (`Other` for an event that starts nothing).
pub uninterp spec fn markdown_event_tags_of(source: Seq<char>) -> Seq<TagView>;

/// pulldown-cmark's `Parser::new_ext(source, ENABLE_TABLES).into_offset_iter()`,
/// each event reduced to its shape (text and inline code keep their text) and
/// byte range. The contract names the list; it states nothing else, not even
/// that start and end events balance.
#[verifier::external_body]
fn parse_event_shapes(source: &str) -> (shapes: Vec<ShapedEvent>)
    ensures
        shapes_view(shapes@) == markdown_event_shapes_of(source@),
{
    let mut shapes = Vec::new();
    for (event, range) in Parser::new_ext(source, Options::ENABLE_TABLES).into_offset_iter() {
        let shape = match event {
            E::Start(_) => EventShape::Start, E::End(_) => EventShape::End,
            E::Text(t) => EventShape::Text(t.to_string()), E::Code(t) => EventShape::Code(t.to_string()),
            E::Rule => EventShape::Rule, _ => EventShape::Other,
        };
        shapes.push(ShapedEvent { shape, start: range.start, end: range.end });
    }
    shapes
}

/// The same parse's events, each reduced to the block kind it starts
/// (`Other` for any other event). The contract names the list and states
/// that every heading level is 1..=6, as pulldown-cmark's `HeadingLevel`
/// (`H1 = 1` .. `H6`) guarantees.
#[verifier::external_body]
fn parse_event_tags(source: &str) -> (tags: Vec<BlockTag>)
    ensures
        tags_view(tags@) == markdown_event_tags_of(source@),
        forall|i: int| 0 <= i < tags@.len() ==> (#[trigger] tags@[i] matches B::Heading(l) ==> 1 <= l <= 6),
{
    let mut tags = Vec::new();
    for (event, _) in Parser::new_ext(source, Options::ENABLE_TABLES).into_offset_iter() {
        tags.push(match event {
            E::Start(tag) => match tag {
                T::Heading { level, .. } => B::Heading(level as u8),
                T::CodeBlock(Ck::Fenced(i)) => B::CodeBlock(CodeBlockKind::Fenced(i.to_string())),
                T::CodeBlock(Ck::Indented) => B::CodeBlock(CodeBlockKind::Indented),
                T::Paragraph => B::Paragraph, T::List(_) => B::List, T::Table(_) => B::Table,
                T::BlockQuote(_) => B::BlockQuote, T::HtmlBlock => B::HtmlBlock, _ => B::Other,
            },
            _ => B::Other,
        });
    }
    tags
}

/// The `i`-th tag, or `Other` past the end of the list.
pub open spec fn tag_at(tags: Seq<TagView>, i: int) -> TagView {
    if 0 <= i < tags.len() {
        tags[i]
    } else {
        TagView::Other
    }
}

/// A shaped event with its start tag.
pub open spec fn with_tag(e: ShapedEventView, tag: TagView) -> EventView {
    EventView {
        kind: match e.shape {
            ShapeView::Start => EventKindView::Start(tag),
            ShapeView::End => EventKindView::End,
            ShapeView::Text(t) => EventKindView::Text(t),
            ShapeView::Code(t) => EventKindView::Code(t),
            ShapeView::Rule => EventKindView::Rule,
            ShapeView::Other => EventKindView::Other,
        },
        start: e.start,
        end: e.end,
    }
}

/// The events: each event with the tag of the same position.
pub open spec fn attach_tags_of(shapes: Seq<ShapedEventView>, tags: Seq<TagView>) -> Seq<EventView> {
    Seq::new(shapes.len(), |i: int| with_tag(shapes[i], tag_at(tags, i)))
}

/// The parser events pulldown-cmark emits for a source.
pub open spec fn markdown_events_of(source: Seq<char>) -> Seq<EventView> {
    attach_tags_of(markdown_event_shapes_of(source), markdown_event_tags_of(source))
}

fn copy_tag(tag: &BlockTag) -> (copy: BlockTag)
    ensures
        copy@ == tag@,
{
    match tag {
        BlockTag::Heading(level) => BlockTag::Heading(*level),
        BlockTag::CodeBlock(CodeBlockKind::Fenced(info)) => BlockTag::CodeBlock(CodeBlockKind::Fenced(info.clone())),
        BlockTag::CodeBlock(CodeBlockKind::Indented) => BlockTag::CodeBlock(CodeBlockKind::Indented),
        BlockTag::Paragraph => BlockTag::Paragraph,
        BlockTag::List => BlockTag::List,
        BlockTag::Table => BlockTag::Table,
        BlockTag::BlockQuote => BlockTag::BlockQuote,
        BlockTag::HtmlBlock => BlockTag::HtmlBlock,
        BlockTag::Other => BlockTag::Other,
    }
}

/// Joins event shapes with the tags of the same positions.
pub fn attach_tags(shapes: &[ShapedEvent], tags: &[BlockTag]) -> (events: Vec<MdEvent>)
    ensures
        events_view(events@) == attach_tags_of(shapes_view(shapes@), tags_view(tags@)),
{
    let ghost sv = shapes_view(shapes@);
    let ghost tv = tags_view(tags@);
    let mut events: Vec<MdEvent> = Vec::new();
    let mut index: usize = 0;
    while index < shapes.len()
        invariant
            index <= sv.len(),
            sv == shapes_view(shapes@),
            tv == tags_view(tags@),
            events@.len() == index,
            forall|j: int| 0 <= j < index ==> #[trigger] events@[j]@ == with_tag(sv[j], tag_at(tv, j)),
        decreases sv.len() - index,
    {
        let ghost before = events@;
        let shaped = &shapes[index];
        proof {
            assert(shaped@ == sv[index as int]);
        }
        let kind = match &shaped.shape {
            EventShape::Start => {
                let tag = if index < tags.len() {
                    proof {
                        assert(tv[index as int] == tags@[index as int]@);
                    }
                    copy_tag(&tags[index])
                } else {
                    BlockTag::Other
                };
                EventKind::Start(tag)
            },
            EventShape::End => EventKind::End,
            EventShape::Text(t) => EventKind::Text(t.clone()),
            EventShape::Code(t) => EventKind::Code(t.clone()),
            EventShape::Rule => EventKind::Rule,
            EventShape::Other => EventKind::Other,
        };
        events.push(MdEvent { kind, start: shaped.start, end: shaped.end });
        index = index + 1;
        proof {
            assert forall|j: int| 0 <= j < index implies #[trigger] events@[j]@ == with_tag(sv[j], tag_at(tv, j)) by {
                if j < index - 1 {
                    assert(events@[j] == before[j]);
                }
            }
        }
    }
    proof {
        assert(events_view(events@) =~= attach_tags_of(sv, tv));
    }
    events
}

/// Parses `source` into the events that block chunking walks.
pub fn markdown_events(source: &str) -> (events: Vec<MdEvent>)
    ensures
        events_view(events@) == markdown_events_of(source@),
        events_well_formed(events_view(events@)),
{
    let shapes = parse_event_shapes(source);
    let tags = parse_event_tags(source);
    let events = attach_tags(shapes.as_slice(), tags.as_slice());
    proof {
        let ev = events_view(events@);
        assert forall|i: int| 0 <= i < ev.len() implies match #[trigger] ev[i].kind {
            EventKindView::Start(TagView::Heading(level)) => 1 <= level <= 6,
            _ => true,
        } by {
            if 0 <= i < tags@.len() {
                assert(tags_view(tags@)[i] == tags@[i]@);
            }
        }
    }
    events
}

} // verus!
