//! `md_to_json`: chunk markdown into a flat, typed block list.
//!
//! The CommonMark parse itself is pulldown-cmark's; this module walks its event
//! stream and assembles one block per top-level element. Headings update a
//! level stack, and each block snapshots that stack as its `section` path.

use vstd::prelude::*;
use vstd::string::StringExecFns;
use vstd::string::StringSliceAdditionalSpecFns;

use crate::md_events::{markdown_events, markdown_events_of};
use crate::md_shape::{blocks_well_shaped, lemma_walk_lines_within, lemma_walk_well_shaped, lines_within};
use crate::lines::{line_number, line_number_of, line_of, line_starts, line_starts_of, nondecreasing, slice, slice_of, lemma_line_number_of_line_starts};

verus! {

/// How a code block was written.
pub enum CodeBlockKind {
    /// A fenced block with its info string (possibly empty).
    Fenced(String),
    /// An indented block.
    Indented,
}

/// The start tag of a markdown element, as far as block chunking reads it.
pub enum BlockTag {
    /// An ATX or setext heading with its level, 1 through 6.
    Heading(u8),
    /// A code block.
    CodeBlock(CodeBlockKind),
    Paragraph,
    List,
    Table,
    BlockQuote,
    HtmlBlock,
    /// Any other element: inline markup, list items, table parts and the rest.
    Other,
}

/// What one parser event is.
pub enum EventKind {
    Start(BlockTag),
    End,
    /// A text node.
    Text(String),
    /// An inline code span.
    Code(String),
    /// A thematic break.
    Rule,
    /// Any other event (HTML, breaks, math, footnote references, task markers).
    Other,
}

/// One parser event with the byte range of the source it covers.
pub struct MdEvent {
    pub kind: EventKind,
    pub start: usize,
    pub end: usize,
}

/// One typed block in a flat, document-ordered markdown walk.
///
/// `lang` is present only on `"code_block"` (empty string when the fence has
/// no info string, or for indented code).
pub struct MdBlock {
    /// Block kind: `"h1"`..`"h6"`, `"paragraph"`, `"code_block"`, `"list"`,
    /// `"table"`, `"blockquote"`, `"html_block"`, or `"thematic_break"`.
    pub block_type: String,
    /// Raw markdown of the block. Headings are concatenated inline title text
    /// (no `#` markers). Code blocks are the fence-stripped, unindented body.
    pub content: String,
    /// 1-based source line where the block starts.
    pub line: u32,
    /// Heading path from the document root to this block. Empty before the
    /// first heading. A heading block's path includes that heading.
    pub section: Vec<String>,
    /// Fence info string; present only for `"code_block"`.
    pub lang: Option<String>,
}

/// The mathematical content of a start tag.
pub enum TagView {
    Heading(u8),
    FencedCode(Seq<char>),
    IndentedCode,
    Paragraph,
    List,
    Table,
    BlockQuote,
    HtmlBlock,
    Other,
}

pub enum EventKindView {
    Start(TagView),
    End,
    Text(Seq<char>),
    Code(Seq<char>),
    Rule,
    Other,
}

pub struct EventView {
    pub kind: EventKindView,
    pub start: usize,
    pub end: usize,
}

pub struct BlockView {
    pub block_type: Seq<char>,
    pub content: Seq<char>,
    pub line: u32,
    pub section: Seq<Seq<char>>,
    pub lang: Option<Seq<char>>,
}

impl View for BlockTag {
    type V = TagView;

    open spec fn view(&self) -> TagView {
        match self {
            BlockTag::Heading(level) => TagView::Heading(*level),
            BlockTag::CodeBlock(CodeBlockKind::Fenced(info)) => TagView::FencedCode(info@),
            BlockTag::CodeBlock(CodeBlockKind::Indented) => TagView::IndentedCode,
            BlockTag::Paragraph => TagView::Paragraph,
            BlockTag::List => TagView::List,
            BlockTag::Table => TagView::Table,
            BlockTag::BlockQuote => TagView::BlockQuote,
            BlockTag::HtmlBlock => TagView::HtmlBlock,
            BlockTag::Other => TagView::Other,
        }
    }
}

impl View for MdEvent {
    type V = EventView;

    open spec fn view(&self) -> EventView {
        EventView {
            kind: match &self.kind {
                EventKind::Start(tag) => EventKindView::Start(tag@),
                EventKind::End => EventKindView::End,
                EventKind::Text(text) => EventKindView::Text(text@),
                EventKind::Code(text) => EventKindView::Code(text@),
                EventKind::Rule => EventKindView::Rule,
                EventKind::Other => EventKindView::Other,
            },
            start: self.start,
            end: self.end,
        }
    }
}

pub open spec fn strings_view(strings: Seq<String>) -> Seq<Seq<char>> {
    strings.map_values(|s: String| s@)
}

impl View for MdBlock {
    type V = BlockView;

    open spec fn view(&self) -> BlockView {
        BlockView {
            block_type: self.block_type@,
            content: self.content@,
            line: self.line,
            section: strings_view(self.section@),
            lang: match &self.lang {
                Some(lang) => Some(lang@),
                None => None,
            },
        }
    }
}

pub open spec fn events_view(events: Seq<MdEvent>) -> Seq<EventView> {
    events.map_values(|e: MdEvent| e@)
}

pub open spec fn blocks_view(blocks: Seq<MdBlock>) -> Seq<BlockView> {
    blocks.map_values(|b: MdBlock| b@)
}

/// A heading stack: (level, title) pairs from the document root down.
pub open spec fn stack_view(stack: Seq<(u8, String)>) -> Seq<(u8, Seq<char>)> {
    stack.map_values(|entry: (u8, String)| (entry.0, entry.1@))
}

/// Every heading tag names a level from 1 to 6, as a markdown heading does.
pub open spec fn events_well_formed(events: Seq<EventView>) -> bool {
    forall|i: int|
        0 <= i < events.len() ==> match #[trigger] events[i].kind {
            EventKindView::Start(TagView::Heading(level)) => 1 <= level <= 6,
            _ => true,
        }
}

/// The block type name of a heading level.
pub open spec fn heading_type(level: u8) -> Seq<char> {
    if level == 1 {
        "h1"@
    } else if level == 2 {
        "h2"@
    } else if level == 3 {
        "h3"@
    } else if level == 4 {
        "h4"@
    } else if level == 5 {
        "h5"@
    } else {
        "h6"@
    }
}

/// A heading's block type is `h` followed by its level as one decimal digit:
/// a level-`n` heading (1 through 6) is `"hn"`.
pub proof fn lemma_heading_type_names_level(level: u8)
    requires
        1 <= level <= 6,
    ensures
        heading_type(level).len() == 2,
        heading_type(level)[0] == 'h',
        heading_type(level)[1] as int == '0' as int + level,
{
    reveal_strlit("h1");
    reveal_strlit("h2");
    reveal_strlit("h3");
    reveal_strlit("h4");
    reveal_strlit("h5");
    reveal_strlit("h6");
}

/// An in-progress top-level block, as a mathematical value.
pub enum OpenView {
    Heading { level: u8, text: Seq<char>, start: usize },
    Code { lang: Seq<char>, body: Seq<char>, start: usize },
    Source { kind_name: Seq<char>, start: usize },
}

impl OpenView {
    pub open spec fn start(self) -> usize {
        match self {
            OpenView::Heading { start, .. } => start,
            OpenView::Code { start, .. } => start,
            OpenView::Source { start, .. } => start,
        }
    }
}

/// The block that a start tag at the top level begins, if it is one of the
/// chunked block types.
pub open spec fn tag_open(tag: TagView, start: usize) -> Option<OpenView> {
    match tag {
        TagView::Heading(level) => Some(OpenView::Heading { level, text: Seq::empty(), start }),
        TagView::FencedCode(info) => Some(OpenView::Code { lang: info, body: Seq::empty(), start }),
        TagView::IndentedCode => Some(OpenView::Code { lang: Seq::empty(), body: Seq::empty(), start }),
        TagView::Paragraph => Some(OpenView::Source { kind_name: "paragraph"@, start }),
        TagView::List => Some(OpenView::Source { kind_name: "list"@, start }),
        TagView::Table => Some(OpenView::Source { kind_name: "table"@, start }),
        TagView::BlockQuote => Some(OpenView::Source { kind_name: "blockquote"@, start }),
        TagView::HtmlBlock => Some(OpenView::Source { kind_name: "html_block"@, start }),
        TagView::Other => None,
    }
}

/// The block a top-level element becomes, for every start, end, line and
/// stack: a heading of level `n` an `hn` block holding its collected text;
/// fenced code a `code_block` whose `lang` is its info string, indented code
/// one whose `lang` is empty; a paragraph, list, table, block quote or HTML
/// block a block of that type (`paragraph`, `list`, `table`, `blockquote`,
/// `html_block`) holding its source; anything else no block. Only code
/// blocks carry a `lang`, and every block sits on the line it is given.
pub proof fn lemma_element_block_types(
    b: Seq<u8>,
    tag: TagView,
    start: usize,
    end: usize,
    line: u32,
    stack: Seq<(u8, Seq<char>)>,
)
    ensures
        tag is Other <==> tag_open(tag, start) is None,
        tag_open(tag, start) matches Some(open) ==> {
            let block = finish_view(b, open, end, line, stack).0;
            &&& block.line == line
            &&& (block.lang is Some <==> (tag is FencedCode || tag is IndentedCode))
            &&& match tag {
                TagView::Heading(level) => block.block_type == heading_type(level) && block.content
                    == Seq::<char>::empty(),
                TagView::FencedCode(info) => block.block_type == "code_block"@ && block.lang == Some(info),
                TagView::IndentedCode => block.block_type == "code_block"@ && block.lang == Some(
                    Seq::<char>::empty(),
                ),
                TagView::Paragraph => block.block_type == "paragraph"@ && block.content == slice_of(
                    b,
                    start as int,
                    end as int,
                ),
                TagView::List => block.block_type == "list"@ && block.content == slice_of(
                    b,
                    start as int,
                    end as int,
                ),
                TagView::Table => block.block_type == "table"@ && block.content == slice_of(
                    b,
                    start as int,
                    end as int,
                ),
                TagView::BlockQuote => block.block_type == "blockquote"@ && block.content == slice_of(
                    b,
                    start as int,
                    end as int,
                ),
                TagView::HtmlBlock => block.block_type == "html_block"@ && block.content == slice_of(
                    b,
                    start as int,
                    end as int,
                ),
                TagView::Other => false,
            }
        },
{
}

/// Text inside an open block: headings collect all of it, code blocks collect
/// their body text (not inline code spans), other blocks ignore it.
pub open spec fn collect_text_view(open: OpenView, text: Seq<char>, inline_code: bool) -> OpenView {
    match open {
        OpenView::Heading { level, text: buf, start } => OpenView::Heading { level, text: buf + text, start },
        OpenView::Code { lang, body, start } => if !inline_code {
            OpenView::Code { lang, body: body + text, start }
        } else {
            open
        },
        OpenView::Source { .. } => open,
    }
}

/// The stack with every entry at `level` or deeper popped off its top.
pub open spec fn pop_levels(stack: Seq<(u8, Seq<char>)>, level: u8) -> Seq<(u8, Seq<char>)>
    decreases stack.len(),
{
    if stack.len() > 0 && stack.last().0 >= level {
        pop_levels(stack.drop_last(), level)
    } else {
        stack
    }
}

/// The heading path a stack names.
pub open spec fn titles(stack: Seq<(u8, Seq<char>)>) -> Seq<Seq<char>> {
    stack.map_values(|entry: (u8, Seq<char>)| entry.1)
}

/// Closing an open block at byte `end` on line `line`: the finished block and
/// the heading stack after it.
pub open spec fn finish_view(
    b: Seq<u8>,
    open: OpenView,
    end: usize,
    line: u32,
    stack: Seq<(u8, Seq<char>)>,
) -> (BlockView, Seq<(u8, Seq<char>)>) {
    match open {
        OpenView::Heading { level, text, .. } => {
            let next = pop_levels(stack, level).push((level, text));
            (
                BlockView {
                    block_type: heading_type(level),
                    content: text,
                    line,
                    section: titles(next),
                    lang: None,
                },
                next,
            )
        },
        OpenView::Code { lang, body, .. } => (
            BlockView {
                block_type: "code_block"@,
                content: body,
                line,
                section: titles(stack),
                lang: Some(lang),
            },
            stack,
        ),
        OpenView::Source { kind_name, start } => (
            BlockView {
                block_type: kind_name,
                content: slice_of(b, start as int, end as int),
                line,
                section: titles(stack),
                lang: None,
            },
            stack,
        ),
    }
}

/// A thematic break over a byte range, on line `line`, under `stack`.
pub open spec fn thematic_view(
    b: Seq<u8>,
    start: usize,
    end: usize,
    line: u32,
    stack: Seq<(u8, Seq<char>)>,
) -> BlockView {
    BlockView {
        block_type: "thematic_break"@,
        content: slice_of(b, start as int, end as int),
        line,
        section: titles(stack),
        lang: None,
    }
}

/// The walk's state between events.
pub struct ChunkState {
    pub depth: nat,
    pub open: Option<OpenView>,
    pub stack: Seq<(u8, Seq<char>)>,
    pub blocks: Seq<BlockView>,
}

pub open spec fn initial_state() -> ChunkState {
    ChunkState { depth: 0, open: None, stack: Seq::empty(), blocks: Seq::empty() }
}

/// One event of the walk over source bytes `b`.
pub open spec fn step(b: Seq<u8>, st: ChunkState, e: EventView) -> ChunkState {
    match e.kind {
        EventKindView::Start(tag) => ChunkState {
            depth: st.depth + 1,
            open: if st.depth == 0 {
                tag_open(tag, e.start)
            } else {
                st.open
            },
            ..st
        },
        EventKindView::End => {
            let depth: nat = if st.depth == 0 { 0 } else { (st.depth - 1) as nat };
            if depth == 0 && st.open is Some {
                let open = st.open->0;
                let (block, stack) = finish_view(b, open, e.end, line_of(b, open.start() as int), st.stack);
                ChunkState { depth, open: None, stack, blocks: st.blocks.push(block) }
            } else {
                ChunkState { depth, ..st }
            }
        },
        EventKindView::Text(text) => ChunkState {
            open: match st.open {
                Some(open) => Some(collect_text_view(open, text, false)),
                None => None,
            },
            ..st
        },
        EventKindView::Code(text) => ChunkState {
            open: match st.open {
                Some(open) => Some(collect_text_view(open, text, true)),
                None => None,
            },
            ..st
        },
        EventKindView::Rule => if st.depth == 0 {
            ChunkState {
                blocks: st.blocks.push(
                    thematic_view(b, e.start, e.end, line_of(b, e.start as int), st.stack),
                ),
                ..st
            }
        } else {
            st
        },
        EventKindView::Other => st,
    }
}

/// The walk's state after a sequence of events.
pub open spec fn walk(b: Seq<u8>, events: Seq<EventView>) -> ChunkState
    decreases events.len(),
{
    if events.len() == 0 {
        initial_state()
    } else {
        step(b, walk(b, events.drop_last()), events.last())
    }
}

/// The blocks that chunking source bytes `b` with parser events `events` yields.
pub open spec fn chunk_of(b: Seq<u8>, events: Seq<EventView>) -> Seq<BlockView> {
    walk(b, events).blocks
}

/// An in-progress top-level block being assembled from the event walk.
pub enum Open {
    Heading { level: u8, text: String, start: usize },
    Code { lang: String, body: String, start: usize },
    Source { kind_name: String, start: usize },
}

impl View for Open {
    type V = OpenView;

    open spec fn view(&self) -> OpenView {
        match self {
            Open::Heading { level, text, start } => OpenView::Heading { level: *level, text: text@, start: *start },
            Open::Code { lang, body, start } => OpenView::Code { lang: lang@, body: body@, start: *start },
            Open::Source { kind_name, start } => OpenView::Source { kind_name: kind_name@, start: *start },
        }
    }
}

pub open spec fn open_view(open: Option<Open>) -> Option<OpenView> {
    match open {
        Some(o) => Some(o@),
        None => None,
    }
}

impl Open {
    /// Begins a top-level block from a start tag, or `None` for tags that are
    /// not chunked block types (inlines, list items, table parts).
    pub fn from_tag(tag: &BlockTag, start: usize) -> (open: Option<Open>)
        ensures
            open_view(open) == tag_open(tag@, start),
    {
        match tag {
            BlockTag::Heading(level) => Some(Open::Heading { level: *level, text: String::new(), start }),
            BlockTag::CodeBlock(kind) => {
                let lang = match kind {
                    CodeBlockKind::Fenced(info) => info.clone(),
                    CodeBlockKind::Indented => String::new(),
                };
                Some(Open::Code { lang, body: String::new(), start })
            },
            BlockTag::Paragraph => Some(Open::Source { kind_name: "paragraph".to_owned(), start }),
            BlockTag::List => Some(Open::Source { kind_name: "list".to_owned(), start }),
            BlockTag::Table => Some(Open::Source { kind_name: "table".to_owned(), start }),
            BlockTag::BlockQuote => Some(Open::Source { kind_name: "blockquote".to_owned(), start }),
            BlockTag::HtmlBlock => Some(Open::Source { kind_name: "html_block".to_owned(), start }),
            BlockTag::Other => None,
        }
    }

    /// Adds text to the block: a heading collects all of it, a code block its
    /// body text but not inline code spans, any other block none.
    pub fn collect_text(&mut self, text: &str, inline_code: bool)
        ensures
            final(self)@ == collect_text_view(old(self)@, text@, inline_code),
    {
        match self {
            Open::Heading { text: buf, .. } => buf.append(text),
            Open::Code { body, .. } => {
                if !inline_code {
                    body.append(text);
                }
            },
            Open::Source { .. } => {},
        }
    }

    pub fn start(&self) -> (start: usize)
        ensures
            start == self@.start(),
    {
        match self {
            Open::Heading { start, .. } => *start,
            Open::Code { start, .. } => *start,
            Open::Source { start, .. } => *start,
        }
    }

    /// Closes the block at byte `end`: a heading first pops every open heading
    /// at its level or deeper and pushes itself; every block snapshots the stack.
    pub fn finish(
        self,
        source: &str,
        end: usize,
        line_starts: &[usize],
        stack: &mut Vec<(u8, String)>,
    ) -> (block: MdBlock)
        requires
            self@ matches OpenView::Heading { level, .. } ==> 1 <= level <= 6,
        ensures
            (block@, stack_view(final(stack)@)) == finish_view(
                source.spec_bytes(),
                self@,
                end,
                block.line,
                stack_view(old(stack)@),
            ),
            nondecreasing(line_starts@) ==> block.line == line_number_of(line_starts@, self@.start()),
            block.line >= 1,
    {
        let start = self.start();
        let line = line_number(line_starts, start);
        match self {
            Open::Heading { level, text, .. } => {
                let ghost entry_stack = stack_view(stack@);
                while stack.len() > 0 && stack[stack.len() - 1].0 >= level
                    invariant
                        pop_levels(stack_view(stack@), level) == pop_levels(entry_stack, level),
                    decreases stack.len(),
                {
                    let ghost before = stack_view(stack@);
                    stack.pop();
                    proof {
                        assert(stack_view(stack@) =~= before.drop_last());
                    }
                }
                let ghost popped = stack_view(stack@);
                stack.push((level, text.clone()));
                proof {
                    assert(stack_view(stack@) =~= popped.push((level, text@)));
                }
                MdBlock {
                    block_type: heading_block_type(level),
                    content: text,
                    line,
                    section: section_path(stack.as_slice()),
                    lang: None,
                }
            },
            Open::Code { lang, body, .. } => MdBlock {
                block_type: "code_block".to_owned(),
                content: body,
                line,
                section: section_path(stack.as_slice()),
                lang: Some(lang),
            },
            Open::Source { kind_name, start } => MdBlock {
                block_type: kind_name,
                content: slice(source, start, end),
                line,
                section: section_path(stack.as_slice()),
                lang: None,
            },
        }
    }
}

/// The block type name of a heading level (`HeadingLevel`'s display form).
pub fn heading_block_type(level: u8) -> (name: String)
    requires
        1 <= level <= 6,
    ensures
        name@ == heading_type(level),
{
    if level == 1 {
        "h1".to_owned()
    } else if level == 2 {
        "h2".to_owned()
    } else if level == 3 {
        "h3".to_owned()
    } else if level == 4 {
        "h4".to_owned()
    } else if level == 5 {
        "h5".to_owned()
    } else {
        "h6".to_owned()
    }
}

/// The heading path a stack names: its titles from the root down.
pub fn section_path(stack: &[(u8, String)]) -> (path: Vec<String>)
    ensures
        strings_view(path@) == titles(stack_view(stack@)),
{
    let mut path: Vec<String> = Vec::new();
    let mut index: usize = 0;
    while index < stack.len()
        invariant
            index <= stack@.len(),
            strings_view(path@) =~= titles(stack_view(stack@.take(index as int))),
        decreases stack@.len() - index,
    {
        let ghost before = path@;
        let title = stack[index].1.clone();
        path.push(title);
        proof {
            assert(path@ =~= before.push(title));
            assert(strings_view(path@) =~= strings_view(before).push(title@));
            assert(titles(stack_view(stack@.take(index + 1))) =~= titles(
                stack_view(stack@.take(index as int)),
            ).push(stack@[index as int].1@));
        }
        index = index + 1;
    }
    proof {
        assert(stack@.take(index as int) =~= stack@);
    }
    path
}

/// A thematic break block over a byte range, under the current heading stack.
pub fn thematic_break(
    source: &str,
    start: usize,
    end: usize,
    line_starts: &[usize],
    stack: &[(u8, String)],
) -> (block: MdBlock)
    ensures
        block@ == thematic_view(source.spec_bytes(), start, end, block.line, stack_view(stack@)),
        nondecreasing(line_starts@) ==> block.line == line_number_of(line_starts@, start),
        block.line >= 1,
{
    MdBlock {
        block_type: "thematic_break".to_owned(),
        content: slice(source, start, end),
        line: line_number(line_starts, start),
        section: section_path(stack),
        lang: None,
    }
}

/// Chunks parser events over `source` into a flat, document-ordered list of
/// typed blocks.
///
/// Headings update a level stack; each block snapshots that stack as
/// `section`. Content before the first heading has an empty path.
pub fn chunk_events(source: &str, events: &[MdEvent]) -> (blocks: Vec<MdBlock>)
    requires
        events_well_formed(events_view(events@)),
    ensures
        blocks_view(blocks@) == chunk_of(source.spec_bytes(), events_view(events@)),
        blocks_well_shaped(blocks_view(blocks@)),
        lines_within(source.spec_bytes(), blocks_view(blocks@)),
{
    let ghost b = source.spec_bytes();
    let ghost evs = events_view(events@);
    let length = source.as_bytes().len();
    let line_starts = line_starts(source);
    let mut blocks: Vec<MdBlock> = Vec::new();
    let mut stack: Vec<(u8, String)> = Vec::new();
    let mut depth: usize = 0;
    let mut open: Option<Open> = None;
    let mut index: usize = 0;
    proof {
        assert(stack_view(stack@) =~= Seq::<(u8, Seq<char>)>::empty());
        assert(blocks_view(blocks@) =~= Seq::<BlockView>::empty());
        assert(evs.take(0) =~= Seq::<EventView>::empty());
    }
    while index < events.len()
        invariant
            index <= events@.len(),
            b == source.spec_bytes(),
            b.len() == length,
            evs == events_view(events@),
            events_well_formed(evs),
            line_starts@ == line_starts_of(b),
            nondecreasing(line_starts@),
            depth <= index,
            depth as nat == walk(b, evs.take(index as int)).depth,
            open_view(open) == walk(b, evs.take(index as int)).open,
            stack_view(stack@) == walk(b, evs.take(index as int)).stack,
            blocks_view(blocks@) == walk(b, evs.take(index as int)).blocks,
            open_view(open) matches Some(OpenView::Heading { level, .. }) ==> 1 <= level <= 6,
        decreases events@.len() - index,
    {
        let ghost st = walk(b, evs.take(index as int));
        let ghost old_blocks = blocks@;
        let event = &events[index];
        proof {
            assert(evs.take(index + 1).drop_last() =~= evs.take(index as int));
            assert(evs.take(index + 1).last() == evs[index as int]);
            assert(evs[index as int] == event@);
        }
        match &event.kind {
            EventKind::Start(tag) => {
                if depth == 0 {
                    open = Open::from_tag(tag, event.start);
                }
                depth = depth + 1;
            },
            EventKind::End => {
                depth = if depth == 0 { 0 } else { depth - 1 };
                if depth == 0 {
                    if let Some(current) = open.take() {
                        proof {
                            lemma_line_number_of_line_starts(b, current@.start());
                        }
                        let block = current.finish(source, event.end, line_starts.as_slice(), &mut stack);
                        blocks.push(block);
                        proof {
                            assert(blocks_view(blocks@) =~= blocks_view(old_blocks).push(block@));
                        }
                    }
                }
            },
            EventKind::Text(text) => {
                if let Some(mut current) = open.take() {
                    current.collect_text(text.as_str(), false);
                    open = Some(current);
                }
            },
            EventKind::Code(text) => {
                if let Some(mut current) = open.take() {
                    current.collect_text(text.as_str(), true);
                    open = Some(current);
                }
            },
            EventKind::Rule => {
                if depth == 0 {
                    proof {
                        lemma_line_number_of_line_starts(b, event.start);
                    }
                    let block = thematic_break(source, event.start, event.end, line_starts.as_slice(), stack.as_slice());
                    blocks.push(block);
                    proof {
                        assert(blocks_view(blocks@) =~= blocks_view(old_blocks).push(block@));
                    }
                }
            },
            EventKind::Other => {},
        }
        index = index + 1;
    }
    proof {
        assert(evs.take(index as int) =~= evs);
        lemma_walk_well_shaped(b, evs);
        lemma_walk_lines_within(b, evs);
    }
    blocks
}

/// Chunks markdown into a flat, document-ordered list of typed blocks.
///
/// Headings update a level stack; each block snapshots that stack as
/// `section`. Content before the first heading has an empty path. Parsing
/// never fails: pulldown-cmark accepts any input.
pub fn chunk_markdown(source: &str) -> (blocks: Vec<MdBlock>)
    ensures
        blocks_view(blocks@) == chunk_of(source.spec_bytes(), markdown_events_of(source@)),
        blocks_well_shaped(blocks_view(blocks@)),
        lines_within(source.spec_bytes(), blocks_view(blocks@)),
{
    let events = markdown_events(source);
    let blocks = chunk_events(source, events.as_slice());
    proof {
        lemma_walk_lines_within(source.spec_bytes(), markdown_events_of(source@));
    }
    blocks
}

} // verus!
