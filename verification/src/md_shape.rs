//! What every chunked block list looks like, whatever the parser emitted:
//! 1-based lines, known block types, `lang` exactly on code blocks, heading
//! paths at most six deep that end in the heading itself, and empty paths
//! before the first heading.

use vstd::prelude::*;

use crate::lines::{lemma_line_of_bound, newline_count};

use crate::md_json::{
    BlockView, ChunkState, EventKindView, EventView, OpenView, TagView, chunk_of, collect_text_view,
    events_well_formed, finish_view, heading_type, pop_levels, step, tag_open, thematic_view, titles,
    walk,
};

verus! {

/// The six heading block types.
pub open spec fn is_heading_type(t: Seq<char>) -> bool {
    t == "h1"@ || t == "h2"@ || t == "h3"@ || t == "h4"@ || t == "h5"@ || t == "h6"@
}

/// The block types the chunker emits.
pub open spec fn is_block_type(t: Seq<char>) -> bool {
    ||| is_heading_type(t)
    ||| t == "paragraph"@
    ||| t == "code_block"@
    ||| t == "list"@
    ||| t == "table"@
    ||| t == "blockquote"@
    ||| t == "html_block"@
    ||| t == "thematic_break"@
}

/// The per-block shape: a 1-based line, a known type, `lang` exactly on code
/// blocks, a path at most six headings deep, and a heading's path ending in
/// that heading's own title and at most as deep as its level.
pub open spec fn block_well_shaped(blk: BlockView) -> bool {
    &&& blk.line >= 1
    &&& is_block_type(blk.block_type)
    &&& (blk.lang is Some <==> blk.block_type == "code_block"@)
    &&& blk.section.len() <= 6
    &&& is_heading_type(blk.block_type) ==> blk.section.len() > 0 && blk.section.last()
        == blk.content
    &&& forall|k: u8|
        1 <= k <= 6 && blk.block_type == #[trigger] heading_type(k) ==> blk.section.len() <= k
}

/// Every block is well shaped, and a block with a non-empty path comes at or
/// after the first heading block.
pub open spec fn blocks_well_shaped(blocks: Seq<BlockView>) -> bool {
    &&& forall|i: int| 0 <= i < blocks.len() ==> block_well_shaped(#[trigger] blocks[i])
    &&& forall|i: int|
        0 <= i < blocks.len() && (#[trigger] blocks[i]).section.len() > 0 ==> exists|j: int|
            0 <= j <= i && is_heading_type(#[trigger] blocks[j].block_type)
}

/// Heading levels on the stack run from 1 to 6 and strictly increase.
pub open spec fn stack_well_formed(stack: Seq<(u8, Seq<char>)>) -> bool {
    &&& forall|i: int| 0 <= i < stack.len() ==> i + 1 <= (#[trigger] stack[i]).0 <= 6
    &&& forall|i: int, j: int| 0 <= i < j < stack.len() ==> (#[trigger] stack[i]).0 < (#[trigger] stack[j]).0
}

pub open spec fn state_well_formed(st: ChunkState) -> bool {
    &&& blocks_well_shaped(st.blocks)
    &&& stack_well_formed(st.stack)
    &&& st.stack.len() > 0 ==> exists|j: int|
        0 <= j < st.blocks.len() && is_heading_type(#[trigger] st.blocks[j].block_type)
    &&& st.open matches Some(OpenView::Heading { level, .. }) ==> 1 <= level <= 6
    &&& st.open matches Some(OpenView::Source { kind_name, .. }) ==> is_source_kind(kind_name)
}

/// The block types that are raw source slices.
pub open spec fn is_source_kind(t: Seq<char>) -> bool {
    t == "paragraph"@ || t == "list"@ || t == "table"@ || t == "blockquote"@ || t == "html_block"@
}

proof fn lemma_type_names()
    ensures
        "code_block"@ != "paragraph"@,
        "code_block"@ != "list"@,
        "code_block"@ != "table"@,
        "code_block"@ != "blockquote"@,
        "code_block"@ != "html_block"@,
        "code_block"@ != "thematic_break"@,
        !is_heading_type("code_block"@),
        !is_heading_type("paragraph"@),
        !is_heading_type("list"@),
        !is_heading_type("table"@),
        !is_heading_type("blockquote"@),
        !is_heading_type("html_block"@),
        !is_heading_type("thematic_break"@),
        forall|level: u8| 1 <= level <= 6 ==> is_heading_type(#[trigger] heading_type(level)),
        forall|a: u8, b: u8|
            1 <= a <= 6 && 1 <= b <= 6 && #[trigger] heading_type(a) == #[trigger] heading_type(b)
                ==> a == b,
{
    reveal_strlit("code_block");
    reveal_strlit("paragraph");
    reveal_strlit("list");
    reveal_strlit("table");
    reveal_strlit("blockquote");
    reveal_strlit("html_block");
    reveal_strlit("thematic_break");
    reveal_strlit("h1");
    reveal_strlit("h2");
    reveal_strlit("h3");
    reveal_strlit("h4");
    reveal_strlit("h5");
    reveal_strlit("h6");
    assert("code_block"@[0] != "blockquote"@[0]);
    assert("code_block"@.len() == 10);
    assert("paragraph"@.len() == 9);
    assert("list"@.len() == 4);
    assert("table"@.len() == 5);
    assert("blockquote"@.len() == 10);
    assert("html_block"@.len() == 10);
    assert("thematic_break"@.len() == 14);
    assert("h1"@.len() == 2 && "h2"@.len() == 2 && "h3"@.len() == 2);
    assert("h4"@.len() == 2 && "h5"@.len() == 2 && "h6"@.len() == 2);
    assert("code_block"@[0] != "html_block"@[0]);
    assert("h1"@[1] == '1' && "h2"@[1] == '2' && "h3"@[1] == '3');
    assert("h4"@[1] == '4' && "h5"@[1] == '5' && "h6"@[1] == '6');
    assert forall|a: u8, b: u8|
        1 <= a <= 6 && 1 <= b <= 6 && #[trigger] heading_type(a) == #[trigger] heading_type(b)
            implies a == b by {
        assert(heading_type(a)[1] == heading_type(b)[1]);
    }
}

proof fn lemma_pop_levels(stack: Seq<(u8, Seq<char>)>, level: u8)
    ensures
        pop_levels(stack, level).len() <= stack.len(),
        pop_levels(stack, level) == stack.take(pop_levels(stack, level).len() as int),
        pop_levels(stack, level).len() > 0 ==> pop_levels(stack, level).last().0 < level,
    decreases stack.len(),
{
    if stack.len() > 0 && stack.last().0 >= level {
        lemma_pop_levels(stack.drop_last(), level);
        let r = pop_levels(stack.drop_last(), level);
        assert(stack.drop_last().take(r.len() as int) =~= stack.take(r.len() as int));
    } else {
        assert(stack.take(stack.len() as int) =~= stack);
    }
}

/// The heading levels on a stack strictly increase.
pub open spec fn levels_increasing(stack: Seq<(u8, Seq<char>)>) -> bool {
    forall|i: int, j: int| 0 <= i < j < stack.len() ==> (#[trigger] stack[i]).0 < (#[trigger] stack[j]).0
}

/// Closing a heading of level `level` on a stack whose levels strictly
/// increase keeps exactly the stack's leading entries whose levels are below
/// `level` (its take-while prefix) and pushes the heading; the levels still
/// strictly increase.
pub proof fn lemma_heading_keeps_levels_increasing(stack: Seq<(u8, Seq<char>)>, level: u8, text: Seq<char>)
    requires
        levels_increasing(stack),
    ensures
        ({
            let kept = pop_levels(stack, level);
            &&& kept == stack.take(kept.len() as int)
            &&& forall|i: int| 0 <= i < kept.len() ==> (#[trigger] stack[i]).0 < level
            &&& forall|i: int| kept.len() <= i < stack.len() ==> (#[trigger] stack[i]).0 >= level
            &&& levels_increasing(kept.push((level, text)))
        }),
{
    let popped = pop_levels(stack, level);
    lemma_pop_levels(stack, level);
    let next = popped.push((level, text));
    assert forall|i: int| 0 <= i < popped.len() implies #[trigger] popped[i] == stack[i] by {}
    assert forall|i: int| 0 <= i < popped.len() implies (#[trigger] stack[i]).0 < level by {
        assert(stack[i] == popped[i]);
        if i < popped.len() - 1 {
            assert(popped[i].0 < popped[popped.len() - 1].0);
        }
    }
    if popped.len() < stack.len() {
        lemma_popped_levels(stack, level);
    }
    assert forall|i: int, j: int| 0 <= i < j < next.len() implies (#[trigger] next[i]).0 < (#[trigger] next[j]).0 by {
        if j == next.len() - 1 {
            assert(next[i] == popped[i]);
            assert(popped[i] == stack[i]);
        } else {
            assert(next[i] == stack[i]);
            assert(next[j] == stack[j]);
        }
    }
}

/// Closing a block keeps the heading stack well formed. A heading of level
/// `level` keeps exactly the stack's leading entries whose levels are below
/// `level` (the levels increase, so these are the entries that stay) and
/// pushes itself; any other block leaves the stack as it was.
pub proof fn lemma_finish_keeps_stack_increasing(
    b: Seq<u8>,
    open: OpenView,
    end: usize,
    line: u32,
    stack: Seq<(u8, Seq<char>)>,
)
    requires
        stack_well_formed(stack),
        open matches OpenView::Heading { level, .. } ==> 1 <= level <= 6,
    ensures
        stack_well_formed(finish_view(b, open, end, line, stack).1),
        match open {
            OpenView::Heading { level, text, .. } => {
                let kept = pop_levels(stack, level);
                &&& kept == stack.take(kept.len() as int)
                &&& forall|i: int| 0 <= i < kept.len() ==> (#[trigger] stack[i]).0 < level
                &&& forall|i: int| kept.len() <= i < stack.len() ==> (#[trigger] stack[i]).0 >= level
                &&& finish_view(b, open, end, line, stack).1 == kept.push((level, text))
            },
            _ => finish_view(b, open, end, line, stack).1 == stack,
        },
{
    match open {
        OpenView::Heading { level, text, .. } => {
            let popped = pop_levels(stack, level);
            lemma_pop_levels(stack, level);
            let next = popped.push((level, text));
            assert forall|i: int| 0 <= i < popped.len() implies #[trigger] popped[i] == stack[i] by {}
            assert forall|i: int| 0 <= i < popped.len() implies (#[trigger] stack[i]).0 < level by {
                assert(stack[i] == popped[i]);
                if i < popped.len() - 1 {
                    assert(popped[i].0 < popped[popped.len() - 1].0);
                }
            }
            if popped.len() < stack.len() {
                lemma_popped_levels(stack, level);
            }
            assert(stack_well_formed(next)) by {
                assert forall|i: int, j: int| 0 <= i < j < next.len() implies (#[trigger] next[i]).0
                    < (#[trigger] next[j]).0 by {
                    if j == next.len() - 1 && i < popped.len() {
                        assert(next[i] == popped[i]);
                        if i < popped.len() - 1 {
                            assert(popped[i].0 < popped[popped.len() - 1].0);
                        }
                    }
                }
                if popped.len() > 0 {
                    assert(popped[popped.len() - 1].0 >= popped.len());
                }
            }
        },
        _ => {},
    }
}

proof fn lemma_popped_levels(stack: Seq<(u8, Seq<char>)>, level: u8)
    ensures
        forall|i: int| pop_levels(stack, level).len() <= i < stack.len() ==> (#[trigger] stack[i]).0 >= level,
    decreases stack.len(),
{
    if stack.len() > 0 && stack.last().0 >= level {
        lemma_popped_levels(stack.drop_last(), level);
        assert forall|i: int| pop_levels(stack, level).len() <= i < stack.len() implies (#[trigger] stack[i]).0
            >= level by {
            if i < stack.len() - 1 {
                assert(stack[i] == stack.drop_last()[i]);
            }
        }
    }
}

proof fn lemma_push_block(blocks: Seq<BlockView>, blk: BlockView)
    requires
        blocks_well_shaped(blocks),
        block_well_shaped(blk),
        blk.section.len() > 0 ==> (is_heading_type(blk.block_type) || exists|j: int|
            0 <= j < blocks.len() && is_heading_type(#[trigger] blocks[j].block_type)),
    ensures
        blocks_well_shaped(blocks.push(blk)),
{
    let next = blocks.push(blk);
    assert forall|i: int| 0 <= i < next.len() implies block_well_shaped(#[trigger] next[i]) by {
        if i < blocks.len() {
            assert(next[i] == blocks[i]);
        }
    }
    assert forall|i: int|
        0 <= i < next.len() && (#[trigger] next[i]).section.len() > 0 implies exists|j: int|
        0 <= j <= i && is_heading_type(#[trigger] next[j].block_type) by {
        if i < blocks.len() {
            assert(next[i] == blocks[i]);
            let j = choose|j: int| 0 <= j <= i && is_heading_type(#[trigger] blocks[j].block_type);
            assert(next[j] == blocks[j]);
        } else if is_heading_type(blk.block_type) {
            assert(is_heading_type(next[i].block_type));
        } else {
            let j = choose|j: int|
                0 <= j < blocks.len() && is_heading_type(#[trigger] blocks[j].block_type);
            assert(next[j] == blocks[j]);
        }
    }
}

proof fn lemma_step_well_formed(b: Seq<u8>, st: ChunkState, e: EventView)
    requires
        state_well_formed(st),
        e.kind matches EventKindView::Start(TagView::Heading(level)) ==> 1 <= level <= 6,
    ensures
        state_well_formed(step(b, st, e)),
{
    lemma_type_names();
    let next = step(b, st, e);
    match e.kind {
        EventKindView::Start(tag) => {},
        EventKindView::End => {
            let depth: nat = if st.depth == 0 { 0 } else { (st.depth - 1) as nat };
            if depth == 0 && st.open is Some {
                let open = st.open->0;
                let line = crate::lines::line_of(b, open.start() as int);
                let (blk, stack) = finish_view(b, open, e.end, line, st.stack);
                assert(line >= 1);
                match open {
                    OpenView::Heading { level, text, .. } => {
                        let popped = pop_levels(st.stack, level);
                        lemma_pop_levels(st.stack, level);
                        lemma_finish_keeps_stack_increasing(b, open, e.end, line, st.stack);
                        assert(stack == popped.push((level, text)));
                        if popped.len() > 0 {
                            assert(popped[popped.len() - 1].0 >= popped.len());
                        }
                        assert(stack.len() <= level);
                        assert(titles(stack).len() == stack.len());
                        assert(titles(stack).last() == text);
                        lemma_push_block(st.blocks, blk);
                        assert(next.blocks[st.blocks.len() as int] == blk);
                    },
                    OpenView::Code { .. } => {
                        lemma_push_block(st.blocks, blk);
                    },
                    OpenView::Source { kind_name, start } => {
                        lemma_push_block(st.blocks, blk);
                    },
                }
                if next.stack.len() > 0 {
                    assert(next.blocks[st.blocks.len() as int] == blk);
                    if !is_heading_type(blk.block_type) {
                        let j = choose|j: int|
                            0 <= j < st.blocks.len() && is_heading_type(#[trigger] st.blocks[j].block_type);
                        assert(next.blocks[j] == st.blocks[j]);
                    }
                }
            }
        },
        EventKindView::Text(text) => {},
        EventKindView::Code(text) => {},
        EventKindView::Rule => {
            if st.depth == 0 {
                let blk = thematic_view(b, e.start, e.end, crate::lines::line_of(b, e.start as int), st.stack);
                lemma_push_block(st.blocks, blk);
                if next.stack.len() > 0 {
                    let j = choose|j: int|
                        0 <= j < st.blocks.len() && is_heading_type(#[trigger] st.blocks[j].block_type);
                    assert(next.blocks[j] == st.blocks[j]);
                }
            }
        },
        EventKindView::Other => {},
    }
}

/// Every walk over well-formed events keeps its blocks well shaped.
pub proof fn lemma_walk_well_shaped(b: Seq<u8>, events: Seq<EventView>)
    requires
        events_well_formed(events),
    ensures
        state_well_formed(walk(b, events)),
        blocks_well_shaped(chunk_of(b, events)),
    decreases events.len(),
{
    if events.len() == 0 {
    } else {
        let prefix = events.drop_last();
        assert forall|i: int| 0 <= i < prefix.len() implies match #[trigger] prefix[i].kind {
            EventKindView::Start(TagView::Heading(level)) => 1 <= level <= 6,
            _ => true,
        } by {
            assert(prefix[i] == events[i]);
        }
        lemma_walk_well_shaped(b, prefix);
        let last = events.last();
        assert(last == events[events.len() - 1]);
        lemma_step_well_formed(b, walk(b, prefix), last);
    }
}

/// Every block lies on a line of the source: its line is at most one more
/// than the number of newlines in `b`.
pub open spec fn lines_within(b: Seq<u8>, blocks: Seq<BlockView>) -> bool {
    forall|i: int| 0 <= i < blocks.len() ==> (#[trigger] blocks[i]).line <= newline_count(b) + 1
}

/// The walk's blocks lie on lines of the source.
pub proof fn lemma_walk_lines_within(b: Seq<u8>, events: Seq<EventView>)
    ensures
        lines_within(b, chunk_of(b, events)),
    decreases events.len(),
{
    if events.len() > 0 {
        let prefix = events.drop_last();
        lemma_walk_lines_within(b, prefix);
        let st = walk(b, prefix);
        let e = events.last();
        let next = step(b, st, e);
        match e.kind {
            EventKindView::End => {
                let depth: nat = if st.depth == 0 { 0 } else { (st.depth - 1) as nat };
                if depth == 0 && st.open is Some {
                    let open = st.open->0;
                    lemma_line_of_bound(b, open.start() as int);
                    assert forall|i: int| 0 <= i < next.blocks.len() implies (#[trigger] next.blocks[i]).line
                        <= newline_count(b) + 1 by {
                        if i < st.blocks.len() {
                            assert(next.blocks[i] == st.blocks[i]);
                        }
                    }
                }
            },
            EventKindView::Rule => {
                if st.depth == 0 {
                    lemma_line_of_bound(b, e.start as int);
                    assert forall|i: int| 0 <= i < next.blocks.len() implies (#[trigger] next.blocks[i]).line
                        <= newline_count(b) + 1 by {
                        if i < st.blocks.len() {
                            assert(next.blocks[i] == st.blocks[i]);
                        }
                    }
                }
            },
            _ => {},
        }
    }
}

} // verus!
