//! Properties of the block accumulator that hold for every event sequence.

use crate::parser::{
    code_blocks_of, events_view, language_of, parse_blocks, run, step, titles_of, trimmed, trimmed_end, trimmed_start, is_white_space,
    BlockView, EventView, MarkupEvent, ParsedResponse, ScopeView,
};
use vstd::prelude::*;

verus! {

/// Parsing is a pure function of the events: two parses of event sequences
/// with the same value, in particular of one sequence parsed twice, give the
/// same blocks.
pub proof fn lemma_parse_deterministic(
    first_events: Seq<MarkupEvent>,
    second_events: Seq<MarkupEvent>,
    first: ParsedResponse,
    second: ParsedResponse,
)
    requires
        events_view(first_events) == events_view(second_events),
        first@ == parse_blocks(events_view(first_events)),
        second@ == parse_blocks(events_view(second_events)),
    ensures
        first@ == second@,
{
}

/// A code block's language comes from its info string: none for an indented
/// block or a blank info string, else the trimmed info string. Its code keeps
/// leading whitespace and loses trailing whitespace.
pub proof fn lemma_code_language(info: Option<Seq<char>>, code: Seq<char>)
    ensures
        parse_blocks(
            seq![
                EventView::Start(ScopeView::CodeBlock(info)),
                EventView::Text(code),
                EventView::End(ScopeView::CodeBlock(info)),
            ],
        ) == seq![BlockView::CodeBlock { language: language_of(info), code: trimmed_end(code) }],
        info is None ==> language_of(info) is None,
        info is Some && trimmed(info->Some_0).len() == 0 ==> language_of(info) is None,
        info is Some && trimmed(info->Some_0).len() > 0 ==> language_of(info) == Some(
            trimmed(info->Some_0),
        ),
{
    let events = seq![
        EventView::Start(ScopeView::CodeBlock(info)),
        EventView::Text(code),
        EventView::End(ScopeView::CodeBlock(info)),
    ];
    let one = events.drop_last().drop_last();
    let two = events.drop_last();
    assert(one.drop_last() =~= Seq::<EventView>::empty());
    assert(one.last() == events[0]);
    assert(two.drop_last() =~= one);
    assert(two.last() == events[1]);
    let s1 = run(one);
    assert(run(one.drop_last()) == crate::parser::initial_state());
    assert(s1.in_code && s1.code == Seq::<char>::empty() && s1.language == language_of(info));
    assert(s1.blocks == Seq::<BlockView>::empty());
    let s2 = run(two);
    assert(s2.code =~= code);
    assert(s2.in_code && s2.blocks == Seq::<BlockView>::empty());
    assert(run(events).blocks =~= seq![
        BlockView::CodeBlock { language: language_of(info), code: trimmed_end(code) },
    ]);
}

/// An event that opens one of the recognised scopes.
pub open spec fn opens_structure(e: EventView) -> bool {
    e matches EventView::Start(scope) && !(scope is Other)
}

proof fn lemma_unstructured_run(events: Seq<EventView>)
    requires
        forall|i: int| 0 <= i < events.len() ==> !opens_structure(#[trigger] events[i]),
    ensures
        run(events).blocks.len() == 0,
        !run(events).in_heading,
        !run(events).in_paragraph,
        !run(events).in_code,
        !run(events).in_list,
        !run(events).in_item,
        !run(events).in_quote,
    decreases events.len(),
{
    if events.len() > 0 {
        let rest = events.drop_last();
        assert forall|i: int| 0 <= i < rest.len() implies !opens_structure(#[trigger] rest[i]) by {
            assert(rest[i] == events[i]);
        }
        lemma_unstructured_run(rest);
        assert(!opens_structure(events[events.len() - 1]));
    }
}

/// Input with no recognised structure, the empty input among it, yields no
/// block: text outside any scope is dropped, and nothing fails.
pub proof fn lemma_unstructured_input_yields_nothing(events: Seq<EventView>)
    requires
        forall|i: int| 0 <= i < events.len() ==> !opens_structure(#[trigger] events[i]),
    ensures
        parse_blocks(events) == Seq::<BlockView>::empty(),
        parse_blocks(Seq::<EventView>::empty()) == Seq::<BlockView>::empty(),
{
    lemma_unstructured_run(events);
    assert(parse_blocks(events) =~= Seq::<BlockView>::empty());
}

proof fn lemma_item_stays_open(events: Seq<EventView>, j: int, m: int)
    requires
        0 <= j < m <= events.len(),
        run(events.take(j + 1)).in_item,
        forall|n: int| j < n < m ==> !(#[trigger] events[n] matches EventView::End(ScopeView::Item)),
    ensures
        run(events.take(m)).in_item,
    decreases m - j,
{
    if m > j + 1 {
        lemma_item_stays_open(events, j, m - 1);
        assert(events.take(m).drop_last() =~= events.take(m - 1));
        assert(events.take(m).last() == events[m - 1]);
    }
}

/// A paragraph whose scope opens while a list item is open, and closes before
/// that item does, never becomes a standalone paragraph: the event that closes
/// it adds no block.
pub proof fn lemma_paragraph_in_item_is_suppressed(events: Seq<EventView>, j: int, k: int)
    requires
        0 <= j < k < events.len(),
        events[j] == EventView::Start(ScopeView::Paragraph),
        run(events.take(j)).in_item,
        forall|n: int| j < n < k ==> !(#[trigger] events[n] matches EventView::End(ScopeView::Item)),
        events[k] == EventView::End(ScopeView::Paragraph),
    ensures
        run(events.take(k + 1)).blocks == run(events.take(k)).blocks,
{
    assert(events.take(j + 1).drop_last() =~= events.take(j));
    assert(events.take(j + 1).last() == events[j]);
    lemma_item_stays_open(events, j, k);
    assert(events.take(k + 1).drop_last() =~= events.take(k));
    assert(events.take(k + 1).last() == events[k]);
}

/// The titles of two runs of blocks, one after the other, are the titles of
/// the first followed by those of the second: titles keep block order.
pub proof fn lemma_titles_keep_order(first: Seq<BlockView>, second: Seq<BlockView>)
    ensures
        titles_of(first + second) == titles_of(first) + titles_of(second),
    decreases second.len(),
{
    if second.len() == 0 {
        assert(first + second =~= first);
        assert(titles_of(first) + titles_of(second) =~= titles_of(first));
    } else {
        lemma_titles_keep_order(first, second.drop_last());
        assert((first + second).drop_last() =~= first + second.drop_last());
        assert((first + second).last() == second.last());
        match second.last() {
            BlockView::Title { level, text } => {
                assert(titles_of(first) + titles_of(second) =~= (titles_of(first) + titles_of(
                    second.drop_last(),
                )).push((level, text)));
            },
            _ => {},
        }
    }
}

/// The code blocks of two runs of blocks, one after the other, are those of
/// the first followed by those of the second: code blocks keep block order.
pub proof fn lemma_code_blocks_keep_order(first: Seq<BlockView>, second: Seq<BlockView>)
    ensures
        code_blocks_of(first + second) == code_blocks_of(first) + code_blocks_of(second),
    decreases second.len(),
{
    if second.len() == 0 {
        assert(first + second =~= first);
        assert(code_blocks_of(first) + code_blocks_of(second) =~= code_blocks_of(first));
    } else {
        lemma_code_blocks_keep_order(first, second.drop_last());
        assert((first + second).drop_last() =~= first + second.drop_last());
        assert((first + second).last() == second.last());
        match second.last() {
            BlockView::CodeBlock { language, code } => {
                assert(code_blocks_of(first) + code_blocks_of(second) =~= (code_blocks_of(first)
                    + code_blocks_of(second.drop_last())).push((language, code)));
            },
            _ => {},
        }
    }
}

/// Every heading that the events open has a level from 1 to 6.
pub open spec fn heading_levels_valid(events: Seq<EventView>) -> bool {
    forall|i: int|
        #![trigger events[i]]
        0 <= i < events.len() ==> (events[i] matches EventView::Start(ScopeView::Heading(l)) ==> 1
            <= l <= 6)
}

/// A block as the data model allows it: a title's level is 1 to 6; titles,
/// paragraphs and quotes carry text that is not empty and already trimmed; a
/// list carries at least one item, each one not empty and trimmed; code has
/// no trailing whitespace.
pub open spec fn block_well_formed(b: BlockView) -> bool {
    match b {
        BlockView::Title { level, text } => 1 <= level <= 6 && text.len() > 0 && trimmed(text)
            == text,
        BlockView::Paragraph { text } => text.len() > 0 && trimmed(text) == text,
        BlockView::CodeBlock { code, .. } => trimmed_end(code) == code,
        BlockView::List { items } => items.len() > 0 && forall|i: int|
            0 <= i < items.len() ==> #[trigger] items[i].len() > 0 && trimmed(items[i])
                == items[i],
        BlockView::Quote { text } => text.len() > 0 && trimmed(text) == text,
    }
}

proof fn lemma_trimmed_end_stops(s: Seq<char>)
    ensures
        trimmed_end(s).len() > 0 ==> !is_white_space(trimmed_end(s).last()),
        trimmed_end(trimmed_end(s)) == trimmed_end(s),
    decreases s.len(),
{
    if s.len() > 0 && is_white_space(s.last()) {
        lemma_trimmed_end_stops(s.drop_last());
    }
}

proof fn lemma_trimmed_start_stops(s: Seq<char>)
    ensures
        trimmed_start(s).len() > 0 ==> !is_white_space(trimmed_start(s)[0]),
        trimmed_start(s).len() > 0 ==> trimmed_start(s).last() == s.last(),
        trimmed_start(trimmed_start(s)) == trimmed_start(s),
    decreases s.len(),
{
    if s.len() > 0 && is_white_space(s[0]) {
        lemma_trimmed_start_stops(s.drop_first());
    }
}

/// Trimming twice is trimming once.
pub proof fn lemma_trimmed_idempotent(s: Seq<char>)
    ensures
        trimmed(trimmed(s)) == trimmed(s),
        trimmed_end(trimmed_end(s)) == trimmed_end(s),
{
    let e = trimmed_end(s);
    lemma_trimmed_end_stops(s);
    lemma_trimmed_start_stops(e);
    let t = trimmed_start(e);
    assert(trimmed_end(t) == t);
}

proof fn lemma_run_well_formed(events: Seq<EventView>)
    requires
        heading_levels_valid(events),
    ensures
        forall|i: int| 0 <= i < run(events).blocks.len() ==> block_well_formed(
            #[trigger] run(events).blocks[i],
        ),
        forall|i: int| 0 <= i < run(events).items.len() ==> #[trigger] run(events).items[i].len()
            > 0 && trimmed(run(events).items[i]) == run(events).items[i],
        run(events).in_heading ==> 1 <= run(events).level <= 6,
    decreases events.len(),
{
    if events.len() > 0 {
        let rest = events.drop_last();
        assert forall|i: int| 0 <= i < rest.len() implies (#[trigger] rest[i] matches EventView::Start(
            ScopeView::Heading(l),
        ) ==> 1 <= l <= 6) by {
            assert(rest[i] == events[i]);
        }
        lemma_run_well_formed(rest);
        let s = run(rest);
        let t = run(events);
        assert(events.last() == events[events.len() - 1]);
        assert(t == step(s, events.last()));
        lemma_trimmed_idempotent(s.text);
        lemma_trimmed_idempotent(s.code);
        assert forall|i: int| 0 <= i < t.items.len() implies #[trigger] t.items[i].len() > 0
            && trimmed(t.items[i]) == t.items[i] by {
            if i < s.items.len() && t.items.len() > s.items.len() {
                assert(t.items[i] == s.items[i]);
            }
        }
        assert forall|i: int| 0 <= i < t.blocks.len() implies block_well_formed(
            #[trigger] t.blocks[i],
        ) by {
            if i < s.blocks.len() {
                assert(t.blocks[i] == s.blocks[i]);
            }
        }
    }
}

/// Every block that parsing emits is well formed, when the headings that the
/// events open have levels from 1 to 6: empty text after trimming and empty
/// lists are dropped, never emitted, and emitted text is trimmed.
pub proof fn lemma_blocks_well_formed(events: Seq<EventView>)
    requires
        heading_levels_valid(events),
    ensures
        forall|i: int| 0 <= i < parse_blocks(events).len() ==> block_well_formed(
            #[trigger] parse_blocks(events)[i],
        ),
{
    lemma_run_well_formed(events);
}

} // verus!
