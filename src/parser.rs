//! The block accumulator: a single pass over markup events that yields titles,
//! paragraphs, code blocks, flat lists and quotes.

use pulldown_cmark::{CodeBlockKind, Event, Parser, Tag};
use crate::parser_laws::{block_well_formed, heading_levels_valid, lemma_blocks_well_formed};
use vstd::prelude::*;

verus! {

/// A structural region of a markdown document, as the event source reports it.
#[derive(Debug, Clone, PartialEq, Eq)]
pub enum ScopeKind {
    /// A heading of the given level (1 to 6).
    Heading(u8),
    Paragraph,
    /// A code block: `Some(info)` when fenced, `None` when indented.
    CodeBlock(Option<String>),
    List,
    Item,
    BlockQuote,
    /// Any scope that carries no structure here (emphasis, links, tables...).
    Other,
}

/// One markup event of the stream that the accumulator folds over.
#[derive(Debug, Clone, PartialEq, Eq)]
pub enum MarkupEvent {
    Start(ScopeKind),
    End(ScopeKind),
    Text(String),
    InlineCode(String),
    SoftBreak,
    HardBreak,
    /// Any event without structural meaning (rules, html, footnote marks...).
    Other,
}

/// A finished block of content.
#[derive(Debug, Clone, PartialEq, Eq)]
pub enum ContentBlock {
    Title { level: u8, text: String },
    Paragraph { text: String },
    CodeBlock { language: Option<String>, code: String },
    List { items: Vec<String> },
    Quote { text: String },
}

/// The mathematical value of a `ScopeKind`.
pub enum ScopeView {
    Heading(u8),
    Paragraph,
    CodeBlock(Option<Seq<char>>),
    List,
    Item,
    BlockQuote,
    Other,
}

/// The mathematical value of a `MarkupEvent`.
pub enum EventView {
    Start(ScopeView),
    End(ScopeView),
    Text(Seq<char>),
    InlineCode(Seq<char>),
    SoftBreak,
    HardBreak,
    Other,
}

/// The mathematical value of a `ContentBlock`.
pub enum BlockView {
    Title { level: u8, text: Seq<char> },
    Paragraph { text: Seq<char> },
    CodeBlock { language: Option<Seq<char>>, code: Seq<char> },
    List { items: Seq<Seq<char>> },
    Quote { text: Seq<char> },
}

pub open spec fn option_view(o: Option<String>) -> Option<Seq<char>> {
    match o {
        Some(s) => Some(s@),
        None => None,
    }
}

pub open spec fn strings_view(v: Seq<String>) -> Seq<Seq<char>> {
    v.map_values(|s: String| s@)
}

impl View for ScopeKind {
    type V = ScopeView;

    open spec fn view(&self) -> ScopeView {
        match self {
            ScopeKind::Heading(l) => ScopeView::Heading(*l),
            ScopeKind::Paragraph => ScopeView::Paragraph,
            ScopeKind::CodeBlock(info) => ScopeView::CodeBlock(option_view(*info)),
            ScopeKind::List => ScopeView::List,
            ScopeKind::Item => ScopeView::Item,
            ScopeKind::BlockQuote => ScopeView::BlockQuote,
            ScopeKind::Other => ScopeView::Other,
        }
    }
}

impl View for MarkupEvent {
    type V = EventView;

    open spec fn view(&self) -> EventView {
        match self {
            MarkupEvent::Start(s) => EventView::Start(s@),
            MarkupEvent::End(s) => EventView::End(s@),
            MarkupEvent::Text(t) => EventView::Text(t@),
            MarkupEvent::InlineCode(t) => EventView::InlineCode(t@),
            MarkupEvent::SoftBreak => EventView::SoftBreak,
            MarkupEvent::HardBreak => EventView::HardBreak,
            MarkupEvent::Other => EventView::Other,
        }
    }
}

impl View for ContentBlock {
    type V = BlockView;

    open spec fn view(&self) -> BlockView {
        match self {
            ContentBlock::Title { level, text } => BlockView::Title { level: *level, text: text@ },
            ContentBlock::Paragraph { text } => BlockView::Paragraph { text: text@ },
            ContentBlock::CodeBlock { language, code } => BlockView::CodeBlock {
                language: option_view(*language),
                code: code@,
            },
            ContentBlock::List { items } => BlockView::List { items: strings_view(items@) },
            ContentBlock::Quote { text } => BlockView::Quote { text: text@ },
        }
    }
}

pub open spec fn events_view(v: Seq<MarkupEvent>) -> Seq<EventView> {
    v.map_values(|e: MarkupEvent| e@)
}

pub open spec fn blocks_view(v: Seq<ContentBlock>) -> Seq<BlockView> {
    v.map_values(|b: ContentBlock| b@)
}

/// The characters with the Unicode property White_Space, the whitespace that
/// `str::trim` and `str::trim_end` remove.
pub open spec fn is_white_space(c: char) -> bool {
    let n: u32 = c as u32;
    ||| 0x9 <= n <= 0xD
    ||| n == 0x20
    ||| n == 0x85
    ||| n == 0xA0
    ||| n == 0x1680
    ||| 0x2000 <= n <= 0x200A
    ||| n == 0x2028
    ||| n == 0x2029
    ||| n == 0x202F
    ||| n == 0x205F
    ||| n == 0x3000
}

/// The text without its leading whitespace.
pub open spec fn trimmed_start(s: Seq<char>) -> Seq<char>
    decreases s.len(),
{
    if s.len() > 0 && is_white_space(s[0]) {
        trimmed_start(s.drop_first())
    } else {
        s
    }
}

/// The text without its trailing whitespace: what `str::trim_end` returns.
pub open spec fn trimmed_end(s: Seq<char>) -> Seq<char>
    decreases s.len(),
{
    if s.len() > 0 && is_white_space(s.last()) {
        trimmed_end(s.drop_last())
    } else {
        s
    }
}

/// The text without leading and trailing whitespace: what `str::trim` returns.
pub open spec fn trimmed(s: Seq<char>) -> Seq<char> {
    trimmed_start(trimmed_end(s))
}

/// Whether `c` has the Unicode property White_Space.
fn white_space(c: char) -> (r: bool)
    ensures
        r == is_white_space(c),
{
    let n: u32 = c as u32;
    (0x9 <= n && n <= 0xD) || n == 0x20 || n == 0x85 || n == 0xA0 || n == 0x1680 || (0x2000
        <= n && n <= 0x200A) || n == 0x2028 || n == 0x2029 || n == 0x202F || n == 0x205F || n
        == 0x3000
}

proof fn lemma_trimmed_end_at(s: Seq<char>, j: int)
    requires
        0 <= j <= s.len(),
        forall|k: int| j <= k < s.len() ==> is_white_space(#[trigger] s[k]),
        j == 0 || !is_white_space(s[j - 1]),
    ensures
        trimmed_end(s) == s.subrange(0, j),
    decreases s.len(),
{
    if s.len() > j {
        let t = s.drop_last();
        assert forall|k: int| j <= k < t.len() implies is_white_space(#[trigger] t[k]) by {
            assert(t[k] == s[k]);
        }
        if j > 0 {
            assert(t[j - 1] == s[j - 1]);
        }
        lemma_trimmed_end_at(t, j);
        assert(t.subrange(0, j) =~= s.subrange(0, j));
    } else {
        assert(s.subrange(0, j) =~= s);
    }
}

proof fn lemma_trimmed_start_at(s: Seq<char>, i: int)
    requires
        0 <= i <= s.len(),
        forall|k: int| 0 <= k < i ==> is_white_space(#[trigger] s[k]),
        i == s.len() || !is_white_space(s[i]),
    ensures
        trimmed_start(s) == s.subrange(i, s.len() as int),
    decreases i,
{
    if i > 0 {
        let t = s.drop_first();
        assert forall|k: int| 0 <= k < i - 1 implies is_white_space(#[trigger] t[k]) by {
            assert(t[k] == s[k + 1]);
        }
        if i < s.len() {
            assert(t[i - 1] == s[i]);
        }
        lemma_trimmed_start_at(t, i - 1);
        assert(t.subrange(i - 1, t.len() as int) =~= s.subrange(i, s.len() as int));
    } else {
        assert(s.subrange(0, s.len() as int) =~= s);
    }
}

/// The number of characters of `s` before its trailing whitespace.
fn end_of_text(s: &str) -> (j: usize)
    ensures
        j <= s@.len(),
        trimmed_end(s@) == s@.subrange(0, j as int),
        j == 0 || !is_white_space(s@[j - 1]),
{
    let len: usize = s.unicode_len();
    let mut j: usize = len;
    while j > 0
        invariant
            j <= len,
            len == s@.len(),
            forall|k: int| j <= k < len ==> is_white_space(#[trigger] s@[k]),
        ensures
            j <= len,
            forall|k: int| j <= k < len ==> is_white_space(#[trigger] s@[k]),
            j == 0 || !is_white_space(s@[j - 1]),
        decreases j,
    {
        if !white_space(s.get_char(j - 1)) {
            break;
        }
        j = j - 1;
    }
    proof {
        lemma_trimmed_end_at(s@, j as int);
    }
    j
}

/// `s` without leading and trailing whitespace, as `str::trim` gives it.
pub(crate) fn trim_text(s: &str) -> (r: &str)
    ensures
        r@ == trimmed(s@),
{
    let j: usize = end_of_text(s);
    let mut i: usize = 0;
    while i < j
        invariant
            i <= j <= s@.len(),
            forall|k: int| 0 <= k < i ==> is_white_space(#[trigger] s@[k]),
        ensures
            i <= j,
            forall|k: int| 0 <= k < i ==> is_white_space(#[trigger] s@[k]),
            i == j || !is_white_space(s@[i as int]),
        decreases j - i,
    {
        if !white_space(s.get_char(i)) {
            break;
        }
        i = i + 1;
    }
    proof {
        let e = s@.subrange(0, j as int);
        assert forall|k: int| 0 <= k < i implies is_white_space(#[trigger] e[k]) by {
            assert(e[k] == s@[k]);
        }
        if i < j {
            assert(e[i as int] == s@[i as int]);
        }
        lemma_trimmed_start_at(e, i as int);
        assert(e.subrange(i as int, j as int) =~= s@.subrange(i as int, j as int));
    }
    s.substring_char(i, j)
}

/// `s` without trailing whitespace, as `str::trim_end` gives it.
fn trim_end_text(s: &str) -> (r: &str)
    ensures
        r@ == trimmed_end(s@),
{
    let j: usize = end_of_text(s);
    s.substring_char(0, j)
}

/// The state of the accumulator between two events.
pub struct AccumulatorView {
    pub text: Seq<char>,
    pub code: Seq<char>,
    pub language: Option<Seq<char>>,
    pub items: Seq<Seq<char>>,
    pub level: u8,
    pub in_heading: bool,
    pub in_paragraph: bool,
    pub in_code: bool,
    pub in_list: bool,
    pub in_item: bool,
    pub in_quote: bool,
    pub blocks: Seq<BlockView>,
}

/// The state before any event: every buffer empty, every scope closed.
pub open spec fn initial_state() -> AccumulatorView {
    AccumulatorView {
        text: Seq::empty(),
        code: Seq::empty(),
        language: None,
        items: Seq::empty(),
        level: 0,
        in_heading: false,
        in_paragraph: false,
        in_code: false,
        in_list: false,
        in_item: false,
        in_quote: false,
        blocks: Seq::empty(),
    }
}

/// The language of a code block: none for an indented block or a blank info
/// string, else the trimmed info string.
pub open spec fn language_of(info: Option<Seq<char>>) -> Option<Seq<char>> {
    match info {
        None => None,
        Some(i) => if trimmed(i).len() == 0 {
            None
        } else {
            Some(trimmed(i))
        },
    }
}

/// `text` wrapped in one backtick on each side.
pub open spec fn inline_code(text: Seq<char>) -> Seq<char> {
    seq!['`'] + text + seq!['`']
}

/// The state after a `Start` event.
pub open spec fn open_scope(s: AccumulatorView, scope: ScopeView) -> AccumulatorView {
    match scope {
        ScopeView::Heading(level) => AccumulatorView {
            in_heading: true,
            text: Seq::empty(),
            level,
            ..s
        },
        ScopeView::Paragraph => AccumulatorView { in_paragraph: true, text: Seq::empty(), ..s },
        ScopeView::CodeBlock(info) => AccumulatorView {
            in_code: true,
            code: Seq::empty(),
            language: language_of(info),
            ..s
        },
        ScopeView::List => AccumulatorView { in_list: true, items: Seq::empty(), ..s },
        ScopeView::Item => AccumulatorView { in_item: true, text: Seq::empty(), ..s },
        ScopeView::BlockQuote => AccumulatorView { in_quote: true, text: Seq::empty(), ..s },
        ScopeView::Other => s,
    }
}

/// The state after an `End` event. A block is emitted only for an open scope
/// whose trimmed text is not empty, and then the text buffer is cleared.
///
/// Open question: the end of an item does not check that a list is open. An
/// item closed outside any list still joins the pending items, and so the
/// next list that is flushed. This is kept as the known behaviour of flat
/// scope flags; whether such an item should be dropped is not settled.
pub open spec fn close_scope(s: AccumulatorView, scope: ScopeView) -> AccumulatorView {
    match scope {
        ScopeView::Heading(_) => if s.in_heading && trimmed(s.text).len() > 0 {
            AccumulatorView {
                blocks: s.blocks.push(BlockView::Title { level: s.level, text: trimmed(s.text) }),
                text: Seq::empty(),
                in_heading: false,
                ..s
            }
        } else {
            AccumulatorView { in_heading: false, ..s }
        },
        ScopeView::Paragraph => if s.in_paragraph && !s.in_item && trimmed(s.text).len() > 0 {
            AccumulatorView {
                blocks: s.blocks.push(BlockView::Paragraph { text: trimmed(s.text) }),
                text: Seq::empty(),
                in_paragraph: false,
                ..s
            }
        } else {
            AccumulatorView { in_paragraph: false, ..s }
        },
        ScopeView::CodeBlock(_) => if s.in_code {
            AccumulatorView {
                blocks: s.blocks.push(
                    BlockView::CodeBlock { language: s.language, code: trimmed_end(s.code) },
                ),
                code: Seq::empty(),
                language: None,
                in_code: false,
                ..s
            }
        } else {
            s
        },
        ScopeView::List => if s.in_list && s.items.len() > 0 {
            AccumulatorView {
                blocks: s.blocks.push(BlockView::List { items: s.items }),
                items: Seq::empty(),
                in_list: false,
                ..s
            }
        } else {
            AccumulatorView { in_list: false, ..s }
        },
        ScopeView::Item => if s.in_item && trimmed(s.text).len() > 0 {
            AccumulatorView {
                items: s.items.push(trimmed(s.text)),
                text: Seq::empty(),
                in_item: false,
                ..s
            }
        } else {
            AccumulatorView { in_item: false, ..s }
        },
        ScopeView::BlockQuote => if s.in_quote && trimmed(s.text).len() > 0 {
            AccumulatorView {
                blocks: s.blocks.push(BlockView::Quote { text: trimmed(s.text) }),
                text: Seq::empty(),
                in_quote: false,
                ..s
            }
        } else {
            AccumulatorView { in_quote: false, ..s }
        },
        ScopeView::Other => s,
    }
}

/// The state after one event.
pub open spec fn step(s: AccumulatorView, e: EventView) -> AccumulatorView {
    match e {
        EventView::Start(scope) => open_scope(s, scope),
        EventView::End(scope) => close_scope(s, scope),
        EventView::Text(t) => if s.in_code {
            AccumulatorView { code: s.code + t, ..s }
        } else {
            AccumulatorView { text: s.text + t, ..s }
        },
        EventView::InlineCode(t) => AccumulatorView { text: s.text + inline_code(t), ..s },
        EventView::SoftBreak | EventView::HardBreak => if s.in_code {
            AccumulatorView { code: s.code.push('\n'), ..s }
        } else if s.text.len() > 0 {
            AccumulatorView { text: s.text.push(' '), ..s }
        } else {
            s
        },
        EventView::Other => s,
    }
}

/// The state after a whole sequence of events, taken left to right.
pub open spec fn run(events: Seq<EventView>) -> AccumulatorView
    decreases events.len(),
{
    if events.len() == 0 {
        initial_state()
    } else {
        step(run(events.drop_last()), events.last())
    }
}

/// The blocks of a sequence of events. Scopes left open at the end emit nothing.
pub open spec fn parse_blocks(events: Seq<EventView>) -> Seq<BlockView> {
    run(events).blocks
}

/// The titles among `blocks`, as (level, text), in block order.
pub open spec fn titles_of(blocks: Seq<BlockView>) -> Seq<(u8, Seq<char>)>
    decreases blocks.len(),
{
    if blocks.len() == 0 {
        Seq::empty()
    } else {
        let rest = titles_of(blocks.drop_last());
        match blocks.last() {
            BlockView::Title { level, text } => rest.push((level, text)),
            _ => rest,
        }
    }
}

/// The code blocks among `blocks`, as (language, code), in block order.
pub open spec fn code_blocks_of(blocks: Seq<BlockView>) -> Seq<(Option<Seq<char>>, Seq<char>)>
    decreases blocks.len(),
{
    if blocks.len() == 0 {
        Seq::empty()
    } else {
        let rest = code_blocks_of(blocks.drop_last());
        match blocks.last() {
            BlockView::CodeBlock { language, code } => rest.push((language, code)),
            _ => rest,
        }
    }
}

pub open spec fn titles_view(v: Seq<(u8, String)>) -> Seq<(u8, Seq<char>)> {
    v.map_values(|p: (u8, String)| (p.0, p.1@))
}

pub open spec fn code_blocks_view(v: Seq<(Option<String>, String)>) -> Seq<(Option<Seq<char>>, Seq<char>)> {
    v.map_values(|p: (Option<String>, String)| (option_view(p.0), p.1@))
}

/// The ordered blocks of one parsed reply.
#[derive(Debug, Clone, PartialEq, Eq)]
pub struct ParsedResponse {
    pub blocks: Vec<ContentBlock>,
}

impl View for ParsedResponse {
    type V = Seq<BlockView>;

    open spec fn view(&self) -> Seq<BlockView> {
        blocks_view(self.blocks@)
    }
}

impl ParsedResponse {
    /// A response with no blocks.
    pub fn new() -> (r: ParsedResponse)
        ensures
            r@ == Seq::<BlockView>::empty(),
    {
        ParsedResponse { blocks: Vec::new() }
    }

    /// Appends one block at the end.
    pub fn add_block(&mut self, block: ContentBlock)
        ensures
            final(self)@ == old(self)@.push(block@),
    {
        self.blocks.push(block);
        proof {
            assert(blocks_view(self.blocks@) =~= blocks_view(old(self).blocks@).push(block@));
        }
    }
    /// The code blocks, as (language, code) pairs, in block order.
    pub fn get_code_blocks(&self) -> (r: Vec<(Option<String>, String)>)
        ensures
            code_blocks_view(r@) == code_blocks_of(self@),
    {
        let mut r: Vec<(Option<String>, String)> = Vec::new();
        let mut i: usize = 0;
        while i < self.blocks.len()
            invariant
                0 <= i <= self.blocks.len(),
                code_blocks_view(r@) == code_blocks_of(blocks_view(self.blocks@.take(i as int))),
            decreases self.blocks.len() - i,
        {
            let ghost before = r@;
            if let ContentBlock::CodeBlock { language, code } = &self.blocks[i] {
                let language = match language {
                    Some(l) => Some(copy_text(l)),
                    None => None,
                };
                r.push((language, copy_text(code)));
                proof {
                    assert(code_blocks_view(r@) =~= code_blocks_view(before).push(
                        (option_view(language), code@),
                    ));
                }
            }
            proof {
                let prefix = blocks_view(self.blocks@.take(i as int + 1));
                assert(prefix.drop_last() =~= blocks_view(self.blocks@.take(i as int)));
            }
            i = i + 1;
        }
        proof {
            assert(self.blocks@.take(i as int) =~= self.blocks@);
        }
        r
    }

    /// The titles, as (level, text) pairs, in block order.
    pub fn get_titles(&self) -> (r: Vec<(u8, String)>)
        ensures
            titles_view(r@) == titles_of(self@),
    {
        let mut r: Vec<(u8, String)> = Vec::new();
        let mut i: usize = 0;
        while i < self.blocks.len()
            invariant
                0 <= i <= self.blocks.len(),
                titles_view(r@) == titles_of(blocks_view(self.blocks@.take(i as int))),
            decreases self.blocks.len() - i,
        {
            let ghost before = r@;
            if let ContentBlock::Title { level, text } = &self.blocks[i] {
                r.push((*level, copy_text(text)));
                proof {
                    assert(titles_view(r@) =~= titles_view(before).push((*level, text@)));
                }
            }
            proof {
                let prefix = blocks_view(self.blocks@.take(i as int + 1));
                assert(prefix.drop_last() =~= blocks_view(self.blocks@.take(i as int)));
            }
            i = i + 1;
        }
        proof {
            assert(self.blocks@.take(i as int) =~= self.blocks@);
        }
        r
    }
}

impl Default for ParsedResponse {
    fn default() -> (r: ParsedResponse)
        ensures
            r@ == Seq::<BlockView>::empty(),
    {
        ParsedResponse::new()
    }
}

/// Copies a string through `String::clone`, which keeps its characters.
pub(crate) fn copy_text(s: &String) -> (r: String)
    ensures
        r@ == s@,
{
    s.clone()
}

/// Folds markup events into blocks, one event at a time.
pub struct BlockAccumulator {
    text: String,
    code: String,
    language: Option<String>,
    items: Vec<String>,
    level: u8,
    in_heading: bool,
    in_paragraph: bool,
    in_code: bool,
    in_list: bool,
    in_item: bool,
    in_quote: bool,
    parsed: ParsedResponse,
}

impl View for BlockAccumulator {
    type V = AccumulatorView;

    closed spec fn view(&self) -> AccumulatorView {
        AccumulatorView {
            text: self.text@,
            code: self.code@,
            language: option_view(self.language),
            items: strings_view(self.items@),
            level: self.level,
            in_heading: self.in_heading,
            in_paragraph: self.in_paragraph,
            in_code: self.in_code,
            in_list: self.in_list,
            in_item: self.in_item,
            in_quote: self.in_quote,
            blocks: self.parsed@,
        }
    }
}

impl BlockAccumulator {
    /// An accumulator that has seen no event.
    pub fn new() -> (r: BlockAccumulator)
        ensures
            r@ == initial_state(),
    {
        let r = BlockAccumulator {
            text: String::new(),
            code: String::new(),
            language: None,
            items: Vec::new(),
            level: 0,
            in_heading: false,
            in_paragraph: false,
            in_code: false,
            in_list: false,
            in_item: false,
            in_quote: false,
            parsed: ParsedResponse::new(),
        };
        proof {
            assert(strings_view(r.items@) =~= Seq::<Seq<char>>::empty());
        }
        r
    }

    fn open_scope(&mut self, scope: &ScopeKind)
        ensures
            final(self)@ == open_scope(old(self)@, scope@),
    {
        match scope {
            ScopeKind::Heading(level) => {
                self.in_heading = true;
                self.text = String::new();
                self.level = *level;
            },
            ScopeKind::Paragraph => {
                self.in_paragraph = true;
                self.text = String::new();
            },
            ScopeKind::CodeBlock(info) => {
                self.in_code = true;
                self.code = String::new();
                self.language = match info {
                    None => None,
                    Some(i) => {
                        let t = trim_text(i.as_str());
                        if t.is_empty() {
                            None
                        } else {
                            Some(t.to_owned())
                        }
                    },
                };
            },
            ScopeKind::List => {
                self.in_list = true;
                self.items = Vec::new();
                proof {
                    assert(strings_view(self.items@) =~= Seq::<Seq<char>>::empty());
                }
            },
            ScopeKind::Item => {
                self.in_item = true;
                self.text = String::new();
            },
            ScopeKind::BlockQuote => {
                self.in_quote = true;
                self.text = String::new();
            },
            ScopeKind::Other => {},
        }
    }

    /// The trimmed text buffer, when it is not empty.
    fn trimmed_text(&self) -> (r: Option<String>)
        ensures
            r matches Some(t) ==> t@ == trimmed(self.text@) && t@.len() > 0,
            r is None ==> trimmed(self.text@).len() == 0,
    {
        let t = trim_text(self.text.as_str());
        if t.is_empty() {
            None
        } else {
            Some(t.to_owned())
        }
    }

    fn close_scope(&mut self, scope: &ScopeKind)
        ensures
            final(self)@ == close_scope(old(self)@, scope@),
    {
        match scope {
            ScopeKind::Heading(_) => {
                if self.in_heading {
                    if let Some(text) = self.trimmed_text() {
                        self.parsed.add_block(ContentBlock::Title { level: self.level, text });
                        self.text = String::new();
                    }
                }
                self.in_heading = false;
            },
            ScopeKind::Paragraph => {
                if self.in_paragraph && !self.in_item {
                    if let Some(text) = self.trimmed_text() {
                        self.parsed.add_block(ContentBlock::Paragraph { text });
                        self.text = String::new();
                    }
                }
                self.in_paragraph = false;
            },
            ScopeKind::CodeBlock(_) => {
                if self.in_code {
                    let code = trim_end_text(self.code.as_str()).to_owned();
                    let mut language = None;
                    std::mem::swap(&mut language, &mut self.language);
                    self.parsed.add_block(ContentBlock::CodeBlock { language, code });
                    self.code = String::new();
                    self.in_code = false;
                }
            },
            ScopeKind::List => {
                if self.in_list && self.items.len() > 0 {
                    let mut items = Vec::new();
                    std::mem::swap(&mut items, &mut self.items);
                    self.parsed.add_block(ContentBlock::List { items });
                    proof {
                        assert(strings_view(self.items@) =~= Seq::<Seq<char>>::empty());
                    }
                }
                self.in_list = false;
            },
            ScopeKind::Item => {
                if self.in_item {
                    if let Some(text) = self.trimmed_text() {
                        let ghost t = text@;
                        self.items.push(text);
                        proof {
                            assert(strings_view(self.items@) =~= strings_view(
                                old(self).items@,
                            ).push(t));
                        }
                        self.text = String::new();
                    }
                }
                self.in_item = false;
            },
            ScopeKind::BlockQuote => {
                if self.in_quote {
                    if let Some(text) = self.trimmed_text() {
                        self.parsed.add_block(ContentBlock::Quote { text });
                        self.text = String::new();
                    }
                }
                self.in_quote = false;
            },
            ScopeKind::Other => {},
        }
    }

    /// Takes one event into account.
    pub fn apply(&mut self, event: &MarkupEvent)
        ensures
            final(self)@ == step(old(self)@, event@),
    {
        match event {
            MarkupEvent::Start(scope) => self.open_scope(scope),
            MarkupEvent::End(scope) => self.close_scope(scope),
            MarkupEvent::Text(t) => {
                if self.in_code {
                    self.code.append(t.as_str());
                } else {
                    self.text.append(t.as_str());
                }
            },
            MarkupEvent::InlineCode(t) => {
                proof {
                    reveal_strlit("`");
                }
                self.text.append("`");
                self.text.append(t.as_str());
                self.text.append("`");
                proof {
                    assert(self.text@ =~= old(self).text@ + inline_code(t@));
                }
            },
            MarkupEvent::SoftBreak | MarkupEvent::HardBreak => {
                proof {
                    reveal_strlit("\n");
                    reveal_strlit(" ");
                }
                if self.in_code {
                    self.code.append("\n");
                    proof {
                        assert(self.code@ =~= old(self).code@.push('\n'));
                    }
                } else if !self.text.as_str().is_empty() {
                    self.text.append(" ");
                    proof {
                        assert(self.text@ =~= old(self).text@.push(' '));
                    }
                }
            },
            MarkupEvent::Other => {},
        }
    }

    /// The blocks emitted so far; scopes still open are dropped.
    pub fn finish(self) -> (r: ParsedResponse)
        ensures
            r@ == self@.blocks,
    {
        self.parsed
    }
}

/// Folds a whole event sequence into blocks. Never fails: unknown events are
/// ignored and scopes left open at the end emit nothing.
pub fn parse_events(events: &Vec<MarkupEvent>) -> (r: ParsedResponse)
    ensures
        r@ == parse_blocks(events_view(events@)),
{
    let mut acc = BlockAccumulator::new();
    let mut i: usize = 0;
    while i < events.len()
        invariant
            0 <= i <= events.len(),
            acc@ == run(events_view(events@.take(i as int))),
        decreases events.len() - i,
    {
        acc.apply(&events[i]);
        proof {
            let prefix = events_view(events@.take(i as int + 1));
            assert(prefix.drop_last() =~= events_view(events@.take(i as int)));
            assert(prefix.last() == events@[i as int]@);
        }
        i = i + 1;
    }
    proof {
        assert(events@.take(i as int) =~= events@);
    }
    acc.finish()
}

#[verifier::external_type_specification]
#[verifier::external_body]
pub struct ExTag<'a>(Tag<'a>);

/// What `pulldown_cmark::Parser` yields for a markdown text, event by event.
pub uninterp spec fn markdown_events_of(text: Seq<char>) -> Seq<EventView>;

/// Relies on `pulldown_cmark::Parser`: the events of a markdown text depend on
/// the text alone, and a heading's level is one of `HeadingLevel`'s six
/// values, 1 to 6. Each event is converted one for one.
#[verifier::external_body]
fn markdown_events(text: &str) -> (r: Vec<MarkupEvent>)
    ensures
        events_view(r@) == markdown_events_of(text@),
        heading_levels_valid(events_view(r@)),
{
    Parser::new(text).map(|e| match e {
        Event::Start(t) => MarkupEvent::Start(scope_of(t)),
        Event::End(t) => MarkupEvent::End(scope_of(t)),
        Event::Text(t) => MarkupEvent::Text(t.to_string()),
        Event::Code(t) => MarkupEvent::InlineCode(t.to_string()),
        Event::SoftBreak => MarkupEvent::SoftBreak,
        Event::HardBreak => MarkupEvent::HardBreak,
        _ => MarkupEvent::Other,
    }).collect()
}

/// Converts a `pulldown_cmark::Tag` into a scope, one variant for each.
#[verifier::external_body]
fn scope_of(tag: Tag) -> ScopeKind {
    match tag {
        Tag::Heading(level, _, _) => ScopeKind::Heading(level as u8),
        Tag::Paragraph => ScopeKind::Paragraph,
        Tag::CodeBlock(CodeBlockKind::Fenced(info)) => ScopeKind::CodeBlock(Some(info.to_string())),
        Tag::CodeBlock(CodeBlockKind::Indented) => ScopeKind::CodeBlock(None),
        Tag::List(_) => ScopeKind::List,
        Tag::Item => ScopeKind::Item,
        Tag::BlockQuote => ScopeKind::BlockQuote,
        _ => ScopeKind::Other,
    }
}

/// Parses a markdown reply into blocks: the markdown tokenizer's events,
/// folded by the block accumulator.
pub fn parse_response(markdown: &str) -> (r: ParsedResponse)
    ensures
        r@ == parse_blocks(markdown_events_of(markdown@)),
        forall|i: int| 0 <= i < r@.len() ==> block_well_formed(#[trigger] r@[i]),
{
    let events = markdown_events(markdown);
    proof {
        lemma_blocks_well_formed(events_view(events@));
    }
    parse_events(&events)
}

} // verus!
