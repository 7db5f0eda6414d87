//! The decisions of the console: what each message does to the console's
//! state, and what the shell around it must do next.

use crate::parser::{blocks_view, trim_text, trimmed, BlockView, ContentBlock, ParsedResponse};
use vstd::prelude::*;

verus! {

/// What happens in the console.
#[derive(Debug)]
pub enum Message {
    InputLine1Changed(String),
    InputLine2Changed(String),
    SendRequest,
    ResponseReceived(Result<ParsedResponse, String>),
}

/// What the shell has to do after a message.
#[derive(Debug, Clone, PartialEq, Eq)]
pub enum ConsoleAction {
    /// Nothing to do.
    Idle,
    /// Send this prompt to the backend and report its reply.
    SendPrompt(String),
}

/// The mathematical value of a `ConsoleAction`.
pub enum ActionView {
    Idle,
    SendPrompt(Seq<char>),
}

impl View for ConsoleAction {
    type V = ActionView;

    open spec fn view(&self) -> ActionView {
        match self {
            ConsoleAction::Idle => ActionView::Idle,
            ConsoleAction::SendPrompt(p) => ActionView::SendPrompt(p@),
        }
    }
}

/// The mathematical value of a `ConsoleState`.
pub struct ConsoleView {
    pub input_line1: Seq<char>,
    pub input_line2: Seq<char>,
    pub response_blocks: Seq<BlockView>,
    pub is_processing: bool,
    pub status_message: Seq<char>,
}

/// The console before any message.
pub open spec fn initial_console() -> ConsoleView {
    ConsoleView {
        input_line1: Seq::empty(),
        input_line2: Seq::empty(),
        response_blocks: Seq::empty(),
        is_processing: false,
        status_message: "Ready"@,
    }
}

/// The prompt made of the two input lines.
pub open spec fn prompt_of(s: ConsoleView) -> Seq<char> {
    s.input_line1 + seq!['\n'] + s.input_line2
}

/// The console after `message`, and what the shell must do.
pub open spec fn console_step(s: ConsoleView, message: Message) -> (ConsoleView, ActionView) {
    match message {
        Message::InputLine1Changed(v) => (ConsoleView { input_line1: v@, ..s }, ActionView::Idle),
        Message::InputLine2Changed(v) => (ConsoleView { input_line2: v@, ..s }, ActionView::Idle),
        Message::SendRequest => if s.is_processing {
            (s, ActionView::Idle)
        } else if trimmed(prompt_of(s)).len() == 0 {
            (ConsoleView { status_message: "Please enter a prompt"@, ..s }, ActionView::Idle)
        } else {
            (
                ConsoleView { is_processing: true, status_message: "Processing..."@, ..s },
                ActionView::SendPrompt(prompt_of(s)),
            )
        },
        Message::ResponseReceived(Ok(parsed)) => (
            ConsoleView {
                is_processing: false,
                response_blocks: parsed@,
                status_message: "Response received"@,
                ..s
            },
            ActionView::Idle,
        ),
        Message::ResponseReceived(Err(e)) => (
            ConsoleView { is_processing: false, status_message: "Error: "@ + e@, ..s },
            ActionView::Idle,
        ),
    }
}

/// The state of the console: two input lines, the blocks of the last reply,
/// whether a request is under way, and a status line.
pub struct ConsoleState {
    input_line1: String,
    input_line2: String,
    response_blocks: Vec<ContentBlock>,
    is_processing: bool,
    status_message: String,
}

impl View for ConsoleState {
    type V = ConsoleView;

    closed spec fn view(&self) -> ConsoleView {
        ConsoleView {
            input_line1: self.input_line1@,
            input_line2: self.input_line2@,
            response_blocks: blocks_view(self.response_blocks@),
            is_processing: self.is_processing,
            status_message: self.status_message@,
        }
    }
}

impl ConsoleState {
    /// The console before any message: empty inputs, no reply, ready.
    pub fn new() -> (r: ConsoleState)
        ensures
            r@ == initial_console(),
    {
        let r = ConsoleState {
            input_line1: String::new(),
            input_line2: String::new(),
            response_blocks: Vec::new(),
            is_processing: false,
            status_message: "Ready".to_owned(),
        };
        proof {
            assert(blocks_view(r.response_blocks@) =~= Seq::<BlockView>::empty());
        }
        r
    }

    /// Takes one message into account and says what the shell must do.
    pub fn update(&mut self, message: Message) -> (r: ConsoleAction)
        ensures
            (final(self)@, r@) == console_step(old(self)@, message),
    {
        match message {
            Message::InputLine1Changed(v) => {
                self.input_line1 = v;
                ConsoleAction::Idle
            },
            Message::InputLine2Changed(v) => {
                self.input_line2 = v;
                ConsoleAction::Idle
            },
            Message::SendRequest => {
                if self.is_processing {
                    return ConsoleAction::Idle;
                }
                let prompt = self.input_line1.as_str().to_owned().concat("\n").concat(
                    self.input_line2.as_str(),
                );
                proof {
                    reveal_strlit("\n");
                    assert(prompt@ =~= prompt_of(old(self)@));
                }
                if trim_text(prompt.as_str()).is_empty() {
                    self.status_message = "Please enter a prompt".to_owned();
                    return ConsoleAction::Idle;
                }
                self.is_processing = true;
                self.status_message = "Processing...".to_owned();
                ConsoleAction::SendPrompt(prompt)
            },
            Message::ResponseReceived(result) => {
                self.is_processing = false;
                match result {
                    Ok(parsed) => {
                        self.response_blocks = parsed.blocks;
                        self.status_message = "Response received".to_owned();
                    },
                    Err(e) => {
                        self.status_message = "Error: ".to_owned().concat(e.as_str());
                    },
                }
                ConsoleAction::Idle
            },
        }
    }

    pub fn input_line1(&self) -> (r: &str)
        ensures
            r@ == self@.input_line1,
    {
        self.input_line1.as_str()
    }

    pub fn input_line2(&self) -> (r: &str)
        ensures
            r@ == self@.input_line2,
    {
        self.input_line2.as_str()
    }

    pub fn response_blocks(&self) -> (r: &Vec<ContentBlock>)
        ensures
            blocks_view(r@) == self@.response_blocks,
    {
        &self.response_blocks
    }

    pub fn is_processing(&self) -> (r: bool)
        ensures
            r == self@.is_processing,
    {
        self.is_processing
    }

    pub fn status_message(&self) -> (r: &str)
        ensures
            r@ == self@.status_message,
    {
        self.status_message.as_str()
    }
}

/// The font size of a title: larger for the first three levels.
pub open spec fn title_size_of(level: u8) -> u16 {
    if level == 1 {
        28
    } else if level == 2 {
        24
    } else if level == 3 {
        20
    } else {
        16
    }
}

/// The font size at which a title of `level` is shown.
pub fn title_size(level: u8) -> (r: u16)
    ensures
        r == title_size_of(level),
{
    match level {
        1 => 28,
        2 => 24,
        3 => 20,
        _ => 16,
    }
}

/// The label above a code block: its language when it has one.
pub fn code_label(language: &Option<String>) -> (r: String)
    ensures
        language matches Some(l) ==> r@ == "Language: "@ + l@,
        language is None ==> r@ == "Code:"@,
{
    match language {
        Some(l) => "Language: ".to_owned().concat(l.as_str()),
        None => "Code:".to_owned(),
    }
}

/// A list item as shown: behind a bullet.
pub fn bullet_item(item: &str) -> (r: String)
    ensures
        r@ == "• "@ + item@,
{
    "• ".to_owned().concat(item)
}

/// A quote as shown: behind an opening quotation mark.
pub fn quoted_text(text: &str) -> (r: String)
    ensures
        r@ == "❝ "@ + text@,
{
    "❝ ".to_owned().concat(text)
}

} // verus!
