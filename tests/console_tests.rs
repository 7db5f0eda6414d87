use vibe_coder::parser::{parse_response, ContentBlock};
use vibe_coder::ui::{bullet_item, code_label, quoted_text, title_size, ConsoleAction, ConsoleState, Message};

#[test]
fn console_starts_ready() {
    let state = ConsoleState::new();
    assert_eq!(state.status_message(), "Ready");
    assert!(!state.is_processing());
    assert_eq!(state.response_blocks().len(), 0);
}

#[test]
fn blank_prompt_is_refused() {
    let mut state = ConsoleState::new();
    state.update(Message::InputLine1Changed("  ".to_string()));
    let action = state.update(Message::SendRequest);
    assert_eq!(action, ConsoleAction::Idle);
    assert_eq!(state.status_message(), "Please enter a prompt");
    assert!(!state.is_processing());
}

#[test]
fn prompt_joins_both_lines_and_waits_for_reply() {
    let mut state = ConsoleState::new();
    state.update(Message::InputLine1Changed("first".to_string()));
    state.update(Message::InputLine2Changed("second".to_string()));
    assert_eq!(state.input_line1(), "first");
    assert_eq!(state.input_line2(), "second");
    let action = state.update(Message::SendRequest);
    assert_eq!(action, ConsoleAction::SendPrompt("first\nsecond".to_string()));
    assert!(state.is_processing());
    assert_eq!(state.status_message(), "Processing...");
    assert_eq!(state.update(Message::SendRequest), ConsoleAction::Idle);

    state.update(Message::ResponseReceived(Ok(parse_response("# Done"))));
    assert!(!state.is_processing());
    assert_eq!(state.status_message(), "Response received");
    assert_eq!(state.response_blocks(), &vec![ContentBlock::Title { level: 1, text: "Done".to_string() }]);

    state.update(Message::ResponseReceived(Err("Provider not configured".to_string())));
    assert_eq!(state.status_message(), "Error: Provider not configured");
    assert_eq!(state.response_blocks().len(), 1);
}

#[test]
fn block_presentation() {
    assert_eq!(title_size(1), 28);
    assert_eq!(title_size(2), 24);
    assert_eq!(title_size(3), 20);
    assert_eq!(title_size(6), 16);
    assert_eq!(code_label(&Some("rust".to_string())), "Language: rust");
    assert_eq!(code_label(&None), "Code:");
    assert_eq!(bullet_item("a"), "• a");
    assert_eq!(quoted_text("q"), "❝ q");
}
