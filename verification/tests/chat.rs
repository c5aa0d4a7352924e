use mining_pool::chat::{sanitize_input, ChatApp, ChatError, ChatEvent, Message, MAX_MESSAGE_LENGTH};

fn text(value: &str) -> String {
    value.to_string()
}

#[test]
fn sanitize_writes_entities_and_breaks() {
    assert_eq!(sanitize_input("plain"), "plain");
    assert_eq!(sanitize_input(""), "");
    assert_eq!(sanitize_input("<"), "&amp;lt;");
    assert_eq!(sanitize_input(">"), "&amp;gt;");
    assert_eq!(sanitize_input("&"), "&amp;");
    assert_eq!(sanitize_input("\n"), "<br>");
    assert_eq!(sanitize_input("a<b>&c\nd"), "a&amp;lt;b&amp;gt;&amp;c<br>d");
}

#[test]
fn sanitize_agrees_with_the_chain_of_replacements() {
    let input = "<<x>> && \n\n é <br>";
    let expected = input
        .replace('<', "&lt;")
        .replace('>', "&gt;")
        .replace('&', "&amp;")
        .replace('\n', "<br>");
    assert_eq!(sanitize_input(input), expected);
}

#[test]
fn messages_are_numbered_in_order() {
    let mut chat = ChatApp::init();
    assert_eq!(chat.len(), 0);
    assert_eq!(chat.send_message(text("ann"), text("hello")), Ok(0));
    assert_eq!(chat.send_message(text("bob"), text("a<b")), Ok(1));
    assert_eq!(chat.send_message(text("ann"), text("")), Ok(2));
    assert_eq!(chat.len(), 3);
    assert_eq!(
        chat.get_all_messages(),
        vec![
            Message { content: text("hello"), sender: text("ann"), sequence: 0 },
            Message { content: text("a&amp;lt;b"), sender: text("bob"), sequence: 1 },
            Message { content: text(""), sender: text("ann"), sequence: 2 },
        ]
    );
}

#[test]
fn a_message_is_announced_as_it_is_kept() {
    let mut chat = ChatApp::init();
    chat.send_message(text("ann"), text("x\ny")).unwrap();
    assert_eq!(
        chat.take_events(),
        vec![ChatEvent::MessageSent { sender: text("ann"), sequence: 0, content: text("x<br>y") }]
    );
    assert!(chat.take_events().is_empty());
    assert_eq!(chat.len(), 1);
}

#[test]
fn a_message_that_is_too_long_is_refused() {
    let mut chat = ChatApp::init();
    let longest = "a".repeat(MAX_MESSAGE_LENGTH);
    let too_long = "a".repeat(MAX_MESSAGE_LENGTH + 1);
    assert_eq!(chat.send_message(text("ann"), too_long), Err(ChatError::MessageTooLong));
    assert_eq!(chat.len(), 0);
    assert!(chat.take_events().is_empty());
    assert_eq!(chat.send_message(text("ann"), longest), Ok(0));
    assert_eq!(chat.len(), 1);
}

#[test]
fn the_length_of_a_message_is_counted_in_bytes() {
    let mut chat = ChatApp::init();
    let accents = "é".repeat(141);
    assert_eq!(accents.chars().count(), 141);
    assert_eq!(chat.send_message(text("ann"), accents), Err(ChatError::MessageTooLong));
    assert_eq!(chat.send_message(text("ann"), "é".repeat(140)), Ok(0));
}

#[test]
fn the_length_is_checked_before_the_content_is_rewritten() {
    let mut chat = ChatApp::init();
    assert_eq!(chat.send_message(text("ann"), "<".repeat(280)), Ok(0));
    assert_eq!(chat.get_all_messages()[0].content, "&amp;lt;".repeat(280));
}

#[test]
fn a_copy_of_a_message_equals_it() {
    let message = Message { content: text("hello"), sender: text("ann"), sequence: 4 };
    assert_eq!(message.duplicate(), message);
}
