//! A chat log: messages are checked for length, made safe for display,
//! numbered in the order of their arrival and announced.

use vstd::prelude::*;

verus! {

/// The greatest length of a message, in bytes.
pub const MAX_MESSAGE_LENGTH: usize = 280;

/// Why the chat refused a message.
#[derive(Clone, Copy, Debug, PartialEq, Eq, Structural)]
pub enum ChatError {
    /// The message is longer than `MAX_MESSAGE_LENGTH` bytes.
    MessageTooLong,
}

impl ChatError {
    /// The refusal in words.
    pub open spec fn text(self) -> Seq<char> {
        match self {
            ChatError::MessageTooLong => "Message too long (max 280 characters)"@,
        }
    }

    /// The refusal in words.
    pub fn message(&self) -> (text: &'static str)
        ensures
            text@ == self.text(),
    {
        match self {
            ChatError::MessageTooLong => "Message too long (max 280 characters)",
        }
    }
}

/// `text` with `to` in the place of each `from`.
pub open spec fn replaced(text: Seq<char>, from: char, to: Seq<char>) -> Seq<char>
    decreases text.len(),
{
    if text.len() == 0 {
        Seq::empty()
    } else {
        replaced(text.drop_last(), from, to) + (if text.last() == from {
            to
        } else {
            seq![text.last()]
        })
    }
}

/// `text` made safe for display: `<` and `>` are written as entities, then
/// every `&`, those of the entities too, and at last each line break
/// becomes a tag.
pub open spec fn sanitized(text: Seq<char>) -> Seq<char> {
    let lt = replaced(text, '<', seq!['&', 'l', 't', ';']);
    let gt = replaced(lt, '>', seq!['&', 'g', 't', ';']);
    let amp = replaced(gt, '&', seq!['&', 'a', 'm', 'p', ';']);
    replaced(amp, '\n', seq!['<', 'b', 'r', '>'])
}

/// Replaces a character with `str::replace`.
///
/// Trusted, not proved: the text returned is `text` with `to` in the place
/// of every occurrence of `from`, and the rest as it was.
#[verifier::external_body]
fn replace_char(text: &str, from: char, to: &str) -> (out: String)
    ensures
        out@ == replaced(text@, from, to@),
{
    text.replace(from, to)
}

/// Makes `input` safe for display.
pub fn sanitize_input(input: &str) -> (out: String)
    ensures
        out@ == sanitized(input@),
{
    proof {
        reveal_strlit("&lt;");
        reveal_strlit("&gt;");
        reveal_strlit("&amp;");
        reveal_strlit("<br>");
        assert("&lt;"@ =~= seq!['&', 'l', 't', ';']);
        assert("&gt;"@ =~= seq!['&', 'g', 't', ';']);
        assert("&amp;"@ =~= seq!['&', 'a', 'm', 'p', ';']);
        assert("<br>"@ =~= seq!['<', 'b', 'r', '>']);
    }
    let lt = replace_char(input, '<', "&lt;");
    let gt = replace_char(lt.as_str(), '>', "&gt;");
    let amp = replace_char(gt.as_str(), '&', "&amp;");
    replace_char(amp.as_str(), '\n', "<br>")
}

/// A message, as contracts see it.
#[verifier::ext_equal]
pub struct MessageView {
    pub content: Seq<char>,
    pub sender: Seq<char>,
    pub sequence: u64,
}

/// A message of the log.
#[derive(Clone, Debug, PartialEq, Eq)]
pub struct Message {
    pub content: String,
    pub sender: String,
    pub sequence: u64,
}

impl View for Message {
    type V = MessageView;

    open spec fn view(&self) -> MessageView {
        MessageView { content: self.content@, sender: self.sender@, sequence: self.sequence }
    }
}

impl Message {
    /// A copy of the message.
    pub fn duplicate(&self) -> (copy: Message)
        ensures
            copy@ == self@,
    {
        Message {
            content: self.content.clone(),
            sender: self.sender.clone(),
            sequence: self.sequence,
        }
    }
}

/// An announcement of the chat, as contracts see it.
#[verifier::ext_equal]
pub enum ChatEventView {
    MessageSent { sender: Seq<char>, sequence: u64, content: Seq<char> },
}

/// What the chat announces.
#[derive(Clone, Debug, PartialEq, Eq)]
pub enum ChatEvent {
    /// A message was taken into the log.
    MessageSent { sender: String, sequence: u64, content: String },
}

impl View for ChatEvent {
    type V = ChatEventView;

    open spec fn view(&self) -> ChatEventView {
        match *self {
            ChatEvent::MessageSent { sender, sequence, content } => ChatEventView::MessageSent {
                sender: sender@,
                sequence,
                content: content@,
            },
        }
    }
}

/// The views of `messages`, one for one.
pub open spec fn message_views(messages: Seq<Message>) -> Seq<MessageView> {
    messages.map_values(|message: Message| message@)
}

/// The views of `events`, one for one.
pub open spec fn chat_event_views(events: Seq<ChatEvent>) -> Seq<ChatEventView> {
    events.map_values(|event: ChatEvent| event@)
}

/// The chat as contracts see it.
#[verifier::ext_equal]
pub struct ChatView {
    /// The messages, oldest first.
    pub messages: Seq<MessageView>,
    /// What was announced and not yet taken for delivery, oldest first.
    pub events: Seq<ChatEventView>,
}

impl ChatView {
    /// A chat without messages.
    pub open spec fn empty() -> ChatView {
        ChatView { messages: Seq::empty(), events: Seq::empty() }
    }

    /// Each message carries its place in the log as its sequence number.
    pub open spec fn wf(self) -> bool {
        forall|i: int| 0 <= i < self.messages.len() ==> self.messages[i].sequence == i
    }

    /// The chat after `sender` has sent `content`.
    pub open spec fn send_message(self, sender: Seq<char>, content: Seq<char>) -> ChatView {
        let sequence = self.messages.len() as u64;
        ChatView {
            messages: self.messages.push(
                MessageView { content: sanitized(content), sender, sequence },
            ),
            events: self.events.push(
                ChatEventView::MessageSent { sender, sequence, content: sanitized(content) },
            ),
        }
    }
}

/// The chat log.
pub struct ChatApp {
    messages: Vec<Message>,
    message_sequence: u64,
    events: Vec<ChatEvent>,
}

impl View for ChatApp {
    type V = ChatView;

    closed spec fn view(&self) -> ChatView {
        ChatView {
            messages: message_views(self.messages@),
            events: chat_event_views(self.events@),
        }
    }
}

impl ChatApp {
    #[verifier::type_invariant]
    spec fn sound(self) -> bool {
        self@.wf() && self.message_sequence == self.messages@.len()
    }

    /// A chat without messages.
    pub fn init() -> (chat: ChatApp)
        ensures
            chat@ == ChatView::empty(),
            chat@.wf(),
    {
        ChatApp { messages: Vec::new(), message_sequence: 0, events: Vec::new() }
    }

    /// Moves the chat out and leaves an empty one in its place, so that its
    /// parts can be changed together.
    fn take(&mut self) -> (taken: ChatApp)
        ensures
            taken@ == old(self)@,
            taken@.wf(),
            taken.message_sequence == taken@.messages.len(),
    {
        proof {
            use_type_invariant(&*self);
        }
        let mut taken = ChatApp::init();
        std::mem::swap(self, &mut taken);
        taken
    }

    /// Takes a message of `sender` into the log and announces it. The
    /// content is kept as `sanitize_input` writes it. Returns the sequence
    /// number of the message: its place in the log. A content of more than
    /// `MAX_MESSAGE_LENGTH` bytes is refused and changes nothing.
    pub fn send_message(&mut self, sender: String, content: String) -> (result: Result<
        u64,
        ChatError,
    >)
        ensures
            vstd::utf8::encode_utf8(content@).len() > MAX_MESSAGE_LENGTH ==> result == Err::<
                u64,
                ChatError,
            >(ChatError::MessageTooLong) && final(self)@ == old(self)@,
            vstd::utf8::encode_utf8(content@).len() <= MAX_MESSAGE_LENGTH ==> result == Ok::<
                u64,
                ChatError,
            >(old(self)@.messages.len() as u64) && final(self)@ == old(self)@.send_message(
                sender@,
                content@,
            ),
            final(self)@.wf(),
    {
        proof {
            use_type_invariant(&*self);
        }
        if content.as_str().as_bytes().len() > MAX_MESSAGE_LENGTH {
            return Err(ChatError::MessageTooLong);
        }
        let ghost before = self@;
        let ChatApp { messages, message_sequence, events } = self.take();
        let mut messages = messages;
        let mut events = events;
        let sequence: u64 = message_sequence;
        let clean = sanitize_input(content.as_str());
        let message = Message { content: clean.clone(), sender: sender.clone(), sequence };
        let announced = ChatEvent::MessageSent { sender, sequence, content: clean };
        proof {
            assert(message_views(messages@.push(message)) =~= before.messages.push(message@));
        }
        messages.push(message);
        events.push(announced);
        // The log has grown by one, so the next number is its length.
        let next: u64 = messages.len() as u64;
        *self = ChatApp { messages, message_sequence: next, events };
        Ok(sequence)
    }

    /// How many messages the log holds.
    pub fn len(&self) -> (count: usize)
        ensures
            count == self@.messages.len(),
    {
        self.messages.len()
    }

    /// All messages, oldest first.
    pub fn get_all_messages(&self) -> (all: Vec<Message>)
        ensures
            message_views(all@) == self@.messages,
    {
        let mut all: Vec<Message> = Vec::new();
        let mut i: usize = 0;
        while i < self.messages.len()
            invariant
                i <= self.messages.len(),
                message_views(all@) == self@.messages.take(i as int),
            decreases self.messages.len() - i,
        {
            let copy = self.messages[i].duplicate();
            proof {
                assert(message_views(all@.push(copy)) =~= self@.messages.take(i as int).push(
                    copy@,
                ));
            }
            all.push(copy);
            i += 1;
        }
        all
    }

    /// Hands over what the chat has announced since the last call, oldest
    /// first, and empties the outbox.
    pub fn take_events(&mut self) -> (events: Vec<ChatEvent>)
        ensures
            chat_event_views(events@) == old(self)@.events,
            final(self)@ == (ChatView { events: Seq::empty(), ..old(self)@ }),
            final(self)@.wf(),
    {
        let ChatApp { messages, message_sequence, events } = self.take();
        *self = ChatApp { messages, message_sequence, events: Vec::new() };
        events
    }
}

} // verus!
