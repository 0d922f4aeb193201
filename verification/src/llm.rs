//! Chat messages exchanged with the language model, and its responses.

use vstd::prelude::*;

use crate::ids::opt_text;

verus! {

/// One part of a user message.
#[derive(Debug, Clone)]
pub enum ContentPart {
    Text { text: String },
    ImageBase64 { media_type: String, data: String },
}

/// A system instruction; `cache` asks the provider to cache the prompt prefix.
#[derive(Debug, Clone)]
pub struct SystemMessage {
    pub content: String,
    pub cache: bool,
}

/// A user turn made of text and image parts.
#[derive(Debug, Clone)]
pub struct UserMessage {
    pub content: Vec<ContentPart>,
}

/// A model turn.
#[derive(Debug, Clone)]
pub struct AssistantMessage {
    pub content: String,
}

/// One message of a chat prompt.
#[derive(Debug, Clone)]
pub enum ChatMessage {
    System(SystemMessage),
    User(UserMessage),
    Assistant(AssistantMessage),
}

/// A part by its characters.
pub enum PartView {
    Text(Seq<char>),
    Image(Seq<char>, Seq<char>),
}

/// A message by its characters.
pub enum MessageView {
    System(Seq<char>, bool),
    User(Seq<PartView>),
    Assistant(Seq<char>),
}

impl View for ContentPart {
    type V = PartView;

    open spec fn view(&self) -> PartView {
        match self {
            ContentPart::Text { text } => PartView::Text(text@),
            ContentPart::ImageBase64 { media_type, data } => PartView::Image(media_type@, data@),
        }
    }
}

impl View for ChatMessage {
    type V = MessageView;

    open spec fn view(&self) -> MessageView {
        match self {
            ChatMessage::System(m) => MessageView::System(m.content@, m.cache),
            ChatMessage::User(m) => MessageView::User(m.content@.map_values(|p: ContentPart| p@)),
            ChatMessage::Assistant(m) => MessageView::Assistant(m.content@),
        }
    }
}

impl ChatMessage {
    /// A system message.
    pub fn system(content: String) -> (m: Self)
        ensures
            m@ == MessageView::System(content@, false),
    {
        ChatMessage::System(SystemMessage { content, cache: false })
    }

    /// A system message whose prompt prefix the provider may cache.
    pub fn system_cached(content: String) -> (m: Self)
        ensures
            m@ == MessageView::System(content@, true),
    {
        ChatMessage::System(SystemMessage { content, cache: true })
    }

    /// A user message holding one text part.
    pub fn user_text(content: String) -> (m: Self)
        ensures
            m@ == MessageView::User(seq![PartView::Text(content@)]),
    {
        let mut parts: Vec<ContentPart> = Vec::new();
        let ghost t = content@;
        parts.push(ContentPart::Text { text: content });
        let m = ChatMessage::User(UserMessage { content: parts });
        assert(m@ matches MessageView::User(ps) && ps =~= seq![PartView::Text(t)]);
        m
    }

    /// A user message made of the given parts.
    pub fn user_parts(parts: Vec<ContentPart>) -> (m: Self)
        ensures
            m@ == MessageView::User(parts@.map_values(|p: ContentPart| p@)),
    {
        ChatMessage::User(UserMessage { content: parts })
    }

    /// A model turn holding `content`.
    pub fn assistant_text(content: String) -> (m: Self)
        ensures
            m@ == MessageView::Assistant(content@),
    {
        ChatMessage::Assistant(AssistantMessage { content })
    }
}

/// The opaque JSON value an action receives as parameters (`serde_json::Value`).
#[verifier::external_type_specification]
#[verifier::external_body]
pub struct ExJsonValue(serde_json::Value);

/// `Clone` for `serde_json::Value` (derived there). Trusted: the copy equals the value cloned.
pub assume_specification[ <serde_json::Value as Clone>::clone ](v: &serde_json::Value) -> (res: serde_json::Value)
    ensures
        res == *v,
;

/// A tool call the model requested through the provider's native tool API.
#[derive(Debug, Clone)]
pub struct ToolCall {
    pub name: String,
    pub arguments: serde_json::Value,
}

/// What the model answered.
#[derive(Debug, Clone)]
pub struct ChatResponse {
    pub content: Option<String>,
    pub tool_calls: Vec<ToolCall>,
    pub model: String,
}


} // verus!
