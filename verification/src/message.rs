//! Messages: the entries of a thread.

use vstd::prelude::*;
use crate::clock::now_millis;
use crate::content::{Content, ContentView};
use crate::id::{is_random_id, new_id};

verus! {

/// One entry of a thread.
#[derive(Debug, PartialEq, Eq)]
pub struct Message {
    /// Assigned at creation and never changed.
    pub id: u128,
    /// The thread that owns the message; never changed.
    pub thread_id: u128,
    pub role: String,
    pub content: Content,
    /// Milliseconds since the Unix epoch at creation; never changed.
    pub created_at: u64,
}

/// The mathematical value of a [`Message`].
pub struct MessageView {
    pub id: u128,
    pub thread_id: u128,
    pub role: Seq<char>,
    pub content: ContentView,
    pub created_at: u64,
}

impl View for Message {
    type V = MessageView;

    open spec fn view(&self) -> MessageView {
        MessageView {
            id: self.id,
            thread_id: self.thread_id,
            role: self.role@,
            content: self.content@,
            created_at: self.created_at,
        }
    }
}

impl MessageView {
    /// The message with its content replaced and nothing else changed.
    pub open spec fn with_content(self, content: ContentView) -> MessageView {
        MessageView { content, ..self }
    }
}

impl Clone for Message {
    fn clone(&self) -> (r: Self)
        ensures
            r@ == self@,
    {
        Message {
            id: self.id,
            thread_id: self.thread_id,
            role: self.role.clone(),
            content: self.content.clone(),
            created_at: self.created_at,
        }
    }
}

impl Message {
    /// The identifier of the message.
    pub fn id(&self) -> (id: u128)
        ensures
            id == self@.id,
    {
        self.id
    }

    /// Replaces the content; identifier, owner, role and creation time stay.
    pub fn update_content(&mut self, new_content: UpdateMessage)
        ensures
            final(self)@ == old(self)@.with_content(new_content.content@),
    {
        self.content = new_content.content;
    }

    /// Milliseconds since the Unix epoch at which the message was created.
    pub fn created_at(&self) -> (t: u64)
        ensures
            t == self@.created_at,
    {
        self.created_at
    }

    /// The content as text, one piece per line.
    pub fn to_string(&self) -> (r: String)
        ensures
            r@ == self@.content.shown(),
    {
        self.content.to_string()
    }
}

/// What a caller supplies to create a message.
#[derive(Debug, PartialEq, Eq)]
pub struct CreateMessage {
    pub role: String,
    pub content: Content,
}

impl CreateMessage {
    /// The message that this input creates in `thread_id` under the given
    /// identifier and creation time.
    pub open spec fn message(self, thread_id: u128, id: u128, created_at: u64) -> MessageView {
        MessageView { id, thread_id, role: self.role@, content: self.content@, created_at }
    }

    /// Creates the message in `thread_id` under a fresh random identifier,
    /// stamped with the current time.
    pub fn into_message(self, thread_id: u128) -> (r: Message)
        ensures
            is_random_id(r.id),
            r@ == self.message(thread_id, r.id, r.created_at),
    {
        let id = new_id();
        let created_at = now_millis();
        self.into_message_at(thread_id, id, created_at)
    }

    /// Creates the message in `thread_id` under the given identifier and
    /// creation time.
    pub fn into_message_at(self, thread_id: u128, id: u128, created_at: u64) -> (r: Message)
        ensures
            r@ == self.message(thread_id, id, created_at),
    {
        Message { id, thread_id, role: self.role, content: self.content, created_at }
    }
}

/// What a caller supplies to change a message.
#[derive(Debug, PartialEq, Eq)]
pub struct UpdateMessage {
    pub content: Content,
}

/// One page of a thread's messages, with the bounds that produced it.
#[derive(Debug, PartialEq, Eq)]
pub struct ThreadMessagesResponse {
    pub messages: Vec<Message>,
    /// How many messages the thread holds, whatever the page.
    pub total: usize,
    pub offset: usize,
    pub limit: usize,
}

/// The values of a list of messages, in order.
pub open spec fn messages_view(items: Seq<Message>) -> Seq<MessageView> {
    Seq::new(items.len(), |i: int| items[i]@)
}

/// The mathematical value of a [`ThreadMessagesResponse`].
pub struct ThreadMessagesResponseView {
    pub messages: Seq<MessageView>,
    pub total: usize,
    pub offset: usize,
    pub limit: usize,
}

impl View for ThreadMessagesResponse {
    type V = ThreadMessagesResponseView;

    open spec fn view(&self) -> ThreadMessagesResponseView {
        ThreadMessagesResponseView {
            messages: messages_view(self.messages@),
            total: self.total,
            offset: self.offset,
            limit: self.limit,
        }
    }
}

} // verus!
