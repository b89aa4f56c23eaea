//! Conversation-related types.

use vstd::prelude::*;

use crate::model::{MessageView, ModelMessage};

verus! {

/// Who produced a transcript line.
#[derive(Clone, Copy, Debug, PartialEq, Eq, Structural)]
pub enum TranscriptSource {
    /// The line is a user input.
    User,
    /// The line is part of an assistant reply.
    Assistant,
}

impl TranscriptSource {
    /// Returns whether the line came from the assistant.
    pub fn is_assistant(&self) -> (r: bool)
        ensures
            r == (*self == TranscriptSource::Assistant),
    {
        match self {
            TranscriptSource::Assistant => true,
            TranscriptSource::User => false,
        }
    }
}

/// An item in the conversation: a model-facing message paired with its
/// human-readable transcript. The transcript alone is not enough to
/// reconstruct the message (an opaque message carries provider-specific
/// structure that plain text cannot hold).
pub struct Item {
    /// The model-facing message.
    pub msg: ModelMessage,
    /// The human-readable transcript of the message.
    pub transcript: String,
}

/// Mathematical view of an [`Item`].
#[verifier::ext_equal]
pub struct ItemView {
    pub msg: MessageView,
    pub transcript: Seq<char>,
}

impl View for Item {
    type V = ItemView;

    open spec fn view(&self) -> ItemView {
        ItemView { msg: self.msg@, transcript: self.transcript@ }
    }
}

impl DeepView for Item {
    type V = ItemView;

    open spec fn deep_view(&self) -> ItemView {
        self.view()
    }
}

impl Item {
    /// Returns the transcript of this item.
    pub fn transcript(&self) -> (r: &str)
        ensures
            r@ == self@.transcript,
    {
        self.transcript.as_str()
    }
}

impl Clone for Item {
    fn clone(&self) -> (r: Self)
        ensures
            r@ == self@,
    {
        Item { msg: self.msg.clone(), transcript: self.transcript.clone() }
    }
}

/// Represents a conversation: an ordered, append-only sequence of items.
pub struct Conversation {
    /// The items of the conversation, oldest first.
    pub items: Vec<Item>,
}

impl View for Conversation {
    type V = Seq<ItemView>;

    open spec fn view(&self) -> Seq<ItemView> {
        self.items.deep_view()
    }
}

impl DeepView for Conversation {
    type V = Seq<ItemView>;

    open spec fn deep_view(&self) -> Seq<ItemView> {
        self.view()
    }
}

impl Conversation {
    /// Creates an empty conversation.
    pub fn new() -> (r: Self)
        ensures
            r@ == Seq::<ItemView>::empty(),
    {
        let items: Vec<Item> = Vec::new();
        Conversation { items }
    }

    /// The number of items in the conversation.
    pub fn len(&self) -> (n: usize)
        ensures
            n == self@.len(),
    {
        self.items.len()
    }
}

impl Default for Conversation {
    fn default() -> (r: Self)
        ensures
            r@ == Seq::<ItemView>::empty(),
    {
        Conversation::new()
    }
}

impl Clone for Conversation {
    fn clone(&self) -> (r: Self)
        ensures
            r@ == self@,
    {
        let mut items: Vec<Item> = Vec::new();
        let mut i: usize = 0;
        while i < self.items.len()
            invariant
                i <= self.items.len(),
                items.deep_view() == self.items.deep_view().take(i as int),
            decreases self.items.len() - i,
        {
            let ghost prev = items.deep_view();
            let item_clone = self.items[i].clone();
            proof {
                assert(item_clone.deep_view() == self.items.deep_view()[i as int]);
            }
            items.push(item_clone);
            proof {
                assert(items.deep_view() =~~= prev.push(self.items.deep_view()[i as int]));
                assert(items.deep_view() =~~= self.items.deep_view().take(i + 1 as int));
            }
            i = i + 1;
        }
        proof {
            assert(self.items.deep_view().take(self.items.len() as int) =~~= self.items.deep_view());
        }
        Conversation { items }
    }
}

} // verus!
