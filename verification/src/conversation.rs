//! A multi-turn conversation: an ordered list of user and assistant messages.
use vstd::prelude::*;
use vstd::std_specs::cmp::PartialEqSpecImpl;
use vstd::string::StringExecFns;

verus! {

/// Who wrote a message.
#[derive(Debug, Clone, Copy, PartialEq, Eq, Structural)]
pub enum Role {
    User,
    Assistant,
}

/// One message of a conversation.
#[derive(Debug)]
pub struct Message {
    pub role: Role,
    pub content: String,
}

impl View for Message {
    type V = (Role, Seq<char>);

    open spec fn view(&self) -> (Role, Seq<char>) {
        (self.role, self.content@)
    }
}

/// The views of a sequence of messages.
pub open spec fn message_views(s: Seq<Message>) -> Seq<(Role, Seq<char>)> {
    s.map_values(|m: Message| m@)
}

impl Message {
    /// A message from the user.
    pub fn user(content: &str) -> (r: Message)
        ensures
            r@ == (Role::User, content@),
    {
        Message { role: Role::User, content: String::from_str(content) }
    }

    /// A message from the assistant.
    pub fn assistant(content: &str) -> (r: Message)
        ensures
            r@ == (Role::Assistant, content@),
    {
        Message { role: Role::Assistant, content: String::from_str(content) }
    }
}

impl Clone for Message {
    fn clone(&self) -> (r: Self)
        ensures
            r@ == self@,
    {
        Message { role: self.role, content: self.content.clone() }
    }
}

/// The messages of a conversation, oldest first.
#[derive(Debug)]
pub struct Conversation {
    messages: Vec<Message>,
}

impl View for Conversation {
    type V = Seq<(Role, Seq<char>)>;

    closed spec fn view(&self) -> Seq<(Role, Seq<char>)> {
        message_views(self.messages@)
    }
}

/// Where the last `n` of `len` messages start.
pub open spec fn recent_start(len: nat, n: nat) -> nat {
    if n >= len {
        0
    } else {
        (len - n) as nat
    }
}

impl Conversation {
    /// An empty conversation.
    pub fn new() -> (r: Conversation)
        ensures
            r@ == Seq::<(Role, Seq<char>)>::empty(),
    {
        let r = Conversation { messages: Vec::new() };
        proof {
            assert(r@ =~= Seq::<(Role, Seq<char>)>::empty());
        }
        r
    }

    /// Appends a message from the user.
    pub fn push_user(&mut self, content: &str)
        ensures
            final(self)@ == old(self)@.push((Role::User, content@)),
    {
        self.messages.push(Message::user(content));
        proof {
            assert(self@ =~= old(self)@.push((Role::User, content@)));
        }
    }

    /// Appends a message from the assistant.
    pub fn push_assistant(&mut self, content: &str)
        ensures
            final(self)@ == old(self)@.push((Role::Assistant, content@)),
    {
        self.messages.push(Message::assistant(content));
        proof {
            assert(self@ =~= old(self)@.push((Role::Assistant, content@)));
        }
    }

    /// All messages, oldest first.
    pub fn messages(&self) -> (r: &[Message])
        ensures
            message_views(r@) == self@,
    {
        self.messages.as_slice()
    }

    pub fn is_empty(&self) -> (r: bool)
        ensures
            r == (self@.len() == 0),
    {
        self.messages.len() == 0
    }

    /// The most recent `n` messages: all of them when `n` is at least the length, none
    /// when `n` is zero.
    pub fn recent(&self, n: usize) -> (r: &[Message])
        ensures
            message_views(r@) == self@.subrange(
                recent_start(self@.len(), n as nat) as int,
                self@.len() as int,
            ),
    {
        let len = self.messages.len();
        let start = if n >= len {
            0
        } else {
            len - n
        };
        let r = &self.messages.as_slice()[start..len];
        proof {
            assert(message_views(r@) =~= self@.subrange(start as int, len as int));
        }
        r
    }
}

impl PartialEq for Message {
    fn eq(&self, other: &Self) -> (r: bool) {
        self.role == other.role && self.content == other.content
    }
}

impl PartialEqSpecImpl for Message {
    open spec fn obeys_eq_spec() -> bool {
        true
    }

    open spec fn eq_spec(&self, other: &Self) -> bool {
        self@ == other@
    }
}

impl Default for Conversation {
    fn default() -> (r: Self)
        ensures
            r@ == Seq::<(Role, Seq<char>)>::empty(),
    {
        Conversation::new()
    }
}

} // verus!
