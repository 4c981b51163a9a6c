//! The conversation store: role-tagged messages plus the request parameters
//! of one session.
//!
//! Sampling parameters (temperature, top-p, the two penalties) are held in
//! thousandths, so that the whole record stays in integers; the wire format
//! carries them as decimal numbers and the boundary converts.

use vstd::prelude::*;

verus! {

/// Who authored a message.
#[derive(Clone, Copy, Debug, PartialEq, Eq, Structural)]
pub enum Role {
    User,
    System,
    Assistant,
}

/// One committed message of the conversation.
#[derive(Debug)]
pub struct ChatMessage {
    pub role: Role,
    pub content: String,
}

/// An incremental message as the server reports it: both parts optional.
#[derive(Debug)]
pub struct ResponseChatMessage {
    pub role: Option<Role>,
    pub content: Option<String>,
}

/// The mathematical value of a [`ChatMessage`].
pub struct MessageView {
    pub role: Role,
    pub content: Seq<char>,
}

/// The mathematical value of a [`ResponseChatMessage`].
pub struct ResponseMessageView {
    pub role: Option<Role>,
    pub content: Option<Seq<char>>,
}

impl View for ChatMessage {
    type V = MessageView;

    open spec fn view(&self) -> MessageView {
        MessageView { role: self.role, content: self.content@ }
    }
}

impl View for ResponseChatMessage {
    type V = ResponseMessageView;

    open spec fn view(&self) -> ResponseMessageView {
        ResponseMessageView {
            role: self.role,
            content: match self.content {
                Some(ref c) => Some(c@),
                None => None,
            },
        }
    }
}

impl Clone for ChatMessage {
    fn clone(&self) -> (r: Self)
        ensures
            r@ == self@,
    {
        ChatMessage { role: self.role, content: self.content.clone() }
    }
}

impl Clone for ResponseChatMessage {
    fn clone(&self) -> (r: Self)
        ensures
            r@ == self@,
    {
        ResponseChatMessage {
            role: self.role,
            content: match self.content {
                Some(ref c) => Some(c.clone()),
                None => None,
            },
        }
    }
}

impl Default for ResponseChatMessage {
    /// The empty accumulator: no role seen, no content seen.
    fn default() -> (r: Self)
        ensures
            r@.role is None,
            r@.content is None,
    {
        ResponseChatMessage { role: None, content: None }
    }
}

/// One session's whole request record: the conversation and the sampling
/// parameters that are sent with it.
#[derive(Debug)]
pub struct Chat {
    pub model: String,
    pub messages: Vec<ChatMessage>,
    /// Sampling temperature, in thousandths.
    pub temperature: Option<i64>,
    /// Nucleus-sampling share, in thousandths.
    pub top_p: Option<i64>,
    /// How many choices the server is asked for.
    pub n: Option<u32>,
    /// Whether the reply is streamed; this engine always sets it.
    pub stream: Option<bool>,
    /// Sequences at which the server stops generating.
    pub stop: Option<Vec<String>>,
    /// Upper bound on generated tokens; unset means the server's default.
    pub max_tokens: Option<u32>,
    /// Presence penalty, in thousandths.
    pub presence_penalty: Option<i64>,
    /// Frequency penalty, in thousandths.
    pub frequency_penalty: Option<i64>,
}

/// The mathematical value of a [`Chat`].
pub struct ChatView {
    pub model: Seq<char>,
    pub messages: Seq<MessageView>,
    pub temperature: Option<i64>,
    pub top_p: Option<i64>,
    pub n: Option<u32>,
    pub stream: Option<bool>,
    pub stop: Option<Seq<Seq<char>>>,
    pub max_tokens: Option<u32>,
    pub presence_penalty: Option<i64>,
    pub frequency_penalty: Option<i64>,
}

impl View for Chat {
    type V = ChatView;

    open spec fn view(&self) -> ChatView {
        ChatView {
            model: self.model@,
            messages: Seq::new(self.messages@.len(), |i: int| self.messages@[i]@),
            temperature: self.temperature,
            top_p: self.top_p,
            n: self.n,
            stream: self.stream,
            stop: match self.stop {
                Some(ref ss) => Some(Seq::new(ss@.len(), |i: int| ss@[i]@)),
                None => None,
            },
            max_tokens: self.max_tokens,
            presence_penalty: self.presence_penalty,
            frequency_penalty: self.frequency_penalty,
        }
    }
}

impl ChatView {
    /// Everything but the message list, compared field by field.
    pub open spec fn same_settings(self, other: ChatView) -> bool {
        &&& self.model == other.model
        &&& self.temperature == other.temperature
        &&& self.top_p == other.top_p
        &&& self.n == other.n
        &&& self.stream == other.stream
        &&& self.stop == other.stop
        &&& self.max_tokens == other.max_tokens
        &&& self.presence_penalty == other.presence_penalty
        &&& self.frequency_penalty == other.frequency_penalty
    }

    /// A conversation is well formed when the only place a system message
    /// may stand is the front.
    pub open spec fn wf(self) -> bool {
        forall|i: int| 1 <= i < self.messages.len() ==> (#[trigger] self.messages[i]).role != Role::System
    }

    /// Whether the conversation opens with a system message.
    pub open spec fn has_system_message(self) -> bool {
        self.messages.len() > 0 && self.messages[0].role == Role::System
    }
}

impl Chat {
    /// A fresh record for the given model: streaming on, one choice,
    /// neutral sampling, no messages.
    pub fn new(model: String) -> (r: Chat)
        ensures
            r@.model == model@,
            r@.messages == Seq::<MessageView>::empty(),
            r@.temperature == Some(1000int as i64),
            r@.top_p == Some(1000int as i64),
            r@.n == Some(1u32),
            r@.stream == Some(true),
            r@.stop is None,
            r@.max_tokens is None,
            r@.presence_penalty == Some(0int as i64),
            r@.frequency_penalty == Some(0int as i64),
            r@.wf(),
    {
        Chat {
            model,
            messages: Vec::new(),
            temperature: Some(1000),
            top_p: Some(1000),
            n: Some(1),
            stream: Some(true),
            stop: None,
            max_tokens: None,
            presence_penalty: Some(0),
            frequency_penalty: Some(0),
        }
    }

    /// Appends a message at the back of the conversation.
    pub fn append(&mut self, message: ChatMessage)
        ensures
            final(self)@.messages == old(self)@.messages.push(message@),
            final(self)@.same_settings(old(self)@),
    {
        let ghost pre = self@;
        self.messages.push(message);
        proof {
            assert(self@.messages =~= pre.messages.push(self.messages@.last()@));
        }
    }

    /// Removes and returns the last message; on an empty conversation it
    /// returns nothing and changes nothing.
    pub fn remove_last(&mut self) -> (r: Option<ChatMessage>)
        ensures
            old(self)@.messages.len() == 0 ==> r is None && final(self)@ == old(self)@,
            old(self)@.messages.len() > 0 ==> {
                &&& r matches Some(m) && m@ == old(self)@.messages.last()
                &&& final(self)@.messages == old(self)@.messages.drop_last()
                &&& final(self)@.same_settings(old(self)@)
            },
    {
        let ghost pre = self@;
        if self.messages.len() == 0 {
            proof {
                assert(self@ =~= pre);
            }
            None
        } else {
            let m = self.messages.pop().unwrap();
            proof {
                assert(self@.messages =~= pre.messages.drop_last());
            }
            Some(m)
        }
    }

    /// Empties the conversation; the parameters stay.
    pub fn clear(&mut self)
        ensures
            final(self)@.messages == Seq::<MessageView>::empty(),
            final(self)@.same_settings(old(self)@),
    {
        self.messages.clear();
        proof {
            assert(self@.messages =~= Seq::<MessageView>::empty());
        }
    }

    /// Reads the leading system message, if there is one.
    pub fn get_system_message(&self) -> (r: Option<String>)
        ensures
            match r {
                Some(s) => self@.has_system_message() && s@ == self@.messages[0].content,
                None => !self@.has_system_message(),
            },
    {
        if self.messages.len() > 0 {
            let first = &self.messages[0];
            if first.role == Role::System {
                return Some(first.content.clone());
            }
        }
        None
    }

    /// Sets, replaces or removes the leading system message.  Handing a
    /// text in updates the front message when it is a system message and
    /// inserts one at the front otherwise; handing nothing in removes the
    /// front message only when it is a system message, so a leading user
    /// message is never dropped.
    pub fn set_system_message(&mut self, system_message: Option<String>)
        ensures
            final(self)@.same_settings(old(self)@),
            match system_message {
                Some(s) => {
                    let m = MessageView { role: Role::System, content: s@ };
                    if old(self)@.has_system_message() {
                        final(self)@.messages == old(self)@.messages.update(0, m)
                    } else {
                        final(self)@.messages == seq![m] + old(self)@.messages
                    }
                },
                None => {
                    if old(self)@.has_system_message() {
                        final(self)@.messages == old(self)@.messages.skip(1)
                    } else {
                        final(self)@ == old(self)@
                    }
                },
            },
            old(self)@.wf() ==> final(self)@.wf(),
    {
        let ghost pre = self@;
        let has_system = self.messages.len() > 0 && self.messages[0].role == Role::System;
        match system_message {
            Some(s) => {
                let m = ChatMessage { role: Role::System, content: s };
                if has_system {
                    self.messages.set(0, m);
                    proof {
                        assert(self@.messages =~= pre.messages.update(0, m@));
                    }
                } else {
                    self.messages.insert(0, m);
                    proof {
                        assert(self@.messages =~= seq![m@] + pre.messages);
                    }
                }
            },
            None => {
                if has_system {
                    self.messages.remove(0);
                    proof {
                        assert(self@.messages =~= pre.messages.skip(1));
                    }
                } else {
                    proof {
                        assert(self@ =~= pre);
                    }
                }
            },
        }
    }

    /// A whole-record copy for concurrent readers.
    pub fn snapshot(&self) -> (r: Chat)
        ensures
            r@ == self@,
    {
        let mut messages: Vec<ChatMessage> = Vec::new();
        let mut i: usize = 0;
        while i < self.messages.len()
            invariant
                i <= self.messages@.len(),
                messages@.len() == i,
                forall|j: int| 0 <= j < i ==> (#[trigger] messages@[j])@ == self.messages@[j]@,
            decreases self.messages@.len() - i,
        {
            messages.push(self.messages[i].clone());
            i += 1;
        }
        let stop = match self.stop {
            Some(ref ss) => {
                let mut out: Vec<String> = Vec::new();
                let mut k: usize = 0;
                while k < ss.len()
                    invariant
                        k <= ss@.len(),
                        out@.len() == k,
                        forall|j: int| 0 <= j < k ==> (#[trigger] out@[j])@ == ss@[j]@,
                    decreases ss@.len() - k,
                {
                    out.push(ss[k].clone());
                    k += 1;
                }
                Some(out)
            },
            None => None,
        };
        let r = Chat {
            model: self.model.clone(),
            messages,
            temperature: self.temperature,
            top_p: self.top_p,
            n: self.n,
            stream: self.stream,
            stop,
            max_tokens: self.max_tokens,
            presence_penalty: self.presence_penalty,
            frequency_penalty: self.frequency_penalty,
        };
        proof {
            assert(r@.messages =~= self@.messages);
            match r.stop {
                Some(ref ss) => {
                    assert(r@.stop->0 =~= self@.stop->0);
                },
                None => {},
            }
            assert(r@ =~= self@);
        }
        r
    }
}

} // verus!
