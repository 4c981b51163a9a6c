//! The generation controller: exactly one in-flight generation per
//! session, folded event by event into a single pending slot, and
//! committed into the conversation only on normal termination with
//! content.
//!
//! The asynchronous plumbing around it — sending the request, reading the
//! body, the hand-off channel — lives outside; the controller is the
//! state machine those parts drive.  Every transition is given by
//! [`spec_step`], so what a whole stream of events does is one fold.

use vstd::prelude::*;

use crate::codec::{chat_to_json, spec_print_chat};
use crate::events::{GenerateError, GenerateErrorView, ProtocolEvent, ProtocolEventView};
use crate::session::{Chat, ChatMessage, ChatView, MessageView, ResponseChatMessage,
    ResponseMessageView, Role};
use crate::transport::{chat_url, spec_chat_url, ApiRequest};

verus! {

use vstd::string::StringExecFns;

/// The single pending slot: nothing in flight, an accumulating partial
/// reply, or a recorded terminal error awaiting a retry.
#[derive(Debug)]
pub enum PendingGenerate {
    Idle,
    Streaming(ResponseChatMessage),
    Failed(GenerateError),
}

/// The mathematical value of a [`PendingGenerate`].
pub enum PendingView {
    Idle,
    Streaming(ResponseMessageView),
    Failed(GenerateErrorView),
}

impl View for PendingGenerate {
    type V = PendingView;

    open spec fn view(&self) -> PendingView {
        match self {
            PendingGenerate::Idle => PendingView::Idle,
            PendingGenerate::Streaming(acc) => PendingView::Streaming(acc@),
            PendingGenerate::Failed(e) => PendingView::Failed(e@),
        }
    }
}

/// A stand-alone blank-line fragment, as the backend has been seen to
/// emit them.
pub open spec fn spec_blank_fragment(c: Seq<char>) -> bool {
    c == "\n\n"@ || c == "\n\n\n"@
}

/// How one delta merges into the accumulator: a present role replaces the
/// role slot — a once-set role is never cleared by a later absent one —
/// and present text is appended to the content, except that blank-line
/// fragments are dropped when the policy says so.
pub open spec fn spec_merge_delta(
    acc: ResponseMessageView,
    d: ResponseMessageView,
    drop_blank: bool,
) -> ResponseMessageView {
    let role = if d.role is Some {
        d.role
    } else {
        acc.role
    };
    let content = match d.content {
        Some(cv) => {
            if drop_blank && spec_blank_fragment(cv) {
                acc.content
            } else {
                match acc.content {
                    Some(old) => Some(old + cv),
                    None => Some(cv),
                }
            }
        },
        None => acc.content,
    };
    ResponseMessageView { role, content }
}

/// Whether the accumulator holds any text.
pub open spec fn spec_has_content(acc: ResponseMessageView) -> bool {
    acc.content matches Some(c) && c.len() > 0
}

/// What one event does to the conversation and the pending slot.  Only a
/// streaming state moves; any other state ignores events, so nothing a
/// cancelled attempt still delivers can mutate a session that was reset.
pub open spec fn spec_step(
    msgs: Seq<MessageView>,
    p: PendingView,
    ev: ProtocolEventView,
    drop_blank: bool,
) -> (Seq<MessageView>, PendingView) {
    match p {
        PendingView::Streaming(acc) => match ev {
            ProtocolEventView::Delta(d) => (
                msgs,
                PendingView::Streaming(spec_merge_delta(acc, d, drop_blank)),
            ),
            ProtocolEventView::Done => {
                if spec_has_content(acc) {
                    (
                        msgs.push(MessageView { role: Role::Assistant, content: acc.content->0 }),
                        PendingView::Idle,
                    )
                } else {
                    (msgs, PendingView::Failed(GenerateErrorView::EmptyResultError))
                }
            },
            ProtocolEventView::ServerError(e) => (
                msgs,
                PendingView::Failed(GenerateErrorView::ServerReportedError(e.message)),
            ),
            ProtocolEventView::Failure(err) => (msgs, PendingView::Failed(err)),
        },
        _ => (msgs, p),
    }
}

/// A whole event sequence, folded step by step.
pub open spec fn spec_run(
    msgs: Seq<MessageView>,
    p: PendingView,
    evs: Seq<ProtocolEventView>,
    drop_blank: bool,
) -> (Seq<MessageView>, PendingView)
    decreases evs.len(),
{
    if evs.len() == 0 {
        (msgs, p)
    } else {
        let stepped = spec_step(msgs, p, evs[0], drop_blank);
        spec_run(stepped.0, stepped.1, evs.skip(1), drop_blank)
    }
}

/// One session's controller: the conversation record, the key the
/// requests carry, the single pending slot, and the blank-fragment
/// policy.
#[derive(Debug)]
pub struct ChatAPI {
    pub data: Chat,
    pub api_key: String,
    pub pending_generate: PendingGenerate,
    /// Whether stand-alone blank-line fragments are dropped from deltas.
    pub drop_blank_fragments: bool,
}

/// Builds a controller with the standard defaults, or around an existing
/// session record.
#[derive(Debug)]
pub struct ChatAPIBuilder {
    chat: Chat,
    api_key: String,
}

impl ChatAPIBuilder {
    /// The record this builder would build around.
    pub closed spec fn spec_chat(self) -> ChatView {
        self.chat@
    }

    /// The key this builder would hand the controller.
    pub closed spec fn spec_api_key(self) -> Seq<char> {
        self.api_key@
    }

    /// The standard defaults: the stock model, streaming on, one choice,
    /// neutral sampling, no messages.
    pub fn new(api_key: String) -> (r: ChatAPIBuilder)
        ensures
            r.spec_api_key() == api_key@,
            r.spec_chat().model == "gpt-3.5-turbo"@,
            r.spec_chat().messages == Seq::<MessageView>::empty(),
            r.spec_chat().stream == Some(true),
            r.spec_chat().wf(),
    {
        ChatAPIBuilder { chat: Chat::new(String::from_str("gpt-3.5-turbo")), api_key }
    }

    /// Replaces the session record, keeping the key.
    pub fn with_chat(self, chat: Chat) -> (r: ChatAPIBuilder)
        ensures
            r.spec_chat() == chat@,
            r.spec_api_key() == self.spec_api_key(),
    {
        ChatAPIBuilder { chat, api_key: self.api_key }
    }

    /// The finished controller: idle, with the given record.
    pub fn build(self) -> (r: ChatAPI)
        ensures
            r.data@ == self.spec_chat(),
            r.api_key@ == self.spec_api_key(),
            r.pending_generate@ is Idle,
            r.drop_blank_fragments == false,
    {
        ChatAPI {
            data: self.chat,
            api_key: self.api_key,
            pending_generate: PendingGenerate::Idle,
            drop_blank_fragments: false,
        }
    }
}

impl ChatAPI {
    /// Whether a generation is in flight.
    pub fn is_streaming(&self) -> (r: bool)
        ensures
            r == (self.pending_generate@ is Streaming),
    {
        match self.pending_generate {
            PendingGenerate::Streaming(_) => true,
            _ => false,
        }
    }

    /// Sets the model the requests name.
    pub fn set_model(&mut self, model: String)
        ensures
            final(self).data@.model == model@,
            final(self).data@.messages == old(self).data@.messages,
            final(self).data@.temperature == old(self).data@.temperature,
            final(self).data@.top_p == old(self).data@.top_p,
            final(self).data@.n == old(self).data@.n,
            final(self).data@.stream == old(self).data@.stream,
            final(self).data@.stop == old(self).data@.stop,
            final(self).data@.max_tokens == old(self).data@.max_tokens,
            final(self).data@.presence_penalty == old(self).data@.presence_penalty,
            final(self).data@.frequency_penalty == old(self).data@.frequency_penalty,
            final(self).api_key@ == old(self).api_key@,
            final(self).pending_generate@ == old(self).pending_generate@,
            final(self).drop_blank_fragments == old(self).drop_blank_fragments,
    {
        self.data.model = model;
    }

    /// Empties the conversation; everything else stays.
    pub fn clear_message(&mut self)
        ensures
            final(self).data@.messages == Seq::<MessageView>::empty(),
            final(self).data@.same_settings(old(self).data@),
            final(self).api_key@ == old(self).api_key@,
            final(self).pending_generate@ == old(self).pending_generate@,
            final(self).drop_blank_fragments == old(self).drop_blank_fragments,
    {
        self.data.clear();
    }

    /// Sets, replaces or removes the leading system message; a leading
    /// user message is never removed.
    pub fn set_system_message(&mut self, system_message: Option<String>)
        ensures
            final(self).data@.same_settings(old(self).data@),
            match system_message {
                Some(s) => {
                    let m = MessageView { role: Role::System, content: s@ };
                    if old(self).data@.has_system_message() {
                        final(self).data@.messages == old(self).data@.messages.update(0, m)
                    } else {
                        final(self).data@.messages == seq![m] + old(self).data@.messages
                    }
                },
                None => {
                    if old(self).data@.has_system_message() {
                        final(self).data@.messages == old(self).data@.messages.skip(1)
                    } else {
                        final(self).data@ == old(self).data@
                    }
                },
            },
            old(self).data@.wf() ==> final(self).data@.wf(),
            final(self).api_key@ == old(self).api_key@,
            final(self).pending_generate@ == old(self).pending_generate@,
            final(self).drop_blank_fragments == old(self).drop_blank_fragments,
    {
        self.data.set_system_message(system_message);
    }

    /// Reads the leading system message, if there is one.
    pub fn get_system_message(&self) -> (r: Option<String>)
        ensures
            match r {
                Some(s) => self.data@.has_system_message() && s@ == self.data@.messages[0].content,
                None => !self.data@.has_system_message(),
            },
    {
        self.data.get_system_message()
    }

    /// The key the requests carry.
    pub fn get_api_key(&self) -> (r: String)
        ensures
            r@ == self.api_key@,
    {
        self.api_key.clone()
    }

    /// Replaces the key.
    pub fn set_api_key(&mut self, api_key: String)
        ensures
            final(self).api_key@ == api_key@,
            final(self).data@ == old(self).data@,
            final(self).pending_generate@ == old(self).pending_generate@,
            final(self).drop_blank_fragments == old(self).drop_blank_fragments,
    {
        self.api_key = api_key;
    }

    /// Caps the generated tokens, or uncaps them.
    pub fn set_max_tokens(&mut self, max_tokens: Option<u32>)
        ensures
            final(self).data@.max_tokens == max_tokens,
            final(self).data@.messages == old(self).data@.messages,
            final(self).data@.model == old(self).data@.model,
            final(self).data@.temperature == old(self).data@.temperature,
            final(self).data@.top_p == old(self).data@.top_p,
            final(self).data@.n == old(self).data@.n,
            final(self).data@.stream == old(self).data@.stream,
            final(self).data@.stop == old(self).data@.stop,
            final(self).data@.presence_penalty == old(self).data@.presence_penalty,
            final(self).data@.frequency_penalty == old(self).data@.frequency_penalty,
            final(self).api_key@ == old(self).api_key@,
            final(self).pending_generate@ == old(self).pending_generate@,
            final(self).drop_blank_fragments == old(self).drop_blank_fragments,
    {
        self.data.max_tokens = max_tokens;
    }

    /// Sets the sampling temperature, in thousandths.
    pub fn set_temperature(&mut self, milli: i64)
        ensures
            final(self).data@.temperature == Some(milli),
            final(self).data@.messages == old(self).data@.messages,
            final(self).data@.model == old(self).data@.model,
            final(self).data@.top_p == old(self).data@.top_p,
            final(self).data@.n == old(self).data@.n,
            final(self).data@.stream == old(self).data@.stream,
            final(self).data@.stop == old(self).data@.stop,
            final(self).data@.max_tokens == old(self).data@.max_tokens,
            final(self).data@.presence_penalty == old(self).data@.presence_penalty,
            final(self).data@.frequency_penalty == old(self).data@.frequency_penalty,
            final(self).api_key@ == old(self).api_key@,
            final(self).pending_generate@ == old(self).pending_generate@,
            final(self).drop_blank_fragments == old(self).drop_blank_fragments,
    {
        self.data.temperature = Some(milli);
    }

    /// Sets the nucleus-sampling share, in thousandths.
    pub fn set_top_p(&mut self, milli: i64)
        ensures
            final(self).data@.top_p == Some(milli),
            final(self).data@.messages == old(self).data@.messages,
            final(self).data@.model == old(self).data@.model,
            final(self).data@.temperature == old(self).data@.temperature,
            final(self).data@.n == old(self).data@.n,
            final(self).data@.stream == old(self).data@.stream,
            final(self).data@.stop == old(self).data@.stop,
            final(self).data@.max_tokens == old(self).data@.max_tokens,
            final(self).data@.presence_penalty == old(self).data@.presence_penalty,
            final(self).data@.frequency_penalty == old(self).data@.frequency_penalty,
            final(self).api_key@ == old(self).api_key@,
            final(self).pending_generate@ == old(self).pending_generate@,
            final(self).drop_blank_fragments == old(self).drop_blank_fragments,
    {
        self.data.top_p = Some(milli);
    }

    /// Sets the presence penalty, in thousandths.
    pub fn set_presence_penalty(&mut self, milli: i64)
        ensures
            final(self).data@.presence_penalty == Some(milli),
            final(self).data@.messages == old(self).data@.messages,
            final(self).data@.model == old(self).data@.model,
            final(self).data@.temperature == old(self).data@.temperature,
            final(self).data@.top_p == old(self).data@.top_p,
            final(self).data@.n == old(self).data@.n,
            final(self).data@.stream == old(self).data@.stream,
            final(self).data@.stop == old(self).data@.stop,
            final(self).data@.max_tokens == old(self).data@.max_tokens,
            final(self).data@.frequency_penalty == old(self).data@.frequency_penalty,
            final(self).api_key@ == old(self).api_key@,
            final(self).pending_generate@ == old(self).pending_generate@,
            final(self).drop_blank_fragments == old(self).drop_blank_fragments,
    {
        self.data.presence_penalty = Some(milli);
    }

    /// Sets the frequency penalty, in thousandths.
    pub fn set_frequency_penalty(&mut self, milli: i64)
        ensures
            final(self).data@.frequency_penalty == Some(milli),
            final(self).data@.messages == old(self).data@.messages,
            final(self).data@.model == old(self).data@.model,
            final(self).data@.temperature == old(self).data@.temperature,
            final(self).data@.top_p == old(self).data@.top_p,
            final(self).data@.n == old(self).data@.n,
            final(self).data@.stream == old(self).data@.stream,
            final(self).data@.stop == old(self).data@.stop,
            final(self).data@.max_tokens == old(self).data@.max_tokens,
            final(self).data@.presence_penalty == old(self).data@.presence_penalty,
            final(self).api_key@ == old(self).api_key@,
            final(self).pending_generate@ == old(self).pending_generate@,
            final(self).drop_blank_fragments == old(self).drop_blank_fragments,
    {
        self.data.frequency_penalty = Some(milli);
    }

    /// Appends a message at the back; the conversation's shape invariant
    /// is the caller's concern only for system messages, which never go
    /// through here.
    fn add_message(&mut self, message: ChatMessage)
        requires
            message.role != Role::System,
        ensures
            final(self).data@.messages == old(self).data@.messages.push(message@),
            final(self).data@.same_settings(old(self).data@),
            final(self).api_key@ == old(self).api_key@,
            final(self).pending_generate@ == old(self).pending_generate@,
            final(self).drop_blank_fragments == old(self).drop_blank_fragments,
    {
        self.data.append(message);
    }

    /// Removes and returns the last message; on an empty conversation it
    /// returns nothing and changes nothing.
    pub fn remove_last(&mut self) -> (r: Option<ChatMessage>)
        ensures
            old(self).data@.messages.len() == 0 ==> r is None && final(self).data@ == old(
                self,
            ).data@,
            old(self).data@.messages.len() > 0 ==> {
                &&& r matches Some(m) && m@ == old(self).data@.messages.last()
                &&& final(self).data@.messages == old(self).data@.messages.drop_last()
                &&& final(self).data@.same_settings(old(self).data@)
            },
            final(self).api_key@ == old(self).api_key@,
            final(self).pending_generate@ == old(self).pending_generate@,
            final(self).drop_blank_fragments == old(self).drop_blank_fragments,
    {
        self.data.remove_last()
    }

    /// A non-blocking look at the pending slot, safe on every redraw:
    /// nothing while idle, the partial text while streaming — none yet if
    /// no content has arrived — and the error text after a failure.
    pub fn get_generate(&self) -> (r: Option<Result<String, String>>)
        ensures
            match self.pending_generate@ {
                PendingView::Idle => r is None,
                PendingView::Streaming(acc) => match acc.content {
                    Some(c) => r matches Some(res) && res matches Ok(t) && t@ == c,
                    None => r is None,
                },
                PendingView::Failed(_) => r matches Some(res) && res matches Err(t) && t@
                    == spec_pending_error_message(self.pending_generate@),
            },
    {
        match &self.pending_generate {
            PendingGenerate::Idle => None,
            PendingGenerate::Streaming(acc) => match &acc.content {
                Some(c) => Some(Ok(c.clone())),
                None => None,
            },
            PendingGenerate::Failed(e) => Some(Err(e.message())),
        }
    }

    /// Starts a generation: the pending slot becomes an empty
    /// accumulator and the request to send is handed back, built from the
    /// live record.  While a generation is already in flight nothing
    /// changes and no request is handed out, so no second concurrent
    /// transport call can start through this controller.
    pub fn generate(&mut self) -> (r: Option<ApiRequest>)
        ensures
            old(self).pending_generate@ is Streaming ==> r is None && *final(self) == *old(self),
            !(old(self).pending_generate@ is Streaming) ==> {
                &&& r matches Some(req)
                &&& req.url@ == spec_chat_url()
                &&& req.api_key@ == old(self).api_key@
                &&& req.body@ == spec_print_chat(old(self).data@)
                &&& final(self).pending_generate@ == PendingView::Streaming(
                    ResponseMessageView { role: None, content: None },
                )
                &&& final(self).data@ == old(self).data@
                &&& final(self).api_key@ == old(self).api_key@
                &&& final(self).drop_blank_fragments == old(self).drop_blank_fragments
            },
    {
        if self.is_streaming() {
            return None;
        }
        self.pending_generate = PendingGenerate::Streaming(ResponseChatMessage::default());
        let body = chat_to_json(&self.data);
        Some(ApiRequest { url: chat_url(), api_key: self.api_key.clone(), body })
    }

    /// Tries the last question again: the same operation as
    /// [`ChatAPI::generate`].  The engine checks no precondition here; the
    /// guard that the last message is the user's is deliberately the
    /// caller's policy, layered over this pure state-folding primitive.
    pub fn retry(&mut self) -> (r: Option<ApiRequest>)
        ensures
            old(self).pending_generate@ is Streaming ==> r is None && *final(self) == *old(self),
            !(old(self).pending_generate@ is Streaming) ==> {
                &&& r matches Some(req)
                &&& req.url@ == spec_chat_url()
                &&& req.api_key@ == old(self).api_key@
                &&& req.body@ == spec_print_chat(old(self).data@)
                &&& final(self).pending_generate@ == PendingView::Streaming(
                    ResponseMessageView { role: None, content: None },
                )
                &&& final(self).data@ == old(self).data@
                &&& final(self).api_key@ == old(self).api_key@
                &&& final(self).drop_blank_fragments == old(self).drop_blank_fragments
            },
    {
        self.generate()
    }

    /// A whole-record copy of the conversation for concurrent readers.
    pub fn snapshot(&self) -> (r: Chat)
        ensures
            r@ == self.data@,
    {
        self.data.snapshot()
    }

    /// Appends the question as a user message — kept whatever the
    /// generation then does, so a retry stays possible — and starts a
    /// generation.
    pub fn question(&mut self, question: String) -> (r: Option<ApiRequest>)
        ensures
            final(self).data@.messages == old(self).data@.messages.push(
                MessageView { role: Role::User, content: question@ },
            ),
            final(self).data@.same_settings(old(self).data@),
            old(self).pending_generate@ is Streaming ==> r is None && final(self).pending_generate@
                == old(self).pending_generate@,
            !(old(self).pending_generate@ is Streaming) ==> {
                &&& r matches Some(req)
                &&& req.url@ == spec_chat_url()
                &&& req.api_key@ == old(self).api_key@
                &&& req.body@ == spec_print_chat(final(self).data@)
                &&& final(self).pending_generate@ == PendingView::Streaming(
                    ResponseMessageView { role: None, content: None },
                )
            },
            final(self).api_key@ == old(self).api_key@,
            final(self).drop_blank_fragments == old(self).drop_blank_fragments,
    {
        self.add_message(ChatMessage { role: Role::User, content: question });
        self.generate()
    }

    /// Folds one event into the pending slot, as [`spec_step`] says: a
    /// delta merges, a server-reported error or a failure records itself,
    /// normal termination commits non-empty content as an assistant
    /// message and refuses an empty one.  In any state but streaming the
    /// event is ignored whole.
    pub fn apply_event(&mut self, ev: &ProtocolEvent)
        ensures
            ({
                let stepped = spec_step(
                    old(self).data@.messages,
                    old(self).pending_generate@,
                    ev@,
                    old(self).drop_blank_fragments,
                );
                &&& final(self).data@.messages == stepped.0
                &&& final(self).pending_generate@ == stepped.1
            }),
            final(self).data@.same_settings(old(self).data@),
            final(self).api_key@ == old(self).api_key@,
            final(self).drop_blank_fragments == old(self).drop_blank_fragments,
    {
        let mut taken = PendingGenerate::Idle;
        core::mem::swap(&mut taken, &mut self.pending_generate);
        match taken {
            PendingGenerate::Streaming(acc) => match ev {
                ProtocolEvent::Delta(d) => {
                    let merged = merge_delta_ex(acc, d, self.drop_blank_fragments);
                    self.pending_generate = PendingGenerate::Streaming(merged);
                },
                ProtocolEvent::Done => {
                    match acc.content {
                        Some(c) => {
                            if c.as_str().unicode_len() > 0 {
                                self.data.append(
                                    ChatMessage { role: Role::Assistant, content: c },
                                );
                            } else {
                                self.pending_generate = PendingGenerate::Failed(
                                    GenerateError::EmptyResultError,
                                );
                            }
                        },
                        None => {
                            self.pending_generate = PendingGenerate::Failed(
                                GenerateError::EmptyResultError,
                            );
                        },
                    }
                },
                ProtocolEvent::ServerError(e) => {
                    self.pending_generate = PendingGenerate::Failed(
                        GenerateError::ServerReportedError(e.message.clone()),
                    );
                },
                ProtocolEvent::Failure(err) => {
                    self.pending_generate = PendingGenerate::Failed(err.clone());
                },
            },
            other => {
                self.pending_generate = other;
            },
        }
    }

    /// The stream ended without a sentinel: fold it like normal
    /// termination.
    pub fn end_of_stream(&mut self)
        ensures
            ({
                let stepped = spec_step(
                    old(self).data@.messages,
                    old(self).pending_generate@,
                    ProtocolEventView::Done,
                    old(self).drop_blank_fragments,
                );
                &&& final(self).data@.messages == stepped.0
                &&& final(self).pending_generate@ == stepped.1
            }),
            final(self).data@.same_settings(old(self).data@),
            final(self).api_key@ == old(self).api_key@,
            final(self).drop_blank_fragments == old(self).drop_blank_fragments,
    {
        self.apply_event(&ProtocolEvent::Done);
    }

    /// Resets after a cancellation: the pending slot is cleared and the
    /// conversation is exactly what it was before; no write from the
    /// aborted attempt lands afterwards, because events are ignored
    /// outside the streaming state.
    pub fn abort(&mut self)
        ensures
            final(self).pending_generate@ is Idle,
            final(self).data@ == old(self).data@,
            final(self).api_key@ == old(self).api_key@,
            final(self).drop_blank_fragments == old(self).drop_blank_fragments,
    {
        self.pending_generate = PendingGenerate::Idle;
    }
}

/// Merges one delta into the accumulator, as [`spec_merge_delta`] says.
fn merge_delta_ex(acc: ResponseChatMessage, d: &ResponseChatMessage, drop_blank: bool) -> (r:
    ResponseChatMessage)
    ensures
        r@ == spec_merge_delta(acc@, d@, drop_blank),
{
    let role = if d.role.is_some() {
        d.role
    } else {
        acc.role
    };
    let content = match &d.content {
        Some(cv) => {
            let blank = drop_blank && (cv.eq(&String::from_str("\n\n")) || cv.eq(
                &String::from_str("\n\n\n"),
            ));
            if blank {
                acc.content
            } else {
                match acc.content {
                    Some(old_content) => {
                        let mut joined = old_content;
                        joined.append(cv.as_str());
                        Some(joined)
                    },
                    None => Some(cv.clone()),
                }
            }
        },
        None => acc.content,
    };
    ResponseChatMessage { role, content }
}

// ---------------------------------------------------------------------------
// what whole folds do
// ---------------------------------------------------------------------------

/// Every event is a delta fragment, none an error payload.
pub open spec fn spec_all_deltas(evs: Seq<ProtocolEventView>) -> bool {
    forall|i: int| 0 <= i < evs.len() ==> (#[trigger] evs[i]) is Delta
}

/// The text an accumulator holds; none counts as empty.
pub open spec fn spec_content_of(acc: ResponseMessageView) -> Seq<char> {
    match acc.content {
        Some(c) => c,
        None => Seq::empty(),
    }
}

/// The ordered concatenation of the events' text increments, those that
/// the blank-fragment policy drops left out.
pub open spec fn spec_concat_deltas(evs: Seq<ProtocolEventView>, drop_blank: bool) -> Seq<char>
    decreases evs.len(),
{
    if evs.len() == 0 {
        Seq::empty()
    } else {
        let head: Seq<char> = match evs[0] {
            ProtocolEventView::Delta(d) => match d.content {
                Some(cv) => {
                    if drop_blank && spec_blank_fragment(cv) {
                        Seq::empty()
                    } else {
                        cv
                    }
                },
                None => Seq::empty(),
            },
            _ => Seq::empty(),
        };
        head + spec_concat_deltas(evs.skip(1), drop_blank)
    }
}

/// In any state but streaming a fold changes nothing, however many
/// events arrive.
pub proof fn lemma_run_inert(
    msgs: Seq<MessageView>,
    p: PendingView,
    evs: Seq<ProtocolEventView>,
    drop_blank: bool,
)
    requires
        !(p is Streaming),
    ensures
        spec_run(msgs, p, evs, drop_blank) == (msgs, p),
    decreases evs.len(),
{
    if evs.len() > 0 {
        lemma_run_inert(msgs, p, evs.skip(1), drop_blank);
    }
}

/// Folding any sequence of delta events without an error payload leaves
/// the conversation alone, keeps the generation streaming, and
/// accumulates exactly the ordered concatenation of the events' text
/// increments, under the documented blank-fragment policy.
pub proof fn lemma_fold_accumulates_content(
    msgs: Seq<MessageView>,
    acc: ResponseMessageView,
    evs: Seq<ProtocolEventView>,
    drop_blank: bool,
)
    requires
        spec_all_deltas(evs),
    ensures
        ({
            let folded = spec_run(msgs, PendingView::Streaming(acc), evs, drop_blank);
            &&& folded.0 == msgs
            &&& folded.1 matches PendingView::Streaming(acc2) && spec_content_of(acc2)
                == spec_content_of(acc) + spec_concat_deltas(evs, drop_blank)
        }),
    decreases evs.len(),
{
    if evs.len() == 0 {
        assert(spec_content_of(acc) + spec_concat_deltas(evs, drop_blank) =~= spec_content_of(
            acc,
        ));
    } else {
        let ev0 = evs[0];
        assert(ev0 is Delta);
        let d = ev0->Delta_0;
        let merged = spec_merge_delta(acc, d, drop_blank);
        assert(spec_all_deltas(evs.skip(1))) by {
            assert forall|i: int| 0 <= i < evs.skip(1).len() implies (#[trigger] evs.skip(1)[i])
                is Delta by {
                assert(evs.skip(1)[i] == evs[i + 1]);
            }
        }
        lemma_fold_accumulates_content(msgs, merged, evs.skip(1), drop_blank);
        let head: Seq<char> = match d.content {
            Some(cv) => {
                if drop_blank && spec_blank_fragment(cv) {
                    Seq::empty()
                } else {
                    cv
                }
            },
            None => Seq::empty(),
        };
        assert(spec_content_of(merged) =~= spec_content_of(acc) + head);
        assert(spec_content_of(acc) + (head + spec_concat_deltas(evs.skip(1), drop_blank))
            =~= (spec_content_of(acc) + head) + spec_concat_deltas(evs.skip(1), drop_blank));
    }
}

/// Whether a fold from a streaming accumulator commits: it reaches
/// normal termination, with content accumulated, before any error.
pub open spec fn spec_run_commits(
    acc: ResponseMessageView,
    evs: Seq<ProtocolEventView>,
    drop_blank: bool,
) -> bool
    decreases evs.len(),
{
    if evs.len() == 0 {
        false
    } else {
        match evs[0] {
            ProtocolEventView::Delta(d) => spec_run_commits(
                spec_merge_delta(acc, d, drop_blank),
                evs.skip(1),
                drop_blank,
            ),
            ProtocolEventView::Done => spec_has_content(acc),
            _ => false,
        }
    }
}

/// The text a committing fold commits.
pub open spec fn spec_commit_content(
    acc: ResponseMessageView,
    evs: Seq<ProtocolEventView>,
    drop_blank: bool,
) -> Seq<char>
    decreases evs.len(),
{
    if evs.len() == 0 {
        Seq::empty()
    } else {
        match evs[0] {
            ProtocolEventView::Delta(d) => spec_commit_content(
                spec_merge_delta(acc, d, drop_blank),
                evs.skip(1),
                drop_blank,
            ),
            _ => spec_content_of(acc),
        }
    }
}

/// The commit invariant: the conversation grows by exactly one assistant
/// message iff the fold reaches normal termination with non-empty
/// content; any other termination — an error payload, a failure, an
/// empty result, or a fold cut short — leaves it exactly as it was.
pub proof fn lemma_commit_invariant(
    msgs: Seq<MessageView>,
    acc: ResponseMessageView,
    evs: Seq<ProtocolEventView>,
    drop_blank: bool,
)
    ensures
        ({
            let folded = spec_run(msgs, PendingView::Streaming(acc), evs, drop_blank);
            if spec_run_commits(acc, evs, drop_blank) {
                folded.0 == msgs.push(
                    MessageView {
                        role: Role::Assistant,
                        content: spec_commit_content(acc, evs, drop_blank),
                    },
                )
            } else {
                folded.0 == msgs
            }
        }),
    decreases evs.len(),
{
    if evs.len() > 0 {
        match evs[0] {
            ProtocolEventView::Delta(d) => {
                lemma_commit_invariant(
                    msgs,
                    spec_merge_delta(acc, d, drop_blank),
                    evs.skip(1),
                    drop_blank,
                );
            },
            ProtocolEventView::Done => {
                if spec_has_content(acc) {
                    lemma_run_inert(
                        msgs.push(MessageView { role: Role::Assistant, content: acc.content->0 }),
                        PendingView::Idle,
                        evs.skip(1),
                        drop_blank,
                    );
                } else {
                    lemma_run_inert(
                        msgs,
                        PendingView::Failed(GenerateErrorView::EmptyResultError),
                        evs.skip(1),
                        drop_blank,
                    );
                }
            },
            ProtocolEventView::ServerError(e) => {
                lemma_run_inert(
                    msgs,
                    PendingView::Failed(GenerateErrorView::ServerReportedError(e.message)),
                    evs.skip(1),
                    drop_blank,
                );
            },
            ProtocolEventView::Failure(err) => {
                lemma_run_inert(msgs, PendingView::Failed(err), evs.skip(1), drop_blank);
            },
        }
    }
}

/// The text [`ChatAPI::get_generate`] shows for a failed slot.
pub open spec fn spec_pending_error_message(p: PendingView) -> Seq<char> {
    match p {
        PendingView::Failed(e) => match e {
            GenerateErrorView::TransportFailure(m) => m,
            GenerateErrorView::DecodeFailure(m) => m,
            GenerateErrorView::ServerReportedError(m) => m,
            GenerateErrorView::EmptyResultError => "content is empty"@,
        },
        _ => Seq::empty(),
    }
}

} // verus!
