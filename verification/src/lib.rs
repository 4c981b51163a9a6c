//! Core engine of a streaming chat client: the conversation store, the
//! server-sent-event decoder, the request and session codec, and the
//! generation controller, each with its contract.
//!
//! The network, the runtime and the window system live outside; they
//! drive this engine with plain values and read plain values back.

use vstd::prelude::*;

mod codec;
mod controller;
mod events;
mod json;
mod logger;
mod models;
mod session;
mod sse;
mod text;
mod transport;

pub use codec::{chat_from_json, chat_to_json, spec_chat_of_json, spec_print_chat};
pub use controller::{
    lemma_commit_invariant, lemma_fold_accumulates_content, lemma_run_inert, spec_all_deltas,
    spec_blank_fragment, spec_commit_content, spec_concat_deltas, spec_content_of,
    spec_has_content, spec_merge_delta, spec_run, spec_run_commits, spec_step, ChatAPI,
    ChatAPIBuilder, PendingGenerate, PendingView,
};
pub use events::{
    GenerateError, GenerateErrorView, ProtocolEvent, ProtocolEventView, ServerError,
    ServerErrorView,
};
pub use logger::{Level, Logger};
pub use models::{parse_models, spec_models_of_json, ModelData, ModelDataView, Models, ModelsView};
pub use session::{
    Chat, ChatMessage, ChatView, MessageView, ResponseChatMessage, ResponseMessageView, Role,
};
pub use sse::{decode_chunk, spec_decode_chunk, spec_frame_event, spec_parse_frame};
pub use text::split_by_char;
pub use transport::{chat_url, spec_chat_url, ApiRequest, MultiClient};

verus! {

/// Serializing a session and reading it back reproduces it exactly —
/// parameters, messages and their order all preserved.
pub proof fn lemma_session_round_trip(c: ChatView)
    ensures
        spec_chat_of_json(spec_print_chat(c)) == Some(c),
{
    codec::lemma_chat_json_round_trip(c);
}

} // verus!
