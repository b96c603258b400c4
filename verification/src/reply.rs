//! Replies to the calls of a client.
use crate::json::{JsonView, Members};
use vstd::prelude::*;

verus! {

/// The reply to a call.
pub enum Reply {
    /// The call succeeded, with these members.
    Success(Members),
    /// The call failed, with a code and a message.
    Failure(String, String),
    /// A document that is handed out as it is.
    Document(String),
}

/// What a reply stands for.
#[verifier::ext_equal]
pub enum ReplyView {
    Success(Map<Seq<char>, JsonView>),
    Failure(Seq<char>, Seq<char>),
    Document(Seq<char>),
}

impl View for Reply {
    type V = ReplyView;

    open spec fn view(&self) -> ReplyView {
        match self {
            Reply::Success(members) => ReplyView::Success(members@),
            Reply::Failure(code, message) => ReplyView::Failure(code@, message@),
            Reply::Document(content) => ReplyView::Document(content@),
        }
    }
}

/// The reply that tells of a poisoned state.
pub open spec fn poisoned_view() -> ReplyView {
    ReplyView::Failure("connector.statePoisoned"@, "Connector connection state is poisoned."@)
}

/// The reply that tells of a connection that is not open.
pub open spec fn not_found_view(connection_id: Seq<char>) -> ReplyView {
    ReplyView::Failure("connector.connectionNotFound"@, "no open connection: "@ + connection_id)
}

impl Reply {
    /// The reply to a call that failed.
    pub fn failure(code: &str, message: String) -> (reply: Reply)
        ensures
            reply@ == ReplyView::Failure(code@, message@),
    {
        Reply::Failure(code.to_string(), message)
    }

    /// The reply that tells of a poisoned state.
    pub fn poisoned() -> (reply: Reply)
        ensures
            reply@ == poisoned_view(),
    {
        Reply::failure(
            "connector.statePoisoned",
            "Connector connection state is poisoned.".to_string(),
        )
    }

    /// The reply that tells of a connection that is not open.
    pub fn not_found(connection_id: &str) -> (reply: Reply)
        ensures
            reply@ == not_found_view(connection_id@),
    {
        Reply::failure(
            "connector.connectionNotFound",
            "no open connection: ".to_string().concat(connection_id),
        )
    }
}

} // verus!
