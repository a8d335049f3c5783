use vstd::prelude::*;

verus! {

/// Every failure that the store and its commands report.
#[derive(Debug, Clone, Copy, PartialEq, Eq, Structural)]
pub enum MyError {
    /// A conversation reference is not a well-formed id.
    UUIDParseFail,
    /// A well-formed id names no conversation.
    FindByIDFail,
    /// A notification could not be delivered to the user interface.
    EmitFail,
    /// The snapshot could not be written.
    ConversationWriteToDiskFail,
    /// No directory for the configuration could be found.
    NoConfigDirFail,
    /// A reply was asked for while the latest message is not the user's.
    UserNotLatestAuthorInConversationFail,
    /// A reply was asked for in a conversation without messages.
    ConversationEmptyFail,
    /// The language model failed or gave no usable reply.
    ConversationAIResponseFail,
    /// A directory could not be listed.
    DirListFail,
}

/// The text shown for each error.
pub open spec fn error_message(e: MyError) -> Seq<char> {
    match e {
        MyError::UUIDParseFail => "Failed to parse UUID"@,
        MyError::FindByIDFail => "Failed to find by ID"@,
        MyError::EmitFail => "Failed to emit"@,
        MyError::ConversationWriteToDiskFail => "Failed to write conversation to disk"@,
        MyError::NoConfigDirFail => "Failed identifying config directory"@,
        MyError::UserNotLatestAuthorInConversationFail => "User is not the latest author in the conversation"@,
        MyError::ConversationEmptyFail => "Conversation is empty"@,
        MyError::ConversationAIResponseFail => "Failed to get AI response"@,
        MyError::DirListFail => "Failed to list directory"@,
    }
}

impl MyError {
    /// A sentence that describes the error.
    pub fn message(&self) -> (r: &'static str)
        ensures
            r@ == error_message(*self),
    {
        match self {
            MyError::UUIDParseFail => "Failed to parse UUID",
            MyError::FindByIDFail => "Failed to find by ID",
            MyError::EmitFail => "Failed to emit",
            MyError::ConversationWriteToDiskFail => "Failed to write conversation to disk",
            MyError::NoConfigDirFail => "Failed identifying config directory",
            MyError::UserNotLatestAuthorInConversationFail => "User is not the latest author in the conversation",
            MyError::ConversationEmptyFail => "Conversation is empty",
            MyError::ConversationAIResponseFail => "Failed to get AI response",
            MyError::DirListFail => "Failed to list directory",
        }
    }
}

} // verus!
