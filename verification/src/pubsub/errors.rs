//! Why a request on topics and subscriptions is refused.

use vstd::prelude::*;

verus! {

/// Why a request on topics and subscriptions is refused.
#[derive(Clone, Copy, PartialEq, Eq, Structural, Debug)]
pub enum PubsubError {
    TopicNotFound,
    SubscriptionNotFound,
    UnsupportedTopicAction,
    UnsupportedSubscriptionAction,
    InvalidPullRequest,
    InvalidAcknowledgeRequest,
}

impl PubsubError {
    /// The HTTP status of the answer.
    pub open spec fn code(self) -> u16 {
        match self {
            PubsubError::InvalidPullRequest => 400,
            PubsubError::InvalidAcknowledgeRequest => 400,
            _ => 404,
        }
    }

    /// The message of the answer.
    pub open spec fn text(self) -> Seq<char> {
        match self {
            PubsubError::TopicNotFound => "TOPIC_NOT_FOUND"@,
            PubsubError::SubscriptionNotFound => "SUBSCRIPTION_NOT_FOUND"@,
            PubsubError::UnsupportedTopicAction => "UNSUPPORTED_TOPIC_ACTION"@,
            PubsubError::UnsupportedSubscriptionAction => "UNSUPPORTED_SUBSCRIPTION_ACTION"@,
            PubsubError::InvalidPullRequest => "INVALID_PULL_REQUEST"@,
            PubsubError::InvalidAcknowledgeRequest => "INVALID_ACKNOWLEDGE_REQUEST"@,
        }
    }

    /// The HTTP status of the answer.
    pub fn status(&self) -> (r: u16)
        ensures
            r == self.code(),
    {
        match self {
            PubsubError::InvalidPullRequest => 400,
            PubsubError::InvalidAcknowledgeRequest => 400,
            _ => 404,
        }
    }

    /// The message of the answer.
    pub fn message(&self) -> (r: &'static str)
        ensures
            r@ == self.text(),
    {
        match self {
            PubsubError::TopicNotFound => "TOPIC_NOT_FOUND",
            PubsubError::SubscriptionNotFound => "SUBSCRIPTION_NOT_FOUND",
            PubsubError::UnsupportedTopicAction => "UNSUPPORTED_TOPIC_ACTION",
            PubsubError::UnsupportedSubscriptionAction => "UNSUPPORTED_SUBSCRIPTION_ACTION",
            PubsubError::InvalidPullRequest => "INVALID_PULL_REQUEST",
            PubsubError::InvalidAcknowledgeRequest => "INVALID_ACKNOWLEDGE_REQUEST",
        }
    }

    /// The reason phrase of the status.
    pub fn reason(&self) -> (r: &'static str)
        ensures
            r@ == if self.code() == 404 {
                "Not Found"@
            } else {
                "Bad Request"@
            },
    {
        match self {
            PubsubError::InvalidPullRequest => "Bad Request",
            PubsubError::InvalidAcknowledgeRequest => "Bad Request",
            _ => "Not Found",
        }
    }
}

/// What came of a request.
pub open spec fn pubsub_outcome<T: DeepView>(r: Result<T, PubsubError>) -> Result<
    T::V,
    PubsubError,
> {
    match r {
        Ok(v) => Ok(v.deep_view()),
        Err(e) => Err(e),
    }
}

/// Each refusal is answered with its own status and message.
pub proof fn refusal_is_told(e: PubsubError)
    ensures
        e is TopicNotFound ==> e.code() == 404 && e.text() == "TOPIC_NOT_FOUND"@,
        e is SubscriptionNotFound ==> e.code() == 404 && e.text() == "SUBSCRIPTION_NOT_FOUND"@,
        e is UnsupportedTopicAction ==> e.code() == 404 && e.text() == "UNSUPPORTED_TOPIC_ACTION"@,
        e is UnsupportedSubscriptionAction ==> e.code() == 404 && e.text() == "UNSUPPORTED_SUBSCRIPTION_ACTION"@,
        e is InvalidPullRequest ==> e.code() == 400 && e.text() == "INVALID_PULL_REQUEST"@,
        e is InvalidAcknowledgeRequest ==> e.code() == 400 && e.text() == "INVALID_ACKNOWLEDGE_REQUEST"@,
{
}

} // verus!
