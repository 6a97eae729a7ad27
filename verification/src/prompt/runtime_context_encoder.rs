//! Runtime context handed to a model as one untrusted message of JSON.
use crate::prompt::error::PromptError;
use crate::prompt::profile::UntrustedContextMessage;
use crate::text::owned;
use vstd::prelude::*;

verus! {

/// Encodes runtime context as an untrusted context message.
pub struct RuntimeContextEncoder;

impl RuntimeContextEncoder {
    /// Takes the outcome of serializing the context to JSON: the JSON
    /// becomes the message; a serialization failure, with the serializer's
    /// message, becomes a render error.
    pub fn encode(&self, serialized: Result<String, String>) -> (r: Result<UntrustedContextMessage, PromptError>)
        ensures
            match serialized {
                Ok(json) => r matches Ok(m) && m.0@ == json@,
                Err(reason) => r matches Err(PromptError::RenderError(t)) && t@ == "context encode failed: "@
                    + reason@,
            },
    {
        match serialized {
            Ok(json) => Ok(UntrustedContextMessage::new(json)),
            Err(reason) => {
                let mut m = owned("context encode failed: ");
                m.append(reason.as_str());
                Err(PromptError::RenderError(m))
            },
        }
    }
}

} // verus!
