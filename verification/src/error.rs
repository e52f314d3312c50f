use vstd::prelude::*;

verus! {

/// Why a request could not be made or a stream could not go on.
#[derive(Debug, PartialEq, Eq)]
pub enum ApiError {
    Stream(String),
}

/// An error is told by its message.
impl View for ApiError {
    type V = Seq<char>;

    open spec fn view(&self) -> Seq<char> {
        match self {
            ApiError::Stream(message) => message@,
        }
    }
}

impl ApiError {
    /// The error whose message is `lead` followed by `detail`.
    pub fn stream(lead: &str, detail: &str) -> (error: ApiError)
        ensures
            error@ == lead@ + detail@,
    {
        let mut message = lead.to_string();
        message.append(detail);
        ApiError::Stream(message)
    }
}

} // verus!
