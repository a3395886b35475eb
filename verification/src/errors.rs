//! What goes wrong in a provider.
use vstd::prelude::*;

verus! {

/// An error of a provider, with its text.
#[derive(Debug, Clone, PartialEq, Eq)]
pub enum ProviderError {
    /// The request was not accepted for who made it.
    Authentication(String),
    /// The request could not be made, or its answer could not be read.
    RequestFailed(String),
    /// What was asked for cannot be done.
    ExecutionError(String),
    /// The answer lacks what it should hold.
    UsageError(String),
}

/// What a provider's error says.
pub enum ProviderErrorView {
    Authentication(Seq<char>),
    RequestFailed(Seq<char>),
    ExecutionError(Seq<char>),
    UsageError(Seq<char>),
}

impl View for ProviderError {
    type V = ProviderErrorView;

    open spec fn view(&self) -> ProviderErrorView {
        match self {
            ProviderError::Authentication(s) => ProviderErrorView::Authentication(s@),
            ProviderError::RequestFailed(s) => ProviderErrorView::RequestFailed(s@),
            ProviderError::ExecutionError(s) => ProviderErrorView::ExecutionError(s@),
            ProviderError::UsageError(s) => ProviderErrorView::UsageError(s@),
        }
    }
}

impl ProviderError {
    /// The text of the error.
    pub open spec fn text_of(&self) -> Seq<char> {
        match self {
            ProviderError::Authentication(s) => s@,
            ProviderError::RequestFailed(s) => s@,
            ProviderError::ExecutionError(s) => s@,
            ProviderError::UsageError(s) => s@,
        }
    }

    /// The text of the error.
    pub fn text(&self) -> (res: &String)
        ensures
            res@ == self.text_of(),
    {
        match self {
            ProviderError::Authentication(s) => s,
            ProviderError::RequestFailed(s) => s,
            ProviderError::ExecutionError(s) => s,
            ProviderError::UsageError(s) => s,
        }
    }
}

} // verus!
