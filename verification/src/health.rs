//! What the server says of itself.
use vstd::prelude::*;

verus! {

/// The answer to whether the server is running.
#[derive(Debug, Clone, Copy)]
pub struct StatusResponse {
    pub status: &'static str,
}

/// Which optional features there are, and whether each is turned on.
#[derive(Debug, Clone)]
pub struct FeaturesResponse {
    pub features: Vec<(String, bool)>,
}

/// The answer while the server is running.
pub fn status() -> (res: StatusResponse)
    ensures
        res.status@ == "ok"@,
{
    StatusResponse { status: "ok" }
}

/// The features: the vector store, turned on or off as the build has it.
pub fn features(sqlite: bool) -> (res: FeaturesResponse)
    ensures
        res.features@.len() == 1,
        res.features@[0].0@ == "vectordb-sqlite"@,
        res.features@[0].1 == sqlite,
{
    let mut features: Vec<(String, bool)> = Vec::new();
    features.push(("vectordb-sqlite".to_owned(), sqlite));
    FeaturesResponse { features }
}

} // verus!
