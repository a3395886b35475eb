//! Embedding services: their models, and what is asked of them and comes back.
use crate::errors::{ProviderError, ProviderErrorView};
use crate::text::same_text;
use vstd::prelude::*;

verus! {

/// A request for embeddings.
#[derive(Debug, Clone)]
pub struct EmbeddingRequest {
    pub input: Vec<String>,
    pub model: String,
}

/// An answer with embeddings.
#[derive(Debug, Clone)]
pub struct EmbeddingResponse {
    pub data: Vec<EmbeddingData>,
}

/// One embedding of an answer.
#[derive(Debug, Clone)]
pub struct EmbeddingData {
    pub embedding: Vec<u32>,
}

/// An embedding model.
#[derive(Debug, PartialEq, Eq)]
pub struct EmbeddingModel {
    /// Model identifier (e.g., "text-embedding-3-small")
    pub name: String,
    /// Embedding vector dimensions
    pub dimensions: usize,
    /// Maximum input tokens per request
    pub max_input_tokens: usize,
    /// Cost per token (optional, for usage tracking), as the bits of a double-precision number
    pub cost_per_token: Option<u64>,
}

/// What an embedding model is.
pub struct ModelView {
    pub name: Seq<char>,
    pub dimensions: usize,
    pub max_input_tokens: usize,
    pub cost_per_token: Option<u64>,
}

impl View for EmbeddingModel {
    type V = ModelView;

    open spec fn view(&self) -> ModelView {
        ModelView {
            name: self.name@,
            dimensions: self.dimensions,
            max_input_tokens: self.max_input_tokens,
            cost_per_token: self.cost_per_token,
        }
    }
}

impl Clone for EmbeddingModel {
    fn clone(&self) -> (res: Self)
        ensures
            res@ == self@,
    {
        EmbeddingModel {
            name: self.name.clone(),
            dimensions: self.dimensions,
            max_input_tokens: self.max_input_tokens,
            cost_per_token: self.cost_per_token,
        }
    }
}

/// Models by their views.
pub open spec fn model_views(models: Seq<EmbeddingModel>) -> Seq<ModelView> {
    Seq::new(models.len(), |i: int| models[i]@)
}

/// What an embedding service can do.
#[derive(Debug, Clone)]
pub struct EmbeddingCapabilities {
    /// Available embedding models
    pub models: Vec<EmbeddingModel>,
    /// Default model to use
    pub default_model: String,
    /// Maximum batch size for embedding requests
    pub max_batch_size: usize,
    /// Whether this provider supports custom dimensions
    pub supports_custom_dimensions: bool,
}

/// What an embedding service can do, by its views.
#[verifier::ext_equal]
pub struct CapabilitiesView {
    pub models: Seq<ModelView>,
    pub default_model: Seq<char>,
    pub max_batch_size: usize,
    pub supports_custom_dimensions: bool,
}

impl View for EmbeddingCapabilities {
    type V = CapabilitiesView;

    open spec fn view(&self) -> CapabilitiesView {
        CapabilitiesView {
            models: model_views(self.models@),
            default_model: self.default_model@,
            max_batch_size: self.max_batch_size,
            supports_custom_dimensions: self.supports_custom_dimensions,
        }
    }
}

/// The view of optional capabilities.
pub open spec fn opt_capabilities(c: Option<EmbeddingCapabilities>) -> Option<CapabilitiesView> {
    match c {
        Some(x) => Some(x@),
        None => None,
    }
}

/// Embeddings, the model that made them, and what they took.
#[derive(Debug, Clone)]
pub struct EmbeddingResult {
    /// The embedding vectors
    pub embeddings: Vec<Vec<u32>>,
    /// Model used for embeddings
    pub model: EmbeddingModel,
    /// Usage information
    pub usage: EmbeddingUsage,
}

/// What embeddings took.
#[derive(Debug, Clone, Copy, PartialEq, Eq)]
pub struct EmbeddingUsage {
    /// Number of tokens processed
    pub tokens: Option<i32>,
    /// Number of embedding vectors created
    pub embeddings_count: usize,
}

impl Default for EmbeddingUsage {
    fn default() -> (res: Self)
        ensures
            res == (EmbeddingUsage { tokens: None, embeddings_count: 0 }),
    {
        EmbeddingUsage { tokens: None, embeddings_count: 0 }
    }
}

/// The first model with the given name, from the model `i` on.
pub open spec fn find_model(models: Seq<ModelView>, name: Seq<char>, i: int) -> Option<ModelView>
    decreases models.len() - i,
{
    if i < 0 || i >= models.len() {
        None
    } else if models[i].name == name {
        Some(models[i])
    } else {
        find_model(models, name, i + 1)
    }
}

/// The first model with the given name.
pub fn model_named(models: &Vec<EmbeddingModel>, name: &str) -> (res: Option<EmbeddingModel>)
    ensures
        match res {
            Some(m) => find_model(model_views(models@), name@, 0) == Some(m@),
            None => find_model(model_views(models@), name@, 0) is None,
        },
{
    let mut i: usize = 0;
    while i < models.len()
        invariant
            i <= models@.len(),
            find_model(model_views(models@), name@, 0) == find_model(
                model_views(models@),
                name@,
                i as int,
            ),
        decreases models@.len() - i,
    {
        if same_text(models[i].name.as_str(), name) {
            return Some(models[i].clone());
        }
        i += 1;
    }
    None
}

/// A model that is found by a name is one of the models, and it has that name. None is found only
/// where no model has it.
pub proof fn lemma_find_model(models: Seq<ModelView>, name: Seq<char>, i: int)
    requires
        0 <= i,
    ensures
        match find_model(models, name, i) {
            Some(m) => m.name == name && models.contains(m),
            None => forall|j: int| i <= j < models.len() ==> (#[trigger] models[j]).name != name,
        },
    decreases models.len() - i,
{
    if i < models.len() && models[i].name != name {
        lemma_find_model(models, name, i + 1);
    }
}

/// What is to be done for embeddings that no model was named for.
#[derive(Debug)]
pub enum EmbeddingStep {
    /// Make the embeddings of the texts with the model.
    Call { texts: Vec<String>, model: String },
    /// Nothing more: this is the result.
    Done(Result<EmbeddingResult, ProviderError>),
}

impl EmbeddingStep {
    /// The first thing to do for the embeddings of `texts`, with a service of the given
    /// capabilities.
    pub open spec fn starts(
        self,
        capabilities: Option<CapabilitiesView>,
        texts: Vec<String>,
    ) -> bool {
        match capabilities {
            Some(c) => self matches EmbeddingStep::Call { texts: t, model } && t == texts && model@
                == c.default_model,
            None => self matches EmbeddingStep::Done(Err(e)) && e@
                == ProviderErrorView::ExecutionError("Embeddings not supported"@),
        }
    }

    /// The calls that are made and the result, where `reply` is what a call gives.
    pub open spec fn run(self, reply: Result<EmbeddingResult, ProviderError>) -> (
        Seq<(Vec<String>, Seq<char>)>,
        Result<EmbeddingResult, ProviderError>,
    ) {
        match self {
            EmbeddingStep::Call { texts, model } => (seq![(texts, model@)], reply),
            EmbeddingStep::Done(result) => (Seq::empty(), result),
        }
    }

    /// What is to be done once the embeddings have been made, or could not be made: nothing more.
    pub fn on_embeddings(reply: Result<EmbeddingResult, ProviderError>) -> (res: Self)
        ensures
            res == EmbeddingStep::Done(reply),
    {
        EmbeddingStep::Done(reply)
    }
}

/// Where embeddings are supported, they are made in exactly one call, with all the texts and the
/// default model, and what the call gives is the result, be it an error. Where they are not, no
/// call is made.
pub proof fn lemma_one_call(
    step: EmbeddingStep,
    capabilities: Option<CapabilitiesView>,
    texts: Vec<String>,
    reply: Result<EmbeddingResult, ProviderError>,
)
    requires
        step.starts(capabilities, texts),
    ensures
        capabilities matches Some(c) ==> step.run(reply) == (
            seq![(texts, c.default_model)],
            reply,
        ),
        capabilities is None ==> {
            &&& step.run(reply).0.len() == 0
            &&& step.run(reply).1 matches Err(e)
            &&& e@ == ProviderErrorView::ExecutionError("Embeddings not supported"@)
        },
{
}

/// A service that makes embeddings.
pub trait EmbeddingService {
    /// What the service can do.
    open spec fn capabilities(&self) -> Option<CapabilitiesView> {
        arbitrary()
    }

    /// Get embedding capabilities and models
    fn embedding_capabilities(&self) -> (res: Option<EmbeddingCapabilities>)
        ensures
            opt_capabilities(res) == self.capabilities(),
    ;

    /// Check if embeddings are supported
    fn supports_embeddings(&self) -> (res: bool)
        ensures
            res == (self.capabilities() is Some),
    {
        self.embedding_capabilities().is_some()
    }

    /// The model that makes embeddings where none is named
    fn default_embedding_model(&self) -> (res: Result<String, ProviderError>)
        ensures
            match self.capabilities() {
                Some(c) => res matches Ok(model) && model@ == c.default_model,
                None => res matches Err(e) && e@ == ProviderErrorView::ExecutionError(
                    "Embeddings not supported"@,
                ),
            },
    {
        match self.embedding_capabilities() {
            Some(c) => Ok(c.default_model),
            None => Err(ProviderError::ExecutionError("Embeddings not supported".to_owned())),
        }
    }

    /// Create embeddings with default model: the first thing to do
    fn create_embeddings(&self, texts: Vec<String>) -> (res: EmbeddingStep)
        ensures
            res.starts(self.capabilities(), texts),
    {
        match self.default_embedding_model() {
            Ok(model) => EmbeddingStep::Call { texts, model },
            Err(e) => EmbeddingStep::Done(Err(e)),
        }
    }

    /// Get model info for a specific model name
    fn get_embedding_model_info(&self, model: &str) -> (res: Option<EmbeddingModel>)
        ensures
            match self.capabilities() {
                Some(c) => match res {
                    Some(m) => find_model(c.models, model@, 0) == Some(m@),
                    None => find_model(c.models, model@, 0) is None,
                },
                None => res is None,
            },
    {
        match self.embedding_capabilities() {
            Some(c) => model_named(&c.models, model),
            None => None,
        }
    }
}

/// The providers that make embeddings.
#[derive(Debug, Clone, Copy, PartialEq, Eq, Structural)]
pub enum EmbeddingServiceKind {
    OpenAi,
    Ollama,
    LiteLlm,
    Databricks,
}

/// The provider that makes embeddings under a name.
pub open spec fn service_named(name: Seq<char>) -> Option<EmbeddingServiceKind> {
    if name == "openai"@ {
        Some(EmbeddingServiceKind::OpenAi)
    } else if name == "ollama"@ {
        Some(EmbeddingServiceKind::Ollama)
    } else if name == "litellm"@ {
        Some(EmbeddingServiceKind::LiteLlm)
    } else if name == "databricks"@ {
        Some(EmbeddingServiceKind::Databricks)
    } else {
        None
    }
}

/// Which provider makes the embeddings of the service with the given name. The error is the
/// text of what is wrong.
pub fn create_embedding_service(name: &str) -> (res: Result<EmbeddingServiceKind, String>)
    ensures
        match res {
            Ok(kind) => service_named(name@) == Some(kind),
            Err(text) => service_named(name@) is None && text@ == "Provider '"@ + name@
                + "' does not support embeddings"@,
        },
{
    if same_text(name, "openai") {
        Ok(EmbeddingServiceKind::OpenAi)
    } else if same_text(name, "ollama") {
        Ok(EmbeddingServiceKind::Ollama)
    } else if same_text(name, "litellm") {
        Ok(EmbeddingServiceKind::LiteLlm)
    } else if same_text(name, "databricks") {
        Ok(EmbeddingServiceKind::Databricks)
    } else {
        Err("Provider '".to_owned().concat(name).concat("' does not support embeddings"))
    }
}

} // verus!
