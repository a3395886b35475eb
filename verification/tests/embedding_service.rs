use vectordb::embedding::{
    create_embedding_service, EmbeddingCapabilities, EmbeddingModel, EmbeddingResult,
    EmbeddingService, EmbeddingServiceKind, EmbeddingStep, EmbeddingUsage,
};
use vectordb::errors::ProviderError;

struct MockEmbeddingService {
    dimensions: usize,
    supports_embeddings: bool,
}

impl EmbeddingService for MockEmbeddingService {
    fn embedding_capabilities(&self) -> Option<EmbeddingCapabilities> {
        if !self.supports_embeddings {
            return None;
        }
        Some(EmbeddingCapabilities {
            models: vec![
                EmbeddingModel {
                    name: "mock-small".to_string(),
                    dimensions: self.dimensions,
                    max_input_tokens: 1000,
                    cost_per_token: Some(0.0001_f64.to_bits()),
                },
                EmbeddingModel {
                    name: "mock-large".to_string(),
                    dimensions: self.dimensions * 2,
                    max_input_tokens: 2000,
                    cost_per_token: Some(0.0002_f64.to_bits()),
                },
            ],
            default_model: "mock-small".to_string(),
            max_batch_size: 100,
            supports_custom_dimensions: false,
        })
    }
}

impl MockEmbeddingService {
    fn create_embeddings_with_model(
        &self,
        texts: Vec<String>,
        model: &str,
    ) -> Result<EmbeddingResult, ProviderError> {
        if !self.supports_embeddings {
            return Err(ProviderError::ExecutionError(
                "This provider does not support embeddings".to_string(),
            ));
        }
        let model_info = self
            .get_embedding_model_info(model)
            .ok_or_else(|| ProviderError::ExecutionError(format!("Unknown model: {}", model)))?;
        let embeddings = texts
            .iter()
            .map(|_| vec![0.1_f32.to_bits(); model_info.dimensions])
            .collect();
        Ok(EmbeddingResult {
            embeddings,
            model: model_info,
            usage: EmbeddingUsage {
                tokens: Some(texts.len() as i32 * 10),
                embeddings_count: texts.len(),
            },
        })
    }

    fn create_embeddings(&self, texts: Vec<String>) -> Result<EmbeddingResult, ProviderError> {
        let mut step = EmbeddingService::create_embeddings(self, texts);
        loop {
            step = match step {
                EmbeddingStep::Call { texts, model } => {
                    EmbeddingStep::on_embeddings(self.create_embeddings_with_model(texts, &model))
                }
                EmbeddingStep::Done(result) => return result,
            };
        }
    }
}

#[test]
fn test_embedding_model_creation() {
    let model = EmbeddingModel {
        name: "test-model".to_string(),
        dimensions: 1536,
        max_input_tokens: 8192,
        cost_per_token: Some(0.0001_f64.to_bits()),
    };

    assert_eq!(model.name, "test-model");
    assert_eq!(model.dimensions, 1536);
    assert_eq!(model.max_input_tokens, 8192);
    assert_eq!(model.cost_per_token.map(f64::from_bits), Some(0.0001));
}

#[test]
fn test_embedding_capabilities() {
    let capabilities = EmbeddingCapabilities {
        models: vec![EmbeddingModel {
            name: "small".to_string(),
            dimensions: 512,
            max_input_tokens: 1000,
            cost_per_token: None,
        }],
        default_model: "small".to_string(),
        max_batch_size: 50,
        supports_custom_dimensions: true,
    };

    assert_eq!(capabilities.models.len(), 1);
    assert_eq!(capabilities.default_model, "small");
    assert_eq!(capabilities.max_batch_size, 50);
    assert!(capabilities.supports_custom_dimensions);
}

#[test]
fn test_mock_provider_with_embeddings() {
    let provider = MockEmbeddingService {
        dimensions: 768,
        supports_embeddings: true,
    };

    let caps = provider.embedding_capabilities().unwrap();
    assert_eq!(caps.models.len(), 2);
    assert_eq!(caps.models[0].dimensions, 768);
    assert_eq!(caps.models[1].dimensions, 1536);

    let texts = vec!["Hello".to_string(), "World".to_string()];
    let result = provider.create_embeddings(texts.clone()).unwrap();

    assert_eq!(result.embeddings.len(), 2);
    assert_eq!(result.embeddings[0].len(), 768);
    assert_eq!(result.model.name, "mock-small");
    assert_eq!(result.usage.embeddings_count, 2);

    let result = provider
        .create_embeddings_with_model(texts, "mock-large")
        .unwrap();

    assert_eq!(result.embeddings[0].len(), 1536);
    assert_eq!(result.model.name, "mock-large");
}

#[test]
fn test_provider_without_embeddings() {
    let provider = MockEmbeddingService {
        dimensions: 768,
        supports_embeddings: false,
    };

    assert!(provider.embedding_capabilities().is_none());
    assert!(!provider.supports_embeddings());

    let texts = vec!["Hello".to_string()];
    let result = provider.create_embeddings(texts);

    assert!(result.is_err());
    match result {
        Err(ProviderError::ExecutionError(msg)) => {
            assert!(
                msg.contains("Embeddings not supported")
                    || msg.contains("does not support embeddings"),
                "Unexpected error message: {}",
                msg
            );
        }
        _ => panic!("Expected ExecutionError, got: {:?}", result),
    }
}

#[test]
fn test_unknown_model_error() {
    let provider = MockEmbeddingService {
        dimensions: 768,
        supports_embeddings: true,
    };

    let texts = vec!["Hello".to_string()];
    let result = provider.create_embeddings_with_model(texts, "unknown-model");

    assert!(result.is_err());
    match result {
        Err(ProviderError::ExecutionError(msg)) => {
            assert!(msg.contains("Unknown model"));
        }
        _ => panic!("Expected ExecutionError for unknown model"),
    }
}

#[test]
fn test_embedding_usage_default() {
    let usage = EmbeddingUsage::default();
    assert_eq!(usage.tokens, None);
    assert_eq!(usage.embeddings_count, 0);
}

#[test]
fn services_are_known_by_name() {
    assert_eq!(
        create_embedding_service("openai"),
        Ok(EmbeddingServiceKind::OpenAi)
    );
    assert_eq!(
        create_embedding_service("ollama"),
        Ok(EmbeddingServiceKind::Ollama)
    );
    assert_eq!(
        create_embedding_service("litellm"),
        Ok(EmbeddingServiceKind::LiteLlm)
    );
    assert_eq!(
        create_embedding_service("databricks"),
        Ok(EmbeddingServiceKind::Databricks)
    );
    assert_eq!(
        create_embedding_service("OpenAI"),
        Err("Provider 'OpenAI' does not support embeddings".to_string())
    );
}

#[test]
fn a_missing_model_is_not_found() {
    let provider = MockEmbeddingService {
        dimensions: 4,
        supports_embeddings: true,
    };
    assert!(provider.get_embedding_model_info("mock").is_none());
    let found = provider.get_embedding_model_info("mock-large").unwrap();
    assert_eq!(found.dimensions, 8);
    assert_eq!(provider.default_embedding_model().unwrap(), "mock-small");
}

#[test]
fn the_default_model_is_asked_once_and_its_answer_handed_on() {
    let provider = MockEmbeddingService {
        dimensions: 4,
        supports_embeddings: true,
    };
    assert_eq!(provider.default_embedding_model().unwrap(), "mock-small");
    let asked = vec!["a".to_string(), "b".to_string()];
    match EmbeddingService::create_embeddings(&provider, asked.clone()) {
        EmbeddingStep::Call { texts, model } => {
            assert_eq!(texts, asked);
            assert_eq!(model, "mock-small");
        }
        other => panic!("{:?}", other),
    }
    let refused = ProviderError::RequestFailed("down".to_string());
    match EmbeddingStep::on_embeddings(Err(refused.clone())) {
        EmbeddingStep::Done(Err(e)) => assert_eq!(e, refused),
        other => panic!("{:?}", other),
    }
    let nothing = MockEmbeddingService {
        dimensions: 4,
        supports_embeddings: false,
    };
    match EmbeddingService::create_embeddings(&nothing, asked) {
        EmbeddingStep::Done(Err(e)) => assert_eq!(
            e,
            ProviderError::ExecutionError("Embeddings not supported".to_string())
        ),
        other => panic!("{:?}", other),
    }
}
