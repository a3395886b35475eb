//! Vector search over tools, messages and documents: the records, the rules of the store
//! and of the tool selectors, and the embedding providers.
pub mod codec;
pub mod document_vectordb;
pub mod embedding;
pub mod errors;
pub mod health;
pub mod hnsw;
pub mod json;
pub mod llm_tool_selector;
pub mod matching;
pub mod message_vectordb;
pub mod metadata;
pub mod ollama;
pub mod ollama_laws;
pub mod openai;
pub mod openai_laws;
pub mod platform_laws;
pub mod platform_tools;
pub mod provider;
pub mod record_laws;
pub mod records;
pub mod router_tool_selector;
pub mod search_laws;
pub mod selector_laws;
pub mod sorting;
pub mod sqlite_vectordb;
pub mod stats;
pub mod storage_laws;
pub mod store_laws;
pub mod table_laws;
pub mod text;
pub mod text_laws;
pub mod tool_vectordb;
pub mod vector_database;
pub mod web;
