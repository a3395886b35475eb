//! What providers have in common: how they are described and how they are configured.
use crate::metadata::Metadata;
use vstd::prelude::*;

verus! {

/// A provider that the user has set up.
#[derive(Debug)]
pub struct CustomProviderConfig {
    pub api_key_env: String,
    pub base_url: String,
    pub timeout_seconds: Option<u64>,
    pub headers: Option<Metadata>,
    pub supports_streaming: Option<bool>,
}

/// A model of a provider, and how many tokens its context holds where that is known.
#[derive(Debug, Clone, PartialEq, Eq)]
pub struct ModelInfo {
    pub name: String,
    pub context_limit: Option<usize>,
}

/// A setting of a provider.
#[derive(Debug, Clone, PartialEq, Eq)]
pub struct ConfigKey {
    pub name: String,
    pub required: bool,
    pub secret: bool,
    pub default: Option<String>,
}

/// How a provider is described to the user.
#[derive(Debug, Clone)]
pub struct ProviderMetadata {
    pub name: String,
    pub display_name: String,
    pub description: String,
    pub default_model: String,
    pub known_models: Vec<ModelInfo>,
    pub model_doc_link: String,
    pub config_keys: Vec<ConfigKey>,
}

/// A model by its views.
pub open spec fn model_info_is(m: ModelInfo, name: Seq<char>, context_limit: Option<usize>) -> bool {
    m.name@ == name && m.context_limit == context_limit
}

/// A setting by its views.
pub open spec fn config_key_is(
    k: ConfigKey,
    name: Seq<char>,
    required: bool,
    secret: bool,
    default: Option<Seq<char>>,
) -> bool {
    &&& k.name@ == name
    &&& k.required == required
    &&& k.secret == secret
    &&& crate::text::opt_view(k.default) == default
}

/// A model.
pub fn model_info(name: &str, context_limit: Option<usize>) -> (res: ModelInfo)
    ensures
        model_info_is(res, name@, context_limit),
{
    ModelInfo { name: name.to_owned(), context_limit }
}

/// A setting.
pub fn config_key(name: &str, required: bool, secret: bool, default: Option<&str>) -> (res:
    ConfigKey)
    ensures
        config_key_is(
            res,
            name@,
            required,
            secret,
            match default {
                Some(d) => Some(d@),
                None => None,
            },
        ),
{
    ConfigKey {
        name: name.to_owned(),
        required,
        secret,
        default: match default {
            Some(d) => Some(d.to_owned()),
            None => None,
        },
    }
}

} // verus!
