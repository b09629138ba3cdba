//! The service's settings, as one immutable value.
use vstd::prelude::*;
use crate::entry::CacheConfig;
use crate::json::Json;

verus! {

/// Where to send requests and how.
#[derive(Debug)]
pub struct AppConfig {
    pub port: u16,
    pub llm_url: String,
    pub model_name: String,
    /// Members laid over every request body.
    pub llm_params: Option<Json>,
    pub prompt_template: Option<String>,
    pub openai_api_key: Option<String>,
    pub openai_org_id: Option<String>,
    pub openai_project_id: Option<String>,
    pub cache: CacheConfig,
}

} // verus!
