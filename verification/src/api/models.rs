//! Listing the models that an API profile offers.
use crate::api::endpoints::{directory_base, endpoint, relative_path, url_resolution, EndpointError, names_audio_endpoint};
use crate::api::transcription::{bearer_for, bearer_token, is_success_status};
use crate::text::{decimal, push_decimal, push_str, trim};
use vstd::prelude::*;

verus! {

/// The models endpoint, relative to a profile's base URL.
pub const MODELS_ENDPOINT_PATH: &'static str = "/v1/models";

/// One entry of the models list.
#[derive(Debug, Clone, PartialEq, Eq)]
pub struct ModelInfo {
    pub id: String,
}

/// What is sent to list the models.
#[derive(Debug)]
pub struct ModelsRequestPlan {
    /// The URL that is fetched with `GET`.
    pub url: String,
    /// The bearer token, sent when the API key is not blank.
    pub bearer_token: Option<String>,
}

/// Plans the models request: the models endpoint under the base URL, with a
/// bearer token for a key that is not blank. Fails exactly where
/// [`endpoint`] does.
pub fn plan_models_request(base_url: &str, api_key: &str) -> (r: Result<ModelsRequestPlan, EndpointError>)
    ensures
        names_audio_endpoint(trim(base_url@)) ==> r matches Err(EndpointError::AudioEndpointInBase),
        !names_audio_endpoint(trim(base_url@)) ==> match url_resolution(
            directory_base(base_url@),
            relative_path(MODELS_ENDPOINT_PATH@),
        ) {
            Some(u) => r matches Ok(p) && p.url@ == u && match bearer_for(api_key@) {
                Some(k) => p.bearer_token matches Some(b) && b@ == k,
                None => p.bearer_token is None,
            },
            None => r matches Err(EndpointError::InvalidUrl(_)),
        },
{
    match endpoint(base_url, MODELS_ENDPOINT_PATH) {
        Ok(url) => Ok(ModelsRequestPlan { url, bearer_token: bearer_token(api_key) }),
        Err(e) => Err(e),
    }
}

/// The error for a models reply with `status`, or `None` for a success status.
pub fn models_status_error(status: u16) -> (r: Option<String>)
    ensures
        is_success_status(status as nat) ==> r is None,
        !is_success_status(status as nat) ==> (r matches Some(m) && m@ == "Models API request failed: "@ + decimal(status as nat)),
{
    if 200 <= status && status < 300 {
        None
    } else {
        let mut m = String::new();
        push_str(&mut m, "Models API request failed: ");
        push_decimal(&mut m, status as u64);
        Some(m)
    }
}

/// The ids of listed models, in order.
pub fn model_ids(models: Vec<ModelInfo>) -> (ids: Vec<String>)
    ensures
        ids.len() == models.len(),
        forall|i: int| 0 <= i < models.len() ==> #[trigger] ids@[i]@ == models@[i].id@,
{
    let mut ids: Vec<String> = Vec::new();
    let rest = models;
    let ghost given = rest@;
    let n = rest.len();
    let mut i: usize = 0;
    while i < n
        invariant
            n == given.len(),
            i <= n,
            ids.len() == i,
            rest@ == given,
            forall|k: int| 0 <= k < i ==> #[trigger] ids@[k]@ == given[k].id@,
        decreases n - i,
    {
        let id = crate::text::string_from(rest[i].id.as_str());
        ids.push(id);
        i = i + 1;
    }
    ids
}

} // verus!
