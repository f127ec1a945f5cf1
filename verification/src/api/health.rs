//! The result of checking that an API profile answers.
use crate::text::{decimal, push_decimal, push_str, string_from};
use vstd::prelude::*;

verus! {

/// Whether an API profile answered, with a message for the user.
#[derive(Debug, Clone, PartialEq, Eq)]
pub struct HealthCheckResult {
    pub is_healthy: bool,
    pub message: String,
}

impl HealthCheckResult {
    /// A healthy result that reports how many models the API lists.
    pub fn healthy(model_count: usize) -> (r: HealthCheckResult)
        ensures
            r.is_healthy,
            r.message@ == "Connected. Models: "@ + decimal(model_count as nat) + "."@,
    {
        let mut message = String::new();
        push_str(&mut message, "Connected. Models: ");
        push_decimal(&mut message, model_count as u64);
        push_str(&mut message, ".");
        HealthCheckResult { is_healthy: true, message }
    }

    /// An unhealthy result with `message`.
    pub fn unhealthy(message: String) -> (r: HealthCheckResult)
        ensures
            !r.is_healthy,
            r.message@ == message@,
    {
        HealthCheckResult { is_healthy: false, message }
    }
}

/// The result of a health check from the outcome of listing the models: the
/// number of models, or the error that listing them gave.
pub fn health_check_result(models: Result<usize, String>) -> (r: HealthCheckResult)
    ensures
        match models {
            Ok(n) => r.is_healthy && r.message@ == "Connected. Models: "@ + decimal(n as nat) + "."@,
            Err(e) => !r.is_healthy && r.message@ == "API health check failed: "@ + e@,
        },
{
    match models {
        Ok(n) => HealthCheckResult::healthy(n),
        Err(e) => {
            let mut message = string_from("API health check failed: ");
            push_str(&mut message, e.as_str());
            HealthCheckResult::unhealthy(message)
        },
    }
}

} // verus!
