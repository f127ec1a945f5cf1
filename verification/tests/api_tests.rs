use voiceinsert::api::transcription::temperature_label;
use voiceinsert::api::endpoints::{endpoint, EndpointError};
use voiceinsert::api::health::{health_check_result, HealthCheckResult};
use voiceinsert::api::models::{model_ids, models_status_error, plan_models_request, ModelInfo};
use voiceinsert::api::transcription::{
    bearer_token, plan_audio_request, refused_request_message, safe_api_error_message,
    sanitize_api_error, status_is_success, temperature_text, ApiErrorBody, AudioTextError,
    AudioTextResponse, SendAudioRequest, AUDIO_RESPONSE_FORMAT,
    AUDIO_TRANSCRIPTION_ENDPOINT_PATH, DEFAULT_INPUT_LANGUAGE,
};

fn error_body(message: &str, code: Option<&str>) -> Option<ApiErrorBody> {
    Some(ApiErrorBody {
        message: Some(message.to_string()),
        code: code.map(|c| c.to_string()),
    })
}

#[test]
fn endpoints_endpoint_joins_base_url_and_path() {
    assert_eq!(
        endpoint("https://api.example.com/openai/", "/v1/models").unwrap(),
        "https://api.example.com/openai/v1/models"
    );
}

#[test]
fn endpoints_endpoint_rejects_full_transcription_endpoint_as_base_url() {
    let error = endpoint(
        "https://api.example.com/v1/audio/transcriptions",
        "/v1/audio/transcriptions",
    )
    .unwrap_err()
    .message();

    assert!(error.contains("Base URL must not include an audio endpoint"));
}

#[test]
fn endpoints_endpoint_rejects_full_translation_endpoint_as_base_url() {
    let error = endpoint(
        "https://api.example.com/v1/audio/translations",
        "/v1/audio/translations",
    )
    .unwrap_err()
    .message();

    assert!(error.contains("Base URL must not include an audio endpoint"));
}

#[test]
fn api_tests_endpoint_joins_base_url_and_path() {
    assert_eq!(
        endpoint("https://api.example.com/openai/", "/v1/models").unwrap(),
        "https://api.example.com/openai/v1/models"
    );
}

#[test]
fn api_tests_endpoint_rejects_full_transcription_endpoint_as_base_url() {
    let error = endpoint(
        "https://api.example.com/v1/audio/transcriptions",
        "/v1/audio/transcriptions",
    )
    .unwrap_err()
    .message();

    assert!(error.contains("Base URL must not include an audio endpoint"));
}

#[test]
fn api_tests_endpoint_rejects_full_translation_endpoint_as_base_url() {
    let error = endpoint(
        "https://api.example.com/v1/audio/translations",
        "/v1/audio/translations",
    )
    .unwrap_err()
    .message();

    assert!(error.contains("Base URL must not include an audio endpoint"));
}

#[test]
fn endpoint_trims_base_and_collapses_slashes() {
    assert_eq!(
        endpoint("  http://localhost:9555///  ", "//v1/audio/transcriptions").unwrap(),
        "http://localhost:9555/v1/audio/transcriptions"
    );
}

#[test]
fn endpoint_rejects_relative_base_url() {
    let error = endpoint("not a url", "/v1/models").unwrap_err();

    assert!(matches!(error, EndpointError::InvalidUrl(_)));
    assert!(!error.message().is_empty());
}

#[test]
fn endpoint_rejects_audio_endpoint_inside_padded_base() {
    assert!(matches!(
        endpoint("  http://host/v1/audio/translations/x ", "/v1/models"),
        Err(EndpointError::AudioEndpointInBase)
    ));
}

#[test]
fn healthy_message_includes_model_count() {
    let result = HealthCheckResult::healthy(3);

    assert!(result.is_healthy);
    assert!(result.message.contains("3"));
}

#[test]
fn health_check_reports_model_count_or_failure() {
    assert_eq!(
        health_check_result(Ok(12)),
        HealthCheckResult {
            is_healthy: true,
            message: "Connected. Models: 12.".to_string()
        }
    );
    assert_eq!(
        health_check_result(Err("Models API request failed: 401".to_string())),
        HealthCheckResult {
            is_healthy: false,
            message: "API health check failed: Models API request failed: 401".to_string()
        }
    );
    assert_eq!(
        HealthCheckResult::unhealthy("down".to_string()),
        HealthCheckResult {
            is_healthy: false,
            message: "down".to_string()
        }
    );
}

#[test]
fn audio_endpoint_path_matches_transcription_endpoint() {
    assert_eq!(AUDIO_TRANSCRIPTION_ENDPOINT_PATH, "/v1/audio/transcriptions");
}

#[test]
fn audio_response_format_matches_ai2npu_json_contract() {
    assert_eq!(AUDIO_RESPONSE_FORMAT, "json");
}

#[test]
fn api_error_body_includes_safe_error_message() {
    let message = sanitize_api_error(
        "openai/whisper-large-v3-turbo",
        500,
        "Internal Server Error",
        error_body("native GenAI bridge failed", Some("internal_error")),
    );

    assert!(message.contains("internal_error"));
    assert!(message.contains("native GenAI bridge failed"));
}

#[test]
fn safe_api_error_message_rejects_non_error_json() {
    // `{"text":"recognized private text"}` has no `error` object.
    assert_eq!(safe_api_error_message(None), None);
}

#[test]
fn transcription_error_omits_private_response_body() {
    // A body that is not a JSON error envelope carries no error object.
    let message = sanitize_api_error("whisper-large-v3", 500, "Internal Server Error", None);

    assert!(message.contains("500"));
    assert!(message.contains("whisper-large-v3"));
    assert!(!message.contains("private text"));
}

#[test]
fn api_error_message_formats() {
    assert_eq!(
        sanitize_api_error("m", 422, "Unprocessable Entity", None),
        "Audio API request failed: 422 Unprocessable Entity. Model: m."
    );
    assert_eq!(
        sanitize_api_error("m", 500, "Internal Server Error", error_body(" boom\r\nagain ", Some("  "))),
        "Audio API request failed: 500 Internal Server Error. Model: m. API error: boom  again"
    );
    assert_eq!(
        safe_api_error_message(error_body("   ", Some("code"))),
        None
    );
    assert_eq!(
        safe_api_error_message(Some(ApiErrorBody {
            message: None,
            code: Some("code".to_string())
        })),
        None
    );
    let long = "x".repeat(400);
    let safe = safe_api_error_message(error_body(&long, None)).unwrap();
    assert_eq!(safe, format!("API error: {}", "x".repeat(300)));
}

#[test]
fn refused_request_without_reason_uses_http_error() {
    assert_eq!(
        refused_request_message("m", 599, None, None),
        "Audio API request failed: 599 HTTP error. Model: m."
    );
    assert_eq!(
        refused_request_message("m", 404, Some("Not Found"), error_body("no model", Some("model_not_found"))),
        "Audio API request failed: 404 Not Found. Model: m. API error model_not_found: no model"
    );
}

#[test]
fn success_statuses_are_2xx() {
    assert!(status_is_success(200));
    assert!(status_is_success(299));
    assert!(!status_is_success(199));
    assert!(!status_is_success(300));
    assert!(!status_is_success(500));
}

#[test]
fn audio_text_response_rejects_missing_or_empty_text() {
    let missing = AudioTextResponse { text: None };
    let empty = AudioTextResponse {
        text: Some("   ".to_string()),
    };

    assert_eq!(missing.into_text().unwrap_err(), AudioTextError::MissingText);
    assert!(empty
        .into_text()
        .unwrap_err()
        .message()
        .contains("text field"));
}

#[test]
fn audio_text_response_accepts_text() {
    let response = AudioTextResponse {
        text: Some("recognized text".to_string()),
    };

    assert_eq!(response.into_text().unwrap(), "recognized text");
}

#[test]
fn temperature_text_matches_decimal_display() {
    assert_eq!(temperature_text(2), "0.2");
    assert_eq!(temperature_text(10), "1");
    assert_eq!(temperature_text(0), "0");
    assert_eq!(temperature_text(15), "1.5");
    assert_eq!(temperature_text(-3), "-0.3");
    assert_eq!(temperature_text(2), (0.2f64).to_string());
    assert_eq!(temperature_text(7), (0.7f64).to_string());
}

#[test]
fn bearer_token_is_sent_only_for_non_blank_keys() {
    assert_eq!(bearer_token(" sk-key "), Some(" sk-key ".to_string()));
    assert_eq!(bearer_token("   "), None);
    assert_eq!(bearer_token(""), None);
}

#[test]
fn transcription_plan_defaults_language_to_russian() {
    let plan = plan_audio_request(&SendAudioRequest {
        base_url: "http://localhost:9555",
        api_key: "",
        model: "openai/whisper-large-v3-turbo",
        language: None,
        temperature_tenths: Some(2),
        wav_bytes: vec![82, 73, 70, 70],
    })
    .unwrap();

    assert_eq!(plan.url, "http://localhost:9555/v1/audio/transcriptions");
    assert_eq!(plan.language, DEFAULT_INPUT_LANGUAGE);
    assert_eq!(plan.model, "openai/whisper-large-v3-turbo");
    assert_eq!(plan.response_format, "json");
    assert_eq!(plan.temperature, Some("0.2".to_string()));
    assert_eq!(plan.bearer_token, None);
}

#[test]
fn transcription_plan_uses_explicit_language_and_key() {
    let plan = plan_audio_request(&SendAudioRequest {
        base_url: "https://api.example.com/openai/",
        api_key: "test-key",
        model: "whisper-large-v3",
        language: Some(" en "),
        temperature_tenths: None,
        wav_bytes: Vec::new(),
    })
    .unwrap();

    assert_eq!(plan.url, "https://api.example.com/openai/v1/audio/transcriptions");
    assert_eq!(plan.language, "en");
    assert_eq!(plan.temperature, None);
    assert_eq!(plan.bearer_token, Some("test-key".to_string()));

    let blank = plan_audio_request(&SendAudioRequest {
        base_url: "https://api.example.com/openai/",
        api_key: "",
        model: "whisper-large-v3",
        language: Some("  "),
        temperature_tenths: None,
        wav_bytes: Vec::new(),
    })
    .unwrap();
    assert_eq!(blank.language, "ru");
}

#[test]
fn transcription_plan_rejects_audio_endpoint_base() {
    assert!(matches!(
        plan_audio_request(&SendAudioRequest {
            base_url: "http://host/v1/audio/transcriptions",
            api_key: "",
            model: "m",
            language: None,
            temperature_tenths: None,
            wav_bytes: Vec::new(),
        }),
        Err(EndpointError::AudioEndpointInBase)
    ));
}

#[test]
fn models_request_uses_models_path_and_bearer_authorization() {
    let plan = plan_models_request("http://127.0.0.1:8080/openai/", "test-key").unwrap();

    assert_eq!(plan.url, "http://127.0.0.1:8080/openai/v1/models");
    assert_eq!(plan.bearer_token, Some("test-key".to_string()));
    assert_eq!(plan_models_request("http://h", " ").unwrap().bearer_token, None);
}

#[test]
fn models_status_error_reports_failed_status() {
    assert_eq!(models_status_error(200), None);
    assert_eq!(
        models_status_error(401),
        Some("Models API request failed: 401".to_string())
    );
}

#[test]
fn model_ids_keep_order() {
    let ids = model_ids(vec![
        ModelInfo {
            id: "whisper-large-v3".to_string(),
        },
        ModelInfo {
            id: "gpt-4o-mini-transcribe".to_string(),
        },
    ]);

    assert_eq!(ids, vec!["whisper-large-v3", "gpt-4o-mini-transcribe"]);
}

#[test]
fn temperature_label_always_has_one_decimal() {
    assert_eq!(temperature_label(2), "0.2");
    assert_eq!(temperature_label(10), "1.0");
    assert_eq!(temperature_label(0), "0.0");
    assert_eq!(temperature_label(-5), "-0.5");
    assert_eq!(temperature_label(15), "1.5");
}
