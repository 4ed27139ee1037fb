use gateway::api::allowed_origins;
use gateway::error::AppError;
use gateway::models::{TargetLanguage, TextRequest, TranslationRequest, User};
use gateway::openai::{expand, paraphrase, summarize, translate};

fn text(body: &str) -> Option<TextRequest> {
    Some(TextRequest {
        text: body.to_string(),
    })
}

#[test]
fn test_paraphrase_prompt() {
    let prompt = paraphrase(text("hello"), None).unwrap();
    assert_eq!(
        prompt,
        "Paraphrase the following text while maintaining its original meaning:\n\nhello"
    );
}

#[test]
fn test_expand_prompt_from_body() {
    let prompt = expand(None, text("a thought")).unwrap();
    assert_eq!(
        prompt,
        "Expand the following text with more details and explanations:\n\na thought"
    );
}

#[test]
fn test_summarize_prompt_prefers_query() {
    let prompt = summarize(text("from query"), text("from body")).unwrap();
    assert_eq!(
        prompt,
        "Summarize the following text concisely:\n\nfrom query"
    );
}

#[test]
fn test_text_is_required() {
    let result = paraphrase(None, None);
    match result {
        Err(AppError::BadRequest(m)) => assert_eq!(m, "Text is required"),
        _ => panic!("expected a bad-request error"),
    }
}

#[test]
fn test_translate_prompts() {
    let spanish = translate(
        Some(TranslationRequest {
            text: "good morning".to_string(),
            target_language: TargetLanguage::Spanish,
        }),
        None,
    )
    .unwrap();
    assert_eq!(
        spanish,
        "Translate the following text to Spanish:\n\ngood morning"
    );

    let english = translate(
        None,
        Some(TranslationRequest {
            text: "buenos dias".to_string(),
            target_language: TargetLanguage::English,
        }),
    )
    .unwrap();
    assert_eq!(
        english,
        "Translate the following text to English:\n\nbuenos dias"
    );
}

#[test]
fn test_translate_parameters_required() {
    let result = translate(None, None);
    match result {
        Err(AppError::BadRequest(m)) => assert_eq!(m, "Translation parameters are required"),
        _ => panic!("expected a bad-request error"),
    }
}

#[test]
fn test_allowed_origins_expansion() {
    let origins = allowed_origins("example.com, foo.org");
    assert_eq!(
        origins,
        vec![
            "http://example.com".to_string(),
            "https://example.com".to_string(),
            "http://foo.org".to_string(),
            "https://foo.org".to_string(),
        ]
    );
}

#[test]
fn test_new_test_user() {
    let user = User::new_test_user();
    assert_eq!(user.username, "neo");
    assert_eq!(user.password_hash, "hashed_password");
}
