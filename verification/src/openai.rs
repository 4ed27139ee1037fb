use vstd::prelude::*;
use vstd::string::StringExecFns;

use crate::error::AppError;
use crate::models::{TargetLanguage, TextRequest, TranslationRequest};

verus! {

/// The text a request carries: query parameters take precedence over the
/// JSON body; with neither present there is no text.
pub open spec fn chosen_text(param: Option<TextRequest>, json: Option<TextRequest>) -> Option<
    Seq<char>,
> {
    match param {
        Some(q) => Some(q.text@),
        None => match json {
            Some(j) => Some(j.text@),
            None => None,
        },
    }
}

/// The translation request a request carries, under the same precedence.
pub open spec fn chosen_translation(
    param: Option<TranslationRequest>,
    json: Option<TranslationRequest>,
) -> Option<(Seq<char>, TargetLanguage)> {
    match param {
        Some(q) => Some((q.text@, q.target_language)),
        None => match json {
            Some(j) => Some((j.text@, j.target_language)),
            None => None,
        },
    }
}

fn select_text(text_param: Option<TextRequest>, text_json: Option<TextRequest>) -> (r: Result<
    String,
    AppError,
>)
    ensures
        chosen_text(text_param, text_json) matches Some(t) ==> (r matches Ok(s) && s@ == t),
        chosen_text(text_param, text_json) is None ==> (r matches Err(e) && e matches AppError::BadRequest(m)
            && m@ == "Text is required"@),
{
    match text_param {
        Some(q) => Ok(q.text),
        None => match text_json {
            Some(j) => Ok(j.text),
            None => Err(AppError::BadRequest("Text is required".to_owned())),
        },
    }
}

/// Build the paraphrase prompt for the text carried by either request
/// form; with neither present, the request is refused.
pub fn paraphrase(text_param: Option<TextRequest>, text_json: Option<TextRequest>) -> (r: Result<
    String,
    AppError,
>)
    ensures
        chosen_text(text_param, text_json) matches Some(t) ==> (r matches Ok(p) && p@
            == "Paraphrase the following text while maintaining its original meaning:\n\n"@ + t),
        chosen_text(text_param, text_json) is None ==> (r matches Err(e) && e matches AppError::BadRequest(m)
            && m@ == "Text is required"@),
{
    match select_text(text_param, text_json) {
        Ok(text) => Ok(
            "Paraphrase the following text while maintaining its original meaning:\n\n".to_owned().concat(
                text.as_str(),
            ),
        ),
        Err(e) => Err(e),
    }
}

/// Build the expansion prompt for the text carried by either request
/// form; with neither present, the request is refused.
pub fn expand(text_param: Option<TextRequest>, text_json: Option<TextRequest>) -> (r: Result<
    String,
    AppError,
>)
    ensures
        chosen_text(text_param, text_json) matches Some(t) ==> (r matches Ok(p) && p@
            == "Expand the following text with more details and explanations:\n\n"@ + t),
        chosen_text(text_param, text_json) is None ==> (r matches Err(e) && e matches AppError::BadRequest(m)
            && m@ == "Text is required"@),
{
    match select_text(text_param, text_json) {
        Ok(text) => Ok(
            "Expand the following text with more details and explanations:\n\n".to_owned().concat(
                text.as_str(),
            ),
        ),
        Err(e) => Err(e),
    }
}

/// Build the summarization prompt for the text carried by either request
/// form; with neither present, the request is refused.
pub fn summarize(text_param: Option<TextRequest>, text_json: Option<TextRequest>) -> (r: Result<
    String,
    AppError,
>)
    ensures
        chosen_text(text_param, text_json) matches Some(t) ==> (r matches Ok(p) && p@
            == "Summarize the following text concisely:\n\n"@ + t),
        chosen_text(text_param, text_json) is None ==> (r matches Err(e) && e matches AppError::BadRequest(m)
            && m@ == "Text is required"@),
{
    match select_text(text_param, text_json) {
        Ok(text) => Ok("Summarize the following text concisely:\n\n".to_owned().concat(text.as_str())),
        Err(e) => Err(e),
    }
}

/// The English name of a translation target.
pub open spec fn language_name(l: TargetLanguage) -> Seq<char> {
    match l {
        TargetLanguage::English => "English"@,
        TargetLanguage::Spanish => "Spanish"@,
    }
}

/// Build the translation prompt, naming the target language, for the
/// request carried by either form; with neither present, the request is
/// refused.
pub fn translate(
    translation_param: Option<TranslationRequest>,
    translation_json: Option<TranslationRequest>,
) -> (r: Result<String, AppError>)
    ensures
        chosen_translation(translation_param, translation_json) matches Some(tr) ==> (r matches Ok(p)
            && p@ == "Translate the following text to "@ + language_name(tr.1) + ":\n\n"@ + tr.0),
        chosen_translation(translation_param, translation_json) is None ==> (r matches Err(e)
            && e matches AppError::BadRequest(m) && m@ == "Translation parameters are required"@),
{
    let request = match translation_param {
        Some(q) => q,
        None => match translation_json {
            Some(j) => j,
            None => {
                return Err(AppError::BadRequest("Translation parameters are required".to_owned()));
            },
        },
    };
    let language: &str = match request.target_language {
        TargetLanguage::English => "English",
        TargetLanguage::Spanish => "Spanish",
    };
    let prompt = "Translate the following text to ".to_owned().concat(language).concat(
        ":\n\n",
    ).concat(request.text.as_str());
    proof {
        assert(prompt@ =~= "Translate the following text to "@ + language_name(
            request.target_language,
        ) + ":\n\n"@ + request.text@);
    }
    Ok(prompt)
}

} // verus!
