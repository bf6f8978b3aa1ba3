use vstd::prelude::*;

verus! {

/// Where Google AI Studio serves the Gemini models.
pub const ENDPOINT_BASE: &'static str = "https://generativelanguage.googleapis.com/v1beta/models";

/// The `generateContent` URL of a model on Google AI Studio.
pub fn endpoint(model: &str) -> (url: String)
    ensures
        url@ == ENDPOINT_BASE@ + "/"@ + model@ + ":generateContent"@,
{
    let mut url = ENDPOINT_BASE.to_owned();
    url.append("/");
    url.append(model);
    url.append(":generateContent");
    url
}

} // verus!
