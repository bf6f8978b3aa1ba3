use vstd::prelude::*;

verus! {

/// The OAuth scope that Vertex AI access tokens are requested for.
pub const SCOPE: &'static str = "https://www.googleapis.com/auth/cloud-platform";

/// The `generateContent` URL of a Google model on Vertex AI, in the given
/// project and location.
pub fn endpoint(project_id: &str, location: &str, model: &str) -> (url: String)
    ensures
        url@ == "https://"@ + location@ + "-aiplatform.googleapis.com/v1/projects/"@ + project_id@
            + "/locations/"@ + location@ + "/publishers/google/models/"@ + model@
            + ":generateContent"@,
{
    let mut url = "https://".to_owned();
    url.append(location);
    url.append("-aiplatform.googleapis.com/v1/projects/");
    url.append(project_id);
    url.append("/locations/");
    url.append(location);
    url.append("/publishers/google/models/");
    url.append(model);
    url.append(":generateContent");
    url
}

} // verus!
