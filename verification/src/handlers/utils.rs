//! Response builders shared by the handlers.
use crate::response::{
    json_response, status_response, ContentType, HttpResponse, StatusCode,
};
use vstd::prelude::*;

verus! {

/// A successful response with `http_response_body` as its JSON body.
pub fn build_json_body_response(http_response_body: String) -> (r: HttpResponse)
    ensures
        r@ == json_response(http_response_body@),
{
    HttpResponse {
        status: StatusCode::Success,
        content_type: Some(ContentType::Json),
        cache_control: None,
        location: None,
        body: http_response_body,
    }
}

/// The response for a value that was to be sent as JSON, given the outcome
/// of serializing it: the text as a JSON body, or an empty internal server
/// error when the value could not be serialized.
pub fn build_json_response(serialized: Result<String, String>) -> (r: HttpResponse)
    ensures
        r@ == match serialized {
            Ok(json_string) => json_response(json_string@),
            Err(_) => status_response(StatusCode::InternalServerError, None),
        },
{
    match serialized {
        Err(_) => build_status_code_response(StatusCode::InternalServerError),
        Ok(json_string) => build_json_body_response(json_string),
    }
}

/// A response with nothing but `status_code`.
pub fn build_status_code_response(status_code: StatusCode) -> (r: HttpResponse)
    ensures
        r@ == status_response(status_code, None),
{
    HttpResponse {
        status: status_code,
        content_type: None,
        cache_control: None,
        location: None,
        body: String::new(),
    }
}

} // verus!
