use vstd::prelude::*;
use crate::text::{decimal_digits, decimal_string};

verus! {

/// The JSON text of a successful response that carries `data`.
pub open spec fn success_envelope(data: Seq<char>) -> Seq<char> {
    "{\"status\": 200, \"message\": \"Success\", \"data\": "@ + data + "}"@
}

/// The JSON text of a response with status `code`, a message and `data`.
pub open spec fn status_envelope(data: Seq<char>, code: nat, message: Seq<char>) -> Seq<char> {
    "{\"status\": "@ + decimal_digits(code) + ", \"message\": \""@ + message + "\", \"data\": "@
        + data + "}"@
}

/// Wraps the JSON text `json` in the envelope of a successful response.
pub fn wrap_success(json: String) -> (body: String)
    ensures
        body@ == success_envelope(json@),
{
    let mut body = String::from_str("{\"status\": 200, \"message\": \"Success\", \"data\": ");
    body.append(json.as_str());
    body.append("}");
    body
}

/// Wraps the JSON text `json` in a response envelope with status `code` and
/// `message`.
pub fn wrap_status(json: String, code: u32, message: String) -> (body: String)
    ensures
        body@ == status_envelope(json@, code as nat, message@),
{
    let mut body = String::from_str("{\"status\": ");
    let digits = decimal_string(code);
    body.append(digits.as_str());
    body.append(", \"message\": \"");
    body.append(message.as_str());
    body.append("\", \"data\": ");
    body.append(json.as_str());
    body.append("}");
    body
}

/// A status envelope with code 200 and message `Success` is exactly the
/// success envelope.
pub proof fn lemma_success_is_status_200(data: Seq<char>)
    ensures
        status_envelope(data, 200, "Success"@) == success_envelope(data),
{
    reveal_strlit("{\"status\": 200, \"message\": \"Success\", \"data\": ");
    reveal_strlit("{\"status\": ");
    reveal_strlit(", \"message\": \"");
    reveal_strlit("Success");
    reveal_strlit("\", \"data\": ");
    reveal_with_fuel(decimal_digits, 3);
    assert(decimal_digits(200) =~= seq!['2', '0', '0']);
    assert("{\"status\": "@ + decimal_digits(200) + ", \"message\": \""@ + "Success"@
        + "\", \"data\": "@ =~= "{\"status\": 200, \"message\": \"Success\", \"data\": "@);
}

} // verus!
