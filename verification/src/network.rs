//! The transport boundary's data types and the pure response-building
//! steps of its two operations; the wire handling itself lives outside the
//! library.

use vstd::prelude::*;
use vstd::string::StringExecFns;

use crate::codec::{enc_obj, encode_object};
use crate::effects::TransactionEffects;
use crate::messages::ExecutionRequest;
use crate::object::SuiObject;
use crate::validator::{validator_error_message, ValidatorError};

verus! {

/// A submit-transaction request as the transport carries it.
#[derive(Debug)]
pub struct SubmitTransactionRequest {
    pub transaction: ExecutionRequest,
}

/// The outcome reported for a submitted transaction.
#[derive(Debug)]
pub struct SubmitTransactionResponse {
    pub accepted: bool,
    pub message: String,
}

#[derive(Debug)]
pub struct GetObjectRequest {
    pub object_id: String,
}

/// The outcome of an object lookup; a found object travels in its
/// serialized text form.
#[derive(Debug)]
pub struct GetObjectResponse {
    pub found: bool,
    pub object: Option<String>,
}

/// Configuration of the network server; serving itself happens outside the
/// library.
#[derive(Debug, Clone, Copy)]
pub struct NetworkServer {
    pub port: u16,
}

impl NetworkServer {
    pub fn new(port: u16) -> (r: Self)
        ensures
            r.port == port,
    {
        NetworkServer { port }
    }
}

/// Builds the response reported for a pipeline outcome: acceptance exactly
/// on success, with the fixed success text or the error's description.
pub fn submit_response(result: &Result<TransactionEffects, ValidatorError>) -> (r:
    SubmitTransactionResponse)
    ensures
        r.accepted == (result is Ok),
        result is Ok ==> r.message@ == "Transaction processed successfully"@,
        (*result) matches Err(e) ==> r.message@ == "Transaction failed: "@
            + validator_error_message(e),
{
    match result {
        Ok(_) => SubmitTransactionResponse {
            accepted: true,
            message: "Transaction processed successfully".to_owned(),
        },
        Err(e) => {
            let mut message = String::new();
            message.append("Transaction failed: ");
            let tail = e.message();
            message.append(tail.as_str());
            proof {
                assert(message@ =~= "Transaction failed: "@ + validator_error_message(*e));
            }
            SubmitTransactionResponse { accepted: false, message }
        },
    }
}

/// Builds the response for an object lookup: found exactly when the store
/// held the object, which then travels serialized.
pub fn get_object_response(object: Option<&SuiObject>) -> (r: GetObjectResponse)
    ensures
        r.found == (object is Some),
        match object {
            Some(o) => r.object matches Some(text) && text@ == enc_obj(o@),
            None => r.object is None,
        },
{
    match object {
        Some(o) => GetObjectResponse { found: true, object: Some(encode_object(o)) },
        None => GetObjectResponse { found: false, object: None },
    }
}

} // verus!
