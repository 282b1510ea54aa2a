//! The error taxonomy: every failure the query pipeline can classify.

use vstd::prelude::*;
use crate::json::JsonV;
use crate::json::JsonValue;
use crate::json::obj_get;
use crate::json::obj_lookup;
use crate::urls::ApiUrl;

verus! {

/// Errors which may occur when using API endpoints, parameterized by the
/// transport's own error type.
#[derive(Debug)]
#[non_exhaustive]
pub enum ApiError<E> {
    /// The client transport encountered an error.
    Client {
        /// The transport's error.
        source: E,
    },
    /// A URL failed to parse.
    UrlParse {
        /// The parse failure, as text.
        detail: String,
    },
    /// The API root route could not be discovered.
    RootRouteDiscovery {
        /// The URL that was probed.
        url: ApiUrl,
    },
    /// A resource's API representation could not be discovered.
    ResourceDiscovery {
        /// The URL that was probed.
        url: ApiUrl,
    },
    /// The remote site returned a well-formed error payload.
    WordPress {
        /// The payload's message.
        message: String,
        /// The payload's error code.
        code: String,
        /// The payload's data, of any shape.
        data: JsonValue,
    },
    /// The remote site answered with a body that is not JSON.
    WordPressInternal {
        /// The status code of the HTTP response.
        status: u16,
        /// The raw response body.
        data: Vec<u8>,
    },
    /// The remote site returned an error with JSON of an unexpected shape.
    WordPressUnrecognized {
        /// The full JSON document from the site.
        json: JsonValue,
    },
    /// A success payload did not fit the expected data type.
    DataType {
        /// The name of the type that could not be read.
        typename: String,
        /// The underlying failure, as text.
        detail: String,
    },
}

/// The `message`, `code` and `data` fields of a well-formed remote error
/// payload: present exactly when the document is an object whose `message`
/// and `code` fields are strings and whose `data` field exists.
pub open spec fn error_fields(j: JsonV) -> Option<(Seq<char>, Seq<char>, JsonV)> {
    match j {
        JsonV::Obj(fs) => match (
            obj_lookup(fs, "message"@),
            obj_lookup(fs, "code"@),
            obj_lookup(fs, "data"@),
        ) {
            (Some(JsonV::Str(m)), Some(JsonV::Str(c)), Some(d)) => Some((m, c, d)),
            _ => None,
        },
        _ => None,
    }
}

impl<E> ApiError<E> {
    /// Wraps a transport-specific error.
    pub fn client(source: E) -> (r: Self)
        ensures
            r matches ApiError::Client { source: s } && s == source,
    {
        ApiError::Client { source }
    }

    /// The classification of a response whose body is not JSON: the literal
    /// status code with the raw body bytes.
    pub fn server_error(status: u16, body: &Vec<u8>) -> (r: Self)
        ensures
            r matches ApiError::WordPressInternal { status: s, data } && s == status && data@
                == body@,
    {
        let data = body.clone();
        proof {
            assert(data@ =~= body@);
        }
        ApiError::WordPressInternal { status, data }
    }

    /// Classifies an error-status JSON document: an application error when
    /// it has string `message` and `code` fields and a `data` field, and an
    /// unrecognized error carrying the document verbatim otherwise.
    pub fn from_json(json: JsonValue) -> (r: Self)
        ensures
            match error_fields(json@) {
                Some(fields) => r matches ApiError::WordPress { message, code, data } && message@
                    == fields.0 && code@ == fields.1 && data@ == fields.2,
                None => r matches ApiError::WordPressUnrecognized { json: j } && j@ == json@,
            },
    {
        match &json {
            JsonValue::Obj(fields) => {
                let m = obj_get(fields, "message");
                let c = obj_get(fields, "code");
                let d = obj_get(fields, "data");
                match (m, c, d) {
                    (Some(JsonValue::Str(ms)), Some(JsonValue::Str(cs)), Some(dv)) => {
                        ApiError::WordPress {
                            message: ms.clone(),
                            code: cs.clone(),
                            data: dv.clone(),
                        }
                    },
                    _ => ApiError::WordPressUnrecognized { json },
                }
            },
            _ => ApiError::WordPressUnrecognized { json },
        }
    }

    /// Records that a success payload could not be read as the named type.
    pub fn data_type(typename: String, detail: String) -> (r: Self)
        ensures
            r matches ApiError::DataType { typename: t, detail: d } && t@ == typename@ && d@
                == detail@,
    {
        ApiError::DataType { typename, detail }
    }
}

} // verus!
