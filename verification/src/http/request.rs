//! Requests: the method, the target and the fields that a parsed request
//! carries to its handler.

use crate::http::body::Body;
use crate::http::value::{fields_view, get_field, set_field, Value};
use crate::string_map::{lookup, put, StringMap};
use crate::text::{eq_str, to_chars};
use vstd::prelude::*;

verus! {

/// The request methods.
#[derive(PartialEq, Eq, Structural, Hash, Copy, Clone, Debug)]
pub enum Method {
    GET,
    POST,
    PUT,
    DELETE,
    HEAD,
    CONNECT,
    OPTIONS,
    TRACE,
    PATCH,
}

/// The method that the token `token` of a request line names. A token that
/// names no method stands for `GET`.
pub open spec fn method_named(token: Seq<char>) -> Method {
    if token == "POST"@ {
        Method::POST
    } else if token == "PUT"@ {
        Method::PUT
    } else if token == "DELETE"@ {
        Method::DELETE
    } else if token == "HEAD"@ {
        Method::HEAD
    } else if token == "CONNECT"@ {
        Method::CONNECT
    } else if token == "OPTIONS"@ {
        Method::OPTIONS
    } else if token == "TRACE"@ {
        Method::TRACE
    } else if token == "PATCH"@ {
        Method::PATCH
    } else {
        Method::GET
    }
}

/// A token that is not the name of one of the methods stands for `GET`.
pub proof fn lemma_unknown_method_is_get(token: Seq<char>)
    requires
        token != "POST"@,
        token != "PUT"@,
        token != "DELETE"@,
        token != "HEAD"@,
        token != "CONNECT"@,
        token != "OPTIONS"@,
        token != "TRACE"@,
        token != "PATCH"@,
    ensures
        method_named(token) == Method::GET,
{
}

impl Method {
    /// The method that `s` names; `GET` where it names none.
    pub fn from_string(s: &str) -> (m: Method)
        ensures
            m == method_named(s@),
    {
        let chars = to_chars(s);
        let token = chars.as_slice();
        if eq_str(token, "POST") {
            Method::POST
        } else if eq_str(token, "PUT") {
            Method::PUT
        } else if eq_str(token, "DELETE") {
            Method::DELETE
        } else if eq_str(token, "HEAD") {
            Method::HEAD
        } else if eq_str(token, "CONNECT") {
            Method::CONNECT
        } else if eq_str(token, "OPTIONS") {
            Method::OPTIONS
        } else if eq_str(token, "TRACE") {
            Method::TRACE
        } else if eq_str(token, "PATCH") {
            Method::PATCH
        } else {
            Method::GET
        }
    }
}

/// Why the head of a request could not be read.
#[derive(PartialEq, Eq, Structural, Copy, Clone, Debug)]
pub enum ParseError {
    /// The request line has no method or no target.
    InvalidRequest,
}

/// A parsed request.
#[derive(Debug)]
pub struct Request {
    pub method: Method,
    /// The path of the target, without trailing slashes; `/` for the root.
    pub path: String,
    /// The parameters of the query string.
    pub query: StringMap,
    /// The parameters that a dynamic route bound from the path.
    pub params: StringMap,
    /// The header fields, under their names in lower case.
    pub headers: StringMap,
    /// Values that middleware hand on to what runs after them.
    pub data: Vec<(String, Value)>,
    pub body: Body,
}

impl Request {
    /// The value of the header `key`.
    pub fn get_header(&self, key: &str) -> (r: Option<&str>)
        ensures
            match r {
                Some(v) => lookup(self.headers@, key@) == Some(v@),
                None => lookup(self.headers@, key@).is_none(),
            },
    {
        match self.headers.get(key) {
            Some(v) => Some(v.as_str()),
            None => None,
        }
    }

    /// The method of the request.
    pub fn get_method(&self) -> (m: &Method)
        ensures
            *m == self.method,
    {
        &self.method
    }

    /// The value that was handed on under `key`.
    pub fn get_data(&self, key: &str) -> (r: Option<&Value>)
        ensures
            match r {
                Some(v) => lookup(fields_view(self.data@), key@) == Some(v@),
                None => lookup(fields_view(self.data@), key@).is_none(),
            },
    {
        get_field(&self.data, key)
    }

    /// Hands `value` on under `key`.
    pub fn set_data(&mut self, key: &str, value: Value)
        ensures
            fields_view(final(self).data@) == put(fields_view(old(self).data@), key@, value@),
            final(self).method == old(self).method,
            final(self).path == old(self).path,
            final(self).query == old(self).query,
            final(self).params == old(self).params,
            final(self).headers == old(self).headers,
            final(self).body == old(self).body,
    {
        set_field(&mut self.data, key, value);
    }

    /// A copy of the value that was handed on under `key`.
    pub fn get_typed_data(&self, key: &str) -> (r: Option<Value>)
        ensures
            match r {
                Some(v) => lookup(fields_view(self.data@), key@) == Some(v@),
                None => lookup(fields_view(self.data@), key@).is_none(),
            },
    {
        match get_field(&self.data, key) {
            Some(v) => Some(v.duplicate()),
            None => None,
        }
    }
}

} // verus!
