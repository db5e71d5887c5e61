use vstd::prelude::*;

use vstd::string::StringExecFns;

verus! {

/// An error the REST reverse-lookup service or its client reports.
#[derive(Debug)]
pub enum EnsApiError {
    /// The HTTP request to the service could not be carried out.
    RequestError(String),
    /// The service's reply did not parse as a success shape.
    ParseError(String),
    /// The service itself reported a structured error.
    ApiError(String),
    /// Nothing more is known.
    Unknown,
}

/// How an error renders for a human.
pub open spec fn message_of(e: EnsApiError) -> Seq<char> {
    match e {
        EnsApiError::RequestError(s) => "request error "@ + s@,
        EnsApiError::ParseError(s) => "response parsing error "@ + s@,
        EnsApiError::ApiError(s) => "server API error "@ + s@,
        EnsApiError::Unknown => "unknown client error"@,
    }
}

impl EnsApiError {
    /// The error rendered for a human.
    pub fn message(&self) -> (r: String)
        ensures
            r@ == message_of(*self),
    {
        match self {
            EnsApiError::RequestError(s) => {
                let mut out = String::from_str("request error ");
                out.append(s.as_str());
                out
            },
            EnsApiError::ParseError(s) => {
                let mut out = String::from_str("response parsing error ");
                out.append(s.as_str());
                out
            },
            EnsApiError::ApiError(s) => {
                let mut out = String::from_str("server API error ");
                out.append(s.as_str());
                out
            },
            EnsApiError::Unknown => String::from_str("unknown client error"),
        }
    }
}

/// A client of the REST reverse-lookup service, aimed at one base URL.
pub struct Client {
    address: String,
}

impl Client {
    /// The base URL requests go to.
    pub closed spec fn address_spec(&self) -> Seq<char> {
        self.address@
    }

    /// A client of the public service instance.
    pub fn default() -> (r: Client)
        ensures
            r.address_spec() == "https://enormous.cloud/ens/reverse/"@,
    {
        Client { address: String::from_str("https://enormous.cloud/ens/reverse/") }
    }

    /// A client of the service at `address`.
    pub fn new(address: &str) -> (r: Client)
        ensures
            r.address_spec() == address@,
    {
        Client { address: String::from_str(address) }
    }

    /// The base URL this client sends requests to.
    pub fn address(&self) -> (r: &String)
        ensures
            r@ == self.address_spec(),
    {
        &self.address
    }
}

} // verus!
