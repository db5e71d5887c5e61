use vstd::prelude::*;

use vstd::string::StringExecFns;

verus! {

/// The server's configuration: where to listen, which node to query, and an
/// optional override of the registry contract (empty means the default).
#[derive(Debug)]
pub struct Args {
    pub listen: String,
    pub rpc_endpoint: String,
    pub ens_contract: String,
}

impl Default for Args {
    /// The defaults: listen on 0.0.0.0:8000, query a local node, keep the
    /// well-known registry.
    fn default() -> (r: Args)
        ensures
            r.listen@ == "0.0.0.0:8000"@,
            r.rpc_endpoint@ == "http://localhost:8545"@,
            r.ens_contract@ == ""@,
    {
        Args {
            listen: String::from_str("0.0.0.0:8000"),
            rpc_endpoint: String::from_str("http://localhost:8545"),
            ens_contract: String::from_str(""),
        }
    }
}

/// What the running service hands each request handler.
#[derive(Debug, Clone)]
pub struct State {
    rpc_endpoint: String,
}

impl State {
    /// The node endpoint resolutions go to.
    pub closed spec fn rpc_endpoint_spec(&self) -> Seq<char> {
        self.rpc_endpoint@
    }

    /// A state aimed at `rpc_endpoint`.
    pub fn new(rpc_endpoint: String) -> (r: State)
        ensures
            r.rpc_endpoint_spec() == rpc_endpoint@,
    {
        State { rpc_endpoint }
    }

    /// The node endpoint resolutions go to.
    pub fn rpc_endpoint(&self) -> (r: &String)
        ensures
            r@ == self.rpc_endpoint_spec(),
    {
        &self.rpc_endpoint
    }
}

} // verus!
