use vstd::prelude::*;

use crate::codec::{
    addr_of_result, addr_result_ok, build_payload, call_data_of, decode_address_result,
    decode_string_result, payload_of, string_of_result, string_result_ok, encode_call,
};
use crate::errors::{ResolutionError, TransportError};
use crate::hexdata::{chars_of, hex_bytes_of, hex_encode, string_from_ascii};
use crate::namehash::{namehash, namehash_of};
use crate::Address;
use vstd::string::StringExecFns;

verus! {

/// The well-known ENS root registry contract, byte by byte.
pub open spec fn registry_bytes() -> Seq<u8> {
    seq![
        0x00u8,
        0x00,
        0x00,
        0x00,
        0x00,
        0x0C,
        0x2E,
        0x07,
        0x4E,
        0xC6,
        0x9A,
        0x0D,
        0xFB,
        0x29,
        0x97,
        0xBA,
        0x6C,
        0x7D,
        0x2E,
        0x1E,
    ]
}

/// The selector of the registry's resolver(bytes32) method.
pub open spec fn resolver_selector_bytes() -> Seq<u8> {
    seq![0x01u8, 0x78, 0xB8, 0xBF]
}

/// The selector of a resolver's name(bytes32) method.
pub open spec fn name_selector_bytes() -> Seq<u8> {
    seq![0x69u8, 0x1F, 0x34, 0x31]
}

/// The reverse-lookup domain of an address: its lower-case hexadecimal
/// rendering, then ".addr.reverse".
pub open spec fn reverse_domain_of(addr: Seq<u8>) -> Seq<char> {
    chars_of(hex_bytes_of(addr)) + ".addr.reverse"@
}

/// The node an address's reverse-lookup domain hashes to.
pub open spec fn node_of(addr: Seq<u8>) -> Seq<u8> {
    namehash_of(reverse_domain_of(addr))
}

/// The registry request that asks which resolver serves an address.
pub open spec fn resolver_payload_of(addr: Seq<u8>, registry: Seq<u8>) -> Seq<char> {
    payload_of(call_data_of(resolver_selector_bytes(), node_of(addr)), registry)
}

/// The resolver request that asks for an address's name.
pub open spec fn name_payload_of(addr: Seq<u8>, resolver: Seq<u8>) -> Seq<char> {
    payload_of(call_data_of(name_selector_bytes(), node_of(addr)), resolver)
}

fn resolver_selector() -> (r: Vec<u8>)
    ensures
        r@ == resolver_selector_bytes(),
{
    let mut v: Vec<u8> = Vec::new();
    v.push(0x01);
    v.push(0x78);
    v.push(0xB8);
    v.push(0xBF);
    proof {
        assert(v@ =~= resolver_selector_bytes());
    }
    v
}

fn name_selector() -> (r: Vec<u8>)
    ensures
        r@ == name_selector_bytes(),
{
    let mut v: Vec<u8> = Vec::new();
    v.push(0x69);
    v.push(0x1F);
    v.push(0x34);
    v.push(0x31);
    proof {
        assert(v@ =~= name_selector_bytes());
    }
    v
}

/// The root registry as an address value.
pub fn registry_contract() -> (r: Address)
    ensures
        r.wf(),
        r.bytes@ == registry_bytes(),
{
    let mut v: Vec<u8> = Vec::new();
    v.push(0x00);
    v.push(0x00);
    v.push(0x00);
    v.push(0x00);
    v.push(0x00);
    v.push(0x0C);
    v.push(0x2E);
    v.push(0x07);
    v.push(0x4E);
    v.push(0xC6);
    v.push(0x9A);
    v.push(0x0D);
    v.push(0xFB);
    v.push(0x29);
    v.push(0x97);
    v.push(0xBA);
    v.push(0x6C);
    v.push(0x7D);
    v.push(0x2E);
    v.push(0x1E);
    proof {
        assert(v@ =~= registry_bytes());
    }
    Address::from_bytes(v)
}

/// The node of an address's reverse-lookup domain.
pub fn reverse_node(address: &Address) -> (r: Vec<u8>)
    requires
        address.wf(),
    ensures
        r@ == node_of(address.bytes@),
        r@.len() == 32,
{
    let hexpart = hex_encode(&address.bytes);
    let mut domain = string_from_ascii(hexpart);
    domain.append(".addr.reverse");
    namehash(domain.as_str())
}

/// The resolution engine: the registry contract it queries and the node
/// endpoint its requests are meant for.
pub struct Ens {
    pub contract: Address,
    pub endpoint: String,
}

/// Where a resolution stands between its two on-chain calls.
pub enum Resolution {
    /// The registry has been asked which resolver serves the address.
    AwaitingResolver { address: Address },
    /// The resolver has been asked for the address's name.
    AwaitingName { address: Address },
    /// The resolution is over.
    Finished { outcome: Result<String, ResolutionError> },
}

/// What the driver of a resolution must do next.
pub enum ResolveAction {
    /// Send this request document to the node and hand back the reply.
    Send { payload: String },
    /// Nothing more: the resolution settled on this outcome.
    Stop { outcome: Result<String, ResolutionError> },
}

/// Both halves of a step settled on the failure `e`.
pub open spec fn settled_failed(r: (Resolution, ResolveAction), e: ResolutionError) -> bool {
    &&& r.0 matches Resolution::Finished { outcome } && outcome matches Err(err) && err == e
    &&& r.1 matches ResolveAction::Stop { outcome } && outcome matches Err(err) && err == e
}

/// Both halves of a step settled on the resolved name of `s`.
pub open spec fn settled_name(r: (Resolution, ResolveAction), s: Seq<char>) -> bool {
    &&& r.0 matches Resolution::Finished { outcome } && outcome matches Ok(name) && name@
        == string_of_result(s)
    &&& r.1 matches ResolveAction::Stop { outcome } && outcome matches Ok(name) && name@
        == string_of_result(s)
}

fn clone_outcome(outcome: &Result<String, ResolutionError>) -> (r: Result<
    String,
    ResolutionError,
>)
    ensures
        r == *outcome,
{
    match outcome {
        Ok(s) => Ok(s.clone()),
        Err(e) => Err(*e),
    }
}

impl Ens {
    pub open spec fn wf(&self) -> bool {
        self.contract.wf()
    }

    /// An engine against the well-known root registry.
    pub fn new(rpc_address: &str) -> (r: Ens)
        ensures
            r.wf(),
            r.contract.bytes@ == registry_bytes(),
            r.endpoint@ == rpc_address@,
    {
        Ens { contract: registry_contract(), endpoint: String::from_str(rpc_address) }
    }

    /// An engine against an explicit registry contract.
    pub fn from_contract(rpc_address: &str, contract: &Address) -> (r: Ens)
        requires
            contract.wf(),
        ensures
            r.wf(),
            r.contract.bytes@ == contract.bytes@,
            r.endpoint@ == rpc_address@,
    {
        Ens {
            contract: contract.duplicate(),
            endpoint: String::from_str(rpc_address),
        }
    }

    /// The registry request asking for `address`'s resolver contract.
    pub fn resolver_call(&self, address: &Address) -> (r: String)
        requires
            self.wf(),
            address.wf(),
        ensures
            r@ == resolver_payload_of(address.bytes@, self.contract.bytes@),
    {
        let node = reverse_node(address);
        let sel = resolver_selector();
        let data = encode_call(&sel, &node);
        build_payload(data.as_str(), &self.contract)
    }

    /// The resolver request asking for `address`'s name.
    pub fn name_call(&self, address: &Address, resolver: &Address) -> (r: String)
        requires
            address.wf(),
            resolver.wf(),
        ensures
            r@ == name_payload_of(address.bytes@, resolver.bytes@),
    {
        let node = reverse_node(address);
        let sel = name_selector();
        let data = encode_call(&sel, &node);
        build_payload(data.as_str(), resolver)
    }

    /// Starts resolving `address`: the state awaiting the registry's reply,
    /// and the registry request the driver must send.
    pub fn begin_resolve(&self, address: Address) -> (r: (Resolution, ResolveAction))
        requires
            self.wf(),
            address.wf(),
        ensures
            r.0 == (Resolution::AwaitingResolver { address }),
            r.1 matches ResolveAction::Send { payload } && payload@ == resolver_payload_of(
                address.bytes@,
                self.contract.bytes@,
            ),
    {
        let payload = self.resolver_call(&address);
        (Resolution::AwaitingResolver { address }, ResolveAction::Send { payload })
    }

    /// Advances a resolution with the node's reply to the last request sent.
    ///
    /// A failed or undecodable registry reply settles on ResolverLookupFailed
    /// and asks for no second call; a good one hands back the resolver request
    /// to send. The resolver's reply settles on the decoded name, or on
    /// NameLookupFailed. A finished resolution only restates its outcome.
    pub fn resume_resolve(&self, state: Resolution, reply: &Result<String, TransportError>) -> (r:
        (Resolution, ResolveAction))
        requires
            self.wf(),
            state matches Resolution::AwaitingResolver { address } ==> address.wf(),
        ensures
            (match state {
                Resolution::AwaitingResolver { address } => (match reply {
                    Ok(s) => if addr_result_ok(s@) {
                        (r.0 == (Resolution::AwaitingName { address })) && (
                        r.1 matches ResolveAction::Send { payload } && payload@
                            == name_payload_of(address.bytes@, addr_of_result(s@)))
                    } else {
                        settled_failed(r, ResolutionError::ResolverLookupFailed)
                    },
                    Err(_) => settled_failed(r, ResolutionError::ResolverLookupFailed),
                }),
                Resolution::AwaitingName { address } => (match reply {
                    Ok(s) => if string_result_ok(s@) {
                        settled_name(r, s@)
                    } else {
                        settled_failed(r, ResolutionError::NameLookupFailed)
                    },
                    Err(_) => settled_failed(r, ResolutionError::NameLookupFailed),
                }),
                Resolution::Finished { outcome } => r.0 == state && (
                r.1 matches ResolveAction::Stop { outcome: again } && again == outcome),
            }),
    {
        match state {
            Resolution::AwaitingResolver { address } => {
                match reply {
                    Ok(s) => {
                        match decode_address_result(s.as_str()) {
                            Ok(resolver) => {
                                let payload = self.name_call(&address, &resolver);
                                (
                                    Resolution::AwaitingName { address },
                                    ResolveAction::Send { payload },
                                )
                            },
                            Err(_) => {
                                (
                                    Resolution::Finished {
                                        outcome: Err(ResolutionError::ResolverLookupFailed),
                                    },
                                    ResolveAction::Stop {
                                        outcome: Err(ResolutionError::ResolverLookupFailed),
                                    },
                                )
                            },
                        }
                    },
                    Err(_) => {
                        (
                            Resolution::Finished {
                                outcome: Err(ResolutionError::ResolverLookupFailed),
                            },
                            ResolveAction::Stop {
                                outcome: Err(ResolutionError::ResolverLookupFailed),
                            },
                        )
                    },
                }
            },
            Resolution::AwaitingName { address: _ } => {
                match reply {
                    Ok(s) => {
                        match decode_string_result(s.as_str()) {
                            Ok(name) => {
                                let kept = name.clone();
                                (
                                    Resolution::Finished { outcome: Ok(kept) },
                                    ResolveAction::Stop { outcome: Ok(name) },
                                )
                            },
                            Err(_) => {
                                (
                                    Resolution::Finished {
                                        outcome: Err(ResolutionError::NameLookupFailed),
                                    },
                                    ResolveAction::Stop {
                                        outcome: Err(ResolutionError::NameLookupFailed),
                                    },
                                )
                            },
                        }
                    },
                    Err(_) => {
                        (
                            Resolution::Finished { outcome: Err(ResolutionError::NameLookupFailed) },
                            ResolveAction::Stop {
                                outcome: Err(ResolutionError::NameLookupFailed),
                            },
                        )
                    },
                }
            },
            Resolution::Finished { outcome } => {
                let restated = clone_outcome(&outcome);
                (Resolution::Finished { outcome }, ResolveAction::Stop { outcome: restated })
            },
        }
    }
}


} // verus!
