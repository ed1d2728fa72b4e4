//! The service directory: names of services and their endpoints.

use crate::names::{ordered, NameMap};
use crate::text::contents;
use vstd::prelude::*;

verus! {

/// Message tag of a request to the directory.
pub const TAG_REG: u64 = 0x5245_4700;

/// The directory.
pub struct Registry {
    names: NameMap<u64>,
}

/// What a client asks.
#[derive(Debug)]
pub enum RegRequest {
    Register { name: String, endpoint: u64 },
    Lookup { name: String },
    List,
}

/// What it is answered.
#[derive(Debug)]
pub enum RegResponse {
    Done,
    Endpoint(u64),
    NotFound,
    List(Vec<String>),
}

impl Registry {
    pub closed spec fn view(&self) -> Map<Seq<char>, u64> {
        self.names@
    }

    pub closed spec fn wf(&self) -> bool {
        self.names.wf()
    }

    /// An empty directory.
    pub fn new() -> (r: Registry)
        ensures
            r.wf(),
            r@ == Map::<Seq<char>, u64>::empty(),
    {
        Registry { names: NameMap::new() }
    }

    /// All names, in order.
    pub fn list(&self) -> (r: Vec<String>)
        requires
            self.wf(),
        ensures
            ordered(contents(r@)),
            forall|k: Seq<char>| self@.contains_key(k) <==> #[trigger] contents(r@).contains(k),
    {
        self.names.names()
    }

    /// Answers a request: a name is given its endpoint, in place of the one that
    /// it had; its endpoint is told; or all names are, in order.
    pub fn handle(&mut self, req: RegRequest) -> (r: RegResponse)
        requires
            old(self).wf(),
        ensures
            final(self).wf(),
            match req {
                RegRequest::Register { name, endpoint } => r is Done && final(self)@ == old(
                    self,
                )@.insert(name@, endpoint),
                RegRequest::Lookup { name } => final(self)@ == old(self)@ && if old(
                    self,
                )@.contains_key(name@) {
                    r is Endpoint && r->Endpoint_0 == old(self)@[name@]
                } else {
                    r is NotFound
                },
                RegRequest::List => {
                    &&& final(self)@ == old(self)@
                    &&& r is List
                    &&& ordered(contents(r->List_0@))
                    &&& forall|k: Seq<char>|
                        old(self)@.contains_key(k) <==> #[trigger] contents(
                            r->List_0@,
                        ).contains(k)
                },
            },
    {
        match req {
            RegRequest::Register { name, endpoint } => {
                self.names.insert(name.as_str(), endpoint);
                RegResponse::Done
            },
            RegRequest::Lookup { name } => match self.names.get(name.as_str()) {
                Some(ep) => RegResponse::Endpoint(*ep),
                None => RegResponse::NotFound,
            },
            RegRequest::List => RegResponse::List(self.list()),
        }
    }
}

/// Whether a name was registered, by the answer.
pub fn registered(resp: &Option<RegResponse>) -> (r: bool)
    ensures
        r == (*resp matches Some(a) && a is Done),
{
    match resp {
        Some(RegResponse::Done) => true,
        _ => false,
    }
}

/// The endpoint in an answer.
pub fn resolved(resp: &Option<RegResponse>) -> (r: Option<u64>)
    ensures
        r == (match *resp {
            Some(RegResponse::Endpoint(ep)) => Some(ep),
            _ => None,
        }),
{
    match resp {
        Some(RegResponse::Endpoint(ep)) => Some(*ep),
        _ => None,
    }
}

/// The names in an answer.
pub fn listed(resp: Option<RegResponse>) -> (r: Vec<String>)
    ensures
        match resp {
            Some(RegResponse::List(v)) => r == v,
            _ => r@.len() == 0,
        },
{
    match resp {
        Some(RegResponse::List(v)) => v,
        _ => Vec::new(),
    }
}

} // verus!
