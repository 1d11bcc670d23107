//! Plain address book-keeping for the host a practice feed could be pulled
//! from: an IPv4 host address and the joining of host and port into one
//! `host:port` string.

use vstd::prelude::*;

verus! {

/// A host address held as text, for example `127.0.0.1`.
#[derive(Debug, Clone)]
pub struct IPV4 {
    address: String,
}

impl IPV4 {
    /// The characters of the bare host address.
    pub closed spec fn host(&self) -> Seq<char> {
        self.address@
    }

    /// Joins the host address and a port into `host:port`.
    pub fn address(&self, port: String) -> (r: String)
        ensures
            r@ == self.host() + seq![':'] + port@,
    {
        let mut r = self.address.clone();
        r.append(":");
        r.append(port.as_str());
        proof {
            reveal_strlit(":");
            assert(":"@ =~= seq![':']);
            assert(r@ =~= self.host() + seq![':'] + port@);
        }
        r
    }

    pub fn new(address: String) -> (r: IPV4)
        ensures
            r.host() == address@,
    {
        IPV4 { address }
    }
}

/// A remote feed endpoint: a host address paired with a port.
pub struct Client {
    host_ip: IPV4,
    port: String,
}

impl Client {
    /// The characters of the host part of the endpoint.
    pub closed spec fn host(&self) -> Seq<char> {
        self.host_ip.host()
    }

    /// The characters of the port part of the endpoint.
    pub closed spec fn port(&self) -> Seq<char> {
        self.port@
    }

    pub fn new(host_ip: IPV4, port: String) -> (r: Client)
        ensures
            r.host() == host_ip.host(),
            r.port() == port@,
    {
        Client { host_ip, port }
    }

    /// The full `host:port` text of the endpoint.
    pub fn address(&self) -> (r: String)
        ensures
            r@ == self.host() + seq![':'] + self.port(),
    {
        self.host_ip.address(self.port.clone())
    }
}

} // verus!
