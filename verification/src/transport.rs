//! Transport connector policy below HTTP protocol establishment.
//!
//! A request that needs HTTP/1 wire semantics offers only `http/1.1` during
//! ALPN; any other request also offers `h2`. Cached connector services are
//! keyed by interface binding and protocol offer, not by partition, so
//! partitions with equal bindings share entries, and each entry is built at
//! most once.

use crate::admission::ProtocolRequirement;
use crate::client::PartitionState;
use vstd::prelude::*;

verus! {

/// Static ALPN protocol offer for one transport connection.
#[derive(Clone, Copy, Debug, PartialEq, Eq, Structural, Hash)]
pub enum AlpnOffer {
    /// `h2` then `http/1.1`: the default for requests that may use HTTP/2.
    Http,
    /// `http/1.1` only: for requests that need HTTP/1 wire semantics.
    Http1,
}

/// The offer that preserves a request's wire semantics.
pub open spec fn offer_for(requirement: ProtocolRequirement) -> AlpnOffer {
    match requirement {
        ProtocolRequirement::H1Required => AlpnOffer::Http1,
        _ => AlpnOffer::Http,
    }
}

/// The protocol identifiers an offer sends during ALPN, in preference order.
pub open spec fn offered_protocols(offer: AlpnOffer) -> Seq<Seq<u8>> {
    match offer {
        AlpnOffer::Http => seq![seq![104u8, 50u8], http11_id()],
        AlpnOffer::Http1 => seq![http11_id()],
    }
}

/// The identifier `http/1.1`.
pub open spec fn http11_id() -> Seq<u8> {
    seq![104u8, 116u8, 116u8, 112u8, 47u8, 49u8, 46u8, 49u8]
}

impl AlpnOffer {
    /// Returns the protocol identifiers this offer sends during ALPN:
    /// `h2` then `http/1.1`, or `http/1.1` alone.
    pub fn protocols(&self) -> (protocols: Vec<Vec<u8>>)
        ensures
            protocols@.len() == offered_protocols(*self).len(),
            forall|i: int| 0 <= i < protocols@.len() ==> #[trigger] protocols@[i]@ == offered_protocols(*self)[i],
    {
        let http11: Vec<u8> = vec![104u8, 116u8, 116u8, 112u8, 47u8, 49u8, 46u8, 49u8];
        match self {
            AlpnOffer::Http => {
                let h2: Vec<u8> = vec![104u8, 50u8];
                let protocols = vec![h2, http11];
                assert(protocols@[0]@ =~= seq![104u8, 50u8]);
                assert(protocols@[1]@ =~= http11_id());
                protocols
            },
            AlpnOffer::Http1 => {
                let protocols = vec![http11];
                assert(protocols@[0]@ =~= http11_id());
                protocols
            },
        }
    }
}

/// Selects the ALPN offer that preserves the request's wire semantics.
pub fn alpn_protocols(requirement: ProtocolRequirement) -> (offer: AlpnOffer)
    ensures
        offer == offer_for(requirement),
{
    match requirement {
        ProtocolRequirement::H1Required => AlpnOffer::Http1,
        ProtocolRequirement::H1Compatible => AlpnOffer::Http,
        ProtocolRequirement::H2Required => AlpnOffer::Http,
    }
}

/// Identifies one configured connector service in the transport cache.
///
/// Partition identity is deliberately absent: partitions with equal
/// interface bindings use the same connector configuration.
#[derive(Clone, Debug)]
pub struct ConnectorCacheKey {
    /// Network-interface binding applied before connect.
    pub interface: Option<String>,
    /// Protocol offer installed in the connector.
    pub alpn_protocols: AlpnOffer,
}

/// The abstract value of a cache key.
pub open spec fn key_view(key: ConnectorCacheKey) -> (Option<Seq<char>>, AlpnOffer) {
    (
        match key.interface {
            Some(name) => Some(name@),
            None => None,
        },
        key.alpn_protocols,
    )
}

/// The abstract value of an interface binding.
pub open spec fn interface_view(interface: Option<String>) -> Option<Seq<char>> {
    match interface {
        Some(name) => Some(name@),
        None => None,
    }
}

impl ConnectorCacheKey {
    /// Derives the connector configuration used by one interface binding and offer.
    pub fn for_partition(interface: &Option<String>, alpn_protocols: AlpnOffer) -> (key: Self)
        ensures
            key_view(key) == (interface_view(*interface), alpn_protocols),
    {
        let interface = match interface {
            Some(name) => Some(name.clone()),
            None => None,
        };
        ConnectorCacheKey { interface, alpn_protocols }
    }

    /// Returns the borrowed interface name expected by connector builders.
    pub fn interface(&self) -> (interface: Option<&str>)
        ensures
            match self.interface {
                Some(name) => interface matches Some(s) && s@ == name@,
                None => interface is None,
            },
    {
        match &self.interface {
            Some(name) => Some(name.as_str()),
            None => None,
        }
    }

    /// Returns whether two keys name the same connector configuration.
    pub fn same(&self, other: &Self) -> (same: bool)
        ensures
            same == (key_view(*self) == key_view(*other)),
    {
        let interfaces = match (&self.interface, &other.interface) {
            (Some(a), Some(b)) => a.eq(b),
            (None, None) => true,
            _ => false,
        };
        interfaces && self.alpn_protocols == other.alpn_protocols
    }
}

/// Connector services retained by configuration key.
pub struct ConnectorCache<C> {
    entries: Vec<(ConnectorCacheKey, C)>,
}

impl<C> ConnectorCache<C> {
    /// The keys of the retained services, in construction order.
    pub closed spec fn keys(&self) -> Seq<(Option<Seq<char>>, AlpnOffer)> {
        self.entries@.map_values(|e: (ConnectorCacheKey, C)| key_view(e.0))
    }

    /// The retained service of the key at `i`.
    pub closed spec fn service(&self, i: int) -> C {
        self.entries@[i].1
    }

    /// No configuration is retained twice.
    pub open spec fn wf(&self) -> bool {
        self.keys().no_duplicates()
    }

    /// Creates an empty cache.
    pub fn new() -> (cache: Self)
        ensures
            cache.wf(),
            cache.keys() == Seq::<(Option<Seq<char>>, AlpnOffer)>::empty(),
    {
        let cache = ConnectorCache { entries: Vec::new() };
        assert(cache.keys() =~= Seq::<(Option<Seq<char>>, AlpnOffer)>::empty());
        cache
    }

    /// Returns the number of retained services.
    pub fn len(&self) -> (len: usize)
        ensures
            len == self.keys().len(),
    {
        self.entries.len()
    }

    /// Finds the index of the service retained for `key`.
    pub fn find(&self, key: &ConnectorCacheKey) -> (index: Option<usize>)
        requires
            self.wf(),
        ensures
            match index {
                Some(i) => i < self.keys().len() && self.keys()[i as int] == key_view(*key),
                None => !self.keys().contains(key_view(*key)),
            },
    {
        let mut i: usize = 0;
        while i < self.entries.len()
            invariant
                i <= self.entries@.len(),
                forall|j: int| 0 <= j < i ==> self.keys()[j] != key_view(*key),
            decreases self.entries@.len() - i,
        {
            if self.entries[i].0.same(key) {
                return Some(i);
            }
            i = i + 1;
        }
        proof {
            if self.keys().contains(key_view(*key)) {
                let j = choose|j: int| 0 <= j < self.keys().len() && self.keys()[j] == key_view(*key);
                assert(self.keys()[j] != key_view(*key));
            }
        }
        None
    }

    /// Returns the service retained for `key`, building it with `build` the
    /// first time the key is seen.
    pub fn get_or_insert<F: Fn(&ConnectorCacheKey) -> C>(&mut self, key: ConnectorCacheKey, build: &F) -> (service: C)
        where
            C: Clone,
        requires
            old(self).wf(),
            forall|k: &ConnectorCacheKey| build.requires((k,)),
        ensures
            final(self).wf(),
            old(self).keys().contains(key_view(key)) ==> {
                &&& final(self).keys() == old(self).keys()
                &&& forall|i: int| 0 <= i < old(self).keys().len() ==> #[trigger] final(self).service(i) == old(self).service(i)
                &&& exists|i: int|
                    0 <= i < old(self).keys().len() && old(self).keys()[i] == key_view(key) && cloned(
                        #[trigger] old(self).service(i),
                        service,
                    )
            },
            !old(self).keys().contains(key_view(key)) ==> {
                &&& final(self).keys() == old(self).keys().push(key_view(key))
                &&& forall|i: int| 0 <= i < old(self).keys().len() ==> #[trigger] final(self).service(i) == old(self).service(i)
                &&& build.ensures((&key,), service)
                &&& cloned(service, final(self).service(old(self).keys().len() as int))
            },
    {
        match self.find(&key) {
            Some(i) => {
                let service = self.entries[i].1.clone();
                proof {
                    assert(old(self).keys()[i as int] == key_view(key));
                    assert(cloned(old(self).service(i as int), service));
                }
                service
            },
            None => {
                let service = build(&key);
                let retained = service.clone();
                let ghost before = self.keys();
                let ghost key_value = key;
                self.entries.push((key, retained));
                proof {
                    assert(self.keys() =~= before.push(key_view(key_value)));
                    assert forall|a: int, b: int| 0 <= a < b < self.keys().len() implies self.keys()[a] != self.keys()[b] by {
                        if b == before.len() {
                            assert(before.contains(before[a]));
                        }
                    }
                }
                service
            },
        }
    }
}

/// Whether `service` is a clone of what `factory` built for a key with view
/// `key`.
pub open spec fn built_for<F: Fn(&ConnectorCacheKey) -> C, C: Clone>(
    factory: F,
    key: (Option<Seq<char>>, AlpnOffer),
    service: C,
) -> bool {
    exists|k: ConnectorCacheKey, built: C|
        key_view(k) == key && #[trigger] factory.ensures((&k,), built) && cloned(built, service)
}

/// A transport factory that retains configured connector services by
/// interface binding and ALPN offer.
pub struct CachedTransportFactory<F, C> {
    /// Constructs a connector service for one exact cache key.
    pub factory: F,
    /// Whether every HTTP/1-required connection is guaranteed to negotiate HTTP/1.
    pub can_guarantee_http1: bool,
    /// Connector services constructed during client validation or first use.
    pub connectors: ConnectorCache<C>,
}

impl<F: Fn(&ConnectorCacheKey) -> C, C: Clone> CachedTransportFactory<F, C> {
    /// Creates a factory with an empty cache.
    pub fn new(factory: F, can_guarantee_http1: bool) -> (transport: Self)
        ensures
            transport.connectors.wf(),
            transport.can_guarantee_http1 == can_guarantee_http1,
            transport.connectors.keys() == Seq::<(Option<Seq<char>>, AlpnOffer)>::empty(),
    {
        CachedTransportFactory { factory, can_guarantee_http1, connectors: ConnectorCache::new() }
    }

    /// Returns the retained connector for one interface binding and offer.
    pub fn connector(&mut self, interface: &Option<String>, alpn_protocols: AlpnOffer) -> (connector: C)
        requires
            old(self).connectors.wf(),
            forall|k: &ConnectorCacheKey| old(self).factory.requires((k,)),
        ensures
            final(self).connectors.wf(),
            final(self).can_guarantee_http1 == old(self).can_guarantee_http1,
            final(self).factory == old(self).factory,
            forall|i: int| 0 <= i < old(self).connectors.keys().len()
                ==> #[trigger] final(self).connectors.service(i) == old(self).connectors.service(i),
            old(self).connectors.keys().contains((interface_view(*interface), alpn_protocols)) ==> {
                &&& final(self).connectors.keys() == old(self).connectors.keys()
                &&& exists|i: int|
                    0 <= i < old(self).connectors.keys().len()
                        && old(self).connectors.keys()[i] == (interface_view(*interface), alpn_protocols)
                        && cloned(#[trigger] old(self).connectors.service(i), connector)
            },
            !old(self).connectors.keys().contains((interface_view(*interface), alpn_protocols)) ==> {
                &&& final(self).connectors.keys() == old(self).connectors.keys().push((interface_view(*interface), alpn_protocols))
                &&& exists|key: ConnectorCacheKey|
                    key_view(key) == (interface_view(*interface), alpn_protocols)
                        && #[trigger] old(self).factory.ensures((&key,), connector)
                &&& cloned(connector, final(self).connectors.service(old(self).connectors.keys().len() as int))
            },
    {
        let key = ConnectorCacheKey::for_partition(interface, alpn_protocols);
        let ghost built_for = key;
        let connector = self.connectors.get_or_insert(key, &self.factory);
        proof {
            if !old(self).connectors.keys().contains((interface_view(*interface), alpn_protocols)) {
                assert(key_view(built_for) == (interface_view(*interface), alpn_protocols));
                assert(old(self).factory.ensures((&built_for,), connector));
            }
        }
        connector
    }

    /// Materializes both connector variants a partition may select: the
    /// default offer, then the HTTP/1-only offer.
    pub fn initialize_connectors_for_partition(&mut self, partition: &PartitionState)
        requires
            old(self).connectors.wf(),
            forall|k: &ConnectorCacheKey| old(self).factory.requires((k,)),
        ensures
            final(self).connectors.wf(),
            final(self).can_guarantee_http1 == old(self).can_guarantee_http1,
            ({
                let http = (interface_view(partition.interface), AlpnOffer::Http);
                let http1 = (interface_view(partition.interface), AlpnOffer::Http1);
                let keys = old(self).connectors.keys();
                let with_http = if keys.contains(http) { keys } else { keys.push(http) };
                final(self).connectors.keys() == if with_http.contains(http1) { with_http } else { with_http.push(http1) }
            }),
            forall|i: int| 0 <= i < old(self).connectors.keys().len()
                ==> #[trigger] final(self).connectors.service(i) == old(self).connectors.service(i),
            forall|i: int| old(self).connectors.keys().len() <= i < final(self).connectors.keys().len()
                ==> #[trigger] built_for(old(self).factory, final(self).connectors.keys()[i], final(self).connectors.service(i)),
    {
        let interface = partition.interface();
        let ghost k0 = self.connectors.keys();
        let _default = self.connector(interface, AlpnOffer::Http);
        let ghost k1 = self.connectors.keys();
        let ghost s1 = self.connectors;
        proof {
            if k1.len() > k0.len() {
                let key = choose|key: ConnectorCacheKey|
                    key_view(key) == (interface_view(*interface), AlpnOffer::Http)
                        && #[trigger] old(self).factory.ensures((&key,), _default);
                assert(built_for(old(self).factory, k1[k0.len() as int], s1.service(k0.len() as int)));
            }
        }
        let _http1 = self.connector(interface, AlpnOffer::Http1);
        proof {
            let k2 = self.connectors.keys();
            if k2.len() > k1.len() {
                let key = choose|key: ConnectorCacheKey|
                    key_view(key) == (interface_view(*interface), AlpnOffer::Http1)
                        && #[trigger] old(self).factory.ensures((&key,), _http1);
                assert(built_for(old(self).factory, k2[k1.len() as int], self.connectors.service(k1.len() as int)));
            }
            assert forall|i: int| old(self).connectors.keys().len() <= i < self.connectors.keys().len()
                implies #[trigger] built_for(old(self).factory, self.connectors.keys()[i], self.connectors.service(i)) by {
                if i < k1.len() {
                    assert(self.connectors.service(i) == s1.service(i));
                }
            }
        }
    }

    /// Returns whether an HTTP/1-required attempt is guaranteed to negotiate HTTP/1.
    pub fn can_guarantee_http1(&self) -> (guaranteed: bool)
        ensures
            guaranteed == self.can_guarantee_http1,
    {
        self.can_guarantee_http1
    }
}

/// Initializing a partition twice builds nothing more than initializing it
/// once: once both offers of an interface binding are retained, the cache
/// keys stay unchanged.
pub proof fn lemma_initialization_is_idempotent(
    keys: Seq<(Option<Seq<char>>, AlpnOffer)>,
    interface: Option<Seq<char>>,
)
    requires
        keys.contains((interface, AlpnOffer::Http)),
        keys.contains((interface, AlpnOffer::Http1)),
    ensures
        ({
            let http = (interface, AlpnOffer::Http);
            let http1 = (interface, AlpnOffer::Http1);
            let with_http = if keys.contains(http) { keys } else { keys.push(http) };
            (if with_http.contains(http1) { with_http } else { with_http.push(http1) }) == keys
        }),
{
}

} // verus!
