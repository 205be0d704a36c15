//! Distributed host routing. Which of the sibling server instances holds the
//! control connection for a requested hostname is decided by racing one
//! internal query per instance; the first positive answer wins and the rest
//! are abandoned. The caller performs the DNS lookup and the queries and
//! feeds the outcomes in, in the order they arrive; every decision is here.
use vstd::prelude::*;
use crate::addr::HostAddress;
use crate::ident::ClientId;

verus! {

/// Failure taxonomy of the routing path. A failure of one sibling query is
/// downgraded to a negative result for that instance and never surfaces
/// here; `Resolver` is for the discovery lookup itself.
#[derive(Clone, Copy, Debug, PartialEq, Eq, Structural)]
pub enum Error {
    /// Transport-level failure.
    Io,
    /// Outbound internal-query transport failure.
    Request,
    /// The discovery DNS lookup failed; distinct from finding no instances.
    Resolver,
    /// No instance currently serves the requested host.
    DoesNotServeHost,
}

/// One sibling server process; rebuilt on every discovery query, never kept.
#[derive(Clone, Copy, Debug, PartialEq, Eq, Structural)]
pub struct Instance {
    pub ip: HostAddress,
}

/// The internal query sent to one sibling instance.
pub struct HostQuery {
    pub host: String,
}

/// A sibling's answer: the identity owning the host, if that instance holds
/// a live control connection claiming it.
pub struct HostQueryResponse {
    pub client_id: Option<ClientId>,
}

impl View for HostQueryResponse {
    type V = Option<Seq<char>>;

    open spec fn view(&self) -> Option<Seq<char>> {
        match self.client_id {
            Some(id) => Some(id@),
            None => None,
        }
    }
}

/// How one sibling's query ended, as the caller observed it.
pub enum QueryOutcome {
    /// An HTTP response arrived in time: its status and decoded body.
    Response { status: u16, client_id: Option<ClientId> },
    /// Transport failure, or the per-query bound elapsed first.
    Failed,
}

/// The only positive signal: status 200 together with a present identity.
/// Everything else — any other status, an absent identity, a transport
/// failure, a timeout — is a negative result, not a fatal error.
pub open spec fn spec_query_match(o: QueryOutcome) -> Option<ClientId> {
    match o {
        QueryOutcome::Response { status, client_id } => {
            if status == 200 {
                client_id
            } else {
                None
            }
        },
        QueryOutcome::Failed => None,
    }
}

/// First positive outcome wins; all negative — or no instance at all —
/// means the host is not served.
pub open spec fn spec_resolve(
    instances: Seq<Instance>,
    arrivals: Seq<(usize, QueryOutcome)>,
) -> Result<(Instance, ClientId), Error>
    decreases arrivals.len(),
{
    if arrivals.len() == 0 {
        Err(Error::DoesNotServeHost)
    } else {
        match spec_query_match(arrivals[0].1) {
            Some(c) => Ok((instances[arrivals[0].0 as int], c)),
            None => spec_resolve(instances, arrivals.drop_first()),
        }
    }
}

/// The decision taken before any discovery network call: the DNS name to
/// resolve, or nothing when no discovery name is configured — gossip is then
/// off, the instance set is empty, and no lookup is attempted.
pub fn discovery_target(config: &crate::Config) -> (r: Option<String>)
    ensures
        r matches Some(q) ==> config.gossip_dns_host matches Some(t) && q@ == t@,
        r is None <==> config.gossip_dns_host is None,
{
    match &config.gossip_dns_host {
        Some(dns) => Some(dns.clone()),
        None => None,
    }
}

impl Instance {
    /// Classifies one sibling's answer to a host query: the pair of this
    /// instance and the owning identity on the one positive signal, and
    /// "does not serve host" on every other outcome.
    pub fn serves_host(self, outcome: QueryOutcome) -> (r: Result<(Instance, ClientId), Error>)
        ensures
            r == (match spec_query_match(outcome) {
                Some(c) => Ok::<(Instance, ClientId), Error>((self, c)),
                None => Err::<(Instance, ClientId), Error>(Error::DoesNotServeHost),
            }),
    {
        match outcome {
            QueryOutcome::Response { status, client_id } => {
                if status == 200 {
                    match client_id {
                        Some(c) => Ok((self, c)),
                        None => Err(Error::DoesNotServeHost),
                    }
                } else {
                    Err(Error::DoesNotServeHost)
                }
            },
            QueryOutcome::Failed => Err(Error::DoesNotServeHost),
        }
    }

    /// The instances a discovery lookup found, one per resolved address; a
    /// failed lookup is a `Resolver` error, never an empty set.
    pub fn from_lookup(lookup: Result<Vec<HostAddress>, ()>) -> (r: Result<Vec<Instance>, Error>)
        ensures
            r matches Ok(v) ==> {
                &&& lookup matches Ok(ips) && v@.len() == ips@.len()
                &&& forall|k: int|
                    0 <= k < v@.len() ==> (#[trigger] v@[k]) == (Instance {
                        ip: lookup->Ok_0@[k],
                    })
            },
            r is Ok <==> lookup is Ok,
            r is Err ==> r == Err::<Vec<Instance>, Error>(Error::Resolver),
    {
        match lookup {
            Ok(ips) => {
                let mut out: Vec<Instance> = Vec::new();
                let mut i: usize = 0;
                while i < ips.len()
                    invariant
                        i <= ips@.len(),
                        out@.len() == i,
                        forall|k: int|
                            0 <= k < i ==> (#[trigger] out@[k]) == (Instance { ip: ips@[k] }),
                    decreases ips@.len() - i,
                {
                    out.push(Instance { ip: ips[i] });
                    i += 1;
                }
                Ok(out)
            },
            Err(()) => Err(Error::Resolver),
        }
    }
}

/// The instance that runs the requested host, with the identity owning it
/// there. `arrivals` are the query outcomes in the order they were observed,
/// each naming the queried instance by index; the first positive one wins,
/// and with none — including the no-instance case, where nothing was ever
/// queried — the host is not served.
#[verifier::loop_isolation(false)]
pub fn instance_for_host(
    instances: &Vec<Instance>,
    arrivals: Vec<(usize, QueryOutcome)>,
) -> (r: Result<(Instance, ClientId), Error>)
    requires
        forall|k: int| 0 <= k < arrivals@.len() ==> (#[trigger] arrivals@[k]).0 < instances@.len(),
    ensures
        r == spec_resolve(instances@, arrivals@),
{
    let ghost orig = arrivals@;
    let mut rest = arrivals;
    while rest.len() > 0
        invariant
            spec_resolve(instances@, orig) == spec_resolve(instances@, rest@),
            forall|k: int| 0 <= k < rest@.len() ==> (#[trigger] rest@[k]).0 < instances@.len(),
        decreases rest@.len(),
    {
        let ghost before = rest@;
        let (idx, outcome) = rest.remove(0);
        proof {
            assert(before[0] == (idx, outcome));
            assert(rest@ == before.drop_first());
        }
        match outcome {
            QueryOutcome::Response { status, client_id } => {
                if status == 200 {
                    match client_id {
                        Some(c) => {
                            proof {
                                assert(spec_query_match(before[0].1) == Some(c));
                                assert(spec_resolve(instances@, before) == Ok::<
                                    (Instance, ClientId),
                                    Error,
                                >((instances@[idx as int], c)));
                            }
                            return Ok((instances[idx], c));
                        },
                        None => {},
                    }
                }
            },
            QueryOutcome::Failed => {},
        }
    }
    Err(Error::DoesNotServeHost)
}

/// With no positive answer among the arrivals, resolution denies service:
/// every failure and every negative response collapses into the same
/// "does not serve host" outcome.
pub proof fn lemma_all_negative_not_served(
    instances: Seq<Instance>,
    arrivals: Seq<(usize, QueryOutcome)>,
)
    requires
        forall|k: int|
            0 <= k < arrivals.len() ==> spec_query_match((#[trigger] arrivals[k]).1) is None,
    ensures
        spec_resolve(instances, arrivals) == Err::<(Instance, ClientId), Error>(
            Error::DoesNotServeHost,
        ),
    decreases arrivals.len(),
{
    if arrivals.len() > 0 {
        assert(spec_query_match(arrivals[0].1) is None);
        lemma_all_negative_not_served(instances, arrivals.drop_first());
    }
}

/// When exactly one arrival is positive, resolution returns that instance
/// and identity, wherever the positive answer sits among the negative ones:
/// position and speed of the other responders never matter.
pub proof fn lemma_single_positive_wins(
    instances: Seq<Instance>,
    arrivals: Seq<(usize, QueryOutcome)>,
    k: int,
    c: ClientId,
)
    requires
        0 <= k < arrivals.len(),
        spec_query_match(arrivals[k].1) == Some(c),
        forall|j: int|
            0 <= j < arrivals.len() && j != k ==> spec_query_match(
                (#[trigger] arrivals[j]).1,
            ) is None,
    ensures
        spec_resolve(instances, arrivals) == Ok::<(Instance, ClientId), Error>(
            (instances[arrivals[k].0 as int], c),
        ),
    decreases k,
{
    if k == 0 {
    } else {
        assert(spec_query_match(arrivals[0].1) is None);
        assert(arrivals.drop_first()[k - 1] == arrivals[k]);
        lemma_single_positive_wins(instances, arrivals.drop_first(), k - 1, c);
    }
}

/// An instance that exceeded its query bound counts exactly as one that
/// answered negatively: swapping a failed arrival for any negative response
/// leaves the resolution unchanged.
pub proof fn lemma_timeout_counts_as_negative(
    instances: Seq<Instance>,
    arrivals: Seq<(usize, QueryOutcome)>,
    k: int,
    negative: QueryOutcome,
)
    requires
        0 <= k < arrivals.len(),
        arrivals[k].1 is Failed,
        spec_query_match(negative) is None,
    ensures
        spec_resolve(instances, arrivals) == spec_resolve(
            instances,
            arrivals.update(k, (arrivals[k].0, negative)),
        ),
    decreases k,
{
    let swapped = arrivals.update(k, (arrivals[k].0, negative));
    if k == 0 {
        assert(spec_query_match(arrivals[0].1) is None);
        assert(spec_query_match(swapped[0].1) is None);
        assert(swapped.drop_first() =~= arrivals.drop_first());
    } else {
        assert(swapped[0] == arrivals[0]);
        lemma_timeout_counts_as_negative(instances, arrivals.drop_first(), k - 1, negative);
        assert(arrivals.drop_first().update(k - 1, (arrivals.drop_first()[k - 1].0, negative))
            =~= swapped.drop_first());
    }
}

} // verus!
