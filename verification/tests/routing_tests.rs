use portal::addr::{HostAddress, IpAddress, Ipv6Address};
use portal::codec::{decode_host_query_response, encode_host_query_response};
use portal::network::HostQueryResponse;
use portal::handshake::Auth;
use portal::ident::{AgentId, ClientId, StreamId};
use portal::network::{instance_for_host, Error, Instance, QueryOutcome};
use portal::{get_active_streams, get_auth_db_service, get_connections, NoAuth};

const CID_TEXT: &str = "b06105c8-5d7e-4c93-8a17-1f4d2c9b0a11";

fn cid() -> ClientId {
    ClientId::parse_text(CID_TEXT).unwrap()
}

fn instances(n: u8) -> Vec<Instance> {
    (0..n)
        .map(|k| Instance {
            ip: HostAddress::V4(IpAddress::new(10, 0, 0, k)),
        })
        .collect()
}

fn positive() -> QueryOutcome {
    QueryOutcome::Response {
        status: 200,
        client_id: Some(cid()),
    }
}

#[test]
fn zero_instances_means_host_not_served() {
    let r = instance_for_host(&Vec::new(), Vec::new());
    assert_eq!(r.err(), Some(Error::DoesNotServeHost));
}

#[test]
fn single_positive_match_wins_regardless_of_position() {
    let inst = instances(3);
    // The positive answer arrives last, after two negative responders.
    let arrivals = vec![
        (
            0usize,
            QueryOutcome::Response {
                status: 200,
                client_id: None,
            },
        ),
        (
            2usize,
            QueryOutcome::Response {
                status: 404,
                client_id: Some(cid()),
            },
        ),
        (1usize, positive()),
    ];
    let (winner, id) = instance_for_host(&inst, arrivals).unwrap();
    assert_eq!(winner, inst[1]);
    assert_eq!(id, cid());

    // The same positive answer arriving first wins just the same.
    let arrivals = vec![
        (1usize, positive()),
        (
            0usize,
            QueryOutcome::Response {
                status: 200,
                client_id: None,
            },
        ),
        (2usize, QueryOutcome::Failed),
    ];
    let (winner, id) = instance_for_host(&inst, arrivals).unwrap();
    assert_eq!(winner, inst[1]);
    assert_eq!(id, cid());
}

#[test]
fn timed_out_instance_counts_as_negative() {
    let inst = instances(2);
    let arrivals = vec![(0usize, QueryOutcome::Failed), (1usize, positive())];
    let (winner, id) = instance_for_host(&inst, arrivals).unwrap();
    assert_eq!(winner, inst[1]);
    assert_eq!(id, cid());
}

#[test]
fn all_negative_answers_mean_host_not_served() {
    let inst = instances(3);
    let arrivals = vec![
        (
            0usize,
            QueryOutcome::Response {
                status: 500,
                client_id: Some(cid()),
            },
        ),
        (1usize, QueryOutcome::Failed),
        (
            2usize,
            QueryOutcome::Response {
                status: 200,
                client_id: None,
            },
        ),
    ];
    let r = instance_for_host(&inst, arrivals);
    assert_eq!(r.err(), Some(Error::DoesNotServeHost));
}

#[test]
fn serves_host_accepts_only_the_positive_signal() {
    let inst = Instance {
        ip: HostAddress::V4(IpAddress::new(10, 0, 0, 1)),
    };
    assert!(inst.serves_host(positive()).is_ok());
    assert_eq!(
        inst.serves_host(QueryOutcome::Failed).err(),
        Some(Error::DoesNotServeHost)
    );
    assert_eq!(
        inst.serves_host(QueryOutcome::Response {
            status: 200,
            client_id: None
        })
        .err(),
        Some(Error::DoesNotServeHost)
    );
    assert_eq!(
        inst.serves_host(QueryOutcome::Response {
            status: 503,
            client_id: Some(cid())
        })
        .err(),
        Some(Error::DoesNotServeHost)
    );
}

#[test]
fn failed_discovery_lookup_is_a_resolver_error() {
    let r = Instance::from_lookup(Err(()));
    assert!(matches!(r, Err(Error::Resolver)));

    let six = HostAddress::V6(Ipv6Address {
        g0: 0xfd00,
        g1: 0,
        g2: 0,
        g3: 0,
        g4: 0,
        g5: 0,
        g6: 0,
        g7: 1,
    });
    let ips = vec![HostAddress::V4(IpAddress::new(10, 0, 0, 1)), six];
    let found = Instance::from_lookup(Ok(ips)).unwrap();
    assert_eq!(found.len(), 2);
    assert_eq!(found[0].ip, HostAddress::V4(IpAddress::new(10, 0, 0, 1)));
    assert_eq!(found[1].ip, six);
}

#[test]
fn registering_twice_keeps_only_the_second_handle() {
    let mut connections = get_connections();
    let id = cid();
    connections.register(&id, 7);
    connections.register(&id, 11);
    assert_eq!(connections.lookup(&id), Some(11));
    connections.remove(&id);
    assert_eq!(connections.lookup(&id), None);
}

#[test]
fn removing_an_absent_key_is_a_noop() {
    let mut connections = get_connections();
    let present = cid();
    let absent = ClientId::parse_text("0e9c1b3a-2f6d-4e58-b7a1-9c8d7e6f5a40").unwrap();
    connections.register(&present, 3);
    connections.remove(&absent);
    assert_eq!(connections.lookup(&present), Some(3));
    assert_eq!(connections.lookup(&absent), None);
}

#[test]
fn active_streams_have_their_own_lifecycle() {
    let mut streams = get_active_streams();
    let sid = StreamId::generate();
    assert_eq!(streams.lookup(&sid), None);
    streams.insert(&sid, 21);
    assert_eq!(streams.lookup(&sid), Some(21));
    streams.insert(&sid, 22);
    assert_eq!(streams.lookup(&sid), Some(22));
    streams.remove(&sid);
    assert_eq!(streams.lookup(&sid), None);
}

#[test]
fn client_id_mirrors_the_agent_identity() {
    let agent = AgentId::parse_text(CID_TEXT).unwrap();
    let client = ClientId::of_agent(&agent);
    assert_eq!(client.as_text(), CID_TEXT);
    assert_eq!(client, cid());
}

#[test]
fn the_stub_auth_backend_accepts_everything() {
    let backend: NoAuth = get_auth_db_service();
    assert!(backend.accepts(&Auth::Anonymous));
    assert!(backend.accepts(&Auth::Key("anything".to_string())));
}

#[test]
fn host_query_response_round_trips() {
    let yes = HostQueryResponse {
        client_id: Some(cid()),
    };
    let wire = encode_host_query_response(&yes);
    assert_eq!(
        wire,
        format!("{{\"client_id\":\"{}\"}}", CID_TEXT)
    );
    let back = decode_host_query_response(&wire).unwrap();
    assert_eq!(back.client_id.unwrap(), cid());

    let no = HostQueryResponse { client_id: None };
    let wire = encode_host_query_response(&no);
    assert_eq!(wire, "{\"client_id\":null}");
    let back = decode_host_query_response(&wire).unwrap();
    assert!(back.client_id.is_none());

    assert!(decode_host_query_response("{\"client_id\":\"oops\"}").is_none());
}
