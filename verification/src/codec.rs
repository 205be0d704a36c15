//! Wire codec of the handshake message and of the internal host-query
//! response: a JSON object in a fixed canonical field order, built and read
//! character by character. Encoding and decoding are exact inverses; the
//! round-trip law at the end states it.
use vstd::prelude::*;
use crate::addr::IpAddress;
use crate::handshake::{
    AgentHandshake, Auth, AuthModel, Encryption, EncryptionModel, HandshakeModel, LocalInfo,
    ServiceInfo, Version, VersionModel, handshake_model_wf, semver_of_text, version_model_wf,
};
use crate::ident::{AgentId, ClientId, is_uuid_text};
use crate::network::HostQueryResponse;
use crate::text::{
    chars_of_str, dec_of, digit_of, esc_of, expect_lit, is_digit_char, lemma_region_concat,
    lemma_scan_dec_of, lemma_scan_escaped, push_escaped, render_u64, scan_string, scan_u64,
    spec_expect, spec_scan_string, spec_scan_u64, string_of_chars,
};

verus! {

broadcast use vstd::string::group_string_axioms;

/// The rest of a quoted string once its opening quote is written: the
/// escaped content and the closing quote.
pub open spec fn enc_str_body(s: Seq<char>) -> Seq<char> {
    esc_of(s) + "\""@
}

/// An optional string field: `null`, or the full quoted string.
pub open spec fn enc_opt_string(o: Option<Seq<char>>) -> Seq<char> {
    match o {
        None => "null"@,
        Some(s) => "\""@ + enc_str_body(s),
    }
}

/// The auth field: the bare word for anonymous, a one-field object for a key.
pub open spec fn enc_auth(a: AuthModel) -> Seq<char> {
    match a {
        AuthModel::Anonymous => "\"Anonymous\""@,
        AuthModel::Key(k) => "{\"Key\":\""@ + enc_str_body(k) + "}"@,
    }
}

/// The version field: `null`, or the version's own text, quoted.
pub open spec fn enc_opt_version(o: Option<VersionModel>) -> Seq<char> {
    match o {
        None => "null"@,
        Some(vm) => "\""@ + enc_str_body(vm.text),
    }
}

/// Dotted-quad address text.
pub open spec fn enc_ip(ip: IpAddress) -> Seq<char> {
    dec_of(ip.o0 as int) + "."@ + dec_of(ip.o1 as int) + "."@ + dec_of(ip.o2 as int) + "."@
        + dec_of(ip.o3 as int)
}

pub open spec fn enc_local(l: LocalInfo) -> Seq<char> {
    "{\"ip\":\""@ + enc_ip(l.ip) + "\",\"port\":"@ + dec_of(l.port as int) + "}"@
}

pub open spec fn enc_opt_local(o: Option<LocalInfo>) -> Seq<char> {
    match o {
        None => "null"@,
        Some(l) => enc_local(l),
    }
}

pub open spec fn enc_service(s: ServiceInfo) -> Seq<char> {
    "{\"target_ip\":\""@ + enc_ip(s.target_ip) + "\",\"target_port\":"@ + dec_of(
        s.target_port as int,
    ) + "}"@
}

pub open spec fn enc_opt_service(o: Option<ServiceInfo>) -> Seq<char> {
    match o {
        None => "null"@,
        Some(s) => enc_service(s),
    }
}

pub open spec fn enc_encryption(e: EncryptionModel) -> Seq<char> {
    "{\"method\":\""@ + enc_str_body(e.method) + ",\"key\":\""@ + enc_str_body(e.key) + "}"@
}

pub open spec fn enc_opt_encryption(o: Option<EncryptionModel>) -> Seq<char> {
    match o {
        None => "null"@,
        Some(e) => enc_encryption(e),
    }
}

/// The wire text up to and including each field, in canonical order: each
/// step appends one field label and its value.
pub open spec fn enc_pre0(m: HandshakeModel) -> Seq<char> {
    "{\"agent_id\":\""@ + enc_str_body(m.agent_id)
}

pub open spec fn enc_pre1(m: HandshakeModel) -> Seq<char> {
    enc_pre0(m) + ",\"agent_name\":"@ + enc_opt_string(m.agent_name)
}

pub open spec fn enc_pre2(m: HandshakeModel) -> Seq<char> {
    enc_pre1(m) + ",\"auth\":"@ + enc_auth(m.auth)
}

pub open spec fn enc_pre3(m: HandshakeModel) -> Seq<char> {
    enc_pre2(m) + ",\"version\":"@ + enc_opt_version(m.version)
}

pub open spec fn enc_pre4(m: HandshakeModel) -> Seq<char> {
    enc_pre3(m) + ",\"local_info\":"@ + enc_opt_local(m.local_info)
}

pub open spec fn enc_pre5(m: HandshakeModel) -> Seq<char> {
    enc_pre4(m) + ",\"service_info\":"@ + enc_opt_service(m.service_info)
}

pub open spec fn enc_pre6(m: HandshakeModel) -> Seq<char> {
    enc_pre5(m) + ",\"encryption\":"@ + enc_opt_encryption(m.encryption)
}

pub open spec fn enc_pre7(m: HandshakeModel) -> Seq<char> {
    enc_pre6(m) + ",\"heartbeat_interval\":"@ + dec_of(m.heartbeat_interval as int)
}

pub open spec fn enc_pre8(m: HandshakeModel) -> Seq<char> {
    enc_pre7(m) + ",\"timestamp\":"@ + dec_of(m.timestamp as int)
}

/// The canonical wire text of a handshake: every field, in this order, with
/// no spacing.
pub open spec fn spec_encode(m: HandshakeModel) -> Seq<char> {
    enc_pre8(m) + "}"@
}

/// Appends the characters of a fixed text.
fn push_lit(out: &mut Vec<char>, s: &str)
    ensures
        final(out)@ == old(out)@ + s@,
{
    let mut cs = chars_of_str(s);
    out.append(&mut cs);
}

/// Appends a quoted string's body: escaped content, closing quote.
fn push_str_body(out: &mut Vec<char>, s: &str)
    ensures
        final(out)@ == old(out)@ + enc_str_body(s@),
{
    let cs = chars_of_str(s);
    push_escaped(out, &cs);
    push_lit(out, "\"");
    proof {
        assert((old(out)@ + esc_of(s@)) + "\""@ =~= old(out)@ + (esc_of(s@) + "\""@));
    }
}

fn push_opt_string(out: &mut Vec<char>, o: &Option<String>)
    ensures
        final(out)@ == old(out)@ + enc_opt_string(match o {
            Some(s) => Some(s@),
            None => None,
        }),
{
    match o {
        None => {
            push_lit(out, "null");
        },
        Some(s) => {
            push_lit(out, "\"");
            push_str_body(out, s.as_str());
            proof {
                assert((old(out)@ + "\""@) + enc_str_body(s@) =~= old(out)@ + ("\""@ + enc_str_body(
                    s@,
                )));
            }
        },
    }
}

fn push_auth(out: &mut Vec<char>, a: &Auth)
    ensures
        final(out)@ == old(out)@ + enc_auth(a@),
{
    match a {
        Auth::Anonymous => {
            push_lit(out, "\"Anonymous\"");
        },
        Auth::Key(k) => {
            push_lit(out, "{\"Key\":\"");
            push_str_body(out, k.as_str());
            push_lit(out, "}");
            proof {
                assert(((old(out)@ + "{\"Key\":\""@) + enc_str_body(k@)) + "}"@ =~= old(out)@ + ((
                "{\"Key\":\""@ + enc_str_body(k@)) + "}"@));
            }
        },
    }
}

fn push_opt_version(out: &mut Vec<char>, o: &Option<Version>)
    ensures
        final(out)@ == old(out)@ + enc_opt_version(match o {
            Some(v) => Some(v@),
            None => None,
        }),
{
    match o {
        None => {
            push_lit(out, "null");
        },
        Some(v) => {
            push_lit(out, "\"");
            push_str_body(out, v.as_text());
            proof {
                assert((old(out)@ + "\""@) + enc_str_body(v@.text) =~= old(out)@ + ("\""@
                    + enc_str_body(v@.text)));
            }
        },
    }
}

fn push_ip(out: &mut Vec<char>, ip: IpAddress)
    ensures
        final(out)@ == old(out)@ + enc_ip(ip),
{
    let mut d0 = render_u64(ip.o0 as u64);
    out.append(&mut d0);
    push_lit(out, ".");
    let mut d1 = render_u64(ip.o1 as u64);
    out.append(&mut d1);
    push_lit(out, ".");
    let mut d2 = render_u64(ip.o2 as u64);
    out.append(&mut d2);
    push_lit(out, ".");
    let mut d3 = render_u64(ip.o3 as u64);
    out.append(&mut d3);
    proof {
        assert(out@ =~= old(out)@ + enc_ip(ip));
    }
}

fn push_opt_local(out: &mut Vec<char>, o: &Option<LocalInfo>)
    ensures
        final(out)@ == old(out)@ + enc_opt_local(*o),
{
    match o {
        None => {
            push_lit(out, "null");
        },
        Some(l) => {
            push_lit(out, "{\"ip\":\"");
            push_ip(out, l.ip);
            push_lit(out, "\",\"port\":");
            let mut d = render_u64(l.port as u64);
            out.append(&mut d);
            push_lit(out, "}");
            proof {
                assert(out@ =~= old(out)@ + enc_local(*l));
            }
        },
    }
}

fn push_opt_service(out: &mut Vec<char>, o: &Option<ServiceInfo>)
    ensures
        final(out)@ == old(out)@ + enc_opt_service(*o),
{
    match o {
        None => {
            push_lit(out, "null");
        },
        Some(s) => {
            push_lit(out, "{\"target_ip\":\"");
            push_ip(out, s.target_ip);
            push_lit(out, "\",\"target_port\":");
            let mut d = render_u64(s.target_port as u64);
            out.append(&mut d);
            push_lit(out, "}");
            proof {
                assert(out@ =~= old(out)@ + enc_service(*s));
            }
        },
    }
}

fn push_opt_encryption(out: &mut Vec<char>, o: &Option<Encryption>)
    ensures
        final(out)@ == old(out)@ + enc_opt_encryption(match o {
            Some(e) => Some(e@),
            None => None,
        }),
{
    match o {
        None => {
            push_lit(out, "null");
        },
        Some(e) => {
            push_lit(out, "{\"method\":\"");
            push_str_body(out, e.method.as_str());
            push_lit(out, ",\"key\":\"");
            push_str_body(out, e.key.as_str());
            push_lit(out, "}");
            proof {
                assert(out@ =~= old(out)@ + enc_encryption(e@));
            }
        },
    }
}

/// The canonical wire text of `h`.
pub fn encode_handshake(h: &AgentHandshake) -> (r: String)
    ensures
        r@ == spec_encode(h@),
{
    let mut out: Vec<char> = Vec::new();
    push_lit(&mut out, "{\"agent_id\":\"");
    push_str_body(&mut out, h.agent_id.as_text());
    push_lit(&mut out, ",\"agent_name\":");
    push_opt_string(&mut out, &h.agent_name);
    push_lit(&mut out, ",\"auth\":");
    push_auth(&mut out, &h.auth);
    push_lit(&mut out, ",\"version\":");
    push_opt_version(&mut out, &h.version);
    push_lit(&mut out, ",\"local_info\":");
    push_opt_local(&mut out, &h.local_info);
    push_lit(&mut out, ",\"service_info\":");
    push_opt_service(&mut out, &h.service_info);
    push_lit(&mut out, ",\"encryption\":");
    push_opt_encryption(&mut out, &h.encryption);
    push_lit(&mut out, ",\"heartbeat_interval\":");
    let mut hb = render_u64(h.heartbeat_interval as u64);
    out.append(&mut hb);
    push_lit(&mut out, ",\"timestamp\":");
    let mut ts = render_u64(h.timestamp as u64);
    out.append(&mut ts);
    push_lit(&mut out, "}");
    proof {
        assert(out@ =~= spec_encode(h@));
    }
    string_of_chars(&out)
}


/// `null`, or a quoted string.
pub open spec fn spec_scan_opt_string(v: Seq<char>, i: int) -> Option<(Option<Seq<char>>, int)> {
    match spec_expect(v, i, "null"@) {
        Some(j) => Some((None, j)),
        None => match spec_expect(v, i, "\""@) {
            Some(j) => match spec_scan_string(v, j) {
                Some((s, k)) => Some((Some(s), k)),
                None => None,
            },
            None => None,
        },
    }
}

/// The bare anonymous word, or the one-field key object.
pub open spec fn spec_scan_auth(v: Seq<char>, i: int) -> Option<(AuthModel, int)> {
    match spec_expect(v, i, "\"Anonymous\""@) {
        Some(j) => Some((AuthModel::Anonymous, j)),
        None => match spec_expect(v, i, "{\"Key\":\""@) {
            Some(j) => match spec_scan_string(v, j) {
                Some((k, j2)) => match spec_expect(v, j2, "}"@) {
                    Some(j3) => Some((AuthModel::Key(k), j3)),
                    None => None,
                },
                None => None,
            },
            None => None,
        },
    }
}

/// `null`, or a version text the version parser accepts.
pub open spec fn spec_scan_version(v: Seq<char>, i: int) -> Option<(Option<VersionModel>, int)> {
    match spec_scan_opt_string(v, i) {
        Some((None, j)) => Some((None, j)),
        Some((Some(t), j)) => match semver_of_text(t) {
            Some(p) => Some(
                (Some(VersionModel { text: t, major: p.0, minor: p.1, patch: p.2 }), j),
            ),
            None => None,
        },
        None => None,
    }
}

pub open spec fn spec_scan_octet(v: Seq<char>, i: int) -> Option<(u8, int)> {
    match spec_scan_u64(v, i) {
        Some((n, j)) => if n <= 255 {
            Some((n as u8, j))
        } else {
            None
        },
        None => None,
    }
}

pub open spec fn spec_scan_port(v: Seq<char>, i: int) -> Option<(u16, int)> {
    match spec_scan_u64(v, i) {
        Some((n, j)) => if n <= 65535 {
            Some((n as u16, j))
        } else {
            None
        },
        None => None,
    }
}

/// A dotted-quad address.
pub open spec fn spec_scan_ip(v: Seq<char>, i: int) -> Option<(IpAddress, int)> {
    match spec_scan_octet(v, i) {
        Some((o0, i1)) => match spec_expect(v, i1, "."@) {
            Some(i2) => match spec_scan_octet(v, i2) {
                Some((o1, i3)) => match spec_expect(v, i3, "."@) {
                    Some(i4) => match spec_scan_octet(v, i4) {
                        Some((o2, i5)) => match spec_expect(v, i5, "."@) {
                            Some(i6) => match spec_scan_octet(v, i6) {
                                Some((o3, i7)) => Some((IpAddress { o0, o1, o2, o3 }, i7)),
                                None => None,
                            },
                            None => None,
                        },
                        None => None,
                    },
                    None => None,
                },
                None => None,
            },
            None => None,
        },
        None => None,
    }
}

/// `null`, or the local-info object.
pub open spec fn spec_scan_local(v: Seq<char>, i: int) -> Option<(Option<LocalInfo>, int)> {
    match spec_expect(v, i, "null"@) {
        Some(j) => Some((None, j)),
        None => match spec_expect(v, i, "{\"ip\":\""@) {
            Some(i1) => match spec_scan_ip(v, i1) {
                Some((ip, i2)) => match spec_expect(v, i2, "\",\"port\":"@) {
                    Some(i3) => match spec_scan_port(v, i3) {
                        Some((p, i4)) => match spec_expect(v, i4, "}"@) {
                            Some(i5) => Some((Some(LocalInfo { ip, port: p }), i5)),
                            None => None,
                        },
                        None => None,
                    },
                    None => None,
                },
                None => None,
            },
            None => None,
        },
    }
}

/// `null`, or the service-info object.
pub open spec fn spec_scan_service(v: Seq<char>, i: int) -> Option<(Option<ServiceInfo>, int)> {
    match spec_expect(v, i, "null"@) {
        Some(j) => Some((None, j)),
        None => match spec_expect(v, i, "{\"target_ip\":\""@) {
            Some(i1) => match spec_scan_ip(v, i1) {
                Some((ip, i2)) => match spec_expect(v, i2, "\",\"target_port\":"@) {
                    Some(i3) => match spec_scan_port(v, i3) {
                        Some((p, i4)) => match spec_expect(v, i4, "}"@) {
                            Some(i5) => Some(
                                (Some(ServiceInfo { target_ip: ip, target_port: p }), i5),
                            ),
                            None => None,
                        },
                        None => None,
                    },
                    None => None,
                },
                None => None,
            },
            None => None,
        },
    }
}

/// `null`, or the encryption object.
pub open spec fn spec_scan_encryption(v: Seq<char>, i: int) -> Option<
    (Option<EncryptionModel>, int),
> {
    match spec_expect(v, i, "null"@) {
        Some(j) => Some((None, j)),
        None => match spec_expect(v, i, "{\"method\":\""@) {
            Some(i1) => match spec_scan_string(v, i1) {
                Some((m, i2)) => match spec_expect(v, i2, ",\"key\":\""@) {
                    Some(i3) => match spec_scan_string(v, i3) {
                        Some((k, i4)) => match spec_expect(v, i4, "}"@) {
                            Some(i5) => Some(
                                (Some(EncryptionModel { method: m, key: k }), i5),
                            ),
                            None => None,
                        },
                        None => None,
                    },
                    None => None,
                },
                None => None,
            },
            None => None,
        },
    }
}

/// What a wire text denotes: the handshake it carries, or nothing when the
/// text is malformed. The nine known members must stand in their canonical
/// relative order, with no spacing; unknown members anywhere among them are
/// skipped and ignored (forward compatibility). A malformed identifier or
/// version, an out-of-range number, a missing member, or trailing characters
/// all reject.
pub open spec fn spec_decode(v: Seq<char>) -> Option<HandshakeModel> {
    match spec_expect(v, 0, "{"@) {
        None => None,
        Some(i0) => match spec_member(v, i0, "\"agent_id\":"@) {
            None => None,
            Some(ia) => match spec_expect(v, ia, "\""@) {
                None => None,
                Some(i1) => match spec_scan_string(v, i1) {
                    None => None,
                    Some((id, i2)) => {
                        if !is_uuid_text(id) {
                            None
                        } else {
                            match spec_expect(v, i2, ","@) {
None => None,
Some(c_agent_name) => match spec_member(v, c_agent_name, "\"agent_name\":"@) {
None => None,
Some(i3) => match spec_scan_opt_string(v, i3) {
None => None,
Some((name, i4)) => match spec_expect(v, i4, ","@) {
None => None,
Some(c_auth) => match spec_member(v, c_auth, "\"auth\":"@) {
None => None,
Some(i5) => match spec_scan_auth(v, i5) {
None => None,
Some((auth, i6)) => match spec_expect(v, i6, ","@) {
None => None,
Some(c_version) => match spec_member(v, c_version, "\"version\":"@) {
None => None,
Some(i7) => match spec_scan_version(v, i7) {
None => None,
Some((version, i8)) => match spec_expect(v, i8, ","@) {
None => None,
Some(c_local_info) => match spec_member(v, c_local_info, "\"local_info\":"@) {
None => None,
Some(i9) => match spec_scan_local(v, i9) {
None => None,
Some((local, i10)) => match spec_expect(v, i10, ","@) {
None => None,
Some(c_service_info) => match spec_member(v, c_service_info, "\"service_info\":"@) {
None => None,
Some(i11) => match spec_scan_service(v, i11) {
None => None,
Some((service, i12)) => match spec_expect(v, i12, ","@) {
None => None,
Some(c_encryption) => match spec_member(v, c_encryption, "\"encryption\":"@) {
None => None,
Some(i13) => match spec_scan_encryption(v, i13) {
None => None,
Some((encryption, i14)) => match spec_expect(v, i14, ","@) {
None => None,
Some(ic7) => match spec_member(v, ic7, "\"heartbeat_interval\":"@) {
None => None,
Some(i15) => match spec_scan_u64(v, i15) {
None => None,
Some((hb, i16)) => {
if hb > u32::MAX as u64 {
None
} else {
match spec_expect(v, i16, ","@) {
None => None,
Some(ic8) => match spec_member(v, ic8, "\"timestamp\":"@) {
None => None,
Some(i17) => match spec_scan_u64(v, i17) {
None => None,
Some((ts, i18)) => match spec_tail(v, i18) {
None => None,
Some(i19) => {
if i19 == v.len() {
Some(
HandshakeModel {
agent_id: id,
agent_name: name,
auth,
version,
local_info: local,
service_info: service,
encryption,
heartbeat_interval: hb as u32,
timestamp: ts as u64,
},
)
} else {
None
}
},
},
},
},
}
}
},
},
},
},
},
},
},
},
},
},
},
},
},
},
},
},
},
},
},
},
},
}
                        }
                    },
                },
            },
        },
    }
}


/// Reads `null` or a quoted string, exactly as `spec_scan_opt_string` does.
fn scan_opt_string(v: &Vec<char>, i: usize) -> (r: Option<(Option<Vec<char>>, usize)>)
    requires
        i <= v@.len(),
    ensures
        r matches Some(p) ==> ({
            &&& spec_scan_opt_string(v@, i as int) == Some(
                (
                    match p.0 {
                        Some(cs) => Some(cs@),
                        None => None::<Seq<char>>,
                    },
                    p.1 as int,
                ),
            )
            &&& i <= p.1 <= v@.len()
        }),
        r is None ==> spec_scan_opt_string(v@, i as int) is None,
{
    let lit_null = chars_of_str("null");
    match expect_lit(v, i, &lit_null) {
        Some(j) => Some((None, j)),
        None => {
            let lit_quote = chars_of_str("\"");
            match expect_lit(v, i, &lit_quote) {
                Some(j) => match scan_string(v, j) {
                    Some((cs, k)) => Some((Some(cs), k)),
                    None => None,
                },
                None => None,
            }
        },
    }
}

/// Reads the auth field, exactly as `spec_scan_auth` does.
fn scan_auth(v: &Vec<char>, i: usize) -> (r: Option<(Auth, usize)>)
    requires
        i <= v@.len(),
    ensures
        r matches Some(p) ==> spec_scan_auth(v@, i as int) == Some((p.0@, p.1 as int)) && i <= p.1
            <= v@.len(),
        r is None ==> spec_scan_auth(v@, i as int) is None,
{
    let lit_anon = chars_of_str("\"Anonymous\"");
    match expect_lit(v, i, &lit_anon) {
        Some(j) => Some((Auth::Anonymous, j)),
        None => {
            let lit_key = chars_of_str("{\"Key\":\"");
            match expect_lit(v, i, &lit_key) {
                Some(j) => match scan_string(v, j) {
                    Some((cs, j2)) => {
                        let lit_close = chars_of_str("}");
                        match expect_lit(v, j2, &lit_close) {
                            Some(j3) => Some((Auth::Key(string_of_chars(&cs)), j3)),
                            None => None,
                        }
                    },
                    None => None,
                },
                None => None,
            }
        },
    }
}

/// Reads the version field, exactly as `spec_scan_version` does.
fn scan_version(v: &Vec<char>, i: usize) -> (r: Option<(Option<Version>, usize)>)
    requires
        i <= v@.len(),
    ensures
        r matches Some(p) ==> ({
            &&& spec_scan_version(v@, i as int) == Some(
                (
                    match p.0 {
                        Some(ver) => Some(ver@),
                        None => None::<VersionModel>,
                    },
                    p.1 as int,
                ),
            )
            &&& i <= p.1 <= v@.len()
        }),
        r is None ==> spec_scan_version(v@, i as int) is None,
{
    match scan_opt_string(v, i) {
        Some((None, j)) => Some((None, j)),
        Some((Some(t), j)) => {
            match Version::parse(string_of_chars(&t).as_str()) {
                Ok(ver) => Some((Some(ver), j)),
                Err(_) => None,
            }
        },
        None => None,
    }
}

/// Reads one address octet, exactly as `spec_scan_octet` does.
fn scan_octet(v: &Vec<char>, i: usize) -> (r: Option<(u8, usize)>)
    requires
        i <= v@.len(),
    ensures
        r matches Some(p) ==> spec_scan_octet(v@, i as int) == Some((p.0, p.1 as int)) && i <= p.1
            <= v@.len(),
        r is None ==> spec_scan_octet(v@, i as int) is None,
{
    match scan_u64(v, i) {
        Some((n, j)) => if n <= 255 {
            Some((n as u8, j))
        } else {
            None
        },
        None => None,
    }
}

/// Reads a port number, exactly as `spec_scan_port` does.
fn scan_port(v: &Vec<char>, i: usize) -> (r: Option<(u16, usize)>)
    requires
        i <= v@.len(),
    ensures
        r matches Some(p) ==> spec_scan_port(v@, i as int) == Some((p.0, p.1 as int)) && i <= p.1
            <= v@.len(),
        r is None ==> spec_scan_port(v@, i as int) is None,
{
    match scan_u64(v, i) {
        Some((n, j)) => if n <= 65535 {
            Some((n as u16, j))
        } else {
            None
        },
        None => None,
    }
}

/// Reads a dotted-quad address, exactly as `spec_scan_ip` does.
fn scan_ip(v: &Vec<char>, i: usize) -> (r: Option<(IpAddress, usize)>)
    requires
        i <= v@.len(),
    ensures
        r matches Some(p) ==> spec_scan_ip(v@, i as int) == Some((p.0, p.1 as int)) && i <= p.1
            <= v@.len(),
        r is None ==> spec_scan_ip(v@, i as int) is None,
{
    let dot = chars_of_str(".");
    let (o0, i1) = match scan_octet(v, i) {
        Some(p) => p,
        None => {
            return None;
        },
    };
    let i2 = match expect_lit(v, i1, &dot) {
        Some(j) => j,
        None => {
            return None;
        },
    };
    let (o1, i3) = match scan_octet(v, i2) {
        Some(p) => p,
        None => {
            return None;
        },
    };
    let i4 = match expect_lit(v, i3, &dot) {
        Some(j) => j,
        None => {
            return None;
        },
    };
    let (o2, i5) = match scan_octet(v, i4) {
        Some(p) => p,
        None => {
            return None;
        },
    };
    let i6 = match expect_lit(v, i5, &dot) {
        Some(j) => j,
        None => {
            return None;
        },
    };
    let (o3, i7) = match scan_octet(v, i6) {
        Some(p) => p,
        None => {
            return None;
        },
    };
    Some((IpAddress { o0, o1, o2, o3 }, i7))
}

/// Reads the local-info field, exactly as `spec_scan_local` does.
fn scan_local(v: &Vec<char>, i: usize) -> (r: Option<(Option<LocalInfo>, usize)>)
    requires
        i <= v@.len(),
    ensures
        r matches Some(p) ==> spec_scan_local(v@, i as int) == Some((p.0, p.1 as int)) && i <= p.1
            <= v@.len(),
        r is None ==> spec_scan_local(v@, i as int) is None,
{
    let lit_null = chars_of_str("null");
    match expect_lit(v, i, &lit_null) {
        Some(j) => Some((None, j)),
        None => {
            let lit_open = chars_of_str("{\"ip\":\"");
            let i1 = match expect_lit(v, i, &lit_open) {
                Some(j) => j,
                None => {
                    return None;
                },
            };
            let (ip, i2) = match scan_ip(v, i1) {
                Some(p) => p,
                None => {
                    return None;
                },
            };
            let lit_port = chars_of_str("\",\"port\":");
            let i3 = match expect_lit(v, i2, &lit_port) {
                Some(j) => j,
                None => {
                    return None;
                },
            };
            let (port, i4) = match scan_port(v, i3) {
                Some(p) => p,
                None => {
                    return None;
                },
            };
            let lit_close = chars_of_str("}");
            let i5 = match expect_lit(v, i4, &lit_close) {
                Some(j) => j,
                None => {
                    return None;
                },
            };
            Some((Some(LocalInfo { ip, port }), i5))
        },
    }
}

/// Reads the service-info field, exactly as `spec_scan_service` does.
fn scan_service(v: &Vec<char>, i: usize) -> (r: Option<(Option<ServiceInfo>, usize)>)
    requires
        i <= v@.len(),
    ensures
        r matches Some(p) ==> spec_scan_service(v@, i as int) == Some((p.0, p.1 as int)) && i <= p.1
            <= v@.len(),
        r is None ==> spec_scan_service(v@, i as int) is None,
{
    let lit_null = chars_of_str("null");
    match expect_lit(v, i, &lit_null) {
        Some(j) => Some((None, j)),
        None => {
            let lit_open = chars_of_str("{\"target_ip\":\"");
            let i1 = match expect_lit(v, i, &lit_open) {
                Some(j) => j,
                None => {
                    return None;
                },
            };
            let (ip, i2) = match scan_ip(v, i1) {
                Some(p) => p,
                None => {
                    return None;
                },
            };
            let lit_port = chars_of_str("\",\"target_port\":");
            let i3 = match expect_lit(v, i2, &lit_port) {
                Some(j) => j,
                None => {
                    return None;
                },
            };
            let (port, i4) = match scan_port(v, i3) {
                Some(p) => p,
                None => {
                    return None;
                },
            };
            let lit_close = chars_of_str("}");
            let i5 = match expect_lit(v, i4, &lit_close) {
                Some(j) => j,
                None => {
                    return None;
                },
            };
            Some((Some(ServiceInfo { target_ip: ip, target_port: port }), i5))
        },
    }
}

/// Reads the encryption field, exactly as `spec_scan_encryption` does.
fn scan_encryption(v: &Vec<char>, i: usize) -> (r: Option<(Option<Encryption>, usize)>)
    requires
        i <= v@.len(),
    ensures
        r matches Some(p) ==> ({
            &&& spec_scan_encryption(v@, i as int) == Some(
                (
                    match p.0 {
                        Some(e) => Some(e@),
                        None => None::<EncryptionModel>,
                    },
                    p.1 as int,
                ),
            )
            &&& i <= p.1 <= v@.len()
        }),
        r is None ==> spec_scan_encryption(v@, i as int) is None,
{
    let lit_null = chars_of_str("null");
    match expect_lit(v, i, &lit_null) {
        Some(j) => Some((None, j)),
        None => {
            let lit_open = chars_of_str("{\"method\":\"");
            let i1 = match expect_lit(v, i, &lit_open) {
                Some(j) => j,
                None => {
                    return None;
                },
            };
            let (m, i2) = match scan_string(v, i1) {
                Some(p) => p,
                None => {
                    return None;
                },
            };
            let lit_key = chars_of_str(",\"key\":\"");
            let i3 = match expect_lit(v, i2, &lit_key) {
                Some(j) => j,
                None => {
                    return None;
                },
            };
            let (k, i4) = match scan_string(v, i3) {
                Some(p) => p,
                None => {
                    return None;
                },
            };
            let lit_close = chars_of_str("}");
            let i5 = match expect_lit(v, i4, &lit_close) {
                Some(j) => j,
                None => {
                    return None;
                },
            };
            Some((Some(Encryption::new(string_of_chars(&m), string_of_chars(&k))), i5))
        },
    }
}

/// Reads a handshake back from its wire text, exactly as `spec_decode`
/// says: the handshake the text carries — unknown members ignored — or
/// nothing for a malformed text.
pub fn decode_handshake(s: &str) -> (r: Option<AgentHandshake>)
    ensures
        r matches Some(h) ==> spec_decode(s@) == Some(h@) && h.wf(),
        r is None ==> spec_decode(s@) is None,
{
    let v = chars_of_str(s);
    let brace = chars_of_str("{");
    let quote = chars_of_str("\"");
    let comma = chars_of_str(",");
    let i0 = match expect_lit(&v, 0, &brace) {
        Some(j) => j,
        None => {
            return None;
        },
    };
    let name_id = chars_of_str("\"agent_id\":");
    let ia = match seek_member(&v, i0, &name_id) {
        Some(j) => j,
        None => {
            return None;
        },
    };
    let i1 = match expect_lit(&v, ia, &quote) {
        Some(j) => j,
        None => {
            return None;
        },
    };
    let (idc, i2) = match scan_string(&v, i1) {
        Some(p) => p,
        None => {
            return None;
        },
    };
    let agent_id = match AgentId::parse_text(string_of_chars(&idc).as_str()) {
        Ok(a) => a,
        Err(_) => {
            return None;
        },
    };
    let c1 = match expect_lit(&v, i2, &comma) {
        Some(j) => j,
        None => {
            return None;
        },
    };
    let name_name = chars_of_str("\"agent_name\":");
    let i3 = match seek_member(&v, c1, &name_name) {
        Some(j) => j,
        None => {
            return None;
        },
    };
    let (namec, i4) = match scan_opt_string(&v, i3) {
        Some(p) => p,
        None => {
            return None;
        },
    };
    let agent_name = match namec {
        Some(cs) => Some(string_of_chars(&cs)),
        None => None,
    };
    let c2 = match expect_lit(&v, i4, &comma) {
        Some(j) => j,
        None => {
            return None;
        },
    };
    let name_auth = chars_of_str("\"auth\":");
    let i5 = match seek_member(&v, c2, &name_auth) {
        Some(j) => j,
        None => {
            return None;
        },
    };
    let (auth, i6) = match scan_auth(&v, i5) {
        Some(p) => p,
        None => {
            return None;
        },
    };
    let c3 = match expect_lit(&v, i6, &comma) {
        Some(j) => j,
        None => {
            return None;
        },
    };
    let name_version = chars_of_str("\"version\":");
    let i7 = match seek_member(&v, c3, &name_version) {
        Some(j) => j,
        None => {
            return None;
        },
    };
    let (version, i8) = match scan_version(&v, i7) {
        Some(p) => p,
        None => {
            return None;
        },
    };
    let c4 = match expect_lit(&v, i8, &comma) {
        Some(j) => j,
        None => {
            return None;
        },
    };
    let name_local = chars_of_str("\"local_info\":");
    let i9 = match seek_member(&v, c4, &name_local) {
        Some(j) => j,
        None => {
            return None;
        },
    };
    let (local_info, i10) = match scan_local(&v, i9) {
        Some(p) => p,
        None => {
            return None;
        },
    };
    let c5 = match expect_lit(&v, i10, &comma) {
        Some(j) => j,
        None => {
            return None;
        },
    };
    let name_service = chars_of_str("\"service_info\":");
    let i11 = match seek_member(&v, c5, &name_service) {
        Some(j) => j,
        None => {
            return None;
        },
    };
    let (service_info, i12) = match scan_service(&v, i11) {
        Some(p) => p,
        None => {
            return None;
        },
    };
    let c6 = match expect_lit(&v, i12, &comma) {
        Some(j) => j,
        None => {
            return None;
        },
    };
    let name_encryption = chars_of_str("\"encryption\":");
    let i13 = match seek_member(&v, c6, &name_encryption) {
        Some(j) => j,
        None => {
            return None;
        },
    };
    let (encryption, i14) = match scan_encryption(&v, i13) {
        Some(p) => p,
        None => {
            return None;
        },
    };
    let c7 = match expect_lit(&v, i14, &comma) {
        Some(j) => j,
        None => {
            return None;
        },
    };
    let name_heartbeat = chars_of_str("\"heartbeat_interval\":");
    let i15 = match seek_member(&v, c7, &name_heartbeat) {
        Some(j) => j,
        None => {
            return None;
        },
    };
    let (hb, i16) = match scan_u64(&v, i15) {
        Some(p) => p,
        None => {
            return None;
        },
    };
    if hb > u32::MAX as u64 {
        return None;
    }
    let c8 = match expect_lit(&v, i16, &comma) {
        Some(j) => j,
        None => {
            return None;
        },
    };
    let name_timestamp = chars_of_str("\"timestamp\":");
    let i17 = match seek_member(&v, c8, &name_timestamp) {
        Some(j) => j,
        None => {
            return None;
        },
    };
    let (ts, i18) = match scan_u64(&v, i17) {
        Some(p) => p,
        None => {
            return None;
        },
    };
    let i19 = match finish_tail(&v, i18) {
        Some(j) => j,
        None => {
            return None;
        },
    };
    if i19 != v.len() {
        return None;
    }
    let h = AgentHandshake {
        agent_id,
        agent_name,
        auth,
        version,
        local_info,
        service_info,
        encryption,
        heartbeat_interval: hb as u32,
        timestamp: ts,
    };
    proof {
        assert(spec_decode(s@) == Some(h@));
    }
    Some(h)
}


/// Scanning a region that holds a quoted string's body recovers the string.
pub proof fn lemma_rt_str_body(v: Seq<char>, i: int, s: Seq<char>)
    requires
        0 <= i,
        i + enc_str_body(s).len() <= v.len(),
        v.subrange(i, i + enc_str_body(s).len()) == enc_str_body(s),
    ensures
        spec_scan_string(v, i) == Some((s, i + enc_str_body(s).len())),
{
    reveal_strlit("\"");
    lemma_region_concat(v, i, esc_of(s), "\""@);
    let q = i + esc_of(s).len() as int;
    assert(v.subrange(q, q + 1)[0] == v[q]);
    assert(v[q] == '"');
    lemma_scan_escaped(v, i, s);
}

/// Scanning a region that holds an optional string field recovers it.
pub proof fn lemma_rt_opt_string(v: Seq<char>, i: int, o: Option<Seq<char>>)
    requires
        0 <= i,
        i + enc_opt_string(o).len() <= v.len(),
        v.subrange(i, i + enc_opt_string(o).len()) == enc_opt_string(o),
    ensures
        spec_scan_opt_string(v, i) == Some((o, i + enc_opt_string(o).len())),
{
    reveal_strlit("null");
    reveal_strlit("\"");
    match o {
        None => {
        },
        Some(s) => {
            lemma_region_concat(v, i, "\""@, enc_str_body(s));
            assert(v.subrange(i, i + 1)[0] == v[i]);
            assert(v[i] == '"');
            if spec_expect(v, i, "null"@) is Some {
                assert(v.subrange(i, i + "null"@.len() as int) == "null"@);
                assert(v.subrange(i, i + "null"@.len() as int)[0] == v[i]);
                assert(false);
            }
            lemma_rt_str_body(v, i + 1, s);
        },
    }
}

/// Scanning a region that holds the auth field recovers it.
pub proof fn lemma_rt_auth(v: Seq<char>, i: int, a: AuthModel)
    requires
        0 <= i,
        i + enc_auth(a).len() <= v.len(),
        v.subrange(i, i + enc_auth(a).len()) == enc_auth(a),
    ensures
        spec_scan_auth(v, i) == Some((a, i + enc_auth(a).len())),
{
    reveal_strlit("\"Anonymous\"");
    reveal_strlit("{\"Key\":\"");
    reveal_strlit("}");
    match a {
        AuthModel::Anonymous => {
        },
        AuthModel::Key(k) => {
            lemma_region_concat(v, i, "{\"Key\":\""@ + enc_str_body(k), "}"@);
            lemma_region_concat(v, i, "{\"Key\":\""@, enc_str_body(k));
            assert(v.subrange(i, i + "{\"Key\":\""@.len() as int)[0] == v[i]);
            assert(v[i] == '{');
            if spec_expect(v, i, "\"Anonymous\""@) is Some {
                assert(v.subrange(i, i + "\"Anonymous\""@.len() as int)[0] == v[i]);
                assert(false);
            }
            let j = i + "{\"Key\":\""@.len() as int;
            lemma_rt_str_body(v, j, k);
            let j2 = j + enc_str_body(k).len() as int;
            assert(v.subrange(j2, j2 + 1) == "}"@);
        },
    }
}

/// Scanning a region that holds the version field recovers it.
pub proof fn lemma_rt_version(v: Seq<char>, i: int, o: Option<VersionModel>)
    requires
        0 <= i,
        i + enc_opt_version(o).len() <= v.len(),
        v.subrange(i, i + enc_opt_version(o).len()) == enc_opt_version(o),
        o matches Some(vm) ==> version_model_wf(vm),
    ensures
        spec_scan_version(v, i) == Some((o, i + enc_opt_version(o).len())),
{
    match o {
        None => {
            assert(enc_opt_version(o) == enc_opt_string(None::<Seq<char>>));
            lemma_rt_opt_string(v, i, None::<Seq<char>>);
        },
        Some(vm) => {
            assert(enc_opt_version(o) == enc_opt_string(Some(vm.text)));
            lemma_rt_opt_string(v, i, Some(vm.text));
            let rebuilt = VersionModel {
                text: vm.text,
                major: vm.major,
                minor: vm.minor,
                patch: vm.patch,
            };
            assert(rebuilt == vm);
        },
    }
}

/// Scanning a region that holds a dotted-quad address, bounded by a
/// non-digit, recovers it.
pub proof fn lemma_rt_ip(v: Seq<char>, i: int, ip: IpAddress)
    requires
        0 <= i,
        i + enc_ip(ip).len() <= v.len(),
        v.subrange(i, i + enc_ip(ip).len()) == enc_ip(ip),
        i + enc_ip(ip).len() == v.len() || !is_digit_char(v[i + enc_ip(ip).len()]),
    ensures
        spec_scan_ip(v, i) == Some((ip, i + enc_ip(ip).len())),
{
    reveal_strlit(".");
    let d0 = dec_of(ip.o0 as int);
    let d1 = dec_of(ip.o1 as int);
    let d2 = dec_of(ip.o2 as int);
    let d3 = dec_of(ip.o3 as int);
    lemma_region_concat(v, i, d0 + "."@ + d1 + "."@ + d2 + "."@, d3);
    lemma_region_concat(v, i, d0 + "."@ + d1 + "."@ + d2, "."@);
    lemma_region_concat(v, i, d0 + "."@ + d1 + "."@, d2);
    lemma_region_concat(v, i, d0 + "."@ + d1, "."@);
    lemma_region_concat(v, i, d0 + "."@, d1);
    lemma_region_concat(v, i, d0, "."@);
    let q0 = i + d0.len() as int;
    let q1 = q0 + 1 + d1.len() as int;
    let q2 = q1 + 1 + d2.len() as int;
    let q3 = q2 + 1 + d3.len() as int;
    assert(v.subrange(q0, q0 + 1)[0] == v[q0]);
    assert(v[q0] == '.');
    assert(v.subrange(q1, q1 + 1)[0] == v[q1]);
    assert(v[q1] == '.');
    assert(v.subrange(q2, q2 + 1)[0] == v[q2]);
    assert(v[q2] == '.');
    lemma_scan_dec_of(v, i, ip.o0 as u64);
    lemma_scan_dec_of(v, q0 + 1, ip.o1 as u64);
    lemma_scan_dec_of(v, q1 + 1, ip.o2 as u64);
    lemma_scan_dec_of(v, q2 + 1, ip.o3 as u64);
    assert(spec_scan_ip(v, i) == Some((IpAddress { o0: ip.o0, o1: ip.o1, o2: ip.o2, o3: ip.o3 }, q3)));
    assert(IpAddress { o0: ip.o0, o1: ip.o1, o2: ip.o2, o3: ip.o3 } == ip);
}

/// Scanning a region that holds the local-info field recovers it.
pub proof fn lemma_rt_local(v: Seq<char>, i: int, o: Option<LocalInfo>)
    requires
        0 <= i,
        i + enc_opt_local(o).len() <= v.len(),
        v.subrange(i, i + enc_opt_local(o).len()) == enc_opt_local(o),
    ensures
        spec_scan_local(v, i) == Some((o, i + enc_opt_local(o).len())),
{
    reveal_strlit("null");
    reveal_strlit("{\"ip\":\"");
    reveal_strlit("\",\"port\":");
    reveal_strlit("}");
    match o {
        None => {
        },
        Some(l) => {
            let a = "{\"ip\":\""@;
            let b = "\",\"port\":"@;
            let dp = dec_of(l.port as int);
            lemma_region_concat(v, i, a + enc_ip(l.ip) + b + dp, "}"@);
            lemma_region_concat(v, i, a + enc_ip(l.ip) + b, dp);
            lemma_region_concat(v, i, a + enc_ip(l.ip), b);
            lemma_region_concat(v, i, a, enc_ip(l.ip));
            assert(v.subrange(i, i + a.len() as int)[0] == v[i]);
            assert(v[i] == '{');
            if spec_expect(v, i, "null"@) is Some {
                assert(v.subrange(i, i + "null"@.len() as int)[0] == v[i]);
                assert(false);
            }
            let j1 = i + a.len() as int;
            let j2 = j1 + enc_ip(l.ip).len() as int;
            assert(v.subrange(j2, j2 + b.len() as int)[0] == v[j2]);
            assert(v[j2] == '"');
            lemma_rt_ip(v, j1, l.ip);
            let j3 = j2 + b.len() as int;
            let j4 = j3 + dp.len() as int;
            assert(v.subrange(j4, j4 + 1)[0] == v[j4]);
            assert(v[j4] == '}');
            lemma_scan_dec_of(v, j3, l.port as u64);
            assert(LocalInfo { ip: l.ip, port: l.port } == l);
        },
    }
}

/// Scanning a region that holds the service-info field recovers it.
pub proof fn lemma_rt_service(v: Seq<char>, i: int, o: Option<ServiceInfo>)
    requires
        0 <= i,
        i + enc_opt_service(o).len() <= v.len(),
        v.subrange(i, i + enc_opt_service(o).len()) == enc_opt_service(o),
    ensures
        spec_scan_service(v, i) == Some((o, i + enc_opt_service(o).len())),
{
    reveal_strlit("null");
    reveal_strlit("{\"target_ip\":\"");
    reveal_strlit("\",\"target_port\":");
    reveal_strlit("}");
    match o {
        None => {
        },
        Some(l) => {
            let a = "{\"target_ip\":\""@;
            let b = "\",\"target_port\":"@;
            let dp = dec_of(l.target_port as int);
            lemma_region_concat(v, i, a + enc_ip(l.target_ip) + b + dp, "}"@);
            lemma_region_concat(v, i, a + enc_ip(l.target_ip) + b, dp);
            lemma_region_concat(v, i, a + enc_ip(l.target_ip), b);
            lemma_region_concat(v, i, a, enc_ip(l.target_ip));
            assert(v.subrange(i, i + a.len() as int)[0] == v[i]);
            assert(v[i] == '{');
            if spec_expect(v, i, "null"@) is Some {
                assert(v.subrange(i, i + "null"@.len() as int)[0] == v[i]);
                assert(false);
            }
            let j1 = i + a.len() as int;
            let j2 = j1 + enc_ip(l.target_ip).len() as int;
            assert(v.subrange(j2, j2 + b.len() as int)[0] == v[j2]);
            assert(v[j2] == '"');
            lemma_rt_ip(v, j1, l.target_ip);
            let j3 = j2 + b.len() as int;
            let j4 = j3 + dp.len() as int;
            assert(v.subrange(j4, j4 + 1)[0] == v[j4]);
            assert(v[j4] == '}');
            lemma_scan_dec_of(v, j3, l.target_port as u64);
            assert(ServiceInfo { target_ip: l.target_ip, target_port: l.target_port } == l);
        },
    }
}

/// Scanning a region that holds the encryption field recovers it.
pub proof fn lemma_rt_encryption(v: Seq<char>, i: int, o: Option<EncryptionModel>)
    requires
        0 <= i,
        i + enc_opt_encryption(o).len() <= v.len(),
        v.subrange(i, i + enc_opt_encryption(o).len()) == enc_opt_encryption(o),
    ensures
        spec_scan_encryption(v, i) == Some((o, i + enc_opt_encryption(o).len())),
{
    reveal_strlit("null");
    reveal_strlit("{\"method\":\"");
    reveal_strlit(",\"key\":\"");
    reveal_strlit("}");
    match o {
        None => {
        },
        Some(e) => {
            let a = "{\"method\":\""@;
            let b = ",\"key\":\""@;
            lemma_region_concat(v, i, a + enc_str_body(e.method) + b + enc_str_body(e.key), "}"@);
            lemma_region_concat(v, i, a + enc_str_body(e.method) + b, enc_str_body(e.key));
            lemma_region_concat(v, i, a + enc_str_body(e.method), b);
            lemma_region_concat(v, i, a, enc_str_body(e.method));
            assert(v.subrange(i, i + a.len() as int)[0] == v[i]);
            assert(v[i] == '{');
            if spec_expect(v, i, "null"@) is Some {
                assert(v.subrange(i, i + "null"@.len() as int)[0] == v[i]);
                assert(false);
            }
            let j1 = i + a.len() as int;
            lemma_rt_str_body(v, j1, e.method);
            let j2 = j1 + enc_str_body(e.method).len() as int;
            let j3 = j2 + b.len() as int;
            lemma_rt_str_body(v, j3, e.key);
            let j4 = j3 + enc_str_body(e.key).len() as int;
            assert(v.subrange(j4, j4 + 1) == "}"@);
            assert(EncryptionModel { method: e.method, key: e.key } == e);
        },
    }
}

/// Where each piece of the canonical text of `m` sits.
#[verifier::rlimit(100)]
#[verifier::spinoff_prover]
pub proof fn lemma_rt_regions(m: HandshakeModel)
    ensures
        spec_encode(m).subrange(0, "{\"agent_id\":\""@.len() as int) == "{\"agent_id\":\""@,
        spec_encode(m).subrange("{\"agent_id\":\""@.len() as int, enc_pre0(m).len() as int) == enc_str_body(m.agent_id),
        spec_encode(m).subrange(enc_pre0(m).len() as int, (enc_pre0(m).len() + ",\"agent_name\":"@.len()) as int) == ",\"agent_name\":"@,
        spec_encode(m).subrange((enc_pre0(m).len() + ",\"agent_name\":"@.len()) as int, enc_pre1(m).len() as int) == enc_opt_string(m.agent_name),
        spec_encode(m).subrange(enc_pre1(m).len() as int, (enc_pre1(m).len() + ",\"auth\":"@.len()) as int) == ",\"auth\":"@,
        spec_encode(m).subrange((enc_pre1(m).len() + ",\"auth\":"@.len()) as int, enc_pre2(m).len() as int) == enc_auth(m.auth),
        spec_encode(m).subrange(enc_pre2(m).len() as int, (enc_pre2(m).len() + ",\"version\":"@.len()) as int) == ",\"version\":"@,
        spec_encode(m).subrange((enc_pre2(m).len() + ",\"version\":"@.len()) as int, enc_pre3(m).len() as int) == enc_opt_version(m.version),
        spec_encode(m).subrange(enc_pre3(m).len() as int, (enc_pre3(m).len() + ",\"local_info\":"@.len()) as int) == ",\"local_info\":"@,
        spec_encode(m).subrange((enc_pre3(m).len() + ",\"local_info\":"@.len()) as int, enc_pre4(m).len() as int) == enc_opt_local(m.local_info),
        spec_encode(m).subrange(enc_pre4(m).len() as int, (enc_pre4(m).len() + ",\"service_info\":"@.len()) as int) == ",\"service_info\":"@,
        spec_encode(m).subrange((enc_pre4(m).len() + ",\"service_info\":"@.len()) as int, enc_pre5(m).len() as int) == enc_opt_service(m.service_info),
        spec_encode(m).subrange(enc_pre5(m).len() as int, (enc_pre5(m).len() + ",\"encryption\":"@.len()) as int) == ",\"encryption\":"@,
        spec_encode(m).subrange((enc_pre5(m).len() + ",\"encryption\":"@.len()) as int, enc_pre6(m).len() as int) == enc_opt_encryption(m.encryption),
        spec_encode(m).subrange(enc_pre6(m).len() as int, (enc_pre6(m).len() + ",\"heartbeat_interval\":"@.len()) as int) == ",\"heartbeat_interval\":"@,
        spec_encode(m).subrange((enc_pre6(m).len() + ",\"heartbeat_interval\":"@.len()) as int, enc_pre7(m).len() as int) == dec_of(m.heartbeat_interval as int),
        spec_encode(m).subrange(enc_pre7(m).len() as int, (enc_pre7(m).len() + ",\"timestamp\":"@.len()) as int) == ",\"timestamp\":"@,
        spec_encode(m).subrange((enc_pre7(m).len() + ",\"timestamp\":"@.len()) as int, enc_pre8(m).len() as int) == dec_of(m.timestamp as int),
        spec_encode(m).subrange(enc_pre8(m).len() as int, spec_encode(m).len() as int) == "}"@,
{
    let v = spec_encode(m);
    let p0 = "{\"agent_id\":\""@;
    let c0 = enc_str_body(m.agent_id);
    let p1 = ",\"agent_name\":"@;
    let c1 = enc_opt_string(m.agent_name);
    let p2 = ",\"auth\":"@;
    let c2 = enc_auth(m.auth);
    let p3 = ",\"version\":"@;
    let c3 = enc_opt_version(m.version);
    let p4 = ",\"local_info\":"@;
    let c4 = enc_opt_local(m.local_info);
    let p5 = ",\"service_info\":"@;
    let c5 = enc_opt_service(m.service_info);
    let p6 = ",\"encryption\":"@;
    let c6 = enc_opt_encryption(m.encryption);
    let p7 = ",\"heartbeat_interval\":"@;
    let n7 = dec_of(m.heartbeat_interval as int);
    let p8 = ",\"timestamp\":"@;
    let n8 = dec_of(m.timestamp as int);
    let p9 = "}"@;
    assert(v.subrange(0, v.len() as int) =~= v);
    lemma_region_concat(v, 0, enc_pre8(m), p9);
    lemma_region_concat(v, 0, enc_pre7(m) + p8, n8);
    lemma_region_concat(v, 0, enc_pre7(m), p8);
    lemma_region_concat(v, 0, enc_pre6(m) + p7, n7);
    lemma_region_concat(v, 0, enc_pre6(m), p7);
    lemma_region_concat(v, 0, enc_pre5(m) + p6, c6);
    lemma_region_concat(v, 0, enc_pre5(m), p6);
    lemma_region_concat(v, 0, enc_pre4(m) + p5, c5);
    lemma_region_concat(v, 0, enc_pre4(m), p5);
    lemma_region_concat(v, 0, enc_pre3(m) + p4, c4);
    lemma_region_concat(v, 0, enc_pre3(m), p4);
    lemma_region_concat(v, 0, enc_pre2(m) + p3, c3);
    lemma_region_concat(v, 0, enc_pre2(m), p3);
    lemma_region_concat(v, 0, enc_pre1(m) + p2, c2);
    lemma_region_concat(v, 0, enc_pre1(m), p2);
    lemma_region_concat(v, 0, enc_pre0(m) + p1, c1);
    lemma_region_concat(v, 0, enc_pre0(m), p1);
    lemma_region_concat(v, 0, p0, c0);
}

/// How each field label splits into the separating comma and the member
/// name the decoder seeks.
pub proof fn lemma_label_agent_name()
    ensures
        ",\"agent_name\":"@ == ","@ + "\"agent_name\":"@,
        "\"agent_name\":"@.len() >= 1,
{
    reveal_strlit(",\"agent_name\":");
    reveal_strlit("\"agent_name\":");
    reveal_strlit(",");
    assert(",\"agent_name\":"@ =~= ","@ + "\"agent_name\":"@);
}

pub proof fn lemma_label_auth()
    ensures
        ",\"auth\":"@ == ","@ + "\"auth\":"@,
        "\"auth\":"@.len() >= 1,
{
    reveal_strlit(",\"auth\":");
    reveal_strlit("\"auth\":");
    reveal_strlit(",");
    assert(",\"auth\":"@ =~= ","@ + "\"auth\":"@);
}

pub proof fn lemma_label_version()
    ensures
        ",\"version\":"@ == ","@ + "\"version\":"@,
        "\"version\":"@.len() >= 1,
{
    reveal_strlit(",\"version\":");
    reveal_strlit("\"version\":");
    reveal_strlit(",");
    assert(",\"version\":"@ =~= ","@ + "\"version\":"@);
}

pub proof fn lemma_label_local_info()
    ensures
        ",\"local_info\":"@ == ","@ + "\"local_info\":"@,
        "\"local_info\":"@.len() >= 1,
{
    reveal_strlit(",\"local_info\":");
    reveal_strlit("\"local_info\":");
    reveal_strlit(",");
    assert(",\"local_info\":"@ =~= ","@ + "\"local_info\":"@);
}

pub proof fn lemma_label_service_info()
    ensures
        ",\"service_info\":"@ == ","@ + "\"service_info\":"@,
        "\"service_info\":"@.len() >= 1,
{
    reveal_strlit(",\"service_info\":");
    reveal_strlit("\"service_info\":");
    reveal_strlit(",");
    assert(",\"service_info\":"@ =~= ","@ + "\"service_info\":"@);
}

pub proof fn lemma_label_encryption()
    ensures
        ",\"encryption\":"@ == ","@ + "\"encryption\":"@,
        "\"encryption\":"@.len() >= 1,
{
    reveal_strlit(",\"encryption\":");
    reveal_strlit("\"encryption\":");
    reveal_strlit(",");
    assert(",\"encryption\":"@ =~= ","@ + "\"encryption\":"@);
}

pub proof fn lemma_label_heartbeat_interval()
    ensures
        ",\"heartbeat_interval\":"@ == ","@ + "\"heartbeat_interval\":"@,
        "\"heartbeat_interval\":"@.len() >= 1,
{
    reveal_strlit(",\"heartbeat_interval\":");
    reveal_strlit("\"heartbeat_interval\":");
    reveal_strlit(",");
    assert(",\"heartbeat_interval\":"@ =~= ","@ + "\"heartbeat_interval\":"@);
}

pub proof fn lemma_label_timestamp()
    ensures
        ",\"timestamp\":"@ == ","@ + "\"timestamp\":"@,
        "\"timestamp\":"@.len() >= 1,
{
    reveal_strlit(",\"timestamp\":");
    reveal_strlit("\"timestamp\":");
    reveal_strlit(",");
    assert(",\"timestamp\":"@ =~= ","@ + "\"timestamp\":"@);
}

pub proof fn lemma_label_agent_id()
    ensures
        "{\"agent_id\":\""@ == ("{"@ + "\"agent_id\":"@) + "\""@,
        "{"@.len() == 1,
        "\"agent_id\":"@.len() >= 1,
        "\""@.len() == 1,
{
    reveal_strlit("{\"agent_id\":\"");
    reveal_strlit("{");
    reveal_strlit("\"agent_id\":");
    reveal_strlit("\"");
    assert("{\"agent_id\":\""@ =~= ("{"@ + "\"agent_id\":"@) + "\""@);
}

/// A comma and then a known member name sitting verbatim at `q`: the member
/// seek finds the name at once.
pub proof fn lemma_comma_member(v: Seq<char>, q: int, label: Seq<char>, name: Seq<char>)
    requires
        0 <= q,
        label == ","@ + name,
        q + label.len() <= v.len(),
        v.subrange(q, q + label.len()) == label,
        name.len() >= 1,
    ensures
        spec_expect(v, q, ","@) == Some(q + 1),
        spec_member(v, q + 1, name) == Some(q + label.len()),
{
    reveal_strlit(",");
    lemma_region_concat(v, q, ","@, name);
    assert(spec_expect(v, q, ","@) == Some(q + 1));
    assert(spec_expect(v, q + 1, name) == Some(q + 1 + name.len()));
    assert(spec_member(v, q + 1, name) == Some(q + 1 + name.len()));
}

/// The scan equations over the first half of the canonical text of `m`:
/// each field label matches where the encoder put it and each field scan
/// recovers the field.
#[verifier::rlimit(100)]
#[verifier::spinoff_prover]
pub proof fn lemma_rt_scans_head(m: HandshakeModel)
    requires
        handshake_model_wf(m),
    ensures
        spec_expect(spec_encode(m), 0, "{"@) == Some(1int),
        spec_member(spec_encode(m), 1int, "\"agent_id\":"@) == Some(
            ("{\"agent_id\":\""@.len() - 1) as int,
        ),
        spec_expect(spec_encode(m), ("{\"agent_id\":\""@.len() - 1) as int, "\""@) == Some(
            "{\"agent_id\":\""@.len() as int,
        ),
        spec_scan_string(spec_encode(m), "{\"agent_id\":\""@.len() as int) == Some(
            (m.agent_id, enc_pre0(m).len() as int),
        ),
        spec_expect(spec_encode(m), enc_pre0(m).len() as int, ","@) == Some(
            (enc_pre0(m).len() + 1) as int,
        ),
        spec_member(spec_encode(m), (enc_pre0(m).len() + 1) as int, "\"agent_name\":"@) == Some(
            (enc_pre0(m).len() + ",\"agent_name\":"@.len()) as int,
        ),
        spec_scan_opt_string(spec_encode(m), (enc_pre0(m).len() + ",\"agent_name\":"@.len()) as int) == Some(
            (m.agent_name, enc_pre1(m).len() as int),
        ),
        spec_expect(spec_encode(m), enc_pre1(m).len() as int, ","@) == Some(
            (enc_pre1(m).len() + 1) as int,
        ),
        spec_member(spec_encode(m), (enc_pre1(m).len() + 1) as int, "\"auth\":"@) == Some(
            (enc_pre1(m).len() + ",\"auth\":"@.len()) as int,
        ),
        spec_scan_auth(spec_encode(m), (enc_pre1(m).len() + ",\"auth\":"@.len()) as int) == Some(
            (m.auth, enc_pre2(m).len() as int),
        ),
        spec_expect(spec_encode(m), enc_pre2(m).len() as int, ","@) == Some(
            (enc_pre2(m).len() + 1) as int,
        ),
        spec_member(spec_encode(m), (enc_pre2(m).len() + 1) as int, "\"version\":"@) == Some(
            (enc_pre2(m).len() + ",\"version\":"@.len()) as int,
        ),
        spec_scan_version(spec_encode(m), (enc_pre2(m).len() + ",\"version\":"@.len()) as int) == Some(
            (m.version, enc_pre3(m).len() as int),
        ),
        spec_expect(spec_encode(m), enc_pre3(m).len() as int, ","@) == Some(
            (enc_pre3(m).len() + 1) as int,
        ),
        spec_member(spec_encode(m), (enc_pre3(m).len() + 1) as int, "\"local_info\":"@) == Some(
            (enc_pre3(m).len() + ",\"local_info\":"@.len()) as int,
        ),
        spec_scan_local(spec_encode(m), (enc_pre3(m).len() + ",\"local_info\":"@.len()) as int) == Some(
            (m.local_info, enc_pre4(m).len() as int),
        ),
{
    let v = spec_encode(m);
    let p0 = "{\"agent_id\":\""@;
    let c0 = enc_str_body(m.agent_id);
    let p1 = ",\"agent_name\":"@;
    let c1 = enc_opt_string(m.agent_name);
    let p2 = ",\"auth\":"@;
    let c2 = enc_auth(m.auth);
    let p3 = ",\"version\":"@;
    let c3 = enc_opt_version(m.version);
    let p4 = ",\"local_info\":"@;
    let c4 = enc_opt_local(m.local_info);
    let p5 = ",\"service_info\":"@;
    let c5 = enc_opt_service(m.service_info);
    let p6 = ",\"encryption\":"@;
    let c6 = enc_opt_encryption(m.encryption);
    let p7 = ",\"heartbeat_interval\":"@;
    let n7 = dec_of(m.heartbeat_interval as int);
    let p8 = ",\"timestamp\":"@;
    let n8 = dec_of(m.timestamp as int);
    let p9 = "}"@;
    lemma_rt_regions(m);
    let i1 = p0.len() as int;
    let i2 = i1 + c0.len() as int;
    let i3 = i2 + p1.len() as int;
    let i4 = i3 + c1.len() as int;
    let i5 = i4 + p2.len() as int;
    let i6 = i5 + c2.len() as int;
    let i7 = i6 + p3.len() as int;
    let i8 = i7 + c3.len() as int;
    let i9 = i8 + p4.len() as int;
    let i10 = i9 + c4.len() as int;
    let i11 = i10 + p5.len() as int;
    let i12 = i11 + c5.len() as int;
    let i13 = i12 + p6.len() as int;
    let i14 = i13 + c6.len() as int;
    let i15 = i14 + p7.len() as int;
    let i16 = i15 + n7.len() as int;
    let i17 = i16 + p8.len() as int;
    let i18 = i17 + n8.len() as int;
    let i19 = i18 + p9.len() as int;
    lemma_rt_str_body(v, i1, m.agent_id);
    lemma_rt_opt_string(v, i3, m.agent_name);
    lemma_rt_auth(v, i5, m.auth);
    lemma_rt_version(v, i7, m.version);
    lemma_rt_local(v, i9, m.local_info);
    lemma_label_agent_id();
    assert(v.subrange(0, p0.len() as int) == ("{"@ + "\"agent_id\":"@) + "\""@);
    lemma_region_concat(v, 0, "{"@ + "\"agent_id\":"@, "\""@);
    lemma_region_concat(v, 0, "{"@, "\"agent_id\":"@);
    assert(spec_expect(v, 0, "{"@) == Some(1int));
    assert(spec_member(v, 1, "\"agent_id\":"@) == Some(p0.len() - 1));
    assert(spec_expect(v, p0.len() - 1, "\""@) == Some(p0.len() as int));
    lemma_label_agent_name();
    lemma_comma_member(v, i2, p1, "\"agent_name\":"@);
    lemma_label_auth();
    lemma_comma_member(v, i4, p2, "\"auth\":"@);
    lemma_label_version();
    lemma_comma_member(v, i6, p3, "\"version\":"@);
    lemma_label_local_info();
    lemma_comma_member(v, i8, p4, "\"local_info\":"@);
}

/// The scan equations over the service and encryption fields of the
/// canonical text of `m`.
#[verifier::rlimit(100)]
#[verifier::spinoff_prover]
pub proof fn lemma_rt_scans_mid(m: HandshakeModel)
    requires
        handshake_model_wf(m),
    ensures
        spec_expect(spec_encode(m), enc_pre4(m).len() as int, ","@) == Some(
            (enc_pre4(m).len() + 1) as int,
        ),
        spec_member(spec_encode(m), (enc_pre4(m).len() + 1) as int, "\"service_info\":"@) == Some(
            (enc_pre4(m).len() + ",\"service_info\":"@.len()) as int,
        ),
        spec_scan_service(spec_encode(m), (enc_pre4(m).len() + ",\"service_info\":"@.len()) as int) == Some(
            (m.service_info, enc_pre5(m).len() as int),
        ),
        spec_expect(spec_encode(m), enc_pre5(m).len() as int, ","@) == Some(
            (enc_pre5(m).len() + 1) as int,
        ),
        spec_member(spec_encode(m), (enc_pre5(m).len() + 1) as int, "\"encryption\":"@) == Some(
            (enc_pre5(m).len() + ",\"encryption\":"@.len()) as int,
        ),
        spec_scan_encryption(spec_encode(m), (enc_pre5(m).len() + ",\"encryption\":"@.len()) as int) == Some(
            (m.encryption, enc_pre6(m).len() as int),
        ),
{
    let v = spec_encode(m);
    let p0 = "{\"agent_id\":\""@;
    let c0 = enc_str_body(m.agent_id);
    let p1 = ",\"agent_name\":"@;
    let c1 = enc_opt_string(m.agent_name);
    let p2 = ",\"auth\":"@;
    let c2 = enc_auth(m.auth);
    let p3 = ",\"version\":"@;
    let c3 = enc_opt_version(m.version);
    let p4 = ",\"local_info\":"@;
    let c4 = enc_opt_local(m.local_info);
    let p5 = ",\"service_info\":"@;
    let c5 = enc_opt_service(m.service_info);
    let p6 = ",\"encryption\":"@;
    let c6 = enc_opt_encryption(m.encryption);
    let p7 = ",\"heartbeat_interval\":"@;
    let n7 = dec_of(m.heartbeat_interval as int);
    let p8 = ",\"timestamp\":"@;
    let n8 = dec_of(m.timestamp as int);
    let p9 = "}"@;
    lemma_rt_regions(m);
    let i1 = p0.len() as int;
    let i2 = i1 + c0.len() as int;
    let i3 = i2 + p1.len() as int;
    let i4 = i3 + c1.len() as int;
    let i5 = i4 + p2.len() as int;
    let i6 = i5 + c2.len() as int;
    let i7 = i6 + p3.len() as int;
    let i8 = i7 + c3.len() as int;
    let i9 = i8 + p4.len() as int;
    let i10 = i9 + c4.len() as int;
    let i11 = i10 + p5.len() as int;
    let i12 = i11 + c5.len() as int;
    let i13 = i12 + p6.len() as int;
    let i14 = i13 + c6.len() as int;
    let i15 = i14 + p7.len() as int;
    let i16 = i15 + n7.len() as int;
    let i17 = i16 + p8.len() as int;
    let i18 = i17 + n8.len() as int;
    let i19 = i18 + p9.len() as int;
    lemma_rt_service(v, i11, m.service_info);
    lemma_rt_encryption(v, i13, m.encryption);
    lemma_label_service_info();
    lemma_comma_member(v, i10, p5, "\"service_info\":"@);
    lemma_label_encryption();
    lemma_comma_member(v, i12, p6, "\"encryption\":"@);
}

/// The scan equations over the numeric fields and the closing brace of the
/// canonical text of `m`.
#[verifier::rlimit(100)]
#[verifier::spinoff_prover]
pub proof fn lemma_rt_scans_tail(m: HandshakeModel)
    requires
        handshake_model_wf(m),
    ensures
        spec_expect(spec_encode(m), enc_pre6(m).len() as int, ","@) == Some(
            (enc_pre6(m).len() + 1) as int,
        ),
        spec_member(spec_encode(m), (enc_pre6(m).len() + 1) as int, "\"heartbeat_interval\":"@) == Some(
            (enc_pre6(m).len() + ",\"heartbeat_interval\":"@.len()) as int,
        ),
        spec_scan_u64(spec_encode(m), (enc_pre6(m).len() + ",\"heartbeat_interval\":"@.len()) as int)
            == Some((m.heartbeat_interval as u64, enc_pre7(m).len() as int)),
        spec_expect(spec_encode(m), enc_pre7(m).len() as int, ","@) == Some(
            (enc_pre7(m).len() + 1) as int,
        ),
        spec_member(spec_encode(m), (enc_pre7(m).len() + 1) as int, "\"timestamp\":"@) == Some(
            (enc_pre7(m).len() + ",\"timestamp\":"@.len()) as int,
        ),
        spec_scan_u64(spec_encode(m), (enc_pre7(m).len() + ",\"timestamp\":"@.len()) as int) == Some(
            (m.timestamp, enc_pre8(m).len() as int),
        ),
        spec_tail(spec_encode(m), enc_pre8(m).len() as int) == Some(spec_encode(m).len() as int),{
    let v = spec_encode(m);
    let p0 = "{\"agent_id\":\""@;
    let c0 = enc_str_body(m.agent_id);
    let p1 = ",\"agent_name\":"@;
    let c1 = enc_opt_string(m.agent_name);
    let p2 = ",\"auth\":"@;
    let c2 = enc_auth(m.auth);
    let p3 = ",\"version\":"@;
    let c3 = enc_opt_version(m.version);
    let p4 = ",\"local_info\":"@;
    let c4 = enc_opt_local(m.local_info);
    let p5 = ",\"service_info\":"@;
    let c5 = enc_opt_service(m.service_info);
    let p6 = ",\"encryption\":"@;
    let c6 = enc_opt_encryption(m.encryption);
    let p7 = ",\"heartbeat_interval\":"@;
    let n7 = dec_of(m.heartbeat_interval as int);
    let p8 = ",\"timestamp\":"@;
    let n8 = dec_of(m.timestamp as int);
    let p9 = "}"@;
    lemma_rt_regions(m);
    let i1 = p0.len() as int;
    let i2 = i1 + c0.len() as int;
    let i3 = i2 + p1.len() as int;
    let i4 = i3 + c1.len() as int;
    let i5 = i4 + p2.len() as int;
    let i6 = i5 + c2.len() as int;
    let i7 = i6 + p3.len() as int;
    let i8 = i7 + c3.len() as int;
    let i9 = i8 + p4.len() as int;
    let i10 = i9 + c4.len() as int;
    let i11 = i10 + p5.len() as int;
    let i12 = i11 + c5.len() as int;
    let i13 = i12 + p6.len() as int;
    let i14 = i13 + c6.len() as int;
    let i15 = i14 + p7.len() as int;
    let i16 = i15 + n7.len() as int;
    let i17 = i16 + p8.len() as int;
    let i18 = i17 + n8.len() as int;
    let i19 = i18 + p9.len() as int;
    reveal_strlit(",\"timestamp\":");
    assert(v.subrange(i16, i16 + p8.len() as int)[0] == v[i16]);
    assert(v[i16] == ',');
    lemma_scan_dec_of(v, i15, m.heartbeat_interval as u64);
    reveal_strlit("}");
    assert(v.subrange(i18, i18 + 1)[0] == v[i18]);
    assert(v[i18] == '}');
    lemma_scan_dec_of(v, i17, m.timestamp as u64);
    assert(i19 == v.len());
    lemma_label_heartbeat_interval();
    lemma_comma_member(v, i14, p7, "\"heartbeat_interval\":"@);
    lemma_label_timestamp();
    lemma_comma_member(v, i16, p8, "\"timestamp\":"@);
    assert(v.subrange(i18, i18 + 1) == "}"@);
    assert(spec_expect(v, i18, "}"@) == Some(i18 + 1));
    assert(spec_tail(v, i18) == Some(i18 + 1));
}

/// Round trip: the canonical wire text of any well-formed handshake decodes
/// back to that same handshake, losslessly, whichever optional fields are
/// present or absent.
#[verifier::rlimit(100)]
#[verifier::spinoff_prover]
pub proof fn lemma_handshake_round_trip(m: HandshakeModel)
    requires
        handshake_model_wf(m),
    ensures
        spec_decode(spec_encode(m)) == Some(m),
{
    lemma_rt_scans_head(m);
    lemma_rt_scans_mid(m);
    lemma_rt_scans_tail(m);
    let v = spec_encode(m);
    let rebuilt = HandshakeModel {
        agent_id: m.agent_id,
        agent_name: m.agent_name,
        auth: m.auth,
        version: m.version,
        local_info: m.local_info,
        service_info: m.service_info,
        encryption: m.encryption,
        heartbeat_interval: m.heartbeat_interval,
        timestamp: m.timestamp,
    };
    assert(rebuilt =~= m);
    assert(spec_decode(v) == Some(rebuilt));
}


/// The canonical wire text of the internal host-query response: the owning
/// identity, or `null` when this instance does not hold the host.
pub open spec fn spec_encode_response(o: Option<Seq<char>>) -> Seq<char> {
    "{\"client_id\":"@ + enc_opt_string(o) + "}"@
}

/// What a host-query response text denotes: the carried identity (which
/// must be canonical identifier text), or nothing for any other text.
pub open spec fn spec_decode_response(v: Seq<char>) -> Option<Option<Seq<char>>> {
    match spec_expect(v, 0, "{\"client_id\":"@) {
        None => None,
        Some(i1) => match spec_scan_opt_string(v, i1) {
            None => None,
            Some((o, i2)) => if (o matches Some(t) && !is_uuid_text(t)) {
                None
            } else {
                match spec_expect(v, i2, "}"@) {
                    None => None,
                    Some(i3) => if i3 == v.len() {
                        Some(o)
                    } else {
                        None
                    },
                }
            },
        },
    }
}

/// The canonical wire text of `resp`.
pub fn encode_host_query_response(resp: &HostQueryResponse) -> (r: String)
    ensures
        r@ == spec_encode_response(resp@),
{
    let mut out: Vec<char> = Vec::new();
    push_lit(&mut out, "{\"client_id\":");
    match &resp.client_id {
        Some(id) => {
            push_lit(&mut out, "\"");
            push_str_body(&mut out, id.as_text());
        },
        None => {
            push_lit(&mut out, "null");
        },
    }
    push_lit(&mut out, "}");
    proof {
        assert(out@ =~= spec_encode_response(resp@));
    }
    string_of_chars(&out)
}

/// Reads a host-query response back from its wire text, exactly as
/// `spec_decode_response` says.
pub fn decode_host_query_response(s: &str) -> (r: Option<HostQueryResponse>)
    ensures
        r matches Some(resp) ==> spec_decode_response(s@) == Some(resp@),
        r is None ==> spec_decode_response(s@) is None,
{
    let v = chars_of_str(s);
    let lit0 = chars_of_str("{\"client_id\":");
    let i1 = match expect_lit(&v, 0, &lit0) {
        Some(j) => j,
        None => {
            return None;
        },
    };
    let (idc, i2) = match scan_opt_string(&v, i1) {
        Some(p) => p,
        None => {
            return None;
        },
    };
    let client_id = match idc {
        Some(cs) => {
            match ClientId::parse_text(string_of_chars(&cs).as_str()) {
                Ok(id) => Some(id),
                Err(_) => {
                    return None;
                },
            }
        },
        None => None,
    };
    let lit1 = chars_of_str("}");
    let i3 = match expect_lit(&v, i2, &lit1) {
        Some(j) => j,
        None => {
            return None;
        },
    };
    if i3 != v.len() {
        return None;
    }
    Some(HostQueryResponse { client_id })
}

/// Round trip of the host-query response: the canonical text of any answer
/// whose identity is canonical decodes back to that same answer.
pub proof fn lemma_response_round_trip(o: Option<Seq<char>>)
    requires
        o matches Some(t) ==> is_uuid_text(t),
    ensures
        spec_decode_response(spec_encode_response(o)) == Some(o),
{
    let v = spec_encode_response(o);
    let p0 = "{\"client_id\":"@;
    let c0 = enc_opt_string(o);
    let p1 = "}"@;
    assert(v.subrange(0, v.len() as int) =~= v);
    lemma_region_concat(v, 0, p0 + c0, p1);
    lemma_region_concat(v, 0, p0, c0);
    lemma_rt_opt_string(v, p0.len() as int, o);
}


/// A character that can stand in a JSON number.
pub open spec fn is_number_char(c: char) -> bool {
    is_digit_char(c) || c == '-' || c == '+' || c == '.' || c == 'e' || c == 'E'
}

/// The position right after a run of number characters starting at `i`.
pub open spec fn spec_skip_number(v: Seq<char>, i: int) -> int
    decreases v.len() - i,
{
    if 0 <= i < v.len() && is_number_char(v[i]) {
        spec_skip_number(v, i + 1)
    } else {
        i
    }
}

/// Skips one JSON value of any shape at `i`: the position right after it,
/// or nothing when no value starts there. Used only to pass over unknown
/// members; nothing of the skipped value is kept.
pub open spec fn spec_skip_value(v: Seq<char>, i: int) -> Option<int>
    decreases v.len() - i, 1int,
{
    if i < 0 || i >= v.len() {
        None
    } else if v[i] == '"' {
        match spec_scan_string(v, i + 1) {
            Some((_s, j)) => Some(j),
            None => None,
        }
    } else if v[i] == '{' {
        spec_skip_items(v, i + 1, true)
    } else if v[i] == '[' {
        spec_skip_items(v, i + 1, false)
    } else if v[i] == 'n' {
        spec_expect(v, i, "null"@)
    } else if v[i] == 't' {
        spec_expect(v, i, "true"@)
    } else if v[i] == 'f' {
        spec_expect(v, i, "false"@)
    } else if is_number_char(v[i]) {
        Some(spec_skip_number(v, i))
    } else {
        None
    }
}

/// Skips the remaining items of an object (`object` true: `"key":value`
/// pairs up to `}`) or an array (values up to `]`), starting right after the
/// opening bracket or after a separating comma.
pub open spec fn spec_skip_items(v: Seq<char>, i: int, object: bool) -> Option<int>
    decreases v.len() - i, 2int,
{
    if i < 0 || i >= v.len() {
        None
    } else if object && v[i] == '}' {
        Some(i + 1)
    } else if !object && v[i] == ']' {
        Some(i + 1)
    } else {
        let after_key = if object {
            match spec_expect(v, i, "\""@) {
                Some(i1) => match spec_scan_string(v, i1) {
                    Some((_k, i2)) => spec_expect(v, i2, ":"@),
                    None => None,
                },
                None => None,
            }
        } else {
            Some(i)
        };
        match after_key {
            None => None,
            Some(j) => {
                if j < i {
                    None
                } else {
                    match spec_skip_value(v, j) {
                        None => None,
                        Some(j2) => {
                            if j2 >= v.len() {
                                None
                            } else if object && v[j2] == '}' {
                                Some(j2 + 1)
                            } else if !object && v[j2] == ']' {
                                Some(j2 + 1)
                            } else if v[j2] == ',' && j2 + 1 > i {
                                spec_skip_items(v, j2 + 1, object)
                            } else {
                                None
                            }
                        },
                    }
                }
            },
        }
    }
}

/// Seeks the member whose text is `name` (a quoted key and its colon),
/// starting at the beginning of a member: unknown members before it are
/// skipped whole. The position right after the matching name's colon.
pub open spec fn spec_member(v: Seq<char>, i: int, name: Seq<char>) -> Option<int>
    decreases v.len() - i,
{
    if i < 0 || i >= v.len() {
        None
    } else {
        match spec_expect(v, i, name) {
            Some(j) => Some(j),
            None => match spec_expect(v, i, "\""@) {
                None => None,
                Some(i1) => match spec_scan_string(v, i1) {
                    None => None,
                    Some((_k, i2)) => match spec_expect(v, i2, ":"@) {
                        None => None,
                        Some(i3) => match spec_skip_value(v, i3) {
                            None => None,
                            Some(i4) => match spec_expect(v, i4, ","@) {
                                None => None,
                                Some(i5) => {
                                    if i5 <= i {
                                        None
                                    } else {
                                        spec_member(v, i5, name)
                                    }
                                },
                            },
                        },
                    },
                },
            },
        }
    }
}

/// Consumes whatever stands after the last known member: any further
/// unknown members, then the closing brace. The position right after it.
pub open spec fn spec_tail(v: Seq<char>, i: int) -> Option<int>
    decreases v.len() - i,
{
    match spec_expect(v, i, "}"@) {
        Some(j) => Some(j),
        None => match spec_expect(v, i, ","@) {
            None => None,
            Some(i1) => match spec_expect(v, i1, "\""@) {
                None => None,
                Some(i2) => match spec_scan_string(v, i2) {
                    None => None,
                    Some((_k, i3)) => match spec_expect(v, i3, ":"@) {
                        None => None,
                        Some(i4) => match spec_skip_value(v, i4) {
                            None => None,
                            Some(i5) => {
                                if i5 <= i || i5 > v.len() {
                                    None
                                } else {
                                    spec_tail(v, i5)
                                }
                            },
                        },
                    },
                },
            },
        },
    }
}

fn is_number_char_exec(c: char) -> (r: bool)
    ensures
        r == is_number_char(c),
{
    digit_of(c) < 10 || c == '-' || c == '+' || c == '.' || c == 'e' || c == 'E'
}

/// Passes over a run of number characters, exactly as `spec_skip_number`.
fn skip_number(v: &Vec<char>, i: usize) -> (r: usize)
    requires
        i <= v@.len(),
    ensures
        r as int == spec_skip_number(v@, i as int),
        i <= r <= v@.len(),
    decreases v@.len() - i,
{
    if i < v.len() && is_number_char_exec(v[i]) {
        skip_number(v, i + 1)
    } else {
        i
    }
}

/// Skips one JSON value, exactly as `spec_skip_value` does.
fn skip_value(v: &Vec<char>, i: usize) -> (r: Option<usize>)
    requires
        i <= v@.len(),
    ensures
        r matches Some(j) ==> spec_skip_value(v@, i as int) == Some(j as int) && j <= v@.len(),
        r is None ==> spec_skip_value(v@, i as int) is None,
    decreases v@.len() - i, 1int,
{
    if i >= v.len() {
        return None;
    }
    let c = v[i];
    if c == '"' {
        match scan_string(v, i + 1) {
            Some((_s, j)) => Some(j),
            None => None,
        }
    } else if c == '{' {
        skip_items(v, i + 1, true)
    } else if c == '[' {
        skip_items(v, i + 1, false)
    } else if c == 'n' {
        let lit = chars_of_str("null");
        expect_lit(v, i, &lit)
    } else if c == 't' {
        let lit = chars_of_str("true");
        expect_lit(v, i, &lit)
    } else if c == 'f' {
        let lit = chars_of_str("false");
        expect_lit(v, i, &lit)
    } else if is_number_char_exec(c) {
        Some(skip_number(v, i))
    } else {
        None
    }
}

/// Skips the rest of an object or array, exactly as `spec_skip_items` does.
fn skip_items(v: &Vec<char>, i: usize, object: bool) -> (r: Option<usize>)
    requires
        i <= v@.len(),
    ensures
        r matches Some(j) ==> spec_skip_items(v@, i as int, object) == Some(j as int) && j
            <= v@.len(),
        r is None ==> spec_skip_items(v@, i as int, object) is None,
    decreases v@.len() - i, 2int,
{
    if i >= v.len() {
        return None;
    }
    if object && v[i] == '}' {
        return Some(i + 1);
    }
    if !object && v[i] == ']' {
        return Some(i + 1);
    }
    let after_key = if object {
        let quote = chars_of_str("\"");
        match expect_lit(v, i, &quote) {
            Some(i1) => match scan_string(v, i1) {
                Some((_k, i2)) => {
                    let colon = chars_of_str(":");
                    expect_lit(v, i2, &colon)
                },
                None => None,
            },
            None => None,
        }
    } else {
        Some(i)
    };
    let j = match after_key {
        Some(j) => j,
        None => {
            return None;
        },
    };
    if j < i {
        return None;
    }
    let j2 = match skip_value(v, j) {
        Some(j2) => j2,
        None => {
            return None;
        },
    };
    if j2 >= v.len() {
        return None;
    }
    if object && v[j2] == '}' {
        return Some(j2 + 1);
    }
    if !object && v[j2] == ']' {
        return Some(j2 + 1);
    }
    if v[j2] == ',' && j2 + 1 > i {
        skip_items(v, j2 + 1, object)
    } else {
        None
    }
}

/// Seeks a known member past any unknown ones, exactly as `spec_member`
/// does.
fn seek_member(v: &Vec<char>, i: usize, name: &Vec<char>) -> (r: Option<usize>)
    requires
        i <= v@.len(),
    ensures
        r matches Some(j) ==> spec_member(v@, i as int, name@) == Some(j as int) && j <= v@.len(),
        r is None ==> spec_member(v@, i as int, name@) is None,
{
    let quote = chars_of_str("\"");
    let colon = chars_of_str(":");
    let comma = chars_of_str(",");
    let mut cur: usize = i;
    loop
        invariant
            cur <= v@.len(),
            quote@ == "\""@,
            colon@ == ":"@,
            comma@ == ","@,
            spec_member(v@, i as int, name@) == spec_member(v@, cur as int, name@),
        decreases v@.len() - cur,
    {
        if cur >= v.len() {
            return None;
        }
        match expect_lit(v, cur, name) {
            Some(j) => {
                return Some(j);
            },
            None => {},
        }
        let i1 = match expect_lit(v, cur, &quote) {
            Some(j) => j,
            None => {
                return None;
            },
        };
        let i2 = match scan_string(v, i1) {
            Some((_k, j)) => j,
            None => {
                return None;
            },
        };
        let i3 = match expect_lit(v, i2, &colon) {
            Some(j) => j,
            None => {
                return None;
            },
        };
        let i4 = match skip_value(v, i3) {
            Some(j) => j,
            None => {
                return None;
            },
        };
        if i4 >= v.len() {
            proof {
                reveal_strlit(",");
                assert(spec_expect(v@, i4 as int, ","@) is None);
            }
            return None;
        }
        let i5 = match expect_lit(v, i4, &comma) {
            Some(j) => j,
            None => {
                return None;
            },
        };
        if i5 <= cur {
            return None;
        }
        cur = i5;
    }
}

/// Consumes trailing unknown members and the closing brace, exactly as
/// `spec_tail` does.
fn finish_tail(v: &Vec<char>, i: usize) -> (r: Option<usize>)
    requires
        i <= v@.len(),
    ensures
        r matches Some(j) ==> spec_tail(v@, i as int) == Some(j as int) && j <= v@.len(),
        r is None ==> spec_tail(v@, i as int) is None,
{
    let close = chars_of_str("}");
    let quote = chars_of_str("\"");
    let colon = chars_of_str(":");
    let comma = chars_of_str(",");
    let mut cur: usize = i;
    loop
        invariant
            cur <= v@.len(),
            close@ == "}"@,
            quote@ == "\""@,
            colon@ == ":"@,
            comma@ == ","@,
            spec_tail(v@, i as int) == spec_tail(v@, cur as int),
        decreases v@.len() - cur,
    {
        match expect_lit(v, cur, &close) {
            Some(j) => {
                return Some(j);
            },
            None => {},
        }
        let i1 = match expect_lit(v, cur, &comma) {
            Some(j) => j,
            None => {
                return None;
            },
        };
        let i2 = match expect_lit(v, i1, &quote) {
            Some(j) => j,
            None => {
                return None;
            },
        };
        let i3 = match scan_string(v, i2) {
            Some((_k, j)) => j,
            None => {
                return None;
            },
        };
        let i4 = match expect_lit(v, i3, &colon) {
            Some(j) => j,
            None => {
                return None;
            },
        };
        let i5 = match skip_value(v, i4) {
            Some(j) => j,
            None => {
                return None;
            },
        };
        if i5 <= cur {
            return None;
        }
        cur = i5;
    }
}

} // verus!





