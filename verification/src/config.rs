//! Topic and transport decisions of the viewer configuration.
//!
//! Topics are handled as UTF-8 bytes; the delimiters matched here are ASCII,
//! so every piece cut out of a valid UTF-8 topic is valid UTF-8 again.

use vstd::prelude::*;
use vstd::string::StringExecFns;
use vstd::string::StringSliceAdditionalSpecFns;

verus! {

/// The bytes of `"bsdos/app/"`.
pub open spec fn stream_prefix() -> Seq<u8> {
    seq![98u8, 115u8, 100u8, 111u8, 115u8, 47u8, 97u8, 112u8, 112u8, 47u8]
}

/// The bytes of `"/stream"`.
pub open spec fn stream_suffix() -> Seq<u8> {
    seq![47u8, 115u8, 116u8, 114u8, 101u8, 97u8, 109u8]
}

/// The bytes of `"/input/keyboard"`.
pub open spec fn keyboard_suffix() -> Seq<u8> {
    seq![47u8, 105u8, 110u8, 112u8, 117u8, 116u8, 47u8, 107u8, 101u8, 121u8, 98u8, 111u8, 97u8, 114u8, 100u8]
}

/// The bytes of `"/input/pointer"`.
pub open spec fn pointer_suffix() -> Seq<u8> {
    seq![47u8, 105u8, 110u8, 112u8, 117u8, 116u8, 47u8, 112u8, 111u8, 105u8, 110u8, 116u8, 101u8, 114u8]
}

/// The bytes of `"/viewer/size"`.
pub open spec fn size_suffix() -> Seq<u8> {
    seq![47u8, 118u8, 105u8, 101u8, 119u8, 101u8, 114u8, 47u8, 115u8, 105u8, 122u8, 101u8]
}

/// The bytes of `"tls/"`.
pub open spec fn tls_prefix() -> Seq<u8> {
    seq![116u8, 108u8, 115u8, 47u8]
}

fn stream_prefix_bytes() -> (r: Vec<u8>)
    ensures
        r@ == stream_prefix(),
{
    let r = vec![98u8, 115u8, 100u8, 111u8, 115u8, 47u8, 97u8, 112u8, 112u8, 47u8];
    assert(r@ =~= stream_prefix());
    r
}

fn stream_suffix_bytes() -> (r: Vec<u8>)
    ensures
        r@ == stream_suffix(),
{
    let r = vec![47u8, 115u8, 116u8, 114u8, 101u8, 97u8, 109u8];
    assert(r@ =~= stream_suffix());
    r
}

fn keyboard_suffix_bytes() -> (r: Vec<u8>)
    ensures
        r@ == keyboard_suffix(),
{
    let r = vec![47u8, 105u8, 110u8, 112u8, 117u8, 116u8, 47u8, 107u8, 101u8, 121u8, 98u8, 111u8, 97u8, 114u8, 100u8];
    assert(r@ =~= keyboard_suffix());
    r
}

fn pointer_suffix_bytes() -> (r: Vec<u8>)
    ensures
        r@ == pointer_suffix(),
{
    let r = vec![47u8, 105u8, 110u8, 112u8, 117u8, 116u8, 47u8, 112u8, 111u8, 105u8, 110u8, 116u8, 101u8, 114u8];
    assert(r@ =~= pointer_suffix());
    r
}

fn size_suffix_bytes() -> (r: Vec<u8>)
    ensures
        r@ == size_suffix(),
{
    let r = vec![47u8, 118u8, 105u8, 101u8, 119u8, 101u8, 114u8, 47u8, 115u8, 105u8, 122u8, 101u8];
    assert(r@ =~= size_suffix());
    r
}

fn tls_prefix_bytes() -> (r: Vec<u8>)
    ensures
        r@ == tls_prefix(),
{
    let r = vec![116u8, 108u8, 115u8, 47u8];
    assert(r@ =~= tls_prefix());
    r
}

/// `s` starts with `p`.
pub open spec fn has_prefix(s: Seq<u8>, p: Seq<u8>) -> bool {
    p.len() <= s.len() && s.subrange(0, p.len() as int) == p
}

/// `s` ends with `p`.
pub open spec fn has_suffix(s: Seq<u8>, p: Seq<u8>) -> bool {
    p.len() <= s.len() && s.subrange(s.len() - p.len(), s.len() as int) == p
}

/// The app id of a per-app stream topic `bsdos/app/{id}/stream`.
pub open spec fn spec_stream_app_id(sub: Seq<u8>) -> Option<Seq<u8>> {
    if has_prefix(sub, stream_prefix())
        && has_suffix(sub.subrange(stream_prefix().len() as int, sub.len() as int), stream_suffix()) {
        Some(sub.subrange(stream_prefix().len() as int, sub.len() - stream_suffix().len()))
    } else {
        None
    }
}

/// The per-app topics derived from a stream topic.
pub struct AppTopics {
    /// `bsdos/app/{id}/input/keyboard`
    pub keyboard: Vec<u8>,
    /// `bsdos/app/{id}/input/pointer`
    pub pointer: Vec<u8>,
    /// `bsdos/app/{id}/viewer/size`
    pub size: Vec<u8>,
}

fn starts_with_at(s: &[u8], start: usize, p: &Vec<u8>) -> (b: bool)
    requires
        start <= s@.len(),
    ensures
        b == (p@.len() <= s@.len() - start && s@.subrange(start as int, start + p@.len()) == p@),
{
    if p.len() > s.len() - start {
        return false;
    }
    let mut i: usize = 0;
    while i < p.len()
        invariant
            i <= p@.len(),
            start <= s@.len(),
            s@.len() <= usize::MAX,
            p@.len() <= s@.len() - start,
            forall|j: int| 0 <= j < i ==> s@[start + j] == p@[j],
        decreases p@.len() - i,
    {
        if s[start + i] != p[i] {
            assert(s@.subrange(start as int, start + p@.len())[i as int] != p@[i as int]);
            return false;
        }
        i = i + 1;
    }
    assert(s@.subrange(start as int, start + p@.len()) =~= p@);
    true
}

fn append_bytes(out: &mut Vec<u8>, s: &[u8], from: usize, to: usize)
    requires
        from <= to <= s@.len(),
    ensures
        final(out)@ == old(out)@ + s@.subrange(from as int, to as int),
{
    let mut i = from;
    while i < to
        invariant
            from <= i <= to,
            to <= s@.len(),
            out@ == old(out)@ + s@.subrange(from as int, i as int),
        decreases to - i,
    {
        out.push(s[i]);
        assert(s@.subrange(from as int, i + 1) =~= s@.subrange(from as int, i as int).push(s@[i as int]));
        i = i + 1;
    }
}

/// Derives the per-app input and size topics from a stream topic of the form
/// `bsdos/app/{id}/stream`; `None` for any other topic.
pub fn topics_for_stream(sub: &[u8]) -> (r: Option<AppTopics>)
    ensures
        match spec_stream_app_id(sub@) {
            None => r is None,
            Some(id) => r matches Some(t) && {
                &&& t.keyboard@ == stream_prefix() + id + keyboard_suffix()
                &&& t.pointer@ == stream_prefix() + id + pointer_suffix()
                &&& t.size@ == stream_prefix() + id + size_suffix()
            },
        },
{
    let prefix = stream_prefix_bytes();
    let suffix = stream_suffix_bytes();
    if !starts_with_at(sub, 0, &prefix) {
        return None;
    }
    let start = prefix.len();
    if sub.len() - start < suffix.len() {
        return None;
    }
    let end = sub.len() - suffix.len();
    let ghost rest = sub@.subrange(start as int, sub@.len() as int);
    assert(rest.subrange(rest.len() - suffix@.len(), rest.len() as int) =~= sub@.subrange(end as int, end + suffix@.len()));
    if !starts_with_at(sub, end, &suffix) {
        return None;
    }

    let mut keyboard = stream_prefix_bytes();
    append_bytes(&mut keyboard, sub, start, end);
    let mut pointer = stream_prefix_bytes();
    append_bytes(&mut pointer, sub, start, end);
    let mut size = stream_prefix_bytes();
    append_bytes(&mut size, sub, start, end);
    let kb_suffix = keyboard_suffix_bytes();
    append_bytes(&mut keyboard, kb_suffix.as_slice(), 0, kb_suffix.len());
    let ptr_suffix = pointer_suffix_bytes();
    append_bytes(&mut pointer, ptr_suffix.as_slice(), 0, ptr_suffix.len());
    let sz_suffix = size_suffix_bytes();
    append_bytes(&mut size, sz_suffix.as_slice(), 0, sz_suffix.len());
    assert(kb_suffix@.subrange(0, kb_suffix@.len() as int) =~= kb_suffix@);
    assert(ptr_suffix@.subrange(0, ptr_suffix@.len() as int) =~= ptr_suffix@);
    assert(sz_suffix@.subrange(0, sz_suffix@.len() as int) =~= sz_suffix@);
    Some(AppTopics { keyboard, pointer, size })
}

/// TLS is on when the `ZENOH_TLS` setting is present and not `"0"`, or, when
/// it is absent, when the peer endpoint starts with `tls/`.
pub open spec fn spec_tls_enabled(zenoh_tls: Option<Seq<u8>>, peer: Seq<u8>) -> bool {
    match zenoh_tls {
        Some(v) => v != seq![0x30u8],
        None => has_prefix(peer, tls_prefix()),
    }
}

/// Decides whether the transport uses TLS (see `spec_tls_enabled`).
pub fn tls_enabled(zenoh_tls: Option<&[u8]>, peer: &[u8]) -> (b: bool)
    ensures
        b == spec_tls_enabled(match zenoh_tls { Some(v) => Some(v@), None => None }, peer@),
{
    match zenoh_tls {
        Some(v) => {
            if v.len() == 1 && v[0] == 0x30 {
                assert(v@ =~= seq![0x30u8]);
                false
            } else {
                assert(v@.len() != 1 || v@[0] != 0x30);
                true
            }
        },
        None => {
            let p = tls_prefix_bytes();
            let r = starts_with_at(peer, 0, &p);
            r
        },
    }
}

/// The peer endpoint: `BSDOS_PEER` if set, else `ZENOH_PEER`, else
/// `tcp/localhost:7447`.
pub open spec fn spec_peer<'a>(bsdos_peer: Option<&'a str>, zenoh_peer: Option<&'a str>) -> &'a str {
    match bsdos_peer {
        Some(p) => p,
        None => match zenoh_peer {
            Some(p) => p,
            None => "tcp/localhost:7447",
        },
    }
}

/// The bytes of an optional string.
pub open spec fn opt_bytes(s: Option<&str>) -> Option<Seq<u8>> {
    match s {
        Some(v) => Some(v.spec_bytes()),
        None => None,
    }
}

/// The client configuration, as `(key, JSON5 value, error label)` entries in
/// insertion order: client mode; the peer as the one connect endpoint; with a
/// token, user `bsdos` and the token as password; with TLS, no name check on
/// connect.
pub open spec fn spec_zenoh_entries(peer: Seq<char>, token: Option<Seq<char>>, tls: bool)
    -> Seq<(Seq<char>, Seq<char>, Seq<char>)>
{
    let base = seq![
        ("mode"@, "\"client\""@, "Config mode"@),
        ("connect/endpoints"@, "[\""@ + peer + "\"]"@, "Config endpoints"@),
    ];
    let auth = match token {
        Some(t) => seq![
            ("transport/auth/usrpwd/user"@, "\"bsdos\""@, "Auth user config"@),
            ("transport/auth/usrpwd/password"@, "\""@ + t + "\""@, "Auth pass config"@),
        ],
        None => Seq::empty(),
    };
    let tls_entries = if tls {
        seq![("transport/link/tls/verify_name_on_connect"@, "false"@, "TLS config"@)]
    } else {
        Seq::empty()
    };
    base + auth + tls_entries
}

/// The transport settings of the client session.
pub struct ZenohSettings {
    /// The peer endpoint.
    pub peer: String,
    /// Whether TLS is on.
    pub tls: bool,
    /// `(key, JSON5 value, error label)` to insert, in order.
    pub entries: Vec<(String, String, String)>,
}

/// Mathematical value of configuration entries.
pub open spec fn entries_view(e: Seq<(String, String, String)>) -> Seq<(Seq<char>, Seq<char>, Seq<char>)> {
    e.map_values(|x: (String, String, String)| (x.0@, x.1@, x.2@))
}

fn entry(key: &str, value: String, label: &str) -> (r: (String, String, String))
    ensures
        r.0@ == key@,
        r.1@ == value@,
        r.2@ == label@,
{
    (String::from_str(key), value, String::from_str(label))
}

/// Decides the client settings from the `BSDOS_PEER`, `ZENOH_PEER`,
/// `BSDOS_TOKEN` and `ZENOH_TLS` settings (see `spec_peer`,
/// `spec_tls_enabled` and `spec_zenoh_entries`).
pub fn zenoh_settings(
    bsdos_peer: Option<&str>,
    zenoh_peer: Option<&str>,
    token: Option<&str>,
    zenoh_tls: Option<&str>,
) -> (r: ZenohSettings)
    ensures
        r.peer@ == spec_peer(bsdos_peer, zenoh_peer)@,
        r.tls == spec_tls_enabled(opt_bytes(zenoh_tls), spec_peer(bsdos_peer, zenoh_peer).spec_bytes()),
        entries_view(r.entries@) == spec_zenoh_entries(
            spec_peer(bsdos_peer, zenoh_peer)@,
            match token { Some(t) => Some(t@), None => None },
            r.tls,
        ),
{
    let peer: &str = match bsdos_peer {
        Some(p) => p,
        None => match zenoh_peer {
            Some(p) => p,
            None => "tcp/localhost:7447",
        },
    };
    let tls_setting: Option<&[u8]> = match zenoh_tls {
        Some(v) => Some(v.as_bytes()),
        None => None,
    };
    let tls = tls_enabled(tls_setting, peer.as_bytes());

    let mut entries: Vec<(String, String, String)> = Vec::new();
    entries.push(entry("mode", String::from_str("\"client\""), "Config mode"));
    let mut endpoints = String::from_str("[\"");
    endpoints.append(peer);
    endpoints.append("\"]");
    entries.push(entry("connect/endpoints", endpoints, "Config endpoints"));
    let ghost base = entries@;
    match token {
        Some(t) => {
            entries.push(entry("transport/auth/usrpwd/user", String::from_str("\"bsdos\""), "Auth user config"));
            let mut password = String::from_str("\"");
            password.append(t);
            password.append("\"");
            entries.push(entry("transport/auth/usrpwd/password", password, "Auth pass config"));
        },
        None => {},
    }
    if tls {
        entries.push(entry("transport/link/tls/verify_name_on_connect", String::from_str("false"), "TLS config"));
    }
    let ghost tok = match token { Some(t) => Some(t@), None => None };
    assert(entries_view(entries@) =~= spec_zenoh_entries(peer@, tok, tls));
    ZenohSettings { peer: String::from_str(peer), tls, entries }
}

} // verus!
