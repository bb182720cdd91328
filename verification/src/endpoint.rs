//! The endpoint builder: turning one raw configuration row into a
//! validated endpoint — scheme restricted to `http`/`https`, host present,
//! port always explicit (8899 when nothing supplied one) — and the
//! auto-generated display names for rows without one.

use vstd::prelude::*;
use crate::text::{
    to_chars, chars_to_string, trim_chars, norm_chars, vec_char_eq, contains_char, lower_char_exec,
    push_dec_digits, lower_char, trim_seq, norm_seq, seq_contains, dec_rep, str_eq, has_prefix,
};
use crate::urls::{
    url_ok, url_scheme_of, url_host_of, url_port_of, url_text_of, url_set_port_ok,
    url_with_port_text_of, UrlParts, parse_url_parts, parse_url_with_port,
};
use crate::rows::{RawNodeRecord, RawRecordView};

verus! {

/// A validated node endpoint, as plain values: the serialized URL the
/// forwarder targets, and the scheme, host and explicit port it reads.
pub struct Endpoint {
    pub text: String,
    pub scheme: String,
    pub host: String,
    pub port: u16,
}

pub struct EndpointView {
    pub text: Seq<char>,
    pub scheme: Seq<char>,
    pub host: Seq<char>,
    pub port: u16,
}

impl View for Endpoint {
    type V = EndpointView;

    open spec fn view(&self) -> EndpointView {
        EndpointView { text: self.text@, scheme: self.scheme@, host: self.host@, port: self.port }
    }
}

impl DeepView for Endpoint {
    type V = EndpointView;

    open spec fn deep_view(&self) -> EndpointView {
        self.view()
    }
}

impl Clone for Endpoint {
    fn clone(&self) -> (r: Self)
        ensures
            r@ == self@,
    {
        Endpoint {
            text: self.text.clone(),
            scheme: self.scheme.clone(),
            host: self.host.clone(),
            port: self.port,
        }
    }
}

pub open spec fn scheme_is_supported(s: Seq<char>) -> bool {
    s == "http"@ || s == "https"@
}

impl Endpoint {
    /// The invariant of every endpoint the builder hands out.
    pub open spec fn valid(self) -> bool {
        scheme_is_supported(self@.scheme)
    }
}

/// The default protocol for rows that name none.
pub fn default_protocol() -> (r: String)
    ensures
        r@ == "http"@,
{
    String::from_str("http")
}

/// The default RPC port for endpoints without an explicit one.
pub fn default_rpc_port() -> (r: u16)
    ensures
        r == 8899,
{
    8899
}

pub open spec fn opt_or(o: Option<Seq<char>>, d: Seq<char>) -> Seq<char> {
    match o {
        Some(x) => x,
        None => d,
    }
}

/// A present field counts only when non-blank; what counts is its trim.
pub open spec fn nonblank(o: Option<Seq<char>>) -> Option<Seq<char>> {
    match o {
        Some(s) => if trim_seq(s).len() > 0 {
            Some(trim_seq(s))
        } else {
            None
        },
        None => None,
    }
}

pub open spec fn spec_location(rec: RawRecordView) -> Seq<char> {
    trim_seq(opt_or(rec.location, "unspecified"@))
}

pub open spec fn spec_protocol(rec: RawRecordView) -> Seq<char> {
    norm_seq(opt_or(rec.protocol, "http"@))
}

pub open spec fn explicit_url(rec: RawRecordView) -> Option<Seq<char>> {
    nonblank(rec.rpc_endpoint)
}

pub open spec fn host_field(rec: RawRecordView) -> Option<Seq<char>> {
    nonblank(rec.endpoint_host)
}

pub open spec fn chosen_port(rec: RawRecordView) -> u16 {
    match rec.endpoint_port {
        Some(p) => p,
        None => 8899,
    }
}

/// A bare IPv6 literal — colons, no dots, not yet bracketed — is wrapped
/// in brackets so it can stand in a URL authority.
pub open spec fn prepared_host(s: Seq<char>) -> Seq<char> {
    let t = trim_seq(s);
    if seq_contains(t, ':') && !seq_contains(t, '.') && !(t.len() > 0 && t[0] == '[') && !(t.len()
        > 0 && t[t.len() - 1] == ']') {
        seq!['['] + t + seq![']']
    } else {
        t
    }
}

pub open spec fn candidate_url(rec: RawRecordView) -> Seq<char> {
    spec_protocol(rec) + "://"@ + prepared_host(opt_or(host_field(rec), Seq::<char>::empty()))
}

pub open spec fn scheme_default_port(s: Seq<char>, p: u16) -> bool {
    (s == "http"@ && p == 80) || (s == "https"@ && p == 443)
}

/// The explicit port after the host branch applied the row's port (or
/// 8899) to a candidate URL that had none; the url crate drops a port
/// equal to the scheme's default. Meaningful under a supported scheme.
pub open spec fn host_phase_port(rec: RawRecordView) -> Option<u16> {
    let c = candidate_url(rec);
    match url_port_of(c) {
        Some(p) => Some(p),
        None => if scheme_default_port(url_scheme_of(c), chosen_port(rec)) {
            None
        } else {
            Some(chosen_port(rec))
        },
    }
}

pub open spec fn host_phase_text(rec: RawRecordView) -> Seq<char> {
    let c = candidate_url(rec);
    match url_port_of(c) {
        Some(_) => url_text_of(c),
        None => url_with_port_text_of(c, chosen_port(rec)),
    }
}

/// The validation every resolved URL passes, whichever branch produced
/// it: supported scheme, host present, and a port that exists or can be
/// defaulted.
pub open spec fn post_ok(s: Seq<char>, cur_port: Option<u16>) -> bool {
    &&& scheme_is_supported(url_scheme_of(s))
    &&& url_host_of(s) is Some
    &&& (cur_port is Some || url_set_port_ok(s, 8899))
}

pub open spec fn final_port(cur_port: Option<u16>) -> u16 {
    match cur_port {
        Some(p) => p,
        None => 8899,
    }
}

pub open spec fn post_built(s: Seq<char>, cur_port: Option<u16>, cur_text: Seq<char>) -> EndpointView {
    EndpointView {
        text: match cur_port {
            Some(_) => cur_text,
            None => url_with_port_text_of(s, 8899),
        },
        scheme: url_scheme_of(s),
        host: opt_or(url_host_of(s), Seq::<char>::empty()),
        port: final_port(cur_port),
    }
}

/// Exactly when a raw row yields a node: a supported protocol, and either
/// an explicit URL or a host column that resolves to a URL passing
/// post-validation.
pub open spec fn accepts(rec: RawRecordView) -> bool {
    &&& scheme_is_supported(spec_protocol(rec))
    &&& match explicit_url(rec) {
        Some(u) => url_ok(u) && post_ok(u, url_port_of(u)),
        None => match host_field(rec) {
            Some(_) => {
                let c = candidate_url(rec);
                &&& url_ok(c)
                &&& (url_port_of(c) is Some || url_set_port_ok(c, chosen_port(rec)))
                &&& post_ok(c, host_phase_port(rec))
            },
            None => false,
        },
    }
}

/// The endpoint an accepted row yields.
pub open spec fn built_endpoint(rec: RawRecordView) -> EndpointView {
    match explicit_url(rec) {
        Some(u) => post_built(u, url_port_of(u), url_text_of(u)),
        None => post_built(candidate_url(rec), host_phase_port(rec), host_phase_text(rec)),
    }
}

/// The reason text of a post-validation failure, given the URL string
/// and the port the URL carried at that point: the checks run in order —
/// scheme, host, then the default-port fallback.
pub open spec fn post_reason(s: Seq<char>, cur_port: Option<u16>, m: Seq<char>) -> bool {
    if !scheme_is_supported(url_scheme_of(s)) {
        m == "unsupported url scheme `"@ + url_scheme_of(s) + "`"@
    } else if !(url_host_of(s) is Some) {
        m == "url is missing host"@
    } else {
        m == "invalid port"@
    }
}

/// The reason text a rejected row carries, by the cause of its
/// rejection, in the order the checks run. Where the text embeds the url
/// crate's own error, only the fixed prefix is stated.
pub open spec fn reject_reason_matches(rec: RawRecordView, m: Seq<char>) -> bool {
    if !scheme_is_supported(spec_protocol(rec)) {
        m == "unsupported protocol '"@ + spec_protocol(rec) + "'"@
    } else {
        match explicit_url(rec) {
            Some(u) => if !url_ok(u) {
                has_prefix(m, "invalid url '"@ + u + "': "@)
            } else {
                post_reason(u, url_port_of(u), m)
            },
            None => match host_field(rec) {
                None => m == "missing rpc_url or host/ip column"@,
                Some(h) => {
                    let c = candidate_url(rec);
                    if !url_ok(c) {
                        has_prefix(m, "invalid host '"@ + h + "': "@)
                    } else if url_port_of(c) is None && !url_set_port_ok(c, chosen_port(rec)) {
                        m == "invalid port"@
                    } else {
                        post_reason(c, host_phase_port(rec), m)
                    }
                },
            },
        }
    }
}

/// Every endpoint built from an accepted row has a supported scheme, and
/// its port falls back to 8899 exactly when neither the URL nor the row
/// supplied one.
pub proof fn lemma_built_endpoint_valid(rec: RawRecordView)
    requires
        accepts(rec),
    ensures
        scheme_is_supported(built_endpoint(rec).scheme),
        match explicit_url(rec) {
            Some(u) => url_port_of(u) is None ==> built_endpoint(rec).port == 8899,
            None => url_port_of(candidate_url(rec)) is None && rec.endpoint_port is None
                ==> built_endpoint(rec).port == 8899,
        },
{
}

fn sanitize_char_exec(c: char) -> (r: char)
    ensures
        r == sanitize_char(c),
{
    let u: u32 = c as u32;
    if (48 <= u && u <= 57) || (65 <= u && u <= 90) || (97 <= u && u <= 122) {
        lower_char_exec(c)
    } else {
        '-'
    }
}

pub open spec fn is_alnum(c: char) -> bool {
    let u = c as u32;
    (48 <= u && u <= 57) || (65 <= u && u <= 90) || (97 <= u && u <= 122)
}

pub open spec fn sanitize_char(c: char) -> char {
    if is_alnum(c) {
        lower_char(c)
    } else {
        '-'
    }
}

pub open spec fn sanitized_location(s: Seq<char>) -> Seq<char> {
    trim_seq(s).map_values(|c: char| sanitize_char(c))
}

/// Number of leading dashes.
pub open spec fn dash_lo(s: Seq<char>) -> int
    decreases s.len(),
{
    if s.len() == 0 || s[0] != '-' {
        0
    } else {
        1 + dash_lo(s.drop_first())
    }
}

/// Index just past the last non-dash character.
pub open spec fn dash_hi(s: Seq<char>) -> int
    decreases s.len(),
{
    if s.len() == 0 || s[s.len() - 1] != '-' {
        s.len() as int
    } else {
        dash_hi(s.drop_last())
    }
}

/// What `str::trim_matches('-')` leaves.
pub open spec fn dash_trimmed(s: Seq<char>) -> Seq<char> {
    if dash_lo(s) == s.len() {
        Seq::<char>::empty()
    } else {
        s.subrange(dash_lo(s), dash_hi(s))
    }
}

proof fn lemma_dash_lo_at(s: Seq<char>, i: int)
    requires
        0 <= i <= s.len(),
        forall|j: int| 0 <= j < i ==> s[j] == '-',
        i == s.len() || s[i] != '-',
    ensures
        dash_lo(s) == i,
    decreases i,
{
    if i == 0 {
    } else {
        let t = s.drop_first();
        assert forall|j: int| 0 <= j < i - 1 implies #[trigger] t[j] == '-' by {
            assert(t[j] == s[j + 1]);
        }
        if i - 1 < t.len() {
            assert(t[i - 1] == s[i]);
        }
        lemma_dash_lo_at(t, i - 1);
    }
}

proof fn lemma_dash_hi_at(s: Seq<char>, i: int)
    requires
        0 <= i <= s.len(),
        forall|j: int| i <= j < s.len() ==> s[j] == '-',
        i == 0 || s[i - 1] != '-',
    ensures
        dash_hi(s) == i,
    decreases s.len(),
{
    if i == s.len() {
    } else {
        assert(s[s.len() - 1] == '-');
        let t = s.drop_last();
        assert forall|j: int| i <= j < t.len() implies #[trigger] t[j] == '-' by {
            assert(t[j] == s[j]);
        }
        lemma_dash_hi_at(t, i);
    }
}

fn dash_trim_chars(v: &Vec<char>) -> (r: Vec<char>)
    ensures
        r@ == dash_trimmed(v@),
{
    let n: usize = v.len();
    let mut lo: usize = 0;
    while lo < n && v[lo] == '-'
        invariant
            lo <= n,
            n == v@.len(),
            forall|j: int| 0 <= j < lo ==> v@[j] == '-',
        decreases n - lo,
    {
        lo = lo + 1;
    }
    proof {
        lemma_dash_lo_at(v@, lo as int);
    }
    if lo == n {
        let out: Vec<char> = Vec::new();
        proof {
            assert(out@ =~= dash_trimmed(v@));
        }
        return out;
    }
    let mut hi: usize = n;
    while hi > lo + 1 && v[hi - 1] == '-'
        invariant
            lo < hi <= n,
            n == v@.len(),
            forall|j: int| hi <= j < n ==> v@[j] == '-',
        decreases hi,
    {
        hi = hi - 1;
    }
    proof {
        assert(v@[hi as int - 1] != '-');
        lemma_dash_hi_at(v@, hi as int);
    }
    let mut out: Vec<char> = Vec::new();
    let mut i: usize = lo;
    while i < hi
        invariant
            lo <= i <= hi <= n,
            n == v@.len(),
            out@.len() == i - lo,
            forall|j: int| 0 <= j < out@.len() ==> out@[j] == v@[lo + j],
        decreases hi - i,
    {
        let c: char = v[i];
        out.push(c);
        i = i + 1;
    }
    proof {
        assert(out@ =~= dash_trimmed(v@));
    }
    out
}

/// The name generated for a row that supplies none: the location
/// lower-cased with every non-alphanumeric character replaced by `-`,
/// stripped of outer dashes, then `-<ordinal>`; or `validator-<ordinal>`
/// when nothing survives.
pub open spec fn generated_name(loc: Seq<char>, ordinal: int) -> Seq<char> {
    let cleaned = dash_trimmed(sanitized_location(loc));
    if cleaned.len() == 0 {
        "validator-"@ + dec_rep(ordinal)
    } else {
        cleaned + seq!['-'] + dec_rep(ordinal)
    }
}

pub fn generate_default_name(location: &str, ordinal: usize) -> (r: String)
    ensures
        r@ == generated_name(location@, ordinal as int),
{
    let chars = to_chars(location);
    let trimmed = trim_chars(&chars);
    let n: usize = trimmed.len();
    let mut sanitized: Vec<char> = Vec::new();
    let mut i: usize = 0;
    while i < n
        invariant
            i <= n,
            n == trimmed@.len(),
            sanitized@.len() == i,
            forall|j: int| 0 <= j < i ==> sanitized@[j] == sanitize_char(trimmed@[j]),
        decreases n - i,
    {
        let c: char = sanitize_char_exec(trimmed[i]);
        sanitized.push(c);
        i = i + 1;
    }
    proof {
        assert(sanitized@ =~= sanitized_location(location@));
    }
    let cleaned = dash_trim_chars(&sanitized);
    if cleaned.len() == 0 {
        let mut out = to_chars("validator-");
        push_dec_digits(ordinal, &mut out);
        let r = chars_to_string(&out);
        proof {
            assert(r@ =~= generated_name(location@, ordinal as int));
        }
        r
    } else {
        let mut out = cleaned;
        out.push('-');
        push_dec_digits(ordinal, &mut out);
        let r = chars_to_string(&out);
        proof {
            assert(r@ =~= generated_name(location@, ordinal as int));
        }
        r
    }
}

fn prepared_host_chars(v: &Vec<char>) -> (r: Vec<char>)
    ensures
        r@ == prepared_host(v@),
{
    let t = trim_chars(v);
    let has_colon = contains_char(&t, ':');
    let has_dot = contains_char(&t, '.');
    let n: usize = t.len();
    let bracketed_start = n > 0 && t[0] == '[';
    let bracketed_end = n > 0 && t[n - 1] == ']';
    if has_colon && !has_dot && !bracketed_start && !bracketed_end {
        let mut out: Vec<char> = Vec::new();
        out.push('[');
        out.extend_from_slice(t.as_slice());
        out.push(']');
        proof {
            assert(out@ =~= prepared_host(v@));
        }
        out
    } else {
        t
    }
}

/// Bracket a bare IPv6 literal so it can stand in a URL authority; any
/// other host comes back trimmed and unchanged.
pub fn prepare_host_for_url(host: &str) -> (r: String)
    ensures
        r@ == prepared_host(host@),
{
    let v = to_chars(host);
    let p = prepared_host_chars(&v);
    chars_to_string(&p)
}

fn compose3(a: &str, mid: &Vec<char>, z: &str) -> (r: String)
    ensures
        r@ == a@ + mid@ + z@,
{
    let mut out = to_chars(a);
    out.extend_from_slice(mid.as_slice());
    out.extend_from_slice(to_chars(z).as_slice());
    let r = chars_to_string(&out);
    proof {
        assert(r@ =~= a@ + mid@ + z@);
    }
    r
}

fn compose4(a: &str, mid: &Vec<char>, z: &str, detail: &String) -> (r: String)
    ensures
        r@ == a@ + mid@ + z@ + detail@,
{
    let mut out = to_chars(a);
    out.extend_from_slice(mid.as_slice());
    out.extend_from_slice(to_chars(z).as_slice());
    out.extend_from_slice(to_chars(detail.as_str()).as_slice());
    let r = chars_to_string(&out);
    proof {
        assert(r@ =~= a@ + mid@ + z@ + detail@);
    }
    r
}

fn post_validate(src: &String, parts: UrlParts) -> (r: Result<Endpoint, String>)
    requires
        url_ok(src@),
        parts.scheme@ == url_scheme_of(src@),
        parts.host.deep_view() == url_host_of(src@),
    ensures
        r is Ok <==> post_ok(src@, parts.port),
        r matches Ok(e) ==> e@ == post_built(src@, parts.port, parts.text@),
        r matches Err(m) ==> post_reason(src@, parts.port, m@),
{
    let is_http = str_eq(parts.scheme.as_str(), "http");
    let is_https = str_eq(parts.scheme.as_str(), "https");
    if !is_http && !is_https {
        let scheme_chars = to_chars(parts.scheme.as_str());
        return Err(compose3("unsupported url scheme `", &scheme_chars, "`"));
    }
    let host: String = match parts.host {
        Some(h) => h,
        None => {
            return Err(String::from_str("url is missing host"));
        },
    };
    match parts.port {
        Some(p) => Ok(Endpoint { text: parts.text, scheme: parts.scheme, host, port: p }),
        None => {
            match parse_url_with_port(src.as_str(), 8899) {
                Ok(q) => Ok(Endpoint { text: q.text, scheme: parts.scheme, host, port: 8899 }),
                Err(_) => Err(String::from_str("invalid port")),
            }
        },
    }
}

/// Resolve one raw row to a validated endpoint, in the priority order of
/// the configuration format: an explicit URL wins, a host column builds
/// `<protocol>://<host>` with the row's port or 8899, anything else is a
/// missing-endpoint error.
pub fn resolve_endpoint(rec: &RawNodeRecord) -> (r: Result<Endpoint, String>)
    ensures
        r is Ok <==> accepts(rec@),
        r matches Ok(e) ==> e@ == built_endpoint(rec@),
        r matches Err(m) ==> reject_reason_matches(rec@, m@),
{
    let proto_chars: Vec<char> = match rec.protocol.as_ref() {
        Some(p) => to_chars(p.as_str()),
        None => to_chars("http"),
    };
    let proto_norm = norm_chars(&proto_chars);
    proof {
        assert(proto_norm@ == spec_protocol(rec@));
    }
    let is_http = vec_char_eq(&proto_norm, &to_chars("http"));
    let is_https = vec_char_eq(&proto_norm, &to_chars("https"));
    if !is_http && !is_https {
        return Err(compose3("unsupported protocol '", &proto_norm, "'"));
    }
    let explicit: Option<Vec<char>> = match rec.rpc_endpoint.as_ref() {
        Some(e) => {
            let t = trim_chars(&to_chars(e.as_str()));
            if t.len() > 0 {
                Some(t)
            } else {
                None
            }
        },
        None => None,
    };
    match explicit {
        Some(u_chars) => {
            proof {
                assert(explicit_url(rec@) == Some(u_chars@));
            }
            let u_str = chars_to_string(&u_chars);
            match parse_url_parts(u_str.as_str()) {
                Ok(p) => post_validate(&u_str, p),
                Err(m) => {
                    let msg = compose4("invalid url '", &u_chars, "': ", &m);
                    proof {
                        let p = "invalid url '"@ + u_chars@ + "': "@;
                        assert(msg@.subrange(0, p.len() as int) =~= p);
                    }
                    Err(msg)
                },
            }
        },
        None => {
            proof {
                assert(explicit_url(rec@) is None);
            }
            let host_t: Option<Vec<char>> = match rec.endpoint_host.as_ref() {
                Some(h) => {
                    let t = trim_chars(&to_chars(h.as_str()));
                    if t.len() > 0 {
                        Some(t)
                    } else {
                        None
                    }
                },
                None => None,
            };
            let h_chars: Vec<char> = match host_t {
                Some(h) => h,
                None => {
                    proof {
                        assert(host_field(rec@) is None);
                    }
                    return Err(String::from_str("missing rpc_url or host/ip column"));
                },
            };
            proof {
                assert(host_field(rec@) == Some(h_chars@));
            }
            let prepared = prepared_host_chars(&h_chars);
            let mut cand_chars = proto_norm;
            cand_chars.extend_from_slice(to_chars("://").as_slice());
            cand_chars.extend_from_slice(prepared.as_slice());
            let candidate = chars_to_string(&cand_chars);
            proof {
                assert(candidate@ =~= candidate_url(rec@));
            }
            let p0 = match parse_url_parts(candidate.as_str()) {
                Ok(p) => p,
                Err(m) => {
                    let msg = compose4("invalid host '", &h_chars, "': ", &m);
                    proof {
                        let p = "invalid host '"@ + h_chars@ + "': "@;
                        assert(msg@.subrange(0, p.len() as int) =~= p);
                    }
                    return Err(msg);
                },
            };
            let parts1: UrlParts = if p0.port.is_some() {
                p0
            } else {
                let chosen: u16 = match rec.endpoint_port {
                    Some(p) => p,
                    None => default_rpc_port(),
                };
                match parse_url_with_port(candidate.as_str(), chosen) {
                    Ok(q) => q,
                    Err(_) => {
                        return Err(String::from_str("invalid port"));
                    },
                }
            };
            proof {
                if scheme_is_supported(url_scheme_of(candidate@)) {
                    assert(parts1.port == host_phase_port(rec@));
                }
                assert(parts1.text@ == host_phase_text(rec@));
                assert(parts1.scheme@ == url_scheme_of(candidate@));
                assert(parts1.host.deep_view() == url_host_of(candidate@));
            }
            let r = post_validate(&candidate, parts1);
            proof {
                if !scheme_is_supported(url_scheme_of(candidate@)) {
                    assert(!post_ok(candidate@, parts1.port));
                    assert(!post_ok(candidate@, host_phase_port(rec@)));
                }
                if r is Err {
                    assert(post_reason(candidate@, parts1.port, r->Err_0@));
                    assert(post_reason(candidate@, host_phase_port(rec@), r->Err_0@));
                }
            }
            r
        },
    }
}

} // verus!
