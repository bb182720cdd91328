//! Configuration rows. The tabular source text is split into rows by the
//! csv crate behind one trusted wrapper; everything after that — matching
//! the aliased column names, defaulting absent fields, parsing the port —
//! is verified here. The outcome of a row is a `RawNodeRecord`, the
//! intermediate "what was read" value that the endpoint builder validates.

use vstd::prelude::*;
use crate::text::{to_chars, parse_u16, parses_as_u16, u16_value};

verus! {

/// Whether the csv crate accepts the whole input as a table.
pub uninterp spec fn csv_ok(s: Seq<char>) -> bool;

/// The rows of the parsed table (header row included), each a sequence of
/// whitespace-trimmed fields, as the csv crate splits them.
pub uninterp spec fn csv_rows_of(s: Seq<char>) -> Seq<Seq<Seq<char>>>;

/// Relies on csv's `Reader` (trimming all fields, treating no row as
/// special): it splits the input into records of fields, a pure function
/// of the input text, named by `csv_ok` / `csv_rows_of` above.
#[verifier::external_body]
pub(crate) fn parse_csv_rows(text: &str) -> (r: Result<Vec<Vec<String>>, String>)
    ensures
        r is Ok <==> csv_ok(text@),
        r matches Ok(rows) ==> rows.deep_view() == csv_rows_of(text@),
{
    let mut reader = csv::ReaderBuilder::new()
        .has_headers(false)
        .trim(csv::Trim::All)
        .from_reader(text.as_bytes());
    let mut out: Vec<Vec<String>> = Vec::new();
    for record in reader.records() {
        match record {
            Ok(row) => out.push(row.iter().map(|f| f.to_string()).collect()),
            Err(e) => return Err(format!("{}", e)),
        }
    }
    Ok(out)
}

/// One configuration row as read, before any validation: every field
/// optional, exactly as the source columns leave them.
pub struct RawNodeRecord {
    pub name: Option<String>,
    pub rpc_endpoint: Option<String>,
    pub endpoint_host: Option<String>,
    pub endpoint_port: Option<u16>,
    pub protocol: Option<String>,
    pub location: Option<String>,
}

/// The mathematical shadow of a raw row.
pub struct RawRecordView {
    pub name: Option<Seq<char>>,
    pub rpc_endpoint: Option<Seq<char>>,
    pub endpoint_host: Option<Seq<char>>,
    pub endpoint_port: Option<u16>,
    pub protocol: Option<Seq<char>>,
    pub location: Option<Seq<char>>,
}

impl View for RawNodeRecord {
    type V = RawRecordView;

    open spec fn view(&self) -> RawRecordView {
        RawRecordView {
            name: self.name.deep_view(),
            rpc_endpoint: self.rpc_endpoint.deep_view(),
            endpoint_host: self.endpoint_host.deep_view(),
            endpoint_port: self.endpoint_port,
            protocol: self.protocol.deep_view(),
            location: self.location.deep_view(),
        }
    }
}

/// The column names that feed each field of a raw row.
pub open spec fn name_aliases() -> Seq<Seq<char>> {
    seq!["name"@]
}

pub open spec fn rpc_aliases() -> Seq<Seq<char>> {
    seq!["rpc_endpoint"@, "rpc_url"@]
}

pub open spec fn host_aliases() -> Seq<Seq<char>> {
    seq!["endpoint_host"@, "ip"@, "host"@, "address"@]
}

pub open spec fn port_aliases() -> Seq<Seq<char>> {
    seq!["endpoint_port"@, "rpc_port"@, "port"@]
}

pub open spec fn protocol_aliases() -> Seq<Seq<char>> {
    seq!["protocol"@]
}

pub open spec fn location_aliases() -> Seq<Seq<char>> {
    seq!["location"@]
}

/// The first column whose header is one of the given names.
pub open spec fn col_for(h: Seq<Seq<char>>, names: Seq<Seq<char>>) -> Option<int>
    decreases h.len(),
{
    if h.len() == 0 {
        None
    } else if names.contains(h[0]) {
        Some(0int)
    } else {
        match col_for(h.drop_first(), names) {
            Some(i) => Some(i + 1),
            None => None,
        }
    }
}

/// The value of the field fed by `names`: present only when the column
/// exists, the row is long enough, and the field is non-empty.
pub open spec fn str_field(h: Seq<Seq<char>>, row: Seq<Seq<char>>, names: Seq<Seq<char>>) -> Option<
    Seq<char>,
> {
    match col_for(h, names) {
        Some(i) => if i < row.len() && row[i].len() > 0 {
            Some(row[i])
        } else {
            None
        },
        None => None,
    }
}

/// Whether the port field of the row, if present, is a well-formed port
/// number.
pub open spec fn port_field_ok(h: Seq<Seq<char>>, row: Seq<Seq<char>>) -> bool {
    match str_field(h, row, port_aliases()) {
        Some(s) => parses_as_u16(s),
        None => true,
    }
}

/// The raw record a well-formed row denotes.
pub open spec fn raw_of(h: Seq<Seq<char>>, row: Seq<Seq<char>>) -> RawRecordView {
    RawRecordView {
        name: str_field(h, row, name_aliases()),
        rpc_endpoint: str_field(h, row, rpc_aliases()),
        endpoint_host: str_field(h, row, host_aliases()),
        endpoint_port: match str_field(h, row, port_aliases()) {
            Some(s) => Some(u16_value(s) as u16),
            None => None,
        },
        protocol: str_field(h, row, protocol_aliases()),
        location: str_field(h, row, location_aliases()),
    }
}

proof fn lemma_col_for_at(h: Seq<Seq<char>>, names: Seq<Seq<char>>, i: int)
    requires
        0 <= i <= h.len(),
        forall|j: int| 0 <= j < i ==> !names.contains(#[trigger] h[j]),
        i == h.len() || names.contains(h[i]),
    ensures
        col_for(h, names) == if i == h.len() {
            None::<int>
        } else {
            Some(i)
        },
    decreases i, h.len(),
{
    if i == 0 {
    } else {
        assert(!names.contains(h[0]));
        let t = h.drop_first();
        assert forall|j: int| 0 <= j < i - 1 implies !names.contains(#[trigger] t[j]) by {
            assert(t[j] == h[j + 1]);
        }
        if i - 1 < t.len() {
            assert(t[i - 1] == h[i]);
        }
        lemma_col_for_at(t, names, i - 1);
    }
}

fn contains_string(names: &Vec<String>, x: &String) -> (r: bool)
    ensures
        r == names.deep_view().contains(x@),
{
    let n: usize = names.len();
    let mut i: usize = 0;
    while i < n
        invariant
            i <= n,
            n == names@.len(),
            forall|k: int| 0 <= k < i ==> names.deep_view()[k] != x@,
        decreases n - i,
    {
        if names[i].eq(x) {
            proof {
                assert(names.deep_view()[i as int] == x@);
            }
            return true;
        }
        i = i + 1;
    }
    false
}

fn find_col(header: &Vec<String>, names: &Vec<String>) -> (r: Option<usize>)
    ensures
        match r {
            Some(i) => i < header@.len() && col_for(header.deep_view(), names.deep_view()) == Some(
                i as int,
            ),
            None => col_for(header.deep_view(), names.deep_view()) is None,
        },
{
    let n: usize = header.len();
    let mut i: usize = 0;
    while i < n
        invariant
            i <= n,
            n == header@.len(),
            forall|j: int| 0 <= j < i ==> !names.deep_view().contains(
                #[trigger] header.deep_view()[j],
            ),
        decreases n - i,
    {
        if contains_string(names, &header[i]) {
            proof {
                lemma_col_for_at(header.deep_view(), names.deep_view(), i as int);
            }
            return Some(i);
        }
        i = i + 1;
    }
    proof {
        lemma_col_for_at(header.deep_view(), names.deep_view(), n as int);
    }
    None
}

fn get_field(header: &Vec<String>, row: &Vec<String>, names: &Vec<String>) -> (r: Option<String>)
    ensures
        r.deep_view() == str_field(header.deep_view(), row.deep_view(), names.deep_view()),
{
    match find_col(header, names) {
        Some(i) => {
            if i < row.len() && !row[i].as_str().is_empty() {
                Some(row[i].clone())
            } else {
                None
            }
        },
        None => None,
    }
}

fn aliases_name() -> (r: Vec<String>)
    ensures
        r.deep_view() == name_aliases(),
{
    let mut v: Vec<String> = Vec::new();
    v.push(String::from_str("name"));
    proof {
        assert(v.deep_view() =~= name_aliases());
    }
    v
}

fn aliases_rpc() -> (r: Vec<String>)
    ensures
        r.deep_view() == rpc_aliases(),
{
    let mut v: Vec<String> = Vec::new();
    v.push(String::from_str("rpc_endpoint"));
    v.push(String::from_str("rpc_url"));
    proof {
        assert(v.deep_view() =~= rpc_aliases());
    }
    v
}

fn aliases_host() -> (r: Vec<String>)
    ensures
        r.deep_view() == host_aliases(),
{
    let mut v: Vec<String> = Vec::new();
    v.push(String::from_str("endpoint_host"));
    v.push(String::from_str("ip"));
    v.push(String::from_str("host"));
    v.push(String::from_str("address"));
    proof {
        assert(v.deep_view() =~= host_aliases());
    }
    v
}

fn aliases_port() -> (r: Vec<String>)
    ensures
        r.deep_view() == port_aliases(),
{
    let mut v: Vec<String> = Vec::new();
    v.push(String::from_str("endpoint_port"));
    v.push(String::from_str("rpc_port"));
    v.push(String::from_str("port"));
    proof {
        assert(v.deep_view() =~= port_aliases());
    }
    v
}

fn aliases_protocol() -> (r: Vec<String>)
    ensures
        r.deep_view() == protocol_aliases(),
{
    let mut v: Vec<String> = Vec::new();
    v.push(String::from_str("protocol"));
    proof {
        assert(v.deep_view() =~= protocol_aliases());
    }
    v
}

fn aliases_location() -> (r: Vec<String>)
    ensures
        r.deep_view() == location_aliases(),
{
    let mut v: Vec<String> = Vec::new();
    v.push(String::from_str("location"));
    proof {
        assert(v.deep_view() =~= location_aliases());
    }
    v
}

/// Read one data row against the header row: match the aliased columns,
/// drop empty fields, parse the port. The only way a row fails here is a
/// malformed port number.
pub fn record_from_row(header: &Vec<String>, row: &Vec<String>) -> (r: Result<RawNodeRecord, String>)
    ensures
        r is Ok <==> port_field_ok(header.deep_view(), row.deep_view()),
        r matches Ok(rec) ==> rec@ == raw_of(header.deep_view(), row.deep_view()),
        r matches Err(m) ==> m@ == "invalid port value"@,
{
    let name = get_field(header, row, &aliases_name());
    let rpc_endpoint = get_field(header, row, &aliases_rpc());
    let endpoint_host = get_field(header, row, &aliases_host());
    let protocol = get_field(header, row, &aliases_protocol());
    let location = get_field(header, row, &aliases_location());
    let endpoint_port: Option<u16> = match get_field(header, row, &aliases_port()) {
        Some(s) => {
            let cs = to_chars(s.as_str());
            match parse_u16(&cs) {
                Some(p) => Some(p),
                None => {
                    return Err(String::from_str("invalid port value"));
                },
            }
        },
        None => None,
    };
    Ok(RawNodeRecord { name, rpc_endpoint, endpoint_host, endpoint_port, protocol, location })
}

} // verus!
