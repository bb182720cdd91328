//! The validator registry: node records built from configuration rows,
//! the registry's uniqueness invariant over normalized names, and the
//! selection policy (explicit name, then location group, then uniform
//! random).

use vstd::prelude::*;
use crate::text::{
    to_chars, chars_to_string, trim_chars, norm_chars, vec_char_eq, push_dec_digits, trim_seq,
    norm_seq, dec_rep, lemma_trim_idempotent,
};
use crate::rows::{
    RawNodeRecord, RawRecordView, record_from_row, parse_csv_rows, csv_ok, csv_rows_of, raw_of,
    port_field_ok,
};
use crate::endpoint::{
    Endpoint, EndpointView, accepts, built_endpoint, spec_location, generated_name,
    generate_default_name, resolve_endpoint, reject_reason_matches,
};

verus! {

/// One backend node: a display name, a location tag, and a validated
/// endpoint.
pub struct Validator {
    name: String,
    location: String,
    endpoint: Endpoint,
}

pub struct ValidatorView {
    pub name: Seq<char>,
    pub location: Seq<char>,
    pub endpoint: EndpointView,
}

impl View for Validator {
    type V = ValidatorView;

    closed spec fn view(&self) -> ValidatorView {
        ValidatorView { name: self.name@, location: self.location@, endpoint: self.endpoint@ }
    }
}

impl DeepView for Validator {
    type V = ValidatorView;

    open spec fn deep_view(&self) -> ValidatorView {
        self.view()
    }
}

impl Clone for Validator {
    fn clone(&self) -> (r: Self)
        ensures
            r@ == self@,
    {
        Validator {
            name: self.name.clone(),
            location: self.location.clone(),
            endpoint: self.endpoint.clone(),
        }
    }
}

/// The public projection of a node: name and location only.
pub struct ValidatorSummary {
    pub name: String,
    pub location: String,
}

pub struct SummaryView {
    pub name: Seq<char>,
    pub location: Seq<char>,
}

impl View for ValidatorSummary {
    type V = SummaryView;

    open spec fn view(&self) -> SummaryView {
        SummaryView { name: self.name@, location: self.location@ }
    }
}

impl DeepView for ValidatorSummary {
    type V = SummaryView;

    open spec fn deep_view(&self) -> SummaryView {
        self.view()
    }
}

impl Clone for ValidatorSummary {
    fn clone(&self) -> (r: Self)
        ensures
            r@ == self@,
    {
        ValidatorSummary { name: self.name.clone(), location: self.location.clone() }
    }
}

/// A failure while loading the registry.
#[derive(Debug)]
pub enum RegistryError {
    Csv(String),
    Io(String),
    InvalidRecord(usize, String),
    DuplicateName(String),
    Empty,
}

/// A failure while selecting a node for one request.
#[derive(Debug)]
pub enum SelectionError {
    UnknownValidator(String),
    UnknownLocation(String),
    Empty,
}

impl SelectionError {
    /// The human-readable form of the failure.
    pub fn message(&self) -> (r: String)
        ensures
            match self {
                SelectionError::UnknownValidator(n) => r@ == "validator '"@ + n@ + "' not found"@,
                SelectionError::UnknownLocation(l) => r@ == "no validator available for location '"@
                    + l@ + "'"@,
                SelectionError::Empty => r@ == "no validators available"@,
            },
    {
        match self {
            SelectionError::UnknownValidator(n) => {
                let mut out = to_chars("validator '");
                out.extend_from_slice(to_chars(n.as_str()).as_slice());
                out.extend_from_slice(to_chars("' not found").as_slice());
                chars_to_string(&out)
            },
            SelectionError::UnknownLocation(l) => {
                let mut out = to_chars("no validator available for location '");
                out.extend_from_slice(to_chars(l.as_str()).as_slice());
                out.extend_from_slice(to_chars("'").as_slice());
                chars_to_string(&out)
            },
            SelectionError::Empty => String::from_str("no validators available"),
        }
    }
}

impl RegistryError {
    /// The human-readable form of the failure.
    pub fn message(&self) -> (r: String)
        ensures
            match self {
                RegistryError::Csv(s) => r@ == "csv error: "@ + s@,
                RegistryError::Io(s) => r@ == "io error: "@ + s@,
                RegistryError::InvalidRecord(rn, s) => r@ == "invalid record at row "@ + dec_rep(
                    *rn as int,
                ) + ": "@ + s@,
                RegistryError::DuplicateName(n) => r@ == "duplicate validator name '"@ + n@ + "'"@,
                RegistryError::Empty => r@ == "no validators configured"@,
            },
    {
        match self {
            RegistryError::Csv(s) => {
                let mut out = to_chars("csv error: ");
                out.extend_from_slice(to_chars(s.as_str()).as_slice());
                chars_to_string(&out)
            },
            RegistryError::Io(s) => {
                let mut out = to_chars("io error: ");
                out.extend_from_slice(to_chars(s.as_str()).as_slice());
                chars_to_string(&out)
            },
            RegistryError::InvalidRecord(rn, s) => {
                let mut out = to_chars("invalid record at row ");
                push_dec_digits(*rn, &mut out);
                out.extend_from_slice(to_chars(": ").as_slice());
                out.extend_from_slice(to_chars(s.as_str()).as_slice());
                chars_to_string(&out)
            },
            RegistryError::DuplicateName(n) => {
                let mut out = to_chars("duplicate validator name '");
                out.extend_from_slice(to_chars(n.as_str()).as_slice());
                out.extend_from_slice(to_chars("'").as_slice());
                chars_to_string(&out)
            },
            RegistryError::Empty => String::from_str("no validators configured"),
        }
    }
}

/// The name an accepted row gets: the trimmed `name` field, or the
/// generated one when that is absent or blank.
pub open spec fn chosen_name(rec: RawRecordView, ordinal: int) -> Seq<char> {
    match rec.name {
        Some(n) => if trim_seq(n).len() > 0 {
            trim_seq(n)
        } else {
            generated_name(spec_location(rec), ordinal)
        },
        None => generated_name(spec_location(rec), ordinal),
    }
}

/// The node an accepted row yields, given its ordinal among accepted rows.
pub open spec fn built_validator(rec: RawRecordView, ordinal: int) -> ValidatorView {
    ValidatorView {
        name: chosen_name(rec, ordinal),
        location: spec_location(rec),
        endpoint: built_endpoint(rec),
    }
}

impl Validator {
    pub fn new(name: String, location: String, endpoint: Endpoint) -> (r: Self)
        ensures
            r@.name == name@,
            r@.location == location@,
            r@.endpoint == endpoint@,
    {
        Validator { name, location, endpoint }
    }

    pub fn name(&self) -> (r: &str)
        ensures
            r@ == self@.name,
    {
        self.name.as_str()
    }

    pub fn location(&self) -> (r: &str)
        ensures
            r@ == self@.location,
    {
        self.location.as_str()
    }

    pub fn rpc_url(&self) -> (r: &Endpoint)
        ensures
            r@ == self@.endpoint,
    {
        &self.endpoint
    }

    /// The `Host` header value for this node: its endpoint's host, with
    /// the explicit port.
    pub fn host_header(&self) -> (r: Option<String>)
        ensures
            r matches Some(h) && h@ == self@.endpoint.host + seq![':'] + dec_rep(
                self@.endpoint.port as int,
            ),
    {
        let mut out = to_chars(self.endpoint.host.as_str());
        out.push(':');
        push_dec_digits(self.endpoint.port as usize, &mut out);
        proof {
            assert(out@ =~= self@.endpoint.host + seq![':'] + dec_rep(self@.endpoint.port as int));
        }
        Some(chars_to_string(&out))
    }

    pub fn summary(&self) -> (r: ValidatorSummary)
        ensures
            r@.name == self@.name,
            r@.location == self@.location,
    {
        ValidatorSummary { name: self.name.clone(), location: self.location.clone() }
    }

    /// Build one node from a raw configuration row. `row_number` is the
    /// 1-based row in the source (the header is row 1); `ordinal` is the
    /// 1-based count of accepted rows including this one.
    pub fn try_from_record(record: RawNodeRecord, row_number: usize, ordinal: usize) -> (r: Result<
        Validator,
        RegistryError,
    >)
        ensures
            r is Ok <==> accepts(record@),
            r matches Ok(v) ==> v@ == built_validator(record@, ordinal as int),
            r matches Err(e) ==> e matches RegistryError::InvalidRecord(rn, msg) && rn
                == row_number && reject_reason_matches(record@, msg@),
    {
        let location_chars: Vec<char> = match record.location.as_ref() {
            Some(l) => trim_chars(&to_chars(l.as_str())),
            None => trim_chars(&to_chars("unspecified")),
        };
        let location = chars_to_string(&location_chars);
        proof {
            assert(location@ == spec_location(record@));
        }
        match resolve_endpoint(&record) {
            Err(msg) => Err(RegistryError::InvalidRecord(row_number, msg)),
            Ok(endpoint) => {
                let name: String = match record.name.as_ref() {
                    Some(n) => {
                        let t = trim_chars(&to_chars(n.as_str()));
                        if t.len() > 0 {
                            chars_to_string(&t)
                        } else {
                            generate_default_name(location.as_str(), ordinal)
                        }
                    },
                    None => generate_default_name(location.as_str(), ordinal),
                };
                Ok(Validator { name, location, endpoint })
            },
        }
    }
}

/// Pairwise distinctness of normalized names.
pub open spec fn names_distinct(s: Seq<ValidatorView>) -> bool {
    forall|i: int, j: int|
        0 <= i < j < s.len() ==> norm_seq(#[trigger] s[i].name) != norm_seq(#[trigger] s[j].name)
}

/// The first index whose normalized name repeats an earlier one.
pub open spec fn first_duplicate(s: Seq<ValidatorView>, j: int) -> bool {
    &&& 0 <= j < s.len()
    &&& exists|i: int| 0 <= i < j && norm_seq(#[trigger] s[i].name) == norm_seq(s[j].name)
    &&& names_distinct(s.take(j))
}

/// The immutable, indexed set of all configured nodes.
pub struct ValidatorRegistry {
    validators: Vec<Validator>,
}

impl View for ValidatorRegistry {
    type V = Seq<ValidatorView>;

    closed spec fn view(&self) -> Seq<ValidatorView> {
        self.validators.deep_view()
    }
}

/// Relies on rand's `thread_rng` and `Rng::gen_range`: a uniformly
/// distributed index below `n`. Nothing is assumed beyond the bound; two
/// calls may differ.
#[verifier::external_body]
fn random_below(n: usize) -> (r: usize)
    requires
        n > 0,
    ensures
        r < n,
{
    rand::Rng::gen_range(&mut rand::thread_rng(), 0..n)
}

fn norm_of_string(s: &String) -> (r: Vec<char>)
    ensures
        r@ == norm_seq(s@),
{
    norm_chars(&to_chars(s.as_str()))
}

/// Whether a hint was supplied and is non-blank after trimming.
pub open spec fn hint_given(h: Option<&str>) -> bool {
    h matches Some(s) && trim_seq(s@).len() > 0
}

impl ValidatorRegistry {
    /// The registry invariant: at least one node, and no two nodes whose
    /// names normalize to the same key.
    pub open spec fn wf(self) -> bool {
        self@.len() > 0 && names_distinct(self@)
    }

    /// Assemble the registry. Fails on an empty list, and on the first
    /// node whose normalized name repeats an earlier one, reporting that
    /// node's display name.
    pub fn new(validators: Vec<Validator>) -> (r: Result<ValidatorRegistry, RegistryError>)
        ensures
            r is Ok <==> validators@.len() > 0 && names_distinct(validators.deep_view()),
            r matches Ok(reg) ==> reg@ == validators.deep_view() && reg.wf(),
            r matches Err(e) ==> match e {
                RegistryError::Empty => validators@.len() == 0,
                RegistryError::DuplicateName(nm) => exists|j: int|
                    #[trigger] first_duplicate(validators.deep_view(), j) && nm@
                        == validators.deep_view()[j].name,
                _ => false,
            },
    {
        let n: usize = validators.len();
        if n == 0 {
            return Err(RegistryError::Empty);
        }
        let ghost dv = validators.deep_view();
        let mut j: usize = 1;
        while j < n
            invariant
                1 <= j <= n,
                n == validators@.len(),
                dv == validators.deep_view(),
                dv.len() == n,
                names_distinct(dv.take(j as int)),
            decreases n - j,
        {
            let nj = norm_of_string(&validators[j].name);
            let mut i: usize = 0;
            while i < j
                invariant
                    0 <= i <= j < n,
                    n == validators@.len(),
                    dv == validators.deep_view(),
                    dv.len() == n,
                    names_distinct(dv.take(j as int)),
                    nj@ == norm_seq(dv[j as int].name),
                    forall|k: int| 0 <= k < i ==> norm_seq(#[trigger] dv[k].name) != nj@,
                decreases j - i,
            {
                let ni = norm_of_string(&validators[i].name);
                if vec_char_eq(&ni, &nj) {
                    proof {
                        assert(dv[i as int] == validators@[i as int]@);
                        assert(norm_seq(dv[i as int].name) == norm_seq(dv[j as int].name));
                        assert(dv.take(j as int) =~= dv.take(j as int));
                        assert(first_duplicate(dv, j as int));
                    }
                    return Err(RegistryError::DuplicateName(validators[j].name.clone()));
                }
                i = i + 1;
            }
            proof {
                let jj = j as int;
                assert forall|a: int, b: int| 0 <= a < b < jj + 1 implies norm_seq(
                    #[trigger] dv.take(jj + 1)[a].name,
                ) != norm_seq(#[trigger] dv.take(jj + 1)[b].name) by {
                    assert(dv.take(jj + 1)[a] == dv[a]);
                    assert(dv.take(jj + 1)[b] == dv[b]);
                    if b < jj {
                        assert(dv.take(jj)[a] == dv[a]);
                        assert(dv.take(jj)[b] == dv[b]);
                    } else {
                        assert(norm_seq(dv[a].name) != nj@);
                    }
                }
            }
            j = j + 1;
        }
        proof {
            assert(dv.take(n as int) =~= dv);
        }
        Ok(ValidatorRegistry { validators })
    }

    /// All nodes, in the order their rows were accepted.
    pub fn validators(&self) -> (r: &Vec<Validator>)
        ensures
            r.deep_view() == self@,
    {
        &self.validators
    }

    pub fn is_empty(&self) -> (r: bool)
        ensures
            r == (self@.len() == 0),
    {
        self.validators.len() == 0
    }

    /// One summary per node, in order, carrying only name and location.
    pub fn summaries(&self) -> (r: Vec<ValidatorSummary>)
        ensures
            r@.len() == self@.len(),
            forall|i: int|
                0 <= i < self@.len() ==> (#[trigger] r@[i])@.name == self@[i].name
                    && r@[i]@.location == self@[i].location,
    {
        let n: usize = self.validators.len();
        let mut out: Vec<ValidatorSummary> = Vec::new();
        let mut i: usize = 0;
        while i < n
            invariant
                i <= n,
                n == self.validators@.len(),
                out@.len() == i,
                forall|k: int|
                    0 <= k < i ==> (#[trigger] out@[k])@.name == self@[k].name
                        && out@[k]@.location == self@[k].location,
            decreases n - i,
        {
            let s = self.validators[i].summary();
            proof {
                assert(self@[i as int] == self.validators@[i as int]@);
            }
            out.push(s);
            i = i + 1;
        }
        out
    }

    /// Exact lookup by name, through the shared normalization.
    pub fn get_by_name(&self, name: &str) -> (r: Option<Validator>)
        ensures
            r matches Some(v) ==> exists|i: int|
                0 <= i < self@.len() && #[trigger] self@[i] == v@ && norm_seq(v@.name) == norm_seq(
                    name@,
                ),
            r is None ==> forall|i: int|
                0 <= i < self@.len() ==> norm_seq(#[trigger] self@[i].name) != norm_seq(name@),
    {
        let key = norm_chars(&to_chars(name));
        let n: usize = self.validators.len();
        let mut i: usize = 0;
        while i < n
            invariant
                i <= n,
                n == self.validators@.len(),
                key@ == norm_seq(name@),
                forall|k: int| 0 <= k < i ==> norm_seq(#[trigger] self@[k].name) != norm_seq(name@),
            decreases n - i,
        {
            let ni = norm_of_string(&self.validators[i].name);
            if vec_char_eq(&ni, &key) {
                let v = self.validators[i].clone();
                proof {
                    assert(self@[i as int] == self.validators@[i as int]@);
                    assert(self@[i as int] == v@);
                    assert(norm_seq(v@.name) == norm_seq(name@));
                }
                return Some(v);
            }
            proof {
                assert(self@[i as int] == self.validators@[i as int]@);
            }
            i = i + 1;
        }
        None
    }

    /// A uniformly random node among those whose location normalizes to
    /// the given one; `None` exactly when the group is empty.
    pub fn random_in_location(&self, location: &str) -> (r: Option<Validator>)
        ensures
            r matches Some(v) ==> exists|i: int|
                0 <= i < self@.len() && #[trigger] self@[i] == v@ && norm_seq(v@.location)
                    == norm_seq(location@),
            r is None <==> forall|i: int|
                0 <= i < self@.len() ==> norm_seq(#[trigger] self@[i].location) != norm_seq(
                    location@,
                ),
    {
        let key = norm_chars(&to_chars(location));
        let n: usize = self.validators.len();
        let mut matches_idx: Vec<usize> = Vec::new();
        let mut i: usize = 0;
        while i < n
            invariant
                i <= n,
                n == self.validators@.len(),
                key@ == norm_seq(location@),
                forall|k: int|
                    0 <= k < matches_idx@.len() ==> #[trigger] matches_idx@[k] < i && norm_seq(
                        self@[matches_idx@[k] as int].location,
                    ) == norm_seq(location@),
                matches_idx@.len() == 0 ==> forall|k: int|
                    0 <= k < i ==> norm_seq(#[trigger] self@[k].location) != norm_seq(location@),
            decreases n - i,
        {
            let li = norm_of_string(&self.validators[i].location);
            proof {
                assert(self@[i as int] == self.validators@[i as int]@);
            }
            if vec_char_eq(&li, &key) {
                matches_idx.push(i);
            }
            i = i + 1;
        }
        if matches_idx.len() == 0 {
            return None;
        }
        let pick = random_below(matches_idx.len());
        let idx = matches_idx[pick];
        let v = self.validators[idx].clone();
        proof {
            assert(self@[idx as int] == self.validators@[idx as int]@);
            assert(v@ == self@[idx as int]);
        }
        Some(v)
    }

    /// A uniformly random node of the whole registry; `None` only on an
    /// empty one.
    pub fn random(&self) -> (r: Option<Validator>)
        ensures
            self@.len() == 0 ==> r is None,
            self@.len() > 0 ==> (r matches Some(v) && exists|i: int|
                0 <= i < self@.len() && #[trigger] self@[i] == v@),
    {
        let n: usize = self.validators.len();
        if n == 0 {
            return None;
        }
        let pick = random_below(n);
        let v = self.validators[pick].clone();
        proof {
            assert(self@[pick as int] == self.validators@[pick as int]@);
            assert(v@ == self@[pick as int]);
        }
        Some(v)
    }

    /// The selection policy: an explicit non-blank name must match
    /// exactly (the location hint is then ignored); otherwise a non-blank
    /// location picks at random within its group; otherwise any node.
    pub fn select(&self, name: Option<&str>, location: Option<&str>) -> (r: Result<
        Validator,
        SelectionError,
    >)
        requires
            self.wf(),
        ensures
            hint_given(name) ==> match r {
                Ok(v) => exists|i: int|
                    0 <= i < self@.len() && #[trigger] self@[i] == v@ && norm_seq(v@.name)
                        == norm_seq(name->Some_0@),
                Err(e) => {
                    &&& e matches SelectionError::UnknownValidator(m)
                    &&& m@ == trim_seq(name->Some_0@)
                    &&& forall|i: int|
                        0 <= i < self@.len() ==> norm_seq(#[trigger] self@[i].name) != norm_seq(
                            name->Some_0@,
                        )
                },
            },
            !hint_given(name) && hint_given(location) ==> match r {
                Ok(v) => exists|i: int|
                    0 <= i < self@.len() && #[trigger] self@[i] == v@ && norm_seq(v@.location)
                        == norm_seq(location->Some_0@),
                Err(e) => {
                    &&& e matches SelectionError::UnknownLocation(m)
                    &&& m@ == trim_seq(location->Some_0@)
                    &&& forall|i: int|
                        0 <= i < self@.len() ==> norm_seq(#[trigger] self@[i].location) != norm_seq(
                            location->Some_0@,
                        )
                },
            },
            !hint_given(name) && !hint_given(location) ==> (r matches Ok(v) && exists|i: int|
                0 <= i < self@.len() && #[trigger] self@[i] == v@),
    {
        let name_t: Option<Vec<char>> = match name {
            Some(s) => {
                let t = trim_chars(&to_chars(s));
                if t.len() > 0 {
                    Some(t)
                } else {
                    None
                }
            },
            None => None,
        };
        match name_t {
            Some(t) => {
                proof {
                    lemma_trim_idempotent(name->Some_0@);
                }
                let ts = chars_to_string(&t);
                match self.get_by_name(ts.as_str()) {
                    Some(v) => Ok(v),
                    None => Err(SelectionError::UnknownValidator(ts)),
                }
            },
            None => {
                let loc_t: Option<Vec<char>> = match location {
                    Some(s) => {
                        let t = trim_chars(&to_chars(s));
                        if t.len() > 0 {
                            Some(t)
                        } else {
                            None
                        }
                    },
                    None => None,
                };
                match loc_t {
                    Some(t) => {
                        proof {
                            lemma_trim_idempotent(location->Some_0@);
                        }
                        let ts = chars_to_string(&t);
                        match self.random_in_location(ts.as_str()) {
                            Some(v) => Ok(v),
                            None => Err(SelectionError::UnknownLocation(ts)),
                        }
                    },
                    None => {
                        match self.random() {
                            Some(v) => Ok(v),
                            None => Err(SelectionError::Empty),
                        }
                    },
                }
            },
        }
    }
}

/// A registry that satisfies its invariant holds at least one node: a
/// registry is never constructed empty.
pub proof fn lemma_registry_never_empty(reg: ValidatorRegistry)
    requires
        reg.wf(),
    ensures
        reg@.len() > 0,
{
}

/// Lookup by name is deterministic: under the registry invariant, any
/// two nodes of the registry whose names normalize to the same key are
/// the same node.
pub proof fn lemma_name_match_unique(
    reg: ValidatorRegistry,
    v1: ValidatorView,
    v2: ValidatorView,
    key: Seq<char>,
)
    requires
        reg.wf(),
        exists|i: int| 0 <= i < reg@.len() && #[trigger] reg@[i] == v1,
        exists|i: int| 0 <= i < reg@.len() && #[trigger] reg@[i] == v2,
        norm_seq(v1.name) == norm_seq(key),
        norm_seq(v2.name) == norm_seq(key),
    ensures
        v1 == v2,
{
    let i1 = choose|i: int| 0 <= i < reg@.len() && #[trigger] reg@[i] == v1;
    let i2 = choose|i: int| 0 <= i < reg@.len() && #[trigger] reg@[i] == v2;
    if i1 < i2 {
        assert(norm_seq(reg@[i1].name) != norm_seq(reg@[i2].name));
        assert(false);
    } else if i2 < i1 {
        assert(norm_seq(reg@[i2].name) != norm_seq(reg@[i1].name));
        assert(false);
    }
}

/// How many data rows a parsed table holds.
pub open spec fn data_count(t: Seq<Seq<Seq<char>>>) -> int {
    if t.len() == 0 {
        0
    } else {
        t.len() - 1
    }
}

/// The raw record of the `k`-th data row, read against the header row.
pub open spec fn raw_at(t: Seq<Seq<Seq<char>>>, k: int) -> RawRecordView {
    raw_of(t[0], t[k + 1])
}

/// Whether the `k`-th data row loads: its port field parses and the
/// endpoint builder accepts it.
pub open spec fn row_good(t: Seq<Seq<Seq<char>>>, k: int) -> bool {
    port_field_ok(t[0], t[k + 1]) && accepts(raw_at(t, k))
}

pub open spec fn rows_good(t: Seq<Seq<Seq<char>>>) -> bool {
    forall|k: int| 0 <= k < data_count(t) ==> #[trigger] row_good(t, k)
}

/// The node the `k`-th data row yields.
pub open spec fn built_at(t: Seq<Seq<Seq<char>>>, k: int) -> ValidatorView {
    built_validator(raw_at(t, k), k + 1)
}

/// The nodes of all data rows, in order.
pub open spec fn built_seq(t: Seq<Seq<Seq<char>>>) -> Seq<ValidatorView> {
    Seq::new(data_count(t) as nat, |k: int| built_at(t, k))
}

impl ValidatorRegistry {
    /// Build the registry from parsed rows: the first row is the header,
    /// every later row must yield a node, and the whole set must pass the
    /// registry invariant. The first bad row aborts with its 1-based
    /// source row number (the header is row 1).
    pub fn from_rows(rows: &Vec<Vec<String>>) -> (r: Result<ValidatorRegistry, RegistryError>)
        ensures
            r is Ok <==> data_count(rows.deep_view()) > 0 && rows_good(rows.deep_view())
                && names_distinct(built_seq(rows.deep_view())),
            r matches Ok(reg) ==> reg@ == built_seq(rows.deep_view()) && reg.wf(),
            r matches Err(e) ==> match e {
                RegistryError::Empty => rows_good(rows.deep_view()) && data_count(rows.deep_view())
                    == 0,
                RegistryError::InvalidRecord(rn, msg) => 2 <= rn && rn - 2 < data_count(
                    rows.deep_view(),
                ) && !row_good(rows.deep_view(), rn - 2) && (forall|k: int|
                    0 <= k < rn - 2 ==> #[trigger] row_good(rows.deep_view(), k)) && (msg@
                    == "invalid port value"@ || reject_reason_matches(
                    raw_at(rows.deep_view(), rn - 2),
                    msg@,
                )),
                RegistryError::DuplicateName(nm) => rows_good(rows.deep_view()) && exists|j: int|
                    #[trigger] first_duplicate(built_seq(rows.deep_view()), j) && nm@ == built_seq(
                        rows.deep_view(),
                    )[j].name,
                _ => false,
            },
    {
        let ghost t = rows.deep_view();
        let mut validators: Vec<Validator> = Vec::new();
        let total: usize = rows.len();
        if total > 0 {
            let mut k: usize = 0;
            while k + 1 < total
                invariant
                    k + 1 <= total,
                    total == rows@.len(),
                    t == rows.deep_view(),
                    t.len() == total,
                    validators.deep_view() =~= built_seq(t).take(k as int),
                    validators@.len() == k,
                    forall|c: int| 0 <= c < k ==> #[trigger] row_good(t, c),
                decreases total - k,
            {
                let header = &rows[0];
                let row = &rows[k + 1];
                proof {
                    assert(header.deep_view() == t[0]);
                    assert(row.deep_view() == t[k + 1]);
                }
                let rec = match record_from_row(header, row) {
                    Ok(rec) => rec,
                    Err(m) => {
                        proof {
                            assert(!port_field_ok(t[0], t[k as int + 1]));
                            assert(!row_good(t, k as int));
                            assert(!rows_good(t));
                        }
                        return Err(RegistryError::InvalidRecord(k + 2, m));
                    },
                };
                proof {
                    assert(rec@ == raw_at(t, k as int));
                }
                let v = match Validator::try_from_record(rec, k + 2, k + 1) {
                    Ok(v) => v,
                    Err(e) => {
                        proof {
                            assert(!accepts(raw_at(t, k as int)));
                            assert(!row_good(t, k as int));
                            assert(!rows_good(t));
                        }
                        return Err(e);
                    },
                };
                proof {
                    assert(v@ == built_at(t, k as int));
                }
                validators.push(v);
                proof {
                    assert(validators.deep_view() =~= built_seq(t).take(k + 1));
                }
                k = k + 1;
            }
            proof {
                assert(validators.deep_view() =~= built_seq(t));
            }
        } else {
            proof {
                assert(validators.deep_view() =~= built_seq(t));
            }
        }
        ValidatorRegistry::new(validators)
    }

    /// Load the registry from the text of a configuration table.
    pub fn from_csv_text(text: &str) -> (r: Result<ValidatorRegistry, RegistryError>)
        ensures
            !csv_ok(text@) <==> (r matches Err(RegistryError::Csv(_))),
            csv_ok(text@) ==> {
                let t = csv_rows_of(text@);
                &&& (r is Ok <==> data_count(t) > 0 && rows_good(t) && names_distinct(built_seq(t)))
                &&& (r matches Ok(reg) ==> reg@ == built_seq(t) && reg.wf())
                &&& (r matches Err(e) ==> match e {
                    RegistryError::Empty => rows_good(t) && data_count(t) == 0,
                    RegistryError::InvalidRecord(rn, msg) => 2 <= rn && rn - 2 < data_count(t)
                        && !row_good(t, rn - 2) && (forall|k: int|
                        0 <= k < rn - 2 ==> #[trigger] row_good(t, k)) && (msg@
                        == "invalid port value"@ || reject_reason_matches(raw_at(t, rn - 2), msg@)),
                    RegistryError::DuplicateName(nm) => rows_good(t) && exists|j: int|
                        #[trigger] first_duplicate(built_seq(t), j) && nm@ == built_seq(t)[j].name,
                    _ => false,
                })
            },
    {
        match parse_csv_rows(text) {
            Err(m) => Err(RegistryError::Csv(m)),
            Ok(rows) => ValidatorRegistry::from_rows(&rows),
        }
    }
}

} // verus!
