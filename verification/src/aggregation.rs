//! Grouped aggregation over event data: validation of JSONB paths and the
//! construction of the parameterised SQL query.
use vstd::prelude::*;

use crate::error::{invalid, AppError, ErrorKind};
use vstd::utf8::is_ascii_chars;

use crate::text::{
    ascii_upper, decimal_text, has_prefix, int_decimal, occurs, occurs_in, same_text, split_on, split_spec,
    str_to_uppercase, strip_prefixes, to_upper_text, trim, trim_spec, trim_start_matches,
};

verus! {

/// Query parameters of an aggregation request.
#[derive(Debug)]
pub struct AggregationParams {
    pub group_by: String,
    pub agg_fn: AggregationFunction,
    pub value_path: Option<String>,
    pub contract_id: Option<String>,
    pub contract_ids: Option<String>,
    pub from_ledger: Option<i64>,
    pub to_ledger: Option<i64>,
    pub limit: Option<i64>,
}

/// The aggregate computed for each group.
#[derive(Clone, Copy, Debug, PartialEq, Eq, Structural)]
pub enum AggregationFunction {
    Count,
    Sum,
    Avg,
    Min,
    Max,
}

/// A value bound to a numbered placeholder of the query.
#[derive(Debug)]
pub enum BindValue {
    String(String),
    I64(i64),
}

/// A bound value as a mathematical value.
pub enum BindSpec {
    Text(Seq<char>),
    Int(i64),
}

impl DeepView for BindValue {
    type V = BindSpec;

    open spec fn deep_view(&self) -> BindSpec {
        match self {
            BindValue::String(s) => BindSpec::Text(s@),
            BindValue::I64(i) => BindSpec::Int(*i),
        }
    }
}

/// Upper bound on the number of groups a query returns.
pub const MAX_AGGREGATION_GROUPS: i64 = 1000;

/// Upper bound on the number of ids in `contract_ids`.
pub const MAX_CONTRACT_IDS: usize = 20;

// ---------------------------------------------------------------------------
// JSONB path validation
// ---------------------------------------------------------------------------

/// The JSONB paths that may be grouped or aggregated by.
pub open spec fn allowed_paths() -> Seq<Seq<char>> {
    seq!["$.token"@, "$.amount"@, "$.from"@, "$.to"@, "$.topic"@, "$.type"@, "$.status"@]
}

/// Text blocks that a path may not contain, in the order they are checked.
pub open spec fn forbidden_patterns() -> Seq<Seq<char>> {
    seq!["--"@, "/*"@, "*/"@, ";"@, "DROP"@, "DELETE"@, "UPDATE"@, "INSERT"@]
}

/// The allowlist as it is quoted in an error message.
pub open spec fn allowed_paths_text() -> Seq<char> {
    "[\"$.token\", \"$.amount\", \"$.from\", \"$.to\", \"$.topic\", \"$.type\", \"$.status\"]"@
}

/// Index of the first forbidden pattern that occurs in `upper`, from `from` on.
pub open spec fn first_forbidden_from(upper: Seq<char>, from: int) -> Option<int>
    decreases forbidden_patterns().len() - from,
{
    if from < 0 || from >= forbidden_patterns().len() {
        None
    } else if occurs_in(upper, forbidden_patterns()[from]) {
        Some(from)
    } else {
        first_forbidden_from(upper, from + 1)
    }
}

/// Outcome of the forbidden-pattern check on the upper-cased path.
pub open spec fn forbidden_check(upper: Seq<char>) -> Result<(), (ErrorKind, Seq<char>)> {
    match first_forbidden_from(upper, 0) {
        Some(k) => Err(
            invalid("JSONB path contains forbidden pattern: "@ + forbidden_patterns()[k]),
        ),
        None => Ok(()),
    }
}

/// Outcome of validating a JSONB path.
pub open spec fn jsonb_path_check(path: Seq<char>) -> Result<(), (ErrorKind, Seq<char>)> {
    if !("$."@.is_prefix_of(path)) {
        Err(invalid("JSONB path must start with '$.'"@))
    } else if !allowed_paths().contains(path) {
        Err(
            invalid(
                "JSONB path '"@ + path + "' is not allowed. Allowed paths: "@
                    + allowed_paths_text(),
            ),
        )
    } else {
        forbidden_check(str_to_uppercase(path))
    }
}

/// The outcome of a check, with the error as its class and message.
pub open spec fn unit_outcome(r: Result<(), AppError>) -> Result<(), (ErrorKind, Seq<char>)> {
    match r {
        Ok(()) => Ok(()),
        Err(e) => Err(e.spec_parts()),
    }
}

fn allowed_path(i: usize) -> (p: &'static str)
    requires
        i < 7,
    ensures
        p@ == allowed_paths()[i as int],
{
    if i == 0 {
        "$.token"
    } else if i == 1 {
        "$.amount"
    } else if i == 2 {
        "$.from"
    } else if i == 3 {
        "$.to"
    } else if i == 4 {
        "$.topic"
    } else if i == 5 {
        "$.type"
    } else {
        "$.status"
    }
}

fn forbidden_pattern(i: usize) -> (p: &'static str)
    requires
        i < 8,
    ensures
        p@ == forbidden_patterns()[i as int],
{
    if i == 0 {
        "--"
    } else if i == 1 {
        "/*"
    } else if i == 2 {
        "*/"
    } else if i == 3 {
        ";"
    } else if i == 4 {
        "DROP"
    } else if i == 5 {
        "DELETE"
    } else if i == 6 {
        "UPDATE"
    } else {
        "INSERT"
    }
}

/// Lemma: if no character of `s` is the first of `pat`, `pat` does not occur in `s`.
proof fn lemma_absent_lead(s: Seq<char>, pat: Seq<char>)
    requires
        pat.len() > 0,
        forall|i: int| 0 <= i < s.len() ==> s[i] != pat[0],
    ensures
        !occurs_in(s, pat),
{
    if occurs_in(s, pat) {
        let i = choose|i: int|
            0 <= i && i + pat.len() <= s.len() && #[trigger] s.subrange(i, i + pat.len()) == pat;
        assert(s.subrange(i, i + pat.len())[0] == s[i]);
    }
}

/// Lemma: if the first two characters of `pat` never stand side by side in
/// `s`, `pat` does not occur in `s`.
proof fn lemma_absent_pair(s: Seq<char>, pat: Seq<char>)
    requires
        pat.len() > 1,
        forall|i: int| 0 <= i < s.len() - 1 ==> !(#[trigger] s[i] == pat[0] && s[i + 1] == pat[1]),
    ensures
        !occurs_in(s, pat),
{
    if occurs_in(s, pat) {
        let i = choose|i: int|
            0 <= i && i + pat.len() <= s.len() && #[trigger] s.subrange(i, i + pat.len()) == pat;
        assert(s.subrange(i, i + pat.len())[0] == s[i]);
        assert(s.subrange(i, i + pat.len())[1] == s[i + 1]);
    }
}

/// Lemma: no forbidden pattern occurs in the upper case of an allowed path.
proof fn lemma_clean_upper(u: Seq<char>)
    requires
        forall|i: int| 0 <= i < u.len() ==> {
            let c = #[trigger] u[i];
            c != '-' && c != '/' && c != '*' && c != ';' && c != 'D'
        },
        forall|i: int| 0 <= i < u.len() - 1 ==> !(#[trigger] u[i] == 'U' && u[i + 1] == 'P'),
        forall|i: int| 0 <= i < u.len() - 1 ==> !(#[trigger] u[i] == 'I' && u[i + 1] == 'N'),
    ensures
        first_forbidden_from(u, 0) is None,
{
    reveal_strlit("--");
    reveal_strlit("/*");
    reveal_strlit("*/");
    reveal_strlit(";");
    reveal_strlit("DROP");
    reveal_strlit("DELETE");
    reveal_strlit("UPDATE");
    reveal_strlit("INSERT");
    lemma_absent_lead(u, forbidden_patterns()[0]);
    lemma_absent_lead(u, forbidden_patterns()[1]);
    lemma_absent_lead(u, forbidden_patterns()[2]);
    lemma_absent_lead(u, forbidden_patterns()[3]);
    lemma_absent_lead(u, forbidden_patterns()[4]);
    lemma_absent_lead(u, forbidden_patterns()[5]);
    lemma_absent_pair(u, forbidden_patterns()[6]);
    lemma_absent_pair(u, forbidden_patterns()[7]);
    assert(first_forbidden_from(u, 8) is None);
    assert(first_forbidden_from(u, 7) is None);
    assert(first_forbidden_from(u, 6) is None);
    assert(first_forbidden_from(u, 5) is None);
    assert(first_forbidden_from(u, 4) is None);
    assert(first_forbidden_from(u, 3) is None);
    assert(first_forbidden_from(u, 2) is None);
    assert(first_forbidden_from(u, 1) is None);
}

/// Lemma: every allowed path is ASCII, and its ASCII upper case holds no
/// forbidden pattern.
proof fn lemma_allowed_path_clean(p: Seq<char>)
    requires
        allowed_paths().contains(p),
    ensures
        is_ascii_chars(p),
        first_forbidden_from(ascii_upper(p), 0) is None,
{
    reveal_strlit("$.token");
    reveal_strlit("$.amount");
    reveal_strlit("$.from");
    reveal_strlit("$.to");
    reveal_strlit("$.topic");
    reveal_strlit("$.type");
    reveal_strlit("$.status");
    let k = choose|k: int| 0 <= k < allowed_paths().len() && allowed_paths()[k] == p;
    let u = ascii_upper(p);
    if k == 0 {
        assert(p =~= seq!['$', '.', 't', 'o', 'k', 'e', 'n']);
        assert(u =~= seq!['$', '.', 'T', 'O', 'K', 'E', 'N']);
    } else if k == 1 {
        assert(p =~= seq!['$', '.', 'a', 'm', 'o', 'u', 'n', 't']);
        assert(u =~= seq!['$', '.', 'A', 'M', 'O', 'U', 'N', 'T']);
    } else if k == 2 {
        assert(p =~= seq!['$', '.', 'f', 'r', 'o', 'm']);
        assert(u =~= seq!['$', '.', 'F', 'R', 'O', 'M']);
    } else if k == 3 {
        assert(p =~= seq!['$', '.', 't', 'o']);
        assert(u =~= seq!['$', '.', 'T', 'O']);
    } else if k == 4 {
        assert(p =~= seq!['$', '.', 't', 'o', 'p', 'i', 'c']);
        assert(u =~= seq!['$', '.', 'T', 'O', 'P', 'I', 'C']);
    } else if k == 5 {
        assert(p =~= seq!['$', '.', 't', 'y', 'p', 'e']);
        assert(u =~= seq!['$', '.', 'T', 'Y', 'P', 'E']);
    } else {
        assert(p =~= seq!['$', '.', 's', 't', 'a', 't', 'u', 's']);
        assert(u =~= seq!['$', '.', 'S', 'T', 'A', 'T', 'U', 'S']);
    }
    lemma_clean_upper(u);
}

/// Law: the allowlist holds exactly the seven paths, and each starts with `$.`.
pub proof fn lemma_allowlist_members(p: Seq<char>)
    ensures
        allowed_paths().contains(p) <==> (p == "$.token"@ || p == "$.amount"@ || p == "$.from"@
            || p == "$.to"@ || p == "$.topic"@ || p == "$.type"@ || p == "$.status"@),
        allowed_paths().contains(p) ==> "$."@.is_prefix_of(p),
{
    let a = allowed_paths();
    assert(a[0] == "$.token"@);
    assert(a[1] == "$.amount"@);
    assert(a[2] == "$.from"@);
    assert(a[3] == "$.to"@);
    assert(a[4] == "$.topic"@);
    assert(a[5] == "$.type"@);
    assert(a[6] == "$.status"@);
    if allowed_paths().contains(p) {
        reveal_strlit("$.");
        reveal_strlit("$.token");
        reveal_strlit("$.amount");
        reveal_strlit("$.from");
        reveal_strlit("$.to");
        reveal_strlit("$.topic");
        reveal_strlit("$.type");
        reveal_strlit("$.status");
        let k = choose|k: int| 0 <= k < a.len() && a[k] == p;
        assert("$."@.is_prefix_of(p)) by {
            assert(p.subrange(0, 2) =~= "$."@);
        }
    }
}

/// Rejects an upper-cased path that contains one of the forbidden patterns,
/// naming the first that occurs.
pub fn check_forbidden_patterns(upper: &str) -> (res: Result<(), AppError>)
    ensures
        unit_outcome(res) == forbidden_check(upper@),
{
    let mut i: usize = 0;
    while i < 8
        invariant
            i <= 8,
            first_forbidden_from(upper@, 0) == first_forbidden_from(upper@, i as int),
        decreases 8 - i,
    {
        let pat = forbidden_pattern(i);
        if occurs(upper, pat) {
            let mut msg = "JSONB path contains forbidden pattern: ".to_owned();
            msg.append(pat);
            return Err(AppError::Validation(msg));
        }
        i = i + 1;
    }
    Ok(())
}

/// Checks that `path` starts with `$.`, is on the allowlist, and, upper-cased,
/// holds none of the forbidden patterns.
pub fn validate_jsonb_path(path: &str) -> (res: Result<(), AppError>)
    ensures
        unit_outcome(res) == jsonb_path_check(path@),
        "$."@.is_prefix_of(path@) && allowed_paths().contains(path@) ==> res is Ok,
        res is Ok <==> (path@ == "$.token"@ || path@ == "$.amount"@ || path@ == "$.from"@
            || path@ == "$.to"@ || path@ == "$.topic"@ || path@ == "$.type"@ || path@
            == "$.status"@),
{
    proof {
        lemma_allowlist_members(path@);
    }
    if !has_prefix(path, "$.") {
        return Err(AppError::Validation("JSONB path must start with '$.'".to_owned()));
    }
    let mut allowed = false;
    let mut i: usize = 0;
    while i < 7
        invariant
            i <= 7,
            allowed == exists|j: int| 0 <= j < i && allowed_paths()[j] == path@,
        decreases 7 - i,
    {
        if same_text(path, allowed_path(i)) {
            allowed = true;
        }
        i = i + 1;
    }
    assert(allowed == allowed_paths().contains(path@));
    if !allowed {
        let mut msg = "JSONB path '".to_owned();
        msg.append(path);
        msg.append("' is not allowed. Allowed paths: ");
        msg.append(
            "[\"$.token\", \"$.amount\", \"$.from\", \"$.to\", \"$.topic\", \"$.type\", \"$.status\"]",
        );
        return Err(AppError::Validation(msg));
    }
    let upper = to_upper_text(path);
    proof {
        lemma_allowed_path_clean(path@);
    }
    check_forbidden_patterns(upper.as_str())
}

// ---------------------------------------------------------------------------
// Query construction
// ---------------------------------------------------------------------------

/// The JSONB key that a path names: the path without its leading `$.`s.
pub open spec fn json_key(path: Seq<char>) -> Seq<char> {
    strip_prefixes(path, "$."@)
}

/// The text of an optional string.
pub open spec fn opt_text(o: Option<String>) -> Option<Seq<char>> {
    match o {
        Some(s) => Some(s@),
        None => None,
    }
}

/// The select expression of an aggregate over the value at `value_path`,
/// opened by `head`; without a value path the error `missing`.
pub open spec fn value_aggregate(
    head: Seq<char>,
    value_path: Option<Seq<char>>,
    missing: Seq<char>,
) -> Result<Seq<char>, (ErrorKind, Seq<char>)> {
    match value_path {
        None => Err(invalid(missing)),
        Some(v) => Ok(head + json_key(v) + "')::numeric) as agg_result"@),
    }
}

/// The select expression that computes the aggregate.
pub open spec fn aggregate_expression_spec(
    f: AggregationFunction,
    value_path: Option<Seq<char>>,
) -> Result<Seq<char>, (ErrorKind, Seq<char>)> {
    match f {
        AggregationFunction::Count => Ok("COUNT(*) as agg_result"@),
        AggregationFunction::Sum => value_aggregate(
            "SUM((event_data->>'"@,
            value_path,
            "value_path required for sum aggregation"@,
        ),
        AggregationFunction::Avg => value_aggregate(
            "AVG((event_data->>'"@,
            value_path,
            "value_path required for avg aggregation"@,
        ),
        AggregationFunction::Min => value_aggregate(
            "MIN((event_data->>'"@,
            value_path,
            "value_path required for min aggregation"@,
        ),
        AggregationFunction::Max => value_aggregate(
            "MAX((event_data->>'"@,
            value_path,
            "value_path required for max aggregation"@,
        ),
    }
}

/// The contract ids of a comma-separated list, each without surrounding
/// white space.
pub open spec fn id_list(s: Seq<char>) -> Seq<Seq<char>> {
    split_spec(s, ',').map_values(|x: Seq<char>| trim_spec(x))
}

/// The placeholder `$i`.
pub open spec fn placeholder(i: int) -> Seq<char> {
    "$"@ + int_decimal(i)
}

/// The placeholders `$start`, ..., `$(start + n - 1)` separated by `, `.
pub open spec fn placeholder_list(start: int, n: nat) -> Seq<char>
    decreases n,
{
    if n == 0 {
        Seq::<char>::empty()
    } else if n == 1 {
        placeholder(start)
    } else {
        placeholder_list(start, (n - 1) as nat) + ", "@ + placeholder(start + n - 1)
    }
}

/// The LIMIT of the query: the requested one (100 by default), at most
/// `MAX_AGGREGATION_GROUPS`.
pub open spec fn effective_limit(limit: Option<i64>) -> i64 {
    let l = match limit {
        Some(l) => l,
        None => 100,
    };
    if l <= MAX_AGGREGATION_GROUPS {
        l
    } else {
        MAX_AGGREGATION_GROUPS
    }
}

/// A filter: its text, the values it binds, and the next free placeholder.
pub open spec fn contract_id_filter(c: Option<String>, idx: int) -> (
    Seq<char>,
    Seq<BindSpec>,
    int,
) {
    match c {
        Some(c) => (" AND contract_id = $"@ + int_decimal(idx), seq![BindSpec::Text(c@)], idx + 1),
        None => (Seq::<char>::empty(), Seq::<BindSpec>::empty(), idx),
    }
}

/// The filter on a list of contract ids.
pub open spec fn contract_ids_filter(ids: Option<Seq<Seq<char>>>, idx: int) -> (
    Seq<char>,
    Seq<BindSpec>,
    int,
) {
    match ids {
        Some(ids) => (
            " AND contract_id IN ("@ + placeholder_list(idx, ids.len()) + ")"@,
            ids.map_values(|x: Seq<char>| BindSpec::Text(x)),
            idx + ids.len(),
        ),
        None => (Seq::<char>::empty(), Seq::<BindSpec>::empty(), idx),
    }
}

/// A filter on the ledger, opened by `op`.
pub open spec fn ledger_filter(op: Seq<char>, v: Option<i64>, idx: int) -> (
    Seq<char>,
    Seq<BindSpec>,
    int,
) {
    match v {
        Some(v) => (op + int_decimal(idx), seq![BindSpec::Int(v)], idx + 1),
        None => (Seq::<char>::empty(), Seq::<BindSpec>::empty(), idx),
    }
}

/// The contract ids that `contract_ids` lists, if it is given.
pub open spec fn requested_ids(p: AggregationParams) -> Option<Seq<Seq<char>>> {
    match p.contract_ids {
        Some(s) => Some(id_list(s@)),
        None => None,
    }
}

/// The query for `p` and the values bound to its placeholders, or the error
/// that refuses `p`.
pub open spec fn aggregation_query_spec(p: AggregationParams) -> Result<
    (Seq<char>, Seq<BindSpec>),
    (ErrorKind, Seq<char>),
> {
    match aggregate_expression_spec(p.agg_fn, opt_text(p.value_path)) {
        Err(e) => Err(e),
        Ok(select) => {
            let ids = requested_ids(p);
            if ids is Some && ids->0.len() > MAX_CONTRACT_IDS {
                Err(invalid("Maximum 20 contract IDs allowed"@))
            } else {
                let key = json_key(p.group_by@);
                let f1 = contract_id_filter(p.contract_id, 1);
                let f2 = contract_ids_filter(ids, f1.2);
                let f3 = ledger_filter(" AND ledger >= $"@, p.from_ledger, f2.2);
                let f4 = ledger_filter(" AND ledger <= $"@, p.to_ledger, f3.2);
                Ok(
                    (
                        "SELECT "@ + "event_data->'"@ + key + "' as group_value, "@ + select
                            + " FROM events WHERE 1=1"@ + f1.0 + f2.0 + f3.0 + f4.0
                            + " GROUP BY event_data->'"@ + key
                            + "' ORDER BY agg_result DESC"@ + " LIMIT "@ + int_decimal(
                            effective_limit(p.limit) as int,
                        ),
                        f1.1 + f2.1 + f3.1 + f4.1,
                    ),
                )
            }
        },
    }
}

/// The outcome of building a query, as mathematical values.
pub open spec fn query_outcome(r: Result<(String, Vec<BindValue>), AppError>) -> Result<
    (Seq<char>, Seq<BindSpec>),
    (ErrorKind, Seq<char>),
> {
    match r {
        Ok((q, b)) => Ok((q@, b.deep_view())),
        Err(e) => Err(e.spec_parts()),
    }
}

/// The outcome of building a text, as mathematical values.
pub open spec fn text_outcome(r: Result<String, AppError>) -> Result<
    Seq<char>,
    (ErrorKind, Seq<char>),
> {
    match r {
        Ok(s) => Ok(s@),
        Err(e) => Err(e.spec_parts()),
    }
}

/// The JSONB key that `path` names.
fn json_key_of(path: &str) -> (k: &str)
    ensures
        k@ == json_key(path@),
{
    proof {
        reveal_strlit("$.");
    }
    trim_start_matches(path, "$.")
}

fn value_aggregate_text(head: &str, value_path: &Option<String>, missing: &str) -> (res: Result<
    String,
    AppError,
>)
    ensures
        text_outcome(res) == value_aggregate(head@, opt_text(*value_path), missing@),
{
    match value_path {
        None => Err(AppError::Validation(missing.to_owned())),
        Some(v) => {
            let mut s = head.to_owned();
            s.append(json_key_of(v.as_str()));
            s.append("')::numeric) as agg_result");
            Ok(s)
        },
    }
}

/// The select expression that computes the aggregate.
fn aggregate_expression(f: AggregationFunction, value_path: &Option<String>) -> (res: Result<
    String,
    AppError,
>)
    ensures
        text_outcome(res) == aggregate_expression_spec(f, opt_text(*value_path)),
        f == AggregationFunction::Count ==> (res matches Ok(e) && e@ == "COUNT(*) as agg_result"@),
{
    match f {
        AggregationFunction::Count => Ok("COUNT(*) as agg_result".to_owned()),
        AggregationFunction::Sum => value_aggregate_text(
            "SUM((event_data->>'",
            value_path,
            "value_path required for sum aggregation",
        ),
        AggregationFunction::Avg => value_aggregate_text(
            "AVG((event_data->>'",
            value_path,
            "value_path required for avg aggregation",
        ),
        AggregationFunction::Min => value_aggregate_text(
            "MIN((event_data->>'",
            value_path,
            "value_path required for min aggregation",
        ),
        AggregationFunction::Max => value_aggregate_text(
            "MAX((event_data->>'",
            value_path,
            "value_path required for max aggregation",
        ),
    }
}

/// The contract ids of a comma-separated list, trimmed.
fn contract_id_list(s: &str) -> (ids: Vec<String>)
    ensures
        ids.deep_view() == id_list(s@),
{
    let pieces = split_on(s, ',');
    let mut ids: Vec<String> = Vec::new();
    let mut i: usize = 0;
    while i < pieces.len()
        invariant
            i <= pieces@.len(),
            pieces.deep_view() == split_spec(s@, ','),
            ids.deep_view() =~= pieces.deep_view().take(i as int).map_values(
                |x: Seq<char>| trim_spec(x),
            ),
        decreases pieces@.len() - i,
    {
        let id = trim(pieces[i].as_str()).to_owned();
        let ghost before = ids.deep_view();
        ids.push(id);
        assert(ids.deep_view() =~= before.push(trim_spec(pieces.deep_view()[i as int])));
        assert(pieces.deep_view().take(i + 1) =~= pieces.deep_view().take(i as int).push(
            pieces.deep_view()[i as int],
        ));
        i = i + 1;
    }
    assert(pieces.deep_view().take(i as int) =~= pieces.deep_view());
    ids
}

/// The placeholders `$start`, ..., `$(start + n - 1)` separated by `, `.
fn placeholder_list_text(start: usize, n: usize) -> (s: String)
    requires
        start + n <= 1000,
    ensures
        s@ == placeholder_list(start as int, n as nat),
{
    let mut s = String::new();
    let mut i: usize = 0;
    while i < n
        invariant
            start + n <= 1000,
            i <= n,
            s@ == placeholder_list(start as int, i as nat),
        decreases n - i,
    {
        let ghost before = s@;
        if i > 0 {
            s.append(", ");
        }
        s.append("$");
        let d = decimal_text((start + i) as i64);
        s.append(d.as_str());
        if i > 0 {
            assert(s@ =~= before + ", "@ + placeholder(start + i));
        } else {
            assert(s@ =~= placeholder(start as int));
        }
        i = i + 1;
    }
    s
}

/// Appends the filter on a single contract id.
fn push_contract_id_filter(
    query: &mut String,
    binds: &mut Vec<BindValue>,
    contract_id: &Option<String>,
    idx: usize,
) -> (next: usize)
    requires
        idx <= 100,
    ensures
        final(query)@ == old(query)@ + contract_id_filter(*contract_id, idx as int).0,
        final(binds).deep_view() == old(binds).deep_view() + contract_id_filter(
            *contract_id,
            idx as int,
        ).1,
        next == contract_id_filter(*contract_id, idx as int).2,
{
    let ghost q0 = query@;
    let ghost b0 = binds.deep_view();
    match contract_id {
        Some(c) => {
            query.append(" AND contract_id = $");
            let d = decimal_text(idx as i64);
            query.append(d.as_str());
            binds.push(BindValue::String(c.clone()));
            assert(query@ =~= q0 + (" AND contract_id = $"@ + int_decimal(idx as int)));
            assert(binds.deep_view() =~= b0 + seq![BindSpec::Text(c@)]);
            idx + 1
        },
        None => {
            assert(query@ =~= q0 + Seq::<char>::empty());
            assert(binds.deep_view() =~= b0 + Seq::<BindSpec>::empty());
            idx
        },
    }
}

/// Appends the filter on a list of contract ids, refusing more than
/// `MAX_CONTRACT_IDS`.
fn push_contract_ids_filter(
    query: &mut String,
    binds: &mut Vec<BindValue>,
    contract_ids: &Option<String>,
    idx: usize,
) -> (res: Result<usize, AppError>)
    requires
        idx <= 100,
    ensures
        ({
            let ids = match *contract_ids {
                Some(s) => Some(id_list(s@)),
                None => None,
            };
            let f = contract_ids_filter(ids, idx as int);
            if ids is Some && ids->0.len() > MAX_CONTRACT_IDS {
                res is Err && res->Err_0.spec_parts() == invalid(
                    "Maximum 20 contract IDs allowed"@,
                )
            } else {
                &&& res == Ok::<usize, AppError>(f.2 as usize)
                &&& f.2 <= idx + MAX_CONTRACT_IDS
                &&& final(query)@ == old(query)@ + f.0
                &&& final(binds).deep_view() == old(binds).deep_view() + f.1
            }
        }),
{
    let ghost q0 = query@;
    let ghost b0 = binds.deep_view();
    match contract_ids {
        Some(text) => {
            let ids = contract_id_list(text.as_str());
            if ids.len() > MAX_CONTRACT_IDS {
                return Err(AppError::Validation("Maximum 20 contract IDs allowed".to_owned()));
            }
            let list = placeholder_list_text(idx, ids.len());
            query.append(" AND contract_id IN (");
            query.append(list.as_str());
            query.append(")");
            assert(query@ =~= q0 + (" AND contract_id IN ("@ + list@ + ")"@));
            let mut i: usize = 0;
            while i < ids.len()
                invariant
                    i <= ids@.len(),
                    binds.deep_view() =~= b0 + ids.deep_view().take(i as int).map_values(
                        |x: Seq<char>| BindSpec::Text(x),
                    ),
                decreases ids@.len() - i,
            {
                let ghost before = binds.deep_view();
                binds.push(BindValue::String(ids[i].clone()));
                assert(binds.deep_view() =~= before.push(BindSpec::Text(ids.deep_view()[i as int])));
                assert(ids.deep_view().take(i + 1) =~= ids.deep_view().take(i as int).push(
                    ids.deep_view()[i as int],
                ));
                i = i + 1;
            }
            assert(ids.deep_view().take(i as int) =~= ids.deep_view());
            Ok(idx + ids.len())
        },
        None => {
            assert(query@ =~= q0 + Seq::<char>::empty());
            assert(binds.deep_view() =~= b0 + Seq::<BindSpec>::empty());
            Ok(idx)
        },
    }
}

/// Appends a filter on the ledger, opened by `op`.
fn push_ledger_filter(
    query: &mut String,
    binds: &mut Vec<BindValue>,
    op: &str,
    ledger: Option<i64>,
    idx: usize,
) -> (next: usize)
    requires
        idx <= 100,
    ensures
        final(query)@ == old(query)@ + ledger_filter(op@, ledger, idx as int).0,
        final(binds).deep_view() == old(binds).deep_view() + ledger_filter(
            op@,
            ledger,
            idx as int,
        ).1,
        next == ledger_filter(op@, ledger, idx as int).2,
{
    let ghost q0 = query@;
    let ghost b0 = binds.deep_view();
    match ledger {
        Some(v) => {
            query.append(op);
            let d = decimal_text(idx as i64);
            query.append(d.as_str());
            binds.push(BindValue::I64(v));
            assert(query@ =~= q0 + (op@ + int_decimal(idx as int)));
            assert(binds.deep_view() =~= b0 + seq![BindSpec::Int(v)]);
            idx + 1
        },
        None => {
            assert(query@ =~= q0 + Seq::<char>::empty());
            assert(binds.deep_view() =~= b0 + Seq::<BindSpec>::empty());
            idx
        },
    }
}

/// The number of the last placeholder in the query for `p` (0 if none).
pub open spec fn last_placeholder(p: AggregationParams) -> int {
    let f1 = contract_id_filter(p.contract_id, 1);
    let f2 = contract_ids_filter(requested_ids(p), f1.2);
    let f3 = ledger_filter(" AND ledger >= $"@, p.from_ledger, f2.2);
    let f4 = ledger_filter(" AND ledger <= $"@, p.to_ledger, f3.2);
    f4.2 - 1
}

/// Law: the placeholders of a query are numbered from 1 with no gap, one per
/// bound value, so the values bind exactly `$1` to `$n`.
pub proof fn lemma_one_value_per_placeholder(p: AggregationParams)
    ensures
        aggregation_query_spec(p) matches Ok((q, b)) ==> b.len() == last_placeholder(p),
{
    let ids = requested_ids(p);
    if let Some(ids) = ids {
        assert(ids.map_values(|x: Seq<char>| BindSpec::Text(x)).len() == ids.len());
    }
}

/// Lemma: `x` occurs in `a + x + r`.
proof fn lemma_occurs_between(a: Seq<char>, x: Seq<char>, r: Seq<char>)
    ensures
        occurs_in(a + x + r, x),
{
    let q = a + x + r;
    let i: int = a.len() as int;
    assert(q.subrange(i, i + x.len()) =~= x);
}

/// The bound values follow the placeholders in the order in which the
/// filters stand in the query `q`: `$1` is the single contract id, then one
/// placeholder per listed id in list order, then `from_ledger`, then
/// `to_ledger`; the value bound to `$n` is `b[n - 1]`.
pub open spec fn binds_in_placeholder_order(
    p: AggregationParams,
    q: Seq<char>,
    b: Seq<BindSpec>,
) -> bool {
    let c: int = if p.contract_id is Some {
        1
    } else {
        0
    };
    let ids = match p.contract_ids {
        Some(s) => id_list(s@),
        None => Seq::<Seq<char>>::empty(),
    };
    let k: int = c + ids.len();
    let f: int = if p.from_ledger is Some {
        1
    } else {
        0
    };
    let t: int = if p.to_ledger is Some {
        1
    } else {
        0
    };
    &&& b.len() == k + f + t
    &&& p.contract_id is Some ==> b[0] == BindSpec::Text(p.contract_id->0@) && occurs_in(
        q,
        " AND contract_id = $"@ + int_decimal(1),
    )
    &&& forall|j: int| 0 <= j < ids.len() ==> b[c + j] == BindSpec::Text(#[trigger] ids[j])
    &&& p.contract_ids is Some ==> occurs_in(
        q,
        " AND contract_id IN ("@ + placeholder_list(c + 1, ids.len()) + ")"@,
    )
    &&& p.from_ledger is Some ==> b[k] == BindSpec::Int(p.from_ledger->0) && occurs_in(
        q,
        " AND ledger >= $"@ + int_decimal(k + 1),
    )
    &&& p.to_ledger is Some ==> b[k + f] == BindSpec::Int(p.to_ledger->0) && occurs_in(
        q,
        " AND ledger <= $"@ + int_decimal(k + f + 1),
    )
}

/// Law: every bound value is the value of its placeholder: the values come
/// as the contract id, the listed ids in order, `from_ledger`, `to_ledger`,
/// the order in which their filters and numbers stand in the query.
pub proof fn lemma_binds_follow_placeholders(p: AggregationParams)
    ensures
        aggregation_query_spec(p) matches Ok((q, b)) ==> binds_in_placeholder_order(p, q, b),
{
    if aggregation_query_spec(p) is Ok {
        lemma_placeholder_texts(p);
        lemma_bind_values(p);
    }
}

/// The query as its head, its four filters and its tail.
spec fn query_parts(p: AggregationParams) -> (Seq<char>, Seq<char>, Seq<char>, Seq<char>, Seq<char>, Seq<char>) {
    let select = aggregate_expression_spec(p.agg_fn, opt_text(p.value_path))->Ok_0;
    let key = json_key(p.group_by@);
    let f1 = contract_id_filter(p.contract_id, 1);
    let f2 = contract_ids_filter(requested_ids(p), f1.2);
    let f3 = ledger_filter(" AND ledger >= $"@, p.from_ledger, f2.2);
    let f4 = ledger_filter(" AND ledger <= $"@, p.to_ledger, f3.2);
    (
        "SELECT "@ + "event_data->'"@ + key + "' as group_value, "@ + select
            + " FROM events WHERE 1=1"@,
        f1.0,
        f2.0,
        f3.0,
        f4.0,
        " GROUP BY event_data->'"@ + key + "' ORDER BY agg_result DESC"@ + " LIMIT "@
            + int_decimal(effective_limit(p.limit) as int),
    )
}

#[verifier::spinoff_prover]
proof fn lemma_placeholder_texts(p: AggregationParams)
    requires
        aggregation_query_spec(p) is Ok,
    ensures
        ({
            let (head, t1, t2, t3, t4, tail) = query_parts(p);
            let q = aggregation_query_spec(p)->Ok_0.0;
            &&& q == head + t1 + t2 + t3 + t4 + tail
            &&& occurs_in(q, t1)
            &&& occurs_in(q, t2)
            &&& occurs_in(q, t3)
            &&& occurs_in(q, t4)
        }),
{
    let (head, t1, t2, t3, t4, tail) = query_parts(p);
    let q = aggregation_query_spec(p)->Ok_0.0;
    assert(q =~= head + t1 + t2 + t3 + t4 + tail);
    lemma_occurs_between(head, t1, t2 + t3 + t4 + tail);
    assert(q =~= head + t1 + (t2 + t3 + t4 + tail));
    lemma_occurs_between(head + t1, t2, t3 + t4 + tail);
    assert(q =~= head + t1 + t2 + (t3 + t4 + tail));
    lemma_occurs_between(head + t1 + t2, t3, t4 + tail);
    assert(q =~= head + t1 + t2 + t3 + (t4 + tail));
    lemma_occurs_between(head + t1 + t2 + t3, t4, tail);
}

#[verifier::spinoff_prover]
proof fn lemma_bind_values(p: AggregationParams)
    requires
        aggregation_query_spec(p) is Ok,
    ensures
        ({
            let b = aggregation_query_spec(p)->Ok_0.1;
            let q = aggregation_query_spec(p)->Ok_0.0;
            binds_in_placeholder_order(p, q, b)
        }),
{
    let (q, b) = aggregation_query_spec(p)->Ok_0;
    lemma_placeholder_texts(p);
    let ids = requested_ids(p);
    let f1 = contract_id_filter(p.contract_id, 1);
    let f2 = contract_ids_filter(ids, f1.2);
    let f3 = ledger_filter(" AND ledger >= $"@, p.from_ledger, f2.2);
    let f4 = ledger_filter(" AND ledger <= $"@, p.to_ledger, f3.2);
    assert(b =~= f1.1 + f2.1 + f3.1 + f4.1);
    let idl = match p.contract_ids {
        Some(s) => id_list(s@),
        None => Seq::<Seq<char>>::empty(),
    };
    let c: int = if p.contract_id is Some {
        1
    } else {
        0
    };
    assert(f1.1.len() == c);
    assert(f2.1.len() == idl.len());
    assert forall|j: int| 0 <= j < idl.len() implies b[c + j] == BindSpec::Text(
        #[trigger] idl[j],
    ) by {
        assert(b[c + j] == f2.1[j]);
    }
}

/// Law: a count counts every event of its group: its select expression is
/// `COUNT(*)`, whatever value path is given, and it never fails.
pub proof fn lemma_count_counts_rows(value_path: Option<Seq<char>>)
    ensures
        aggregate_expression_spec(AggregationFunction::Count, value_path) == Ok::<
            Seq<char>,
            (ErrorKind, Seq<char>),
        >("COUNT(*) as agg_result"@),
{
}

/// Law: the query of a count opens with the grouping column and `COUNT(*)`,
/// and two count requests that differ only in their value path get the
/// same query and values.
pub proof fn lemma_count_ignores_value_path(p: AggregationParams, other: AggregationParams)
    requires
        p.agg_fn == AggregationFunction::Count,
        other.agg_fn == AggregationFunction::Count,
        other.group_by@ == p.group_by@,
        opt_text(other.contract_id) == opt_text(p.contract_id),
        opt_text(other.contract_ids) == opt_text(p.contract_ids),
        other.from_ledger == p.from_ledger,
        other.to_ledger == p.to_ledger,
        other.limit == p.limit,
    ensures
        aggregation_query_spec(other) == aggregation_query_spec(p),
        aggregation_query_spec(p) matches Ok((q, b)) ==> ("SELECT event_data->'"@ + json_key(
            p.group_by@,
        ) + "' as group_value, COUNT(*) as agg_result FROM events WHERE 1=1"@).is_prefix_of(q),
{
    reveal_strlit("SELECT ");
    reveal_strlit("event_data->'");
    reveal_strlit("' as group_value, ");
    reveal_strlit("COUNT(*) as agg_result");
    reveal_strlit(" FROM events WHERE 1=1");
    reveal_strlit("SELECT event_data->'");
    reveal_strlit("' as group_value, COUNT(*) as agg_result FROM events WHERE 1=1");
    let key = json_key(p.group_by@);
    let head = "SELECT "@ + "event_data->'"@ + key + "' as group_value, "@ + "COUNT(*) as agg_result"@
        + " FROM events WHERE 1=1"@;
    let stated = "SELECT event_data->'"@ + key
        + "' as group_value, COUNT(*) as agg_result FROM events WHERE 1=1"@;
    assert(head =~= stated);
    assert(requested_ids(other) == requested_ids(p));
    assert(contract_id_filter(other.contract_id, 1) == contract_id_filter(p.contract_id, 1)) by {
        if p.contract_id is Some {
            assert(other.contract_id->0@ == p.contract_id->0@);
        }
    }
    if let Ok((q, b)) = aggregation_query_spec(p) {
        let ids = requested_ids(p);
        let f1 = contract_id_filter(p.contract_id, 1);
        let f2 = contract_ids_filter(ids, f1.2);
        let f3 = ledger_filter(" AND ledger >= $"@, p.from_ledger, f2.2);
        let f4 = ledger_filter(" AND ledger <= $"@, p.to_ledger, f3.2);
        let rest = f1.0 + f2.0 + f3.0 + f4.0 + " GROUP BY event_data->'"@ + key
            + "' ORDER BY agg_result DESC"@ + " LIMIT "@ + int_decimal(
            effective_limit(p.limit) as int,
        );
        assert(q =~= head + rest);
        assert(stated.is_prefix_of(q)) by {
            assert(q.subrange(0, stated.len() as int) =~= stated);
        }
    }
}

/// Law: a query returns at most `MAX_AGGREGATION_GROUPS` groups; the requested
/// limit is kept up to that bound, and 100 groups are asked for by default.
pub proof fn lemma_limit_capped(limit: Option<i64>)
    ensures
        effective_limit(limit) <= MAX_AGGREGATION_GROUPS,
        (limit matches Some(l) && l <= MAX_AGGREGATION_GROUPS) ==> effective_limit(limit) == limit->0,
        limit is None ==> effective_limit(limit) == 100,
        (limit is Some && limit->0 > MAX_AGGREGATION_GROUPS) ==> effective_limit(limit)
            == MAX_AGGREGATION_GROUPS,
{
}

/// Builds the aggregation query and the values bound to its placeholders.
/// A value path is required by every aggregate but `Count`; at most
/// `MAX_CONTRACT_IDS` ids may be listed in `contract_ids`.
pub fn build_aggregation_query(params: &AggregationParams) -> (res: Result<
    (String, Vec<BindValue>),
    AppError,
>)
    ensures
        query_outcome(res) == aggregation_query_spec(*params),
        res matches Ok((q, b)) ==> binds_in_placeholder_order(*params, q@, b.deep_view()),
        params.agg_fn == AggregationFunction::Count ==> (res is Ok <==> !(requested_ids(
            *params,
        ) is Some && requested_ids(*params)->0.len() > MAX_CONTRACT_IDS)),
        params.agg_fn == AggregationFunction::Count && res is Ok ==> ("SELECT event_data->'"@
            + json_key(params.group_by@)
            + "' as group_value, COUNT(*) as agg_result FROM events WHERE 1=1"@).is_prefix_of(
            res->Ok_0.0@,
        ),
{
    proof {
        lemma_binds_follow_placeholders(*params);
        lemma_count_counts_rows(opt_text(params.value_path));
        if params.agg_fn == AggregationFunction::Count {
            lemma_count_ignores_value_path(*params, *params);
        }
    }
    let ghost p = *params;
    let mut query = "SELECT ".to_owned();
    let mut bind_values: Vec<BindValue> = Vec::new();
    let bind_index: usize = 1;

    let key = json_key_of(params.group_by.as_str());
    query.append("event_data->'");
    query.append(key);
    query.append("' as group_value, ");

    let select = match aggregate_expression(params.agg_fn, &params.value_path) {
        Ok(s) => s,
        Err(e) => {
            return Err(e);
        },
    };
    query.append(select.as_str());
    query.append(" FROM events WHERE 1=1");
    let ghost head = query@;

    let bind_index = push_contract_id_filter(
        &mut query,
        &mut bind_values,
        &params.contract_id,
        bind_index,
    );
    let bind_index = match push_contract_ids_filter(
        &mut query,
        &mut bind_values,
        &params.contract_ids,
        bind_index,
    ) {
        Ok(i) => i,
        Err(e) => {
            return Err(e);
        },
    };
    let bind_index = push_ledger_filter(
        &mut query,
        &mut bind_values,
        " AND ledger >= $",
        params.from_ledger,
        bind_index,
    );
    let _ = push_ledger_filter(
        &mut query,
        &mut bind_values,
        " AND ledger <= $",
        params.to_ledger,
        bind_index,
    );
    let ghost filters = query@;

    query.append(" GROUP BY event_data->'");
    query.append(key);
    query.append("' ORDER BY agg_result DESC");

    let requested = match params.limit {
        Some(l) => l,
        None => 100,
    };
    let limit = if requested <= MAX_AGGREGATION_GROUPS {
        requested
    } else {
        MAX_AGGREGATION_GROUPS
    };
    query.append(" LIMIT ");
    let d = decimal_text(limit);
    query.append(d.as_str());
    proof {
        let f1 = contract_id_filter(p.contract_id, 1);
        let f2 = contract_ids_filter(requested_ids(p), f1.2);
        let f3 = ledger_filter(" AND ledger >= $"@, p.from_ledger, f2.2);
        let f4 = ledger_filter(" AND ledger <= $"@, p.to_ledger, f3.2);
        assert(filters =~= head + f1.0 + f2.0 + f3.0 + f4.0);
        assert(bind_values.deep_view() =~= f1.1 + f2.1 + f3.1 + f4.1);
    }
    Ok((query, bind_values))
}

/// The query for an aggregation request: both paths are validated, then the
/// query is built.
pub open spec fn aggregation_request_spec(p: AggregationParams) -> Result<
    (Seq<char>, Seq<BindSpec>),
    (ErrorKind, Seq<char>),
> {
    match jsonb_path_check(p.group_by@) {
        Err(e) => Err(e),
        Ok(()) => match opt_text(p.value_path) {
            Some(v) => match jsonb_path_check(v) {
                Err(e) => Err(e),
                Ok(()) => aggregation_query_spec(p),
            },
            None => aggregation_query_spec(p),
        },
    }
}

/// Validates the request's JSONB paths and builds its query: what an
/// aggregation request runs against the database. Only allowlisted paths
/// ever reach the query text.
pub fn prepare_aggregation(params: &AggregationParams) -> (res: Result<
    (String, Vec<BindValue>),
    AppError,
>)
    ensures
        query_outcome(res) == aggregation_request_spec(*params),
        res is Ok ==> allowed_paths().contains(params.group_by@),
        res is Ok && params.value_path is Some ==> allowed_paths().contains(
            params.value_path->0@,
        ),
{
    if let Err(e) = validate_jsonb_path(params.group_by.as_str()) {
        return Err(e);
    }
    if let Some(value_path) = &params.value_path {
        if let Err(e) = validate_jsonb_path(value_path.as_str()) {
            return Err(e);
        }
    }
    build_aggregation_query(params)
}

} // verus!
