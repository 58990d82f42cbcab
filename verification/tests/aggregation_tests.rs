use soroban_pulse::aggregation::{
    build_aggregation_query, prepare_aggregation, validate_jsonb_path, AggregationFunction,
    AggregationParams, BindValue,
};
use soroban_pulse::error::AppError;

fn params(group_by: &str, agg_fn: AggregationFunction) -> AggregationParams {
    AggregationParams {
        group_by: group_by.to_string(),
        agg_fn,
        value_path: None,
        contract_id: None,
        contract_ids: None,
        from_ledger: None,
        to_ledger: None,
        limit: None,
    }
}

fn validation_message(e: AppError) -> String {
    match e {
        AppError::Validation(m) => m,
        other => panic!("expected a validation error, got {:?}", other),
    }
}

#[test]
fn test_validate_jsonb_path() {
    // Valid paths
    assert!(validate_jsonb_path("$.token").is_ok());
    assert!(validate_jsonb_path("$.amount").is_ok());

    // Invalid paths
    assert!(validate_jsonb_path("token").is_err()); // Missing $.
    assert!(validate_jsonb_path("$.invalid").is_err()); // Not in allowlist
    assert!(validate_jsonb_path("$.token; DROP TABLE").is_err()); // SQL injection
}

#[test]
fn test_build_aggregation_query() {
    let params = AggregationParams {
        group_by: "$.token".to_string(),
        agg_fn: AggregationFunction::Count,
        value_path: None,
        contract_id: Some("CABC123".to_string()),
        contract_ids: None,
        from_ledger: Some(1000),
        to_ledger: Some(2000),
        limit: Some(50),
    };

    let (query, bind_values) = build_aggregation_query(&params).unwrap();

    assert!(query.contains("COUNT(*) as agg_result"));
    assert!(query.contains("GROUP BY event_data->'token'"));
    assert!(query.contains("contract_id = $1"));
    assert!(query.contains("ledger >= $2"));
    assert!(query.contains("ledger <= $3"));
    assert!(query.contains("LIMIT 50"));

    assert_eq!(bind_values.len(), 3);
}

#[test]
fn every_allowlisted_path_is_accepted() {
    for p in ["$.token", "$.amount", "$.from", "$.to", "$.topic", "$.type", "$.status"] {
        assert!(validate_jsonb_path(p).is_ok(), "{} should be accepted", p);
    }
}

#[test]
fn path_without_root_is_refused_with_its_message() {
    let m = validation_message(validate_jsonb_path("token").unwrap_err());
    assert_eq!(m, "JSONB path must start with '$.'");
    let m = validation_message(validate_jsonb_path("").unwrap_err());
    assert_eq!(m, "JSONB path must start with '$.'");
}

#[test]
fn path_off_the_allowlist_is_refused_with_the_allowlist() {
    let m = validation_message(validate_jsonb_path("$.invalid").unwrap_err());
    assert_eq!(
        m,
        "JSONB path '$.invalid' is not allowed. Allowed paths: [\"$.token\", \"$.amount\", \"$.from\", \"$.to\", \"$.topic\", \"$.type\", \"$.status\"]"
    );
    // Case matters: the allowlist is compared exactly.
    assert!(validate_jsonb_path("$.TOKEN").is_err());
    assert!(validate_jsonb_path("$.token ").is_err());
}

#[test]
fn exact_count_query_text() {
    let p = AggregationParams {
        group_by: "$.token".to_string(),
        agg_fn: AggregationFunction::Count,
        value_path: None,
        contract_id: Some("CABC123".to_string()),
        contract_ids: None,
        from_ledger: Some(1000),
        to_ledger: Some(2000),
        limit: Some(50),
    };
    let (q, b) = build_aggregation_query(&p).unwrap();
    assert_eq!(
        q,
        "SELECT event_data->'token' as group_value, COUNT(*) as agg_result FROM events WHERE 1=1 AND contract_id = $1 AND ledger >= $2 AND ledger <= $3 GROUP BY event_data->'token' ORDER BY agg_result DESC LIMIT 50"
    );
    assert!(matches!(&b[0], BindValue::String(s) if s == "CABC123"));
    assert!(matches!(b[1], BindValue::I64(1000)));
    assert!(matches!(b[2], BindValue::I64(2000)));
}

#[test]
fn value_aggregates_use_the_value_path() {
    let cases = [
        (AggregationFunction::Sum, "SUM"),
        (AggregationFunction::Avg, "AVG"),
        (AggregationFunction::Min, "MIN"),
        (AggregationFunction::Max, "MAX"),
    ];
    for (f, name) in cases {
        let mut p = params("$.type", f);
        p.value_path = Some("$.amount".to_string());
        let (q, b) = build_aggregation_query(&p).unwrap();
        assert_eq!(
            q,
            format!(
                "SELECT event_data->'type' as group_value, {}((event_data->>'amount')::numeric) as agg_result FROM events WHERE 1=1 GROUP BY event_data->'type' ORDER BY agg_result DESC LIMIT 100",
                name
            )
        );
        assert!(b.is_empty());
    }
}

#[test]
fn value_aggregates_without_value_path_are_refused() {
    let cases = [
        (AggregationFunction::Sum, "value_path required for sum aggregation"),
        (AggregationFunction::Avg, "value_path required for avg aggregation"),
        (AggregationFunction::Min, "value_path required for min aggregation"),
        (AggregationFunction::Max, "value_path required for max aggregation"),
    ];
    for (f, msg) in cases {
        let p = params("$.token", f);
        let m = validation_message(build_aggregation_query(&p).unwrap_err());
        assert_eq!(m, msg);
    }
}

#[test]
fn contract_id_list_is_split_trimmed_and_numbered() {
    let mut p = params("$.token", AggregationFunction::Count);
    p.contract_id = Some("C0".to_string());
    p.contract_ids = Some(" CA , CB,CC ".to_string());
    p.to_ledger = Some(-7);
    let (q, b) = build_aggregation_query(&p).unwrap();
    assert!(q.contains(" AND contract_id = $1 AND contract_id IN ($2, $3, $4) AND ledger <= $5 GROUP BY"));
    let texts: Vec<String> = b
        .iter()
        .map(|v| match v {
            BindValue::String(s) => s.clone(),
            BindValue::I64(i) => i.to_string(),
        })
        .collect();
    assert_eq!(texts, vec!["C0", "CA", "CB", "CC", "-7"]);
}

#[test]
fn empty_pieces_of_the_contract_id_list_are_kept() {
    let mut p = params("$.token", AggregationFunction::Count);
    p.contract_ids = Some("a,,b,".to_string());
    let (q, b) = build_aggregation_query(&p).unwrap();
    assert!(q.contains(" AND contract_id IN ($1, $2, $3, $4)"));
    assert_eq!(b.len(), 4);
}

#[test]
fn twenty_contract_ids_pass_and_twenty_one_are_refused() {
    let ids: Vec<String> = (0..20).map(|i| format!("C{}", i)).collect();
    let mut p = params("$.token", AggregationFunction::Count);
    p.contract_ids = Some(ids.join(","));
    let (q, b) = build_aggregation_query(&p).unwrap();
    assert_eq!(b.len(), 20);
    assert!(q.contains("$20)"));

    let ids: Vec<String> = (0..21).map(|i| format!("C{}", i)).collect();
    p.contract_ids = Some(ids.join(","));
    let m = validation_message(build_aggregation_query(&p).unwrap_err());
    assert_eq!(m, "Maximum 20 contract IDs allowed");
}

#[test]
fn limit_defaults_to_100_and_is_capped_at_1000() {
    let mut p = params("$.token", AggregationFunction::Count);
    assert!(build_aggregation_query(&p).unwrap().0.ends_with(" LIMIT 100"));
    p.limit = Some(5000);
    assert!(build_aggregation_query(&p).unwrap().0.ends_with(" LIMIT 1000"));
    p.limit = Some(1000);
    assert!(build_aggregation_query(&p).unwrap().0.ends_with(" LIMIT 1000"));
    p.limit = Some(-3);
    assert!(build_aggregation_query(&p).unwrap().0.ends_with(" LIMIT -3"));
}

#[test]
fn repeated_root_prefixes_are_all_stripped() {
    let p = params("$.$.token", AggregationFunction::Count);
    let (q, _) = build_aggregation_query(&p).unwrap();
    assert!(q.starts_with("SELECT event_data->'token' as group_value, "));
}

#[test]
fn prepared_requests_validate_both_paths() {
    let mut p = params("$.token", AggregationFunction::Sum);
    p.value_path = Some("$.amount".to_string());
    assert!(prepare_aggregation(&p).is_ok());

    p.value_path = Some("$.amount; DROP TABLE events".to_string());
    let m = validation_message(prepare_aggregation(&p).unwrap_err());
    assert!(m.starts_with("JSONB path '$.amount; DROP TABLE events' is not allowed"));

    let p = params("$.nope", AggregationFunction::Count);
    assert!(prepare_aggregation(&p).is_err());
    // The query builder alone does not validate.
    assert!(build_aggregation_query(&p).is_ok());
}
