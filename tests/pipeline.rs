use vector_db_proxy::coordinator::{Action, Coordinator, Event, Outcome, Phase};
use vector_db_proxy::normalize::Warning;
use vector_db_proxy::pipeline::{plan_batch, resolve_tenant};

#[test]
fn two_records_upserted_to_tenant_collection() {
    let tenant = resolve_tenant("ds1".to_string(), Some("t1".to_string()));
    let job = plan_batch(r#"[{"text":"a"},{"text":"b"}]"#, tenant).unwrap();
    assert_eq!(job.records.len(), 2);
    assert_eq!(job.tenant.datasource_id, "ds1");
    let mut c = Coordinator::start(&job.tenant);
    assert_eq!(c.phase(), Phase::Embedding);
    let a = c.step(Event::Embedded(2));
    assert_eq!(a, Action::Upsert { collection: "t1".to_string(), points: 2 });
    let a = c.step(Event::Upserted(true));
    assert_eq!(a, Action::Finish(Outcome::Stored));
    assert!(Outcome::Stored.succeeded());
    assert_eq!(c.phase(), Phase::Finished(Outcome::Stored));
}

#[test]
fn solo_object_gives_one_upsert_of_one_point() {
    let tenant = resolve_tenant("ds2".to_string(), Some("t2".to_string()));
    let job = plan_batch(r#"{"text":"solo"}"#, tenant).unwrap();
    assert_eq!(job.records.len(), 1);
    let mut c = Coordinator::start(&job.tenant);
    let a = c.step(Event::Embedded(1));
    assert_eq!(a, Action::Upsert { collection: "t2".to_string(), points: 1 });
}

#[test]
fn malformed_message_plans_no_job() {
    let tenant = resolve_tenant("ds3".to_string(), Some("t3".to_string()));
    assert!(matches!(plan_batch("not json {", tenant), Err(Warning::Unparsable)));
}

#[test]
fn empty_array_plans_no_job() {
    let tenant = resolve_tenant("ds4".to_string(), None);
    assert!(matches!(plan_batch("[]", tenant), Err(Warning::NoRecords)));
}

#[test]
fn missing_team_gives_empty_tenant() {
    let tenant = resolve_tenant("ds5".to_string(), None);
    assert_eq!(tenant.team_id, "");
    assert_eq!(tenant.datasource_id, "ds5");
}

#[test]
fn embedding_failure_never_upserts() {
    let tenant = resolve_tenant("ds1".to_string(), Some("t1".to_string()));
    let mut c = Coordinator::start(&tenant);
    assert_eq!(c.step(Event::EmbeddingFailed), Action::Finish(Outcome::EmbeddingFailed));
    assert!(!Outcome::EmbeddingFailed.succeeded());
    assert_eq!(c.step(Event::Embedded(3)), Action::Ignore);
    assert_eq!(c.step(Event::Upserted(true)), Action::Ignore);
    assert_eq!(c.phase(), Phase::Finished(Outcome::EmbeddingFailed));
}

#[test]
fn upsert_failures_are_reported() {
    let tenant = resolve_tenant("ds1".to_string(), Some("t1".to_string()));
    let mut c = Coordinator::start(&tenant);
    c.step(Event::Embedded(1));
    assert_eq!(c.step(Event::Upserted(false)), Action::Finish(Outcome::UpsertFailed));
    let mut d = Coordinator::start(&tenant);
    d.step(Event::Embedded(1));
    assert_eq!(d.step(Event::UpsertFailed), Action::Finish(Outcome::UpsertFailed));
    assert!(!Outcome::UpsertFailed.succeeded());
}

#[test]
fn out_of_order_events_are_ignored() {
    let tenant = resolve_tenant("ds1".to_string(), Some("t1".to_string()));
    let mut c = Coordinator::start(&tenant);
    assert_eq!(c.step(Event::Upserted(true)), Action::Ignore);
    assert_eq!(c.phase(), Phase::Embedding);
    c.step(Event::Embedded(4));
    assert_eq!(c.step(Event::Embedded(4)), Action::Ignore);
    assert_eq!(c.phase(), Phase::Upserting);
}
