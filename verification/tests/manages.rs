use bson::{Bson, Document};
use minit::{
    collection_index_keys, plan_manage, CollectionPlan, GeneralIndexField, IndexKeys, ManageAction,
    ManageDefinition, ManageOutcome, ManagePlan, ManageRun, ManageSettings, SkipReason,
};

fn settings() -> ManageSettings {
    ManageSettings {
        manages_manage_id: "manages".to_string(),
        time_series_meta_key: "meta_field".to_string(),
        time_series_expiry_key: "expired_seconds".to_string(),
    }
}

fn index_doc(field: &str) -> Document {
    let mut d = Document::new();
    d.insert(field, 1i32);
    d
}

fn definition(id: &str) -> ManageDefinition {
    ManageDefinition {
        id: Some(id.to_string()),
        name: Some(Bson::String("Users".to_string())),
        schema: Some(Bson::Array(vec![])),
        hard_coded: None,
        time_series: None,
        indexes: vec![index_doc("email")],
    }
}

fn time_series(meta: Option<Bson>, expiry: Option<Bson>) -> Document {
    let mut d = Document::new();
    if let Some(m) = meta {
        d.insert("meta_field", m);
    }
    if let Some(e) = expiry {
        d.insert("expired_seconds", e);
    }
    d
}

#[test]
fn definition_without_id_name_or_schema_is_skipped() {
    let mut d = definition("users");
    d.id = None;
    assert_eq!(plan_manage(d, &settings()).unwrap_err(), SkipReason::MissingId);
    let mut d = definition("users");
    d.name = None;
    assert_eq!(plan_manage(d, &settings()).unwrap_err(), SkipReason::MissingName);
    let mut d = definition("users");
    d.schema = None;
    assert_eq!(plan_manage(d, &settings()).unwrap_err(), SkipReason::MissingSchema);
}

#[test]
fn ordinary_manage_gets_plain_collection() {
    let plan = plan_manage(definition("users"), &settings()).unwrap();
    assert_eq!(plan.entity.id, "users");
    assert_eq!(plan.entity.name, Bson::String("Users".to_string()));
    assert!(!plan.entity.hard_coded);
    assert_eq!(plan.collection, CollectionPlan::Plain { indexes: vec![index_doc("email")] });
}

#[test]
fn hard_coded_flag_is_kept() {
    let mut d = definition("users");
    d.hard_coded = Some(true);
    assert!(plan_manage(d, &settings()).unwrap().entity.hard_coded);
}

#[test]
fn manages_manage_gets_no_collection() {
    let plan = plan_manage(definition("manages"), &settings()).unwrap();
    assert_eq!(plan.collection, CollectionPlan::Reserved);
}

#[test]
fn time_series_configuration_is_read() {
    let mut d = definition("events");
    d.time_series = Some(time_series(Some(Bson::String("device".to_string())), Some(Bson::Int64(3600))));
    let plan = plan_manage(d, &settings()).unwrap();
    assert_eq!(
        plan.collection,
        CollectionPlan::TimeSeries { meta_field: "device".to_string(), expire_after_secs: 3600 }
    );
}

#[test]
fn negative_expiry_wraps_to_unsigned() {
    let mut d = definition("events");
    d.time_series = Some(time_series(Some(Bson::String("device".to_string())), Some(Bson::Int64(-1))));
    let plan = plan_manage(d, &settings()).unwrap();
    assert_eq!(
        plan.collection,
        CollectionPlan::TimeSeries { meta_field: "device".to_string(), expire_after_secs: u64::MAX }
    );
}

#[test]
fn incomplete_time_series_gets_no_collection() {
    let mut d = definition("events");
    d.time_series = Some(time_series(None, Some(Bson::Int64(10))));
    assert_eq!(plan_manage(d, &settings()).unwrap().collection, CollectionPlan::InvalidTimeSeries);
    let mut d = definition("events");
    d.time_series = Some(time_series(Some(Bson::String("device".to_string())), None));
    assert_eq!(plan_manage(d, &settings()).unwrap().collection, CollectionPlan::InvalidTimeSeries);
    // a 32-bit expiry is not a 64-bit integer
    let mut d = definition("events");
    d.time_series = Some(time_series(Some(Bson::String("device".to_string())), Some(Bson::Int32(10))));
    assert_eq!(plan_manage(d, &settings()).unwrap().collection, CollectionPlan::InvalidTimeSeries);
    // a meta field that is not a string
    let mut d = definition("events");
    d.time_series = Some(time_series(Some(Bson::Int64(1)), Some(Bson::Int64(10))));
    assert_eq!(plan_manage(d, &settings()).unwrap().collection, CollectionPlan::InvalidTimeSeries);
}

#[test]
fn index_keys_start_with_general_fields() {
    let keys = collection_index_keys(vec![index_doc("email"), index_doc("phone")]);
    assert_eq!(keys.len(), 7);
    assert_eq!(keys[0], IndexKeys::General { field: GeneralIndexField::Id, order: 1 });
    assert_eq!(keys[1], IndexKeys::General { field: GeneralIndexField::ModifyTimestamp, order: -1 });
    assert_eq!(keys[2], IndexKeys::General { field: GeneralIndexField::Owner, order: 1 });
    assert_eq!(keys[3], IndexKeys::General { field: GeneralIndexField::QuanPin, order: 1 });
    assert_eq!(keys[4], IndexKeys::General { field: GeneralIndexField::JianPin, order: 1 });
    assert_eq!(keys[5], IndexKeys::Custom(index_doc("email")));
    assert_eq!(keys[6], IndexKeys::Custom(index_doc("phone")));
    assert_eq!(collection_index_keys(vec![]).len(), 5);
}

fn plan_of(id: &str) -> ManagePlan {
    plan_manage(definition(id), &settings()).unwrap()
}

#[test]
fn existing_manage_is_left_alone() {
    let (run, action) = ManageRun::start(plan_of("users"));
    assert_eq!(action, ManageAction::CheckExists { manage_id: "users".to_string() });
    let (run, action) = run.advance(true);
    assert_eq!(action, ManageAction::Finish { outcome: ManageOutcome::AlreadyExists });
    assert!(run.is_done());
    let (_, action) = run.advance(false);
    assert_eq!(action, ManageAction::Finish { outcome: ManageOutcome::AlreadyExists });
}

#[test]
fn new_manage_is_inserted_created_and_indexed() {
    let (run, _) = ManageRun::start(plan_of("users"));
    let (run, action) = run.advance(false);
    match action {
        ManageAction::InsertEntity { entity } => assert_eq!(entity.id, "users"),
        other => panic!("unexpected {:?}", other),
    }
    // the collection is created even when the insertion failed
    let (run, action) = run.advance(false);
    assert_eq!(action, ManageAction::CreateCollection { name: "users".to_string() });
    let (run, action) = run.advance(true);
    assert_eq!(
        action,
        ManageAction::CreateIndexes { collection: "users".to_string(), indexes: vec![index_doc("email")] }
    );
    let (run, action) = run.advance(false);
    assert_eq!(
        action,
        ManageAction::Finish { outcome: ManageOutcome::CollectionCreated { indexes_created: false } }
    );
    assert!(run.is_done());
}

#[test]
fn failed_creation_aborts() {
    let (run, _) = ManageRun::start(plan_of("users"));
    let (run, _) = run.advance(false);
    let (run, _) = run.advance(true);
    let (run, action) = run.advance(false);
    assert_eq!(action, ManageAction::Abort { collection: "users".to_string() });
    assert!(run.is_done());
}

#[test]
fn manages_manage_is_only_inserted() {
    let (run, _) = ManageRun::start(plan_of("manages"));
    let (run, action) = run.advance(false);
    assert!(matches!(action, ManageAction::InsertEntity { .. }));
    let (run, action) = run.advance(true);
    assert_eq!(action, ManageAction::Finish { outcome: ManageOutcome::Reserved });
    assert!(run.is_done());
}

#[test]
fn time_series_manage_creates_time_series_collection() {
    let mut d = definition("events");
    d.time_series = Some(time_series(Some(Bson::String("device".to_string())), Some(Bson::Int64(60))));
    let (run, _) = ManageRun::start(plan_manage(d, &settings()).unwrap());
    let (run, _) = run.advance(false);
    let (run, action) = run.advance(true);
    assert_eq!(
        action,
        ManageAction::CreateTimeSeriesCollection {
            name: "events".to_string(),
            meta_field: "device".to_string(),
            expire_after_secs: 60,
        }
    );
    let (run, action) = run.advance(true);
    assert_eq!(action, ManageAction::Finish { outcome: ManageOutcome::TimeSeriesCreated });
    assert!(run.is_done());
}

#[test]
fn time_series_creation_failure_aborts() {
    let mut d = definition("events");
    d.time_series = Some(time_series(Some(Bson::String("device".to_string())), Some(Bson::Int64(60))));
    let (run, _) = ManageRun::start(plan_manage(d, &settings()).unwrap());
    let (run, _) = run.advance(false);
    let (run, _) = run.advance(true);
    let (_, action) = run.advance(false);
    assert_eq!(action, ManageAction::Abort { collection: "events".to_string() });
}

#[test]
fn incomplete_time_series_stops_after_insertion() {
    let mut d = definition("events");
    d.time_series = Some(time_series(None, None));
    let (run, _) = ManageRun::start(plan_manage(d, &settings()).unwrap());
    let (run, _) = run.advance(false);
    let (run, action) = run.advance(true);
    assert_eq!(action, ManageAction::Finish { outcome: ManageOutcome::InvalidTimeSeries });
    assert!(run.is_done());
}
