use bson::{Bson, Document};
use vstd::prelude::*;

use crate::document::{document_get_i64, document_get_str, document_i64_fields, document_str_fields};

verus! {

/// What a manage definition file states about one manage, as read from it.
#[derive(Debug, PartialEq)]
pub struct ManageDefinition {
    pub id: Option<String>,
    pub name: Option<Bson>,
    pub schema: Option<Bson>,
    pub hard_coded: Option<bool>,
    pub time_series: Option<Document>,
    pub indexes: Vec<Document>,
}

/// The names that the planning depends on: the manage whose collection holds
/// the manage entities, and the keys of a time-series configuration.
#[derive(Debug, PartialEq)]
pub struct ManageSettings {
    pub manages_manage_id: String,
    pub time_series_meta_key: String,
    pub time_series_expiry_key: String,
}

/// The manage entity that is inserted for a manage.
#[derive(Debug, PartialEq)]
pub struct ManageEntity {
    pub id: String,
    pub name: Bson,
    pub schema: Bson,
    pub hard_coded: bool,
}

/// What is done about a manage's own collection once its entity is inserted.
#[derive(Debug, PartialEq)]
pub enum CollectionPlan {
    /// The manage whose collection holds the manage entities: that collection exists already.
    Reserved,
    /// An ordinary collection, indexed on the general fields and on these keys.
    Plain { indexes: Vec<Document> },
    /// A time-series collection with this meta field and expiry.
    TimeSeries { meta_field: String, expire_after_secs: u64 },
    /// The time-series configuration lacks its meta field or its expiry: no collection.
    InvalidTimeSeries,
}

/// The plan for one manage.
#[derive(Debug, PartialEq)]
pub struct ManagePlan {
    pub entity: ManageEntity,
    pub collection: CollectionPlan,
}

/// Why a manage definition is passed over.
#[derive(PartialEq, Eq, Structural, Debug, Clone, Copy)]
pub enum SkipReason {
    MissingId,
    MissingName,
    MissingSchema,
}

/// The collection plan that a manage's id, time-series configuration and
/// indexes call for.
pub open spec fn collection_plan_fits(
    c: CollectionPlan,
    id: Seq<char>,
    time_series: Option<Document>,
    indexes: Vec<Document>,
    settings: ManageSettings,
) -> bool {
    if id == settings.manages_manage_id@ {
        c is Reserved
    } else {
        match time_series {
            None => c == (CollectionPlan::Plain { indexes }),
            Some(d) => {
                let strs = document_str_fields(d);
                let ints = document_i64_fields(d);
                if strs.contains_key(settings.time_series_meta_key@) && ints.contains_key(
                    settings.time_series_expiry_key@,
                ) {
                    &&& c is TimeSeries
                    &&& c->meta_field@ == strs[settings.time_series_meta_key@]
                    &&& c->expire_after_secs == ints[settings.time_series_expiry_key@] as u64
                } else {
                    c is InvalidTimeSeries
                }
            },
        }
    }
}

/// The manage entity that a complete definition yields.
pub open spec fn manage_entity_of(def: ManageDefinition) -> ManageEntity {
    ManageEntity {
        id: def.id->0,
        name: def.name->0,
        schema: def.schema->0,
        hard_coded: match def.hard_coded {
            Some(b) => b,
            None => false,
        },
    }
}

/// What a collection plan means: the manage that holds the manage entities
/// gets no collection; a manage without time-series configuration gets an
/// ordinary collection with exactly its stated indexes; one with such a
/// configuration gets a time-series collection exactly when the configuration
/// holds a string meta field and a 64-bit expiry, with that meta field and
/// that expiry (unchanged when it is not negative), and no collection
/// otherwise.
pub proof fn lemma_collection_plan_meaning(
    c: CollectionPlan,
    id: Seq<char>,
    time_series: Option<Document>,
    indexes: Vec<Document>,
    settings: ManageSettings,
)
    requires
        collection_plan_fits(c, id, time_series, indexes, settings),
    ensures
        id == settings.manages_manage_id@ <==> c is Reserved,
        id != settings.manages_manage_id@ && time_series is None ==> c == (CollectionPlan::Plain { indexes }),
        c is Plain ==> time_series is None && c->indexes == indexes,
        id != settings.manages_manage_id@ && time_series is Some ==> (c is TimeSeries <==> (document_str_fields(
            time_series->0,
        ).contains_key(settings.time_series_meta_key@) && document_i64_fields(time_series->0).contains_key(
            settings.time_series_expiry_key@,
        ))),
        c is TimeSeries ==> time_series is Some && c->meta_field@ == document_str_fields(time_series->0)[settings.time_series_meta_key@],
        c is TimeSeries ==> document_i64_fields(time_series->0)[settings.time_series_expiry_key@] >= 0 ==> c->expire_after_secs
            == document_i64_fields(time_series->0)[settings.time_series_expiry_key@],
        c is InvalidTimeSeries ==> time_series is Some && id != settings.manages_manage_id@,
{
}

/// The planned entity takes the definition's id, name and schema unchanged,
/// and is hard-coded exactly when the definition says so.
pub proof fn lemma_manage_entity_from_definition(def: ManageDefinition)
    requires
        def.id is Some,
        def.name is Some,
        def.schema is Some,
    ensures
        manage_entity_of(def).id == def.id->0,
        manage_entity_of(def).name == def.name->0,
        manage_entity_of(def).schema == def.schema->0,
        manage_entity_of(def).hard_coded <==> def.hard_coded == Some(true),
{
}

fn plan_collection(
    id: &String,
    time_series: Option<Document>,
    indexes: Vec<Document>,
    settings: &ManageSettings,
) -> (c: CollectionPlan)
    ensures
        collection_plan_fits(c, id@, time_series, indexes, *settings),
{
    if *id == settings.manages_manage_id {
        return CollectionPlan::Reserved;
    }
    match time_series {
        None => CollectionPlan::Plain { indexes },
        Some(d) => {
            let meta = document_get_str(&d, settings.time_series_meta_key.as_str());
            match meta {
                None => CollectionPlan::InvalidTimeSeries,
                Some(meta_field) => {
                    let expiry = document_get_i64(&d, settings.time_series_expiry_key.as_str());
                    match expiry {
                        None => CollectionPlan::InvalidTimeSeries,
                        Some(seconds) => CollectionPlan::TimeSeries {
                            meta_field,
                            expire_after_secs: seconds as u64,
                        },
                    }
                },
            }
        },
    }
}

/// Plans one manage: a definition without id, name or schema is passed over;
/// otherwise its entity is made (not hard-coded unless it says so), and its
/// collection planned: none for the manage that holds the manage entities, a
/// time-series collection when it has a time-series configuration (none when
/// that configuration lacks its meta field or expiry; the expiry in seconds
/// is the configured 64-bit integer taken as unsigned), else an ordinary
/// collection with its indexes.
pub fn plan_manage(def: ManageDefinition, settings: &ManageSettings) -> (r: Result<ManagePlan, SkipReason>)
    ensures
        def.id is None ==> r == Err::<ManagePlan, SkipReason>(SkipReason::MissingId),
        def.id is Some && def.name is None ==> r == Err::<ManagePlan, SkipReason>(SkipReason::MissingName),
        def.id is Some && def.name is Some && def.schema is None ==> r == Err::<ManagePlan, SkipReason>(
            SkipReason::MissingSchema,
        ),
        def.id is Some && def.name is Some && def.schema is Some ==> {
            &&& r is Ok
            &&& r->Ok_0.entity == manage_entity_of(def)
            &&& collection_plan_fits(r->Ok_0.collection, def.id->0@, def.time_series, def.indexes, *settings)
        },
        r is Ok ==> {
            let e = r->Ok_0.entity;
            let c = r->Ok_0.collection;
            &&& def.id == Some(e.id) && def.name == Some(e.name) && def.schema == Some(e.schema)
            &&& def.hard_coded matches Some(b) ==> e.hard_coded == b
            &&& def.hard_coded is None ==> !e.hard_coded
            &&& (e.id@ == settings.manages_manage_id@ <==> c is Reserved)
            &&& e.id@ != settings.manages_manage_id@ && def.time_series is None ==> c == (CollectionPlan::Plain {
                indexes: def.indexes,
            })
            &&& c is Plain ==> def.time_series is None && c->indexes == def.indexes
            &&& e.id@ != settings.manages_manage_id@ && def.time_series is Some ==> (c is TimeSeries <==> (
            document_str_fields(def.time_series->0).contains_key(settings.time_series_meta_key@)
                && document_i64_fields(def.time_series->0).contains_key(settings.time_series_expiry_key@)))
            &&& c is TimeSeries ==> def.time_series is Some && c->meta_field@ == document_str_fields(
                def.time_series->0,
            )[settings.time_series_meta_key@] && c->expire_after_secs == document_i64_fields(
                def.time_series->0,
            )[settings.time_series_expiry_key@] as u64
            &&& c is InvalidTimeSeries ==> def.time_series is Some
        },
{
    let ManageDefinition { id, name, schema, hard_coded, time_series, indexes } = def;
    let id = match id {
        Some(i) => i,
        None => return Err(SkipReason::MissingId),
    };
    let name = match name {
        Some(n) => n,
        None => return Err(SkipReason::MissingName),
    };
    let schema = match schema {
        Some(s) => s,
        None => return Err(SkipReason::MissingSchema),
    };
    let hard_coded = match hard_coded {
        Some(b) => b,
        None => false,
    };
    let ghost ts = time_series;
    let ghost ix = indexes;
    let collection = plan_collection(&id, time_series, indexes, settings);
    proof {
        lemma_collection_plan_meaning(collection, id@, ts, ix, *settings);
    }
    Ok(ManagePlan { entity: ManageEntity { id, name, schema, hard_coded }, collection })
}

} // verus!
