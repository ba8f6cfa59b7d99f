//! Verified planning logic for initialising a management database from
//! manage definitions: which manage entities and collections to create,
//! which indexes to build, which basic items to insert and which view-rule
//! records to write.

mod basic_items;
mod document;
mod indexes;
mod manage_run;
mod manages;
mod root_password;
mod sources;
mod view_rules;

pub use basic_items::{
    action_index, item_id_check, items_advance_spec, items_emitted, items_measure, items_replay,
    items_trace, items_visit_spec, lemma_basic_items_end, lemma_items_inserted_once_when_absent,
    lemma_items_step_law, lemma_items_trace_steps, turn_to_item,
    BasicItemAction, BasicItemActionView, BasicItemsRun,
};
pub use document::{document_i64_fields, document_str_fields};
pub use indexes::{
    collection_index_keys, collection_index_keys_spec, lemma_collection_index_keys_layout, general_index_keys, GeneralIndexField, IndexKeys,
};
pub use manage_run::{
    creates_collection, lemma_abort_follows_failed_creation, lemma_existing_manage_left_alone,
    lemma_indexes_follow_created_collection, lemma_manage_actions, lemma_manage_work_ends, lemma_manages_collection_not_recreated,
    lemma_only_new_manages_get_collections, manage_advance_spec, manage_replay, manage_start_spec,
    manage_trace, ManageAction, ManageOutcome, ManageRun,
};
pub use manages::{
    collection_plan_fits, lemma_collection_plan_meaning, lemma_manage_entity_from_definition,
    manage_entity_of, plan_manage, CollectionPlan, ManageDefinition, ManageEntity,
    ManagePlan, ManageSettings, SkipReason,
};
pub use root_password::{default_root_password, root_password, root_password_spec};
pub use sources::{
    check_sources, definition_paths, definition_paths_spec, lemma_definition_paths_order, manages_collection_missing,
    should_set_root_password, sources_result, string_views, SourceError,
};
pub use view_rules::{
    assign_entity_ids, entity_views, field_records, field_rule_count, lemma_entity_ids_keep_order, lemma_entity_ids_are_the_obtained_ones,
    records_with_answers, stored_pair,
    lemma_view_rule_record_count, lemma_view_rule_records_by_level, record_from, lemma_view_rule_records_name_subject, level_records, option_string_view,
    plan_view_rules, record_of, record_views, view_rule_records, view_rule_records_spec,
    view_rules_plan_spec, with_entity_ids, FieldRules, GroupRule, ViewRule, ViewRuleEntity, ViewRuleLevel,
    ViewRuleRecord, ViewRuleRecordView, ViewRules,
};
