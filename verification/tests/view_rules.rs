use minit::{
    assign_entity_ids, plan_view_rules, view_rule_records, FieldRules, GroupRule, ViewRule, ViewRuleLevel,
    ViewRules,
};

fn rule(read: i32, write: i32) -> ViewRule {
    ViewRule { read_rule: read, read_filters: vec![read, 7], write_rule: write, write_filters: vec![write] }
}

fn group(name: &str, read: i32, write: i32) -> GroupRule {
    GroupRule { group: name.to_string(), rule: rule(read, write) }
}

fn sample_rules() -> ViewRules {
    ViewRules {
        manage: vec![group("admin", 1, 2), group("guest", 3, 4)],
        collection: vec![group("admin", 5, 6)],
        entity: vec![],
        fields: vec![
            FieldRules { field: "name".to_string(), rules: vec![group("admin", 8, 9)] },
            FieldRules { field: "age".to_string(), rules: vec![group("guest", 10, 11), group("admin", 12, 13)] },
        ],
    }
}

#[test]
fn records_follow_levels_in_order() {
    let records = view_rule_records(&"users".to_string(), &sample_rules());
    assert_eq!(records.len(), 6);
    let levels: Vec<ViewRuleLevel> = records.iter().map(|r| r.level).collect();
    assert_eq!(
        levels,
        vec![
            ViewRuleLevel::Manage,
            ViewRuleLevel::Manage,
            ViewRuleLevel::Collection,
            ViewRuleLevel::Field,
            ViewRuleLevel::Field,
            ViewRuleLevel::Field,
        ]
    );
    let groups: Vec<&str> = records.iter().map(|r| r.group.as_str()).collect();
    assert_eq!(groups, vec!["admin", "guest", "admin", "admin", "guest", "admin"]);
    for r in &records {
        assert_eq!(r.subject_manage, "users");
    }
    assert_eq!(records[0].subject_field, None);
    assert_eq!(records[2].subject_field, None);
    assert_eq!(records[3].subject_field, Some("name".to_string()));
    assert_eq!(records[4].subject_field, Some("age".to_string()));
    assert_eq!(records[5].subject_field, Some("age".to_string()));
}

#[test]
fn records_copy_rule_codes() {
    let records = view_rule_records(&"users".to_string(), &sample_rules());
    assert_eq!(records[1].read_rule, 3);
    assert_eq!(records[1].read_filters, vec![3, 7]);
    assert_eq!(records[1].write_rule, 4);
    assert_eq!(records[1].write_filters, vec![4]);
    assert_eq!(records[5].read_rule, 12);
    assert_eq!(records[5].write_filters, vec![13]);
}

#[test]
fn empty_rules_give_no_records() {
    let rules = ViewRules { manage: vec![], collection: vec![], entity: vec![], fields: vec![] };
    assert!(view_rule_records(&"users".to_string(), &rules).is_empty());
}

#[test]
fn definition_without_name_or_rules_is_skipped() {
    assert!(plan_view_rules(&"users".to_string(), false, &Some(sample_rules())).is_none());
    assert!(plan_view_rules(&"users".to_string(), true, &None).is_none());
    let planned = plan_view_rules(&"users".to_string(), true, &Some(sample_rules())).unwrap();
    assert_eq!(planned.len(), 6);
}

#[test]
fn records_without_id_are_left_out() {
    let records = view_rule_records(&"users".to_string(), &sample_rules());
    let ids = vec![
        Some("100".to_string()),
        None,
        Some("102".to_string()),
        None,
        None,
        Some("105".to_string()),
    ];
    let entities = assign_entity_ids(&records, &ids);
    assert_eq!(entities.len(), 3);
    assert_eq!(entities[0].id, "100");
    assert_eq!(entities[0].record.group, "admin");
    assert_eq!(entities[1].id, "102");
    assert_eq!(entities[1].record.level, ViewRuleLevel::Collection);
    assert_eq!(entities[2].id, "105");
    assert_eq!(entities[2].record.read_rule, 12);
}

#[test]
fn every_record_kept_when_all_ids_obtained() {
    let records = view_rule_records(&"users".to_string(), &sample_rules());
    let ids: Vec<Option<String>> = (0..records.len()).map(|i| Some(format!("{}", i))).collect();
    let entities = assign_entity_ids(&records, &ids);
    assert_eq!(entities.len(), records.len());
    for (i, e) in entities.iter().enumerate() {
        assert_eq!(e.id, format!("{}", i));
        assert_eq!(e.record, records[i]);
    }
}
