use vstd::prelude::*;

verus! {

/// One access rule: the read and write rule codes and their filter codes.
#[derive(Debug, PartialEq)]
pub struct ViewRule {
    pub read_rule: i32,
    pub read_filters: Vec<i32>,
    pub write_rule: i32,
    pub write_filters: Vec<i32>,
}

/// A rule that applies to one group of users.
#[derive(Debug, PartialEq)]
pub struct GroupRule {
    pub group: String,
    pub rule: ViewRule,
}

/// The rules of one field of a manage, group by group.
#[derive(Debug, PartialEq)]
pub struct FieldRules {
    pub field: String,
    pub rules: Vec<GroupRule>,
}

/// The initial view rules of a manage definition, level by level.
#[derive(Debug, PartialEq)]
pub struct ViewRules {
    pub manage: Vec<GroupRule>,
    pub collection: Vec<GroupRule>,
    pub entity: Vec<GroupRule>,
    pub fields: Vec<FieldRules>,
}

/// The level at which a view rule applies.
#[derive(PartialEq, Eq, Structural, Debug, Clone, Copy)]
pub enum ViewRuleLevel {
    Manage,
    Collection,
    Entity,
    Field,
}

/// One view-rule record as it is written to the view-rule collection.
#[derive(Debug, PartialEq)]
pub struct ViewRuleRecord {
    pub group: String,
    pub level: ViewRuleLevel,
    pub subject_manage: String,
    pub subject_field: Option<String>,
    pub read_rule: i32,
    pub read_filters: Vec<i32>,
    pub write_rule: i32,
    pub write_filters: Vec<i32>,
}

/// The mathematical value of a view-rule record.
pub struct ViewRuleRecordView {
    pub group: Seq<char>,
    pub level: ViewRuleLevel,
    pub subject_manage: Seq<char>,
    pub subject_field: Option<Seq<char>>,
    pub read_rule: i32,
    pub read_filters: Seq<i32>,
    pub write_rule: i32,
    pub write_filters: Seq<i32>,
}

pub open spec fn option_string_view(s: Option<String>) -> Option<Seq<char>> {
    match s {
        Some(v) => Some(v@),
        None => None,
    }
}

impl View for ViewRuleRecord {
    type V = ViewRuleRecordView;

    open spec fn view(&self) -> ViewRuleRecordView {
        ViewRuleRecordView {
            group: self.group@,
            level: self.level,
            subject_manage: self.subject_manage@,
            subject_field: option_string_view(self.subject_field),
            read_rule: self.read_rule,
            read_filters: self.read_filters@,
            write_rule: self.write_rule,
            write_filters: self.write_filters@,
        }
    }
}

/// The record that a rule of a group yields at a level.
pub open spec fn record_of(
    group: Seq<char>,
    level: ViewRuleLevel,
    manage: Seq<char>,
    field: Option<Seq<char>>,
    rule: ViewRule,
) -> ViewRuleRecordView {
    ViewRuleRecordView {
        group: group,
        level: level,
        subject_manage: manage,
        subject_field: field,
        read_rule: rule.read_rule,
        read_filters: rule.read_filters@,
        write_rule: rule.write_rule,
        write_filters: rule.write_filters@,
    }
}

/// The records of one list of group rules, in order.
pub open spec fn level_records(
    entries: Seq<GroupRule>,
    level: ViewRuleLevel,
    manage: Seq<char>,
    field: Option<Seq<char>>,
) -> Seq<ViewRuleRecordView> {
    Seq::new(entries.len(), |i: int| record_of(entries[i].group@, level, manage, field, entries[i].rule))
}

/// The field-level records, field by field and group by group.
pub open spec fn field_records(fields: Seq<FieldRules>, manage: Seq<char>) -> Seq<ViewRuleRecordView>
    decreases fields.len(),
{
    if fields.len() == 0 {
        Seq::empty()
    } else {
        field_records(fields.drop_last(), manage) + level_records(
            fields.last().rules@,
            ViewRuleLevel::Field,
            manage,
            Some(fields.last().field@),
        )
    }
}

/// All records of a manage's view rules: manage level, collection level,
/// entity level, then field level.
pub open spec fn view_rule_records_spec(manage: Seq<char>, rules: ViewRules) -> Seq<ViewRuleRecordView> {
    level_records(rules.manage@, ViewRuleLevel::Manage, manage, None) + level_records(
        rules.collection@,
        ViewRuleLevel::Collection,
        manage,
        None,
    ) + level_records(rules.entity@, ViewRuleLevel::Entity, manage, None) + field_records(rules.fields@, manage)
}

/// The views of a list of records.
pub open spec fn record_views(records: Seq<ViewRuleRecord>) -> Seq<ViewRuleRecordView> {
    records.map_values(|r: ViewRuleRecord| r@)
}

fn copy_codes(codes: &Vec<i32>) -> (r: Vec<i32>)
    ensures
        r@ == codes@,
{
    let mut r: Vec<i32> = Vec::new();
    let n = codes.len();
    let mut i: usize = 0;
    while i < n
        invariant
            n == codes@.len(),
            i <= n,
            r@ == codes@.take(i as int),
        decreases n - i,
    {
        r.push(codes[i]);
        i = i + 1;
        assert(r@ =~= codes@.take(i as int));
    }
    assert(codes@.take(n as int) =~= codes@);
    r
}

fn copy_field(field: &Option<String>) -> (r: Option<String>)
    ensures
        option_string_view(r) == option_string_view(*field),
{
    match field {
        Some(f) => Some(f.clone()),
        None => None,
    }
}

fn make_record(entry: &GroupRule, level: ViewRuleLevel, manage_id: &String, field: &Option<String>) -> (r: ViewRuleRecord)
    ensures
        r@ == record_of(entry.group@, level, manage_id@, option_string_view(*field), entry.rule),
{
    ViewRuleRecord {
        group: entry.group.clone(),
        level: level,
        subject_manage: manage_id.clone(),
        subject_field: copy_field(field),
        read_rule: entry.rule.read_rule,
        read_filters: copy_codes(&entry.rule.read_filters),
        write_rule: entry.rule.write_rule,
        write_filters: copy_codes(&entry.rule.write_filters),
    }
}

fn push_level_records(
    out: &mut Vec<ViewRuleRecord>,
    entries: &Vec<GroupRule>,
    level: ViewRuleLevel,
    manage_id: &String,
    field: &Option<String>,
)
    ensures
        record_views(final(out)@) == record_views(old(out)@) + level_records(
            entries@,
            level,
            manage_id@,
            option_string_view(*field),
        ),
{
    let ghost start = record_views(out@);
    let ghost f = option_string_view(*field);
    let n = entries.len();
    let mut i: usize = 0;
    while i < n
        invariant
            n == entries@.len(),
            i <= n,
            f == option_string_view(*field),
            record_views(out@) == start + level_records(entries@.take(i as int), level, manage_id@, f),
        decreases n - i,
    {
        let rec = make_record(&entries[i], level, manage_id, field);
        let ghost prev_out = out@;
        let ghost rv = rec@;
        out.push(rec);
        proof {
            assert(record_views(out@) =~= record_views(prev_out).push(rv));
            assert(level_records(entries@.take(i + 1), level, manage_id@, f) =~= level_records(
                entries@.take(i as int),
                level,
                manage_id@,
                f,
            ).push(rv));
        }
        i = i + 1;
        assert(record_views(out@) =~= start + level_records(entries@.take(i as int), level, manage_id@, f));
    }
    assert(entries@.take(n as int) =~= entries@);
}

/// Builds the view-rule records of a manage: every group rule of the manage,
/// collection and entity levels, then every group rule of every field, each
/// naming the manage and, at field level, the field.
pub fn view_rule_records(manage_id: &String, rules: &ViewRules) -> (r: Vec<ViewRuleRecord>)
    ensures
        record_views(r@) == view_rule_records_spec(manage_id@, *rules),
        r@.len() == rules.manage@.len() + rules.collection@.len() + rules.entity@.len() + field_rule_count(
            rules.fields@,
        ),
        forall|i: int|
            0 <= i < rules.manage@.len() ==> record_from(
                r@[i]@,
                #[trigger] rules.manage@[i],
                ViewRuleLevel::Manage,
                manage_id@,
                None,
            ),
        forall|i: int|
            0 <= i < rules.collection@.len() ==> record_from(
                r@[rules.manage@.len() + i]@,
                #[trigger] rules.collection@[i],
                ViewRuleLevel::Collection,
                manage_id@,
                None,
            ),
        forall|i: int|
            0 <= i < rules.entity@.len() ==> record_from(
                r@[rules.manage@.len() + rules.collection@.len() + i]@,
                #[trigger] rules.entity@[i],
                ViewRuleLevel::Entity,
                manage_id@,
                None,
            ),
        forall|j: int, k: int|
            0 <= j < rules.fields@.len() && 0 <= k < rules.fields@[j].rules@.len() ==> record_from(
                r@[rules.manage@.len() + rules.collection@.len() + rules.entity@.len() + field_rule_count(
                    rules.fields@.take(j),
                ) + k]@,
                #[trigger] rules.fields@[j].rules@[k],
                ViewRuleLevel::Field,
                manage_id@,
                Some(rules.fields@[j].field@),
            ),
{
    let mut out: Vec<ViewRuleRecord> = Vec::new();
    let no_field: Option<String> = None;
    assert(record_views(out@) =~= Seq::empty());
    push_level_records(&mut out, &rules.manage, ViewRuleLevel::Manage, manage_id, &no_field);
    push_level_records(&mut out, &rules.collection, ViewRuleLevel::Collection, manage_id, &no_field);
    push_level_records(&mut out, &rules.entity, ViewRuleLevel::Entity, manage_id, &no_field);
    let ghost before_fields = record_views(out@);
    let n = rules.fields.len();
    let mut i: usize = 0;
    while i < n
        invariant
            n == rules.fields@.len(),
            i <= n,
            record_views(out@) == before_fields + field_records(rules.fields@.take(i as int), manage_id@),
        decreases n - i,
    {
        let fr = &rules.fields[i];
        let field = Some(fr.field.clone());
        push_level_records(&mut out, &fr.rules, ViewRuleLevel::Field, manage_id, &field);
        i = i + 1;
        proof {
            assert(rules.fields@.take(i as int).drop_last() =~= rules.fields@.take(i - 1));
            assert(rules.fields@.take(i as int).last() == rules.fields@[i - 1]);
            assert(record_views(out@) =~= before_fields + field_records(rules.fields@.take(i as int), manage_id@));
        }
    }
    assert(rules.fields@.take(n as int) =~= rules.fields@);
    assert(record_views(out@) =~= view_rule_records_spec(manage_id@, *rules));
    proof {
        lemma_view_rule_records_by_level(manage_id@, *rules);
        assert(out@.len() == record_views(out@).len());
        assert forall|i: int| 0 <= i < out@.len() implies #[trigger] out@[i]@ == record_views(out@)[i] by {}
    }
    out
}

/// What is written for a manage's view rules: nothing when its name is
/// missing or it states no view rules, else its records.
pub open spec fn view_rules_plan_spec(
    manage: Seq<char>,
    has_name: bool,
    rules: Option<ViewRules>,
) -> Option<Seq<ViewRuleRecordView>> {
    if !has_name {
        None
    } else {
        match rules {
            Some(r) => Some(view_rule_records_spec(manage, r)),
            None => None,
        }
    }
}

/// Plans the view-rule records of one manage definition: a definition whose
/// name is missing, or that states no view rules, is skipped.
pub fn plan_view_rules(manage_id: &String, has_name: bool, rules: &Option<ViewRules>) -> (r: Option<Vec<ViewRuleRecord>>)
    ensures
        r is Some <==> has_name && rules is Some,
        r matches Some(v) ==> record_views(v@) == view_rule_records_spec(manage_id@, rules->0),
        r is Some <==> view_rules_plan_spec(manage_id@, has_name, *rules) is Some,
        r matches Some(v) ==> record_views(v@) == view_rules_plan_spec(manage_id@, has_name, *rules)->0,
{
    if !has_name {
        return None;
    }
    match rules {
        Some(rs) => Some(view_rule_records(manage_id, rs)),
        None => None,
    }
}

/// A view-rule record together with the entity id it is stored under.
#[derive(Debug, PartialEq)]
pub struct ViewRuleEntity {
    pub id: String,
    pub record: ViewRuleRecord,
}

/// The views of a list of stored records.
pub open spec fn entity_views(entities: Seq<ViewRuleEntity>) -> Seq<(Seq<char>, ViewRuleRecordView)> {
    entities.map_values(|e: ViewRuleEntity| (e.id@, e.record@))
}

/// The records that receive an id, in order, each with its id; a record whose
/// id could not be obtained is left out.
pub open spec fn with_entity_ids(
    records: Seq<ViewRuleRecordView>,
    ids: Seq<Option<String>>,
) -> Seq<(Seq<char>, ViewRuleRecordView)>
    decreases records.len(),
{
    if records.len() == 0 {
        Seq::empty()
    } else {
        let rest = with_entity_ids(records.drop_last(), ids.drop_last());
        match ids.last() {
            Some(id) => rest.push((id@, records.last())),
            None => rest,
        }
    }
}

fn copy_record(r: &ViewRuleRecord) -> (c: ViewRuleRecord)
    ensures
        c@ == r@,
{
    ViewRuleRecord {
        group: r.group.clone(),
        level: r.level,
        subject_manage: r.subject_manage.clone(),
        subject_field: copy_field(&r.subject_field),
        read_rule: r.read_rule,
        read_filters: copy_codes(&r.read_filters),
        write_rule: r.write_rule,
        write_filters: copy_codes(&r.write_filters),
    }
}

/// Pairs each record with the entity id obtained for it (`ids[i]` answers
/// for `records[i]`); records for which no id was obtained are skipped.
pub fn assign_entity_ids(records: &Vec<ViewRuleRecord>, ids: &Vec<Option<String>>) -> (r: Vec<ViewRuleEntity>)
    requires
        records.len() == ids.len(),
    ensures
        entity_views(r@) == with_entity_ids(record_views(records@), ids@),
        entity_views(r@) == records_with_answers(record_views(records@), ids@).filter_map(stored_pair()),
{
    let n = records.len();
    let mut out: Vec<ViewRuleEntity> = Vec::new();
    let mut i: usize = 0;
    assert(entity_views(out@) =~= with_entity_ids(record_views(records@).take(0), ids@.take(0)));
    while i < n
        invariant
            n == records@.len(),
            n == ids@.len(),
            i <= n,
            entity_views(out@) == with_entity_ids(record_views(records@).take(i as int), ids@.take(i as int)),
        decreases n - i,
    {
        let ghost prev = out@;
        match &ids[i] {
            Some(id) => {
                let e = ViewRuleEntity { id: id.clone(), record: copy_record(&records[i]) };
                out.push(e);
                assert(entity_views(out@) =~= entity_views(prev).push((id@, records@[i as int]@)));
            },
            None => {},
        }
        proof {
            let rv = record_views(records@);
            assert(rv.take(i + 1).drop_last() =~= rv.take(i as int));
            assert(ids@.take(i + 1).drop_last() =~= ids@.take(i as int));
            assert(rv.take(i + 1).last() == records@[i as int]@);
            assert(ids@.take(i + 1).last() == ids@[i as int]);
        }
        i = i + 1;
    }
    assert(record_views(records@).take(n as int) =~= record_views(records@));
    assert(ids@.take(n as int) =~= ids@);
    proof {
        lemma_entity_ids_are_the_obtained_ones(record_views(records@), ids@);
    }
    out
}

/// The number of group rules over all fields.
pub open spec fn field_rule_count(fields: Seq<FieldRules>) -> nat
    decreases fields.len(),
{
    if fields.len() == 0 {
        0
    } else {
        field_rule_count(fields.drop_last()) + fields.last().rules@.len()
    }
}

proof fn lemma_field_records_shape(fields: Seq<FieldRules>, manage: Seq<char>)
    ensures
        field_records(fields, manage).len() == field_rule_count(fields),
        forall|i: int|
            0 <= i < field_records(fields, manage).len() ==> {
                let r = #[trigger] field_records(fields, manage)[i];
                &&& r.subject_manage == manage
                &&& r.level == ViewRuleLevel::Field
                &&& r.subject_field is Some
            },
    decreases fields.len(),
{
    if fields.len() > 0 {
        lemma_field_records_shape(fields.drop_last(), manage);
        let a = field_records(fields.drop_last(), manage);
        let b = level_records(fields.last().rules@, ViewRuleLevel::Field, manage, Some(fields.last().field@));
        assert forall|i: int| 0 <= i < (a + b).len() implies {
            let r = #[trigger] (a + b)[i];
            &&& r.subject_manage == manage
            &&& r.level == ViewRuleLevel::Field
            &&& r.subject_field is Some
        } by {
            if i < a.len() {
                assert((a + b)[i] == a[i]);
            } else {
                assert((a + b)[i] == b[i - a.len()]);
            }
        }
    }
}

/// Every group rule of the definition yields exactly one record: the count
/// of records is the number of manage-, collection- and entity-level rules
/// plus the number of rules over all fields.
pub proof fn lemma_view_rule_record_count(manage: Seq<char>, rules: ViewRules)
    ensures
        view_rule_records_spec(manage, rules).len() == rules.manage@.len() + rules.collection@.len()
            + rules.entity@.len() + field_rule_count(rules.fields@),
{
    lemma_field_records_shape(rules.fields@, manage);
}

/// Every record names the manage it belongs to, and names a field exactly
/// when it is a field-level record.
pub proof fn lemma_view_rule_records_name_subject(manage: Seq<char>, rules: ViewRules)
    ensures
        forall|i: int|
            0 <= i < view_rule_records_spec(manage, rules).len() ==> {
                let r = #[trigger] view_rule_records_spec(manage, rules)[i];
                &&& r.subject_manage == manage
                &&& (r.subject_field is Some <==> r.level == ViewRuleLevel::Field)
            },
{
    lemma_field_records_shape(rules.fields@, manage);
    let a = level_records(rules.manage@, ViewRuleLevel::Manage, manage, None);
    let b = level_records(rules.collection@, ViewRuleLevel::Collection, manage, None);
    let c = level_records(rules.entity@, ViewRuleLevel::Entity, manage, None);
    let d = field_records(rules.fields@, manage);
    let all = a + b + c + d;
    assert(all == view_rule_records_spec(manage, rules));
    assert forall|i: int| 0 <= i < all.len() implies {
        let r = #[trigger] all[i];
        &&& r.subject_manage == manage
        &&& (r.subject_field is Some <==> r.level == ViewRuleLevel::Field)
    } by {
        if i < a.len() {
            assert(all[i] == a[i]);
        } else if i < a.len() + b.len() {
            assert(all[i] == b[i - a.len()]);
        } else if i < a.len() + b.len() + c.len() {
            assert(all[i] == c[i - a.len() - b.len()]);
        } else {
            assert(all[i] == d[i - a.len() - b.len() - c.len()]);
        }
    }
}

/// Assigning ids only drops records whose id could not be obtained: the
/// stored records keep their order, each carries the id obtained for it,
/// and when every id was obtained every record is stored.
#[verifier::rlimit(40)]
pub proof fn lemma_entity_ids_keep_order(records: Seq<ViewRuleRecordView>, ids: Seq<Option<String>>)
    requires
        records.len() == ids.len(),
    ensures
        with_entity_ids(records, ids).len() <= records.len(),
        forall|k: int|
            #![trigger with_entity_ids(records, ids)[k]]
            0 <= k < with_entity_ids(records, ids).len() ==> exists|i: int|
                0 <= i < records.len() && #[trigger] ids[i] is Some && ids[i]->0@ == with_entity_ids(records, ids)[k].0
                    && records[i] == with_entity_ids(records, ids)[k].1,
        (forall|i: int| 0 <= i < ids.len() ==> #[trigger] ids[i] is Some) ==> {
            &&& with_entity_ids(records, ids).len() == records.len()
            &&& forall|i: int|
                0 <= i < records.len() ==> #[trigger] with_entity_ids(records, ids)[i] == (ids[i]->0@, records[i])
        },
    decreases records.len(),
{
    if records.len() > 0 {
        let rr = records.drop_last();
        let ri = ids.drop_last();
        lemma_entity_ids_keep_order(rr, ri);
        let rest = with_entity_ids(rr, ri);
        let n = records.len() - 1;
        assert forall|k: int|
            #![trigger with_entity_ids(records, ids)[k]]
            0 <= k < with_entity_ids(records, ids).len() implies exists|i: int|
            0 <= i < records.len() && #[trigger] ids[i] is Some && ids[i]->0@ == with_entity_ids(records, ids)[k].0
                && records[i] == with_entity_ids(records, ids)[k].1 by {
            if k < rest.len() {
                let i = choose|i: int|
                    0 <= i < rr.len() && #[trigger] ri[i] is Some && ri[i]->0@ == rest[k].0 && rr[i] == rest[k].1;
                assert(ids[i] == ri[i]);
                assert(records[i] == rr[i]);
            } else {
                assert(ids[n] is Some);
            }
        }
        if forall|i: int| 0 <= i < ids.len() ==> #[trigger] ids[i] is Some {
            assert forall|i: int| 0 <= i < ri.len() implies #[trigger] ri[i] is Some by {
                assert(ri[i] == ids[i]);
            }
            assert(ids[n] is Some);
            assert forall|i: int| 0 <= i < records.len() implies #[trigger] with_entity_ids(records, ids)[i] == (
            ids[i]->0@, records[i]) by {
                if i < n {
                    assert(rest[i] == (ri[i]->0@, rr[i]));
                }
            }
        }
    }
}

/// Whether a record is the one that a group rule yields at a level, for a
/// manage and (at field level) a field: the group, the level, the subject and
/// every rule code are taken over unchanged.
pub open spec fn record_from(
    rec: ViewRuleRecordView,
    entry: GroupRule,
    level: ViewRuleLevel,
    manage: Seq<char>,
    field: Option<Seq<char>>,
) -> bool {
    &&& rec.group == entry.group@
    &&& rec.level == level
    &&& rec.subject_manage == manage
    &&& rec.subject_field == field
    &&& rec.read_rule == entry.rule.read_rule
    &&& rec.read_filters == entry.rule.read_filters@
    &&& rec.write_rule == entry.rule.write_rule
    &&& rec.write_filters == entry.rule.write_filters@
}

proof fn lemma_field_rule_count_take(fields: Seq<FieldRules>, j: int)
    requires
        0 <= j < fields.len(),
    ensures
        field_rule_count(fields.take(j + 1)) == field_rule_count(fields.take(j)) + fields[j].rules@.len(),
{
    assert(fields.take(j + 1).drop_last() =~= fields.take(j));
}

proof fn lemma_field_rule_count_monotone(fields: Seq<FieldRules>, j: int, n: int)
    requires
        0 <= j <= n <= fields.len(),
    ensures
        field_rule_count(fields.take(j)) <= field_rule_count(fields.take(n)),
    decreases n - j,
{
    if j < n {
        lemma_field_rule_count_monotone(fields, j, n - 1);
        lemma_field_rule_count_take(fields, n - 1);
    }
}

proof fn lemma_field_records_at(fields: Seq<FieldRules>, manage: Seq<char>)
    ensures
        forall|j: int, k: int|
            0 <= j < fields.len() && 0 <= k < fields[j].rules@.len() ==> record_from(
                field_records(fields, manage)[field_rule_count(fields.take(j)) + k],
                #[trigger] fields[j].rules@[k],
                ViewRuleLevel::Field,
                manage,
                Some(fields[j].field@),
            ),
    decreases fields.len(),
{
    if fields.len() > 0 {
        let n = fields.len() - 1;
        let front = fields.drop_last();
        lemma_field_records_at(front, manage);
        lemma_field_records_shape(front, manage);
        let a = field_records(front, manage);
        let b = level_records(fields.last().rules@, ViewRuleLevel::Field, manage, Some(fields.last().field@));
        assert(field_records(fields, manage) == a + b);
        assert forall|j: int, k: int| 0 <= j < fields.len() && 0 <= k < fields[j].rules@.len() implies record_from(
            field_records(fields, manage)[field_rule_count(fields.take(j)) + k],
            #[trigger] fields[j].rules@[k],
            ViewRuleLevel::Field,
            manage,
            Some(fields[j].field@),
        ) by {
            if j < n {
                assert(fields.take(j) =~= front.take(j));
                assert(front[j] == fields[j]);
                lemma_field_rule_count_take(front, j);
                lemma_field_rule_count_monotone(front, j + 1, n);
                assert(front.take(n) =~= front);
                assert(front[j].rules@[k] == fields[j].rules@[k]);
                assert((a + b)[field_rule_count(fields.take(j)) + k] == a[field_rule_count(front.take(j)) + k]);
            } else {
                assert(fields.take(j) =~= front);
                assert((a + b)[field_rule_count(fields.take(j)) + k] == b[k]);
            }
        }
    }
}

/// The records come level by level, one per group rule and in the order of
/// the rules: first those of the manage level (level `Manage`), then those of
/// the collection level (`Collection`), then those of the entity level
/// (`Entity`), then, field by field, those of each field (`Field`, naming the
/// field); each takes its rule's group and codes unchanged and names the
/// manage.
#[verifier::rlimit(40)]
pub proof fn lemma_view_rule_records_by_level(manage: Seq<char>, rules: ViewRules)
    ensures
        ({
            let r = view_rule_records_spec(manage, rules);
            let m = rules.manage@.len();
            let c = rules.collection@.len();
            let e = rules.entity@.len();
            &&& r.len() == m + c + e + field_rule_count(rules.fields@)
            &&& forall|j: int|
                0 <= j < rules.fields@.len() ==> field_rule_count(rules.fields@.take(j)) + (
                #[trigger] rules.fields@[j]).rules@.len() <= field_rule_count(rules.fields@)
            &&& forall|i: int|
                0 <= i < m ==> record_from(r[i], #[trigger] rules.manage@[i], ViewRuleLevel::Manage, manage, None)
            &&& forall|i: int|
                0 <= i < c ==> record_from(
                    r[m + i],
                    #[trigger] rules.collection@[i],
                    ViewRuleLevel::Collection,
                    manage,
                    None,
                )
            &&& forall|i: int|
                0 <= i < e ==> record_from(r[m + c + i], #[trigger] rules.entity@[i], ViewRuleLevel::Entity, manage, None)
            &&& forall|j: int, k: int|
                0 <= j < rules.fields@.len() && 0 <= k < rules.fields@[j].rules@.len() ==> record_from(
                    r[m + c + e + field_rule_count(rules.fields@.take(j)) + k],
                    #[trigger] rules.fields@[j].rules@[k],
                    ViewRuleLevel::Field,
                    manage,
                    Some(rules.fields@[j].field@),
                )
        }),
{
    lemma_field_records_shape(rules.fields@, manage);
    lemma_field_records_at(rules.fields@, manage);
    let a = level_records(rules.manage@, ViewRuleLevel::Manage, manage, None);
    let b = level_records(rules.collection@, ViewRuleLevel::Collection, manage, None);
    let c = level_records(rules.entity@, ViewRuleLevel::Entity, manage, None);
    let d = field_records(rules.fields@, manage);
    let r = a + b + c + d;
    assert(r == view_rule_records_spec(manage, rules));
    let m = rules.manage@.len();
    let cl = rules.collection@.len();
    let e = rules.entity@.len();
    assert(a.len() == m && b.len() == cl && c.len() == e);
    assert forall|i: int| 0 <= i < m implies record_from(r[i], #[trigger] rules.manage@[i], ViewRuleLevel::Manage, manage, None) by {
        assert(r[i] == a[i]);
    }
    assert forall|i: int| 0 <= i < cl implies record_from(
        r[m + i],
        #[trigger] rules.collection@[i],
        ViewRuleLevel::Collection,
        manage,
        None,
    ) by {
        assert(r[m + i] == b[i]);
    }
    assert forall|i: int| 0 <= i < e implies record_from(r[m + cl + i], #[trigger] rules.entity@[i], ViewRuleLevel::Entity, manage, None) by {
        assert(r[m + cl + i] == c[i]);
    }
    assert forall|j: int| 0 <= j < rules.fields@.len() implies field_rule_count(rules.fields@.take(j)) + (
    #[trigger] rules.fields@[j]).rules@.len() <= field_rule_count(rules.fields@) by {
        lemma_field_rule_count_take(rules.fields@, j);
        lemma_field_rule_count_monotone(rules.fields@, j + 1, rules.fields@.len() as int);
        assert(rules.fields@.take(rules.fields@.len() as int) =~= rules.fields@);
    }
    assert forall|j: int, k: int|
        0 <= j < rules.fields@.len() && 0 <= k < rules.fields@[j].rules@.len() implies record_from(
        r[m + cl + e + field_rule_count(rules.fields@.take(j)) + k],
        #[trigger] rules.fields@[j].rules@[k],
        ViewRuleLevel::Field,
        manage,
        Some(rules.fields@[j].field@),
    ) by {
        let idx = field_rule_count(rules.fields@.take(j)) + k;
        lemma_field_rule_count_take(rules.fields@, j);
        lemma_field_rule_count_monotone(rules.fields@, j + 1, rules.fields@.len() as int);
        assert(rules.fields@.take(rules.fields@.len() as int) =~= rules.fields@);
        assert(d.len() == field_rule_count(rules.fields@));
        assert(idx < d.len());
        assert(r.len() == m + cl + e + d.len());
        assert(r[m + cl + e + idx] == d[idx]);
    }
}

/// The record of each position paired with the id answer for it.
pub open spec fn records_with_answers(
    records: Seq<ViewRuleRecordView>,
    ids: Seq<Option<String>>,
) -> Seq<(ViewRuleRecordView, Option<String>)> {
    Seq::new(records.len(), |i: int| (records[i], ids[i]))
}

/// A record paired with its id answer is stored, with the id, exactly when
/// an id was obtained.
pub open spec fn stored_pair() -> spec_fn((ViewRuleRecordView, Option<String>)) -> Option<(Seq<char>, ViewRuleRecordView)> {
    |p: (ViewRuleRecordView, Option<String>)|
        match p.1 {
            Some(id) => Some((id@, p.0)),
            None => None,
        }
}

/// The stored records are exactly the records whose id was obtained, each
/// with that id, in the order of the records: nothing else is dropped,
/// added or moved.
pub proof fn lemma_entity_ids_are_the_obtained_ones(records: Seq<ViewRuleRecordView>, ids: Seq<Option<String>>)
    requires
        records.len() == ids.len(),
    ensures
        with_entity_ids(records, ids) == records_with_answers(records, ids).filter_map(stored_pair()),
    decreases records.len(),
{
    if records.len() > 0 {
        let rr = records.drop_last();
        let ri = ids.drop_last();
        lemma_entity_ids_are_the_obtained_ones(rr, ri);
        let pairs = records_with_answers(records, ids);
        assert(pairs.drop_last() =~= records_with_answers(rr, ri));
        assert(pairs.last() == (records.last(), ids.last()));
        let fm = pairs.filter_map(stored_pair());
        assert(fm == (match stored_pair()(pairs.last()) {
            Some(x) => pairs.drop_last().filter_map(stored_pair()) + seq![x],
            None => pairs.drop_last().filter_map(stored_pair()),
        }));
        match ids.last() {
            Some(id) => {
                assert(with_entity_ids(records, ids) =~= fm);
            },
            None => {},
        }
    }
}

} // verus!
