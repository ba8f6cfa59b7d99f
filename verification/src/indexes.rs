use bson::Document;
use vstd::prelude::*;

verus! {

/// The fields that every manage collection is indexed on.
#[derive(PartialEq, Eq, Structural, Debug, Clone, Copy)]
pub enum GeneralIndexField {
    Id,
    ModifyTimestamp,
    Owner,
    QuanPin,
    JianPin,
}

/// The keys of one index: a general field with its sort order (1 ascending,
/// -1 descending), or the keys document that a manage definition states.
#[derive(Debug, PartialEq)]
pub enum IndexKeys {
    General { field: GeneralIndexField, order: i32 },
    Custom(Document),
}

/// The general indexes, in the order they are created: id ascending, modify
/// timestamp descending, owner, full pinyin and initial pinyin ascending.
pub open spec fn general_index_keys() -> Seq<IndexKeys> {
    seq![
        IndexKeys::General { field: GeneralIndexField::Id, order: 1 },
        IndexKeys::General { field: GeneralIndexField::ModifyTimestamp, order: -1i32 },
        IndexKeys::General { field: GeneralIndexField::Owner, order: 1 },
        IndexKeys::General { field: GeneralIndexField::QuanPin, order: 1 },
        IndexKeys::General { field: GeneralIndexField::JianPin, order: 1 },
    ]
}

/// The indexes of a manage collection: the general ones, then those the
/// definition states, in its order.
pub open spec fn collection_index_keys_spec(extra: Seq<Document>) -> Seq<IndexKeys> {
    general_index_keys() + extra.map_values(|d: Document| IndexKeys::Custom(d))
}

/// Lists the indexes to create on a manage collection.
pub fn collection_index_keys(extra: Vec<Document>) -> (r: Vec<IndexKeys>)
    ensures
        r@ == collection_index_keys_spec(extra@),
        r@.len() == 5 + extra@.len(),
        r@[0] == (IndexKeys::General { field: GeneralIndexField::Id, order: 1 }),
        r@[1] == (IndexKeys::General { field: GeneralIndexField::ModifyTimestamp, order: -1i32 }),
        r@[2] == (IndexKeys::General { field: GeneralIndexField::Owner, order: 1 }),
        r@[3] == (IndexKeys::General { field: GeneralIndexField::QuanPin, order: 1 }),
        r@[4] == (IndexKeys::General { field: GeneralIndexField::JianPin, order: 1 }),
        forall|i: int| 0 <= i < extra@.len() ==> r@[5 + i] == IndexKeys::Custom(#[trigger] extra@[i]),
{
    let ghost all = extra@;
    let total = extra.len();
    let mut r: Vec<IndexKeys> = Vec::new();
    r.push(IndexKeys::General { field: GeneralIndexField::Id, order: 1 });
    r.push(IndexKeys::General { field: GeneralIndexField::ModifyTimestamp, order: -1 });
    r.push(IndexKeys::General { field: GeneralIndexField::Owner, order: 1 });
    r.push(IndexKeys::General { field: GeneralIndexField::QuanPin, order: 1 });
    r.push(IndexKeys::General { field: GeneralIndexField::JianPin, order: 1 });
    let mut rest = extra;
    let mut k: usize = 0;
    assert(r@ =~= general_index_keys() + all.take(0).map_values(|d: Document| IndexKeys::Custom(d)));
    while rest.len() > 0
        invariant
            k <= all.len(),
            total == all.len(),
            rest@ == all.skip(k as int),
            r@ == general_index_keys() + all.take(k as int).map_values(|d: Document| IndexKeys::Custom(d)),
        decreases rest@.len(),
    {
        let d = rest.remove(0);
        r.push(IndexKeys::Custom(d));
        proof {
            assert(d == all[k as int]);
            assert(all.take(k + 1) =~= all.take(k as int).push(d));
            assert(all.take(k + 1).map_values(|d: Document| IndexKeys::Custom(d)) =~= all.take(
                k as int,
            ).map_values(|d: Document| IndexKeys::Custom(d)).push(IndexKeys::Custom(d)));
            assert(rest@ =~= all.skip(k + 1));
        }
        k = k + 1;
        assert(r@ =~= general_index_keys() + all.take(k as int).map_values(|d: Document| IndexKeys::Custom(d)));
    }
    assert(all.take(k as int) =~= all);
    proof {
        lemma_collection_index_keys_layout(all);
    }
    r
}

/// A manage collection gets the five general indexes (id ascending, modify
/// timestamp descending, owner, full pinyin and initial pinyin ascending),
/// followed by every index its definition states, in order, and no other.
pub proof fn lemma_collection_index_keys_layout(extra: Seq<Document>)
    ensures
        collection_index_keys_spec(extra).len() == 5 + extra.len(),
        collection_index_keys_spec(extra)[0] == (IndexKeys::General { field: GeneralIndexField::Id, order: 1 }),
        collection_index_keys_spec(extra)[1] == (IndexKeys::General {
            field: GeneralIndexField::ModifyTimestamp,
            order: -1i32,
        }),
        collection_index_keys_spec(extra)[2] == (IndexKeys::General { field: GeneralIndexField::Owner, order: 1 }),
        collection_index_keys_spec(extra)[3] == (IndexKeys::General { field: GeneralIndexField::QuanPin, order: 1 }),
        collection_index_keys_spec(extra)[4] == (IndexKeys::General { field: GeneralIndexField::JianPin, order: 1 }),
        forall|i: int|
            0 <= i < extra.len() ==> collection_index_keys_spec(extra)[5 + i] == IndexKeys::Custom(#[trigger] extra[i]),
{
    let r = collection_index_keys_spec(extra);
    assert forall|i: int| 0 <= i < extra.len() implies r[5 + i] == IndexKeys::Custom(#[trigger] extra[i]) by {
        assert(r[5 + i] == extra.map_values(|d: Document| IndexKeys::Custom(d))[i]);
    }
}

} // verus!
