//! The remote universe: all records that discovery found, grouped by the
//! stable identity that their headers state. One group is the server's view
//! of one note.

use crate::headers::{HeaderKey, HeaderParser, MissingHeaderError};
use crate::note::{
    group_header, records_view, IdentifyableNote, NoteError, RemoteNoteHeaderCollection,
    RemoteNoteMetaData, RemoteNoteMetaDataView,
};
use vstd::prelude::*;

verus! {

/// The predicate that holds of the records that state the identity `uuid`.
pub open spec fn has_uuid(uuid: Seq<char>) -> spec_fn(RemoteNoteMetaDataView) -> bool {
    |record: RemoteNoteMetaDataView| record.uuid() == Ok::<Seq<char>, MissingHeaderError>(uuid)
}

/// The identities that the records state, each once, in the order in which
/// they first occur.
pub open spec fn distinct_uuids(records: Seq<RemoteNoteMetaDataView>) -> Seq<Seq<char>>
    decreases records.len(),
{
    if records.len() == 0 {
        Seq::<Seq<char>>::empty()
    } else {
        let front = distinct_uuids(records.drop_last());
        match records.last().uuid() {
            Ok(uuid) => if front.contains(uuid) {
                front
            } else {
                front.push(uuid)
            },
            Err(_) => front,
        }
    }
}

/// The records grouped by identity: one group for each identity, in the
/// order in which the identities first occur, and in each group the records
/// that state its identity, in their order.
pub open spec fn grouped(records: Seq<RemoteNoteMetaDataView>) -> Seq<Seq<RemoteNoteMetaDataView>> {
    Seq::new(
        distinct_uuids(records).len(),
        |k: int| records.filter(has_uuid(distinct_uuids(records)[k])),
    )
}

/// An identity is among the distinct ones exactly where a record states it,
/// and none is there twice.
pub proof fn lemma_distinct_uuids(records: Seq<RemoteNoteMetaDataView>)
    ensures
        forall|uuid: Seq<char>| #[trigger]
            distinct_uuids(records).contains(uuid) <==> exists|i: int|
                0 <= i < records.len() && (#[trigger] records[i]).uuid() == Ok::<
                    Seq<char>,
                    MissingHeaderError,
                >(uuid),
        forall|a: int, b: int|
            0 <= a < b < distinct_uuids(records).len() ==> distinct_uuids(records)[a]
                != distinct_uuids(records)[b],
    decreases records.len(),
{
    if records.len() == 0 {
    } else {
        let front_records = records.drop_last();
        let front = distinct_uuids(front_records);
        lemma_distinct_uuids(front_records);
        let all = distinct_uuids(records);
        assert forall|uuid: Seq<char>| #[trigger]
            all.contains(uuid) <==> exists|i: int|
                0 <= i < records.len() && (#[trigger] records[i]).uuid() == Ok::<
                    Seq<char>,
                    MissingHeaderError,
                >(uuid) by {
            if all.contains(uuid) {
                if front.contains(uuid) {
                    let i = choose|i: int|
                        0 <= i < front_records.len() && (#[trigger] front_records[i]).uuid() == Ok::<
                            Seq<char>,
                            MissingHeaderError,
                        >(uuid);
                    assert(records[i] == front_records[i]);
                } else {
                    let k = choose|k: int| 0 <= k < all.len() && all[k] == uuid;
                    if k < front.len() {
                        assert(front[k] == uuid);
                    }
                    assert(records[records.len() - 1].uuid() == Ok::<
                        Seq<char>,
                        MissingHeaderError,
                    >(uuid));
                }
            }
            if exists|i: int|
                0 <= i < records.len() && (#[trigger] records[i]).uuid() == Ok::<
                    Seq<char>,
                    MissingHeaderError,
                >(uuid) {
                let i = choose|i: int|
                    0 <= i < records.len() && (#[trigger] records[i]).uuid() == Ok::<
                        Seq<char>,
                        MissingHeaderError,
                    >(uuid);
                if i < records.len() - 1 {
                    assert(front_records[i] == records[i]);
                    assert(front.contains(uuid));
                    let k = choose|k: int| 0 <= k < front.len() && front[k] == uuid;
                    assert(all[k] == uuid);
                } else {
                    if front.contains(uuid) {
                        let k = choose|k: int| 0 <= k < front.len() && front[k] == uuid;
                        assert(all[k] == uuid);
                    } else {
                        assert(all[all.len() - 1] == uuid);
                    }
                }
            }
        }
        assert forall|a: int, b: int| 0 <= a < b < all.len() implies all[a] != all[b] by {
            if b == front.len() {
                assert(front[a] == all[a]);
                assert(front.contains(all[a]));
            }
        }
    }
}

/// What grouping does with one more record: a record with a known identity
/// joins the group of that identity at its end, and a record with a new
/// identity opens a group of its own behind the others.
pub proof fn lemma_grouped_push(records: Seq<RemoteNoteMetaDataView>, record: RemoteNoteMetaDataView)
    requires
        record.uuid() is Ok,
    ensures
        ({
            let uuid = record.uuid()->Ok_0;
            let keys = distinct_uuids(records);
            &&& keys.contains(uuid) ==> distinct_uuids(records.push(record)) == keys && forall|
                k: int,
            |
                0 <= k < keys.len() ==> #[trigger] grouped(records.push(record))[k] == if keys[k]
                    == uuid {
                    grouped(records)[k].push(record)
                } else {
                    grouped(records)[k]
                }
            &&& !keys.contains(uuid) ==> distinct_uuids(records.push(record)) == keys.push(uuid)
                && grouped(records.push(record)) == grouped(records).push(seq![record])
        }),
{
    let uuid = record.uuid()->Ok_0;
    let keys = distinct_uuids(records);
    let more = records.push(record);
    assert(more.drop_last() =~= records);
    assert(more.last() == record);
    lemma_distinct_uuids(records);
    assert forall|k: int| 0 <= k < keys.len() implies more.filter(has_uuid(keys[k])) == if keys[k]
        == uuid {
        records.filter(has_uuid(keys[k])).push(record)
    } else {
        records.filter(has_uuid(keys[k]))
    } by {
        records.lemma_filter_push(record, has_uuid(keys[k]));
    }
    if !keys.contains(uuid) {
        records.lemma_filter_push(record, has_uuid(uuid));
        assert forall|i: int| 0 <= i < records.len() implies !has_uuid(uuid)(
            #[trigger] records[i],
        ) by {
            if records[i].uuid() == Ok::<Seq<char>, MissingHeaderError>(uuid) {
                assert(keys.contains(uuid));
            }
        }
        records.lemma_all_neg_filter_empty(has_uuid(uuid));
        assert(records.filter(has_uuid(uuid)).push(record) =~= seq![record]);
        assert forall|k: int| 0 <= k < keys.len() implies keys[k] != uuid by {
            if keys[k] == uuid {
                assert(keys.contains(uuid));
            }
        }
        assert(grouped(more) =~= grouped(records).push(seq![record]));
    }
}

/// The groups of a grouping are well formed: no group is empty, the records
/// of a group all state the group's identity, and no two groups have the
/// same identity.
pub proof fn lemma_grouped_is_well_formed(records: Seq<RemoteNoteMetaDataView>)
    ensures
        is_well_grouped(grouped(records)),
{
    lemma_distinct_uuids(records);
    let keys = distinct_uuids(records);
    let groups = grouped(records);
    assert forall|k: int| 0 <= k < groups.len() implies (#[trigger] groups[k]).len() > 0 && (forall|
        i: int,
    |
        0 <= i < groups[k].len() ==> (#[trigger] groups[k][i]).uuid() == Ok::<
            Seq<char>,
            MissingHeaderError,
        >(keys[k])) by {
        assert(keys.contains(keys[k]));
        let i = choose|i: int|
            0 <= i < records.len() && (#[trigger] records[i]).uuid() == Ok::<
                Seq<char>,
                MissingHeaderError,
            >(keys[k]);
        records.lemma_filter_contains(has_uuid(keys[k]), i);
        assert forall|j: int| 0 <= j < groups[k].len() implies (#[trigger] groups[k][j]).uuid()
            == Ok::<Seq<char>, MissingHeaderError>(keys[k]) by {
            records.lemma_filter_pred(has_uuid(keys[k]), j);
        }
    }
    assert forall|a: int, b: int| 0 <= a < b < groups.len() implies (#[trigger] groups[a])[0].uuid()
        != (#[trigger] groups[b])[0].uuid() by {
        assert(groups[a][0].uuid() == Ok::<Seq<char>, MissingHeaderError>(keys[a]));
        assert(groups[b][0].uuid() == Ok::<Seq<char>, MissingHeaderError>(keys[b]));
    }
}

/// Whether groups are well formed: no group is empty, the records of a
/// group all state one identity, and no two groups state the same.
pub open spec fn is_well_grouped(groups: Seq<Seq<RemoteNoteMetaDataView>>) -> bool {
    &&& forall|k: int| 0 <= k < groups.len() ==> (#[trigger] groups[k]).len() > 0
    &&& forall|k: int, i: int|
        0 <= k < groups.len() && 0 <= i < groups[k].len() ==> (#[trigger] groups[k][i]).uuid()
            is Ok && groups[k][i].uuid() == groups[k][0].uuid()
    &&& forall|a: int, b: int|
        0 <= a < b < groups.len() ==> (#[trigger] groups[a])[0].uuid() != (
        #[trigger] groups[b])[0].uuid()
}

/// All records that were found on the server, grouped by identity.
#[derive(Debug)]
pub struct GroupedRemoteNoteHeaders {
    pub groups: Vec<RemoteNoteHeaderCollection>,
}

impl View for GroupedRemoteNoteHeaders {
    type V = Seq<Seq<RemoteNoteMetaDataView>>;

    open spec fn view(&self) -> Seq<Seq<RemoteNoteMetaDataView>> {
        self.groups@.map_values(|g: RemoteNoteHeaderCollection| records_view(g@))
    }
}

/// The models of the groups, in their order.
pub open spec fn groups_view(groups: Seq<RemoteNoteHeaderCollection>) -> Seq<
    Seq<RemoteNoteMetaDataView>,
> {
    groups.map_values(|g: RemoteNoteHeaderCollection| records_view(g@))
}

/// Where `wanted` stands in `keys`.
fn position_of(keys: &Vec<String>, wanted: &String) -> (position: Option<usize>)
    ensures
        match position {
            Some(k) => k < keys.len() && keys.deep_view()[k as int] == wanted@,
            None => !keys.deep_view().contains(wanted@),
        },
{
    let mut k: usize = 0;
    while k < keys.len()
        invariant
            k <= keys.len(),
            forall|j: int| 0 <= j < k ==> keys.deep_view()[j] != wanted@,
        decreases keys.len() - k,
    {
        if keys[k] == *wanted {
            return Some(k);
        }
        k += 1;
    }
    None
}

/// Adds `record` at the end of the group at `k`.
fn join_group(groups: &mut Vec<RemoteNoteHeaderCollection>, k: usize, record: RemoteNoteMetaData)
    requires
        k < old(groups).len(),
    ensures
        groups_view(final(groups)@) == groups_view(old(groups)@).update(
            k as int,
            groups_view(old(groups)@)[k as int].push(record@),
        ),
{
    let ghost before = groups_view(groups@);
    let mut group = groups.remove(k);
    let ghost members = records_view(group@);
    group.push(record);
    assert(records_view(group@) =~= members.push(record@));
    groups.insert(k, group);
    assert(groups_view(groups@) =~= before.update(k as int, before[k as int].push(record@)));
}

/// Opens a group that holds `record` alone, behind the other groups.
fn open_group(groups: &mut Vec<RemoteNoteHeaderCollection>, record: RemoteNoteMetaData)
    ensures
        groups_view(final(groups)@) == groups_view(old(groups)@).push(seq![record@]),
{
    let ghost before = groups_view(groups@);
    let mut group: RemoteNoteHeaderCollection = Vec::new();
    group.push(record);
    assert(records_view(group@) =~= seq![record@]);
    groups.push(group);
    assert(groups_view(groups@) =~= before.push(seq![record@]));
}

impl GroupedRemoteNoteHeaders {
    /// Groups `records` by the identity that their headers state. A record
    /// that states none cannot be grouped, and that is an error.
    pub fn new(records: &RemoteNoteHeaderCollection) -> (grouping: Result<
        GroupedRemoteNoteHeaders,
        MissingHeaderError,
    >)
        ensures
            match grouping {
                Ok(g) => {
                    &&& forall|i: int|
                        0 <= i < records@.len() ==> (#[trigger] records_view(records@)[i]).uuid()
                            is Ok
                    &&& g@ == grouped(records_view(records@))
                    &&& is_well_grouped(g@)
                },
                Err(e) => e == (MissingHeaderError { key: HeaderKey::Uuid }) && exists|i: int|
                    0 <= i < records@.len() && (#[trigger] records_view(records@)[i]).uuid()
                        is Err,
            },
    {
        let ghost all = records_view(records@);
        let mut keys: Vec<String> = Vec::new();
        let mut groups: Vec<RemoteNoteHeaderCollection> = Vec::new();
        let mut i: usize = 0;
        proof {
            assert(all.take(0) =~= Seq::<RemoteNoteMetaDataView>::empty());
            assert(keys.deep_view() =~= distinct_uuids(all.take(0)));
            assert(groups_view(groups@) =~= grouped(all.take(0)));
        }
        while i < records.len()
            invariant
                i <= records.len(),
                all == records_view(records@),
                forall|j: int| 0 <= j < i ==> (#[trigger] all[j]).uuid() is Ok,
                keys.deep_view() == distinct_uuids(all.take(i as int)),
                groups_view(groups@) == grouped(all.take(i as int)),
            decreases records.len() - i,
        {
            let record = records[i].clone();
            assert(record@ == all[i as int]);
            let uuid = match record.headers.uuid() {
                Ok(uuid) => uuid,
                Err(e) => {
                    assert(all[i as int].uuid() is Err);
                    return Err(e);
                },
            };
            let ghost seen = all.take(i as int);
            proof {
                assert(all.take(i + 1) =~= seen.push(record@));
                lemma_grouped_push(seen, record@);
                lemma_distinct_uuids(seen);
                assert(groups_view(groups@).len() == grouped(seen).len());
                assert(groups@.len() == keys@.len());
            }
            match position_of(&keys, &uuid) {
                Some(k) => {
                    assert(keys.deep_view().contains(uuid@));
                    join_group(&mut groups, k, record);
                    assert(groups_view(groups@) =~= grouped(all.take(i + 1)));
                },
                None => {
                    let ghost before = keys.deep_view();
                    keys.push(uuid);
                    assert(keys.deep_view() =~= before.push(uuid@));
                    open_group(&mut groups, record);
                },
            }
            i += 1;
        }
        proof {
            assert(all.take(records.len() as int) =~= all);
            lemma_grouped_is_well_formed(all);
        }
        Ok(GroupedRemoteNoteHeaders { groups })
    }

    /// The number of groups, which is the number of notes on the server.
    pub fn len(&self) -> (len: usize)
        ensures
            len == self@.len(),
    {
        self.groups.len()
    }

    /// The group of the note with the identity `uuid`: the first group
    /// whose records state it.
    pub fn find(&self, uuid: &str) -> (group: Option<&RemoteNoteHeaderCollection>)
        ensures
            match group {
                Some(g) => exists|k: int|
                    is_group_of(self@, uuid@, k) && records_view(g@) == #[trigger] self@[k],
                None => forall|k: int| !is_group_of(self@, uuid@, k),
            },
    {
        let wanted = uuid.to_owned();
        let mut k: usize = 0;
        while k < self.groups.len()
            invariant
                k <= self.groups.len(),
                wanted@ == uuid@,
                forall|j: int| 0 <= j < k ==> !states_uuid(#[trigger] self@[j], uuid@),
            decreases self.groups.len() - k,
        {
            let group = &self.groups[k];
            assert(records_view(group@) == self@[k as int]);
            if group.len() > 0 {
                assert(group[0]@ == self@[k as int][0]);
                match group[0].headers.uuid() {
                    Ok(stated) => {
                        if stated == wanted {
                            assert(is_group_of(self@, uuid@, k as int));
                            return Some(group);
                        }
                    },
                    Err(_) => {},
                }
            }
            k += 1;
        }
        None
    }
}

/// Whether the records of `group` state the identity `uuid`: the group has
/// a record, and its first states it.
pub open spec fn states_uuid(group: Seq<RemoteNoteMetaDataView>, uuid: Seq<char>) -> bool {
    group.len() > 0 && group[0].uuid() == Ok::<Seq<char>, MissingHeaderError>(uuid)
}

/// Whether the group at `k` is the first whose records state the identity
/// `uuid`.
pub open spec fn is_group_of(groups: Seq<Seq<RemoteNoteMetaDataView>>, uuid: Seq<char>, k: int) -> bool {
    &&& 0 <= k < groups.len()
    &&& states_uuid(groups[k], uuid)
    &&& forall|j: int| 0 <= j < k ==> !states_uuid(#[trigger] groups[j], uuid)
}

/// The header `key` of the last group, which speaks for the whole.
pub open spec fn universe_header(groups: Seq<Seq<RemoteNoteMetaDataView>>, key: HeaderKey) -> Result<
    Seq<char>,
    NoteError,
> {
    if groups.len() == 0 {
        Err(NoteError::Empty)
    } else {
        group_header(groups.last(), key)
    }
}

impl IdentifyableNote for GroupedRemoteNoteHeaders {
    open spec fn spec_folder(&self) -> Result<Seq<char>, NoteError> {
        universe_header(self@, HeaderKey::Folder)
    }

    open spec fn spec_uuid(&self) -> Result<Seq<char>, NoteError> {
        universe_header(self@, HeaderKey::Uuid)
    }

    fn folder(&self) -> (folder: Result<String, NoteError>) {
        if self.groups.len() == 0 {
            return Err(NoteError::Empty);
        }
        let last = &self.groups[self.groups.len() - 1];
        assert(records_view(last@) == self@.last());
        last.folder()
    }

    fn uuid(&self) -> (uuid: Result<String, NoteError>) {
        if self.groups.len() == 0 {
            return Err(NoteError::Empty);
        }
        let last = &self.groups[self.groups.len() - 1];
        assert(records_view(last@) == self@.last());
        last.uuid()
    }
}

} // verus!
