use vstd::prelude::*;
use crate::catalog::{FileName, MediaItemId, StoredItem, StoredItemStore};
use crate::clock::Timestamp;
use crate::my_db::{agrees, distinct_keys, put, upsert};

verus! {

/// File names and the identifiers of the items that go by them, one
/// identifier per name.
pub type MediaItemIdByFileName = Vec<(FileName, MediaItemId)>;

/// A catalog entry: an identifier and the record filed under it.
pub type Entry = (MediaItemId, StoredItem);

/// The identifiers that are to be flagged as fetched, and those whose flag
/// is to be taken away, after the catalog was held against the files on disk.
#[derive(Debug, PartialEq, Eq)]
pub struct MarkDownloadedPartition {
    pub mark_downloaded: Vec<MediaItemId>,
    pub unmark_downloaded: Vec<MediaItemId>,
}

/// Whether `name` is among `names`.
pub open spec fn listed(names: Seq<String>, name: Seq<char>) -> bool {
    exists|i: int| 0 <= i < names.len() && (#[trigger] names[i])@ == name
}

/// Whether the entry's file is on disk while the entry is not flagged.
pub open spec fn needs_mark(fs_file_names: Seq<FileName>) -> spec_fn(Entry) -> bool {
    |e: Entry| listed(fs_file_names, e.1.filename()) && !e.1.downloaded()
}

/// Whether the entry is flagged while its file is not on disk.
pub open spec fn needs_unmark(fs_file_names: Seq<FileName>) -> spec_fn(Entry) -> bool {
    |e: Entry| !listed(fs_file_names, e.1.filename()) && e.1.downloaded()
}

/// Whether the entry is not flagged as fetched.
pub open spec fn awaits_download() -> spec_fn(Entry) -> bool {
    |e: Entry| !e.1.downloaded()
}

/// The keys of `entries`, one for one.
pub open spec fn keys_of(entries: Seq<Entry>) -> Seq<MediaItemId> {
    entries.map_values(|e: Entry| e.0)
}

/// The records of `entries`, one for one.
pub open spec fn records_of(entries: Seq<Entry>) -> Seq<StoredItem> {
    entries.map_values(|e: Entry| e.1)
}

/// The identifiers to flag, in the catalog's order.
pub open spec fn ids_to_mark(entries: Seq<Entry>, fs_file_names: Seq<FileName>) -> Seq<
    MediaItemId,
> {
    keys_of(entries.filter(needs_mark(fs_file_names)))
}

/// The identifiers to unflag, in the catalog's order.
pub open spec fn ids_to_unmark(entries: Seq<Entry>, fs_file_names: Seq<FileName>) -> Seq<
    MediaItemId,
> {
    keys_of(entries.filter(needs_unmark(fs_file_names)))
}

/// The records that are not flagged as fetched, in the catalog's order.
pub open spec fn undownloaded(entries: Seq<Entry>) -> Seq<StoredItem> {
    records_of(entries.filter(awaits_download()))
}

/// The smaller of `limit` and `available`.
pub open spec fn at_most(limit: nat, available: nat) -> nat {
    if limit < available {
        limit
    } else {
        available
    }
}

/// `entries` with every record whose key is among `ids` flagged as fetched
/// at `now`.
pub open spec fn marked_at(entries: Seq<Entry>, ids: Seq<MediaItemId>, now: Timestamp) -> Seq<
    Entry,
> {
    entries.map_values(
        |e: Entry|
            if listed(ids, e.0@) {
                (e.0, e.1.flagged(now))
            } else {
                e
            },
    )
}

/// `entries` with the flag taken from every record whose key is among `ids`.
pub open spec fn unmarked(entries: Seq<Entry>, ids: Seq<MediaItemId>) -> Seq<Entry> {
    entries.map_values(
        |e: Entry|
            if listed(ids, e.0@) {
                (e.0, e.1.unflagged())
            } else {
                e
            },
    )
}

/// The table from file name to identifier that `entries` give: each entry
/// in turn files its identifier under its file name, a later one in the place
/// of an earlier one of the same name.
pub open spec fn ids_by_file_name(entries: Seq<Entry>) -> Seq<(FileName, MediaItemId)>
    decreases entries.len(),
{
    if entries.len() == 0 {
        Seq::empty()
    } else {
        upsert(
            ids_by_file_name(entries.drop_last()),
            entries.last().1.filename_string(),
            entries.last().1.media_item.id,
        )
    }
}

/// Whether `name` is among `names`.
pub fn contains_name(names: &Vec<String>, name: &String) -> (found: bool)
    ensures
        found == listed(names@, name@),
{
    let mut i: usize = 0;
    while i < names.len()
        invariant
            0 <= i <= names.len(),
            forall|j: int| 0 <= j < i ==> (#[trigger] names@[j])@ != name@,
        decreases names.len() - i,
    {
        if names[i] == *name {
            return true;
        }
        i += 1;
    }
    false
}

/// Flagging and unflagging leave every key where it is.
pub proof fn lemma_marking_keeps_keys(entries: Seq<Entry>, ids: Seq<MediaItemId>, now: Timestamp)
    ensures
        keys_of(marked_at(entries, ids, now)) == keys_of(entries),
        keys_of(unmarked(entries, ids)) == keys_of(entries),
        distinct_keys(entries) ==> distinct_keys(marked_at(entries, ids, now)),
        distinct_keys(entries) ==> distinct_keys(unmarked(entries, ids)),
{
    assert(keys_of(marked_at(entries, ids, now)) =~= keys_of(entries));
    assert(keys_of(unmarked(entries, ids)) =~= keys_of(entries));
    if distinct_keys(entries) {
        let m = marked_at(entries, ids, now);
        assert forall|i: int, j: int| 0 <= i < j < m.len() implies (#[trigger] m[i]).0@ != (
        #[trigger] m[j]).0@ by {
            assert(entries[i].0@ != entries[j].0@);
        }
        let u = unmarked(entries, ids);
        assert forall|i: int, j: int| 0 <= i < j < u.len() implies (#[trigger] u[i]).0@ != (
        #[trigger] u[j]).0@ by {
            assert(entries[i].0@ != entries[j].0@);
        }
    }
}

/// Whether no identifier occurs twice in `ids`.
pub open spec fn distinct_ids(ids: Seq<MediaItemId>) -> bool {
    forall|i: int, j: int| 0 <= i < j < ids.len() ==> (#[trigger] ids[i])@ != (#[trigger] ids[j])@
}

/// Whether no identifier occurs both in `a` and in `b`.
pub open spec fn disjoint_ids(a: Seq<MediaItemId>, b: Seq<MediaItemId>) -> bool {
    forall|i: int, j: int|
        0 <= i < a.len() && 0 <= j < b.len() ==> (#[trigger] a[i])@ != (#[trigger] b[j])@
}

/// What a predicate keeps of entries with distinct keys has distinct keys,
/// and each entry kept is an entry of the catalog that the predicate holds of.
pub proof fn lemma_kept_entries(entries: Seq<Entry>, pred: spec_fn(Entry) -> bool)
    ensures
        forall|j: int|
            0 <= j < entries.filter(pred).len() ==> pred(#[trigger] entries.filter(pred)[j])
                && entries.contains(entries.filter(pred)[j]),
        distinct_keys(entries) ==> distinct_keys(entries.filter(pred)),
    decreases entries.len(),
{
    reveal(Seq::filter);
    let kept = entries.filter(pred);
    if entries.len() > 0 {
        let front = entries.drop_last();
        let last = entries.last();
        lemma_kept_entries(front, pred);
        assert forall|j: int| 0 <= j < kept.len() implies pred(#[trigger] kept[j])
            && entries.contains(kept[j]) by {
            if j < front.filter(pred).len() {
                let e = front.filter(pred)[j];
                assert(front.contains(e));
                let at = choose|at: int| 0 <= at < front.len() && front[at] == e;
                assert(entries[at] == e);
            } else {
                assert(entries[entries.len() - 1] == last);
            }
        }
        if distinct_keys(entries) {
            assert(distinct_keys(front)) by {
                assert forall|i: int, j: int| 0 <= i < j < front.len() implies (
                #[trigger] front[i]).0@ != (#[trigger] front[j]).0@ by {
                    assert(entries[i].0@ != entries[j].0@);
                }
            }
            assert forall|i: int, j: int| 0 <= i < j < kept.len() implies (#[trigger] kept[i]).0@
                != (#[trigger] kept[j]).0@ by {
                if j < front.filter(pred).len() {
                    assert(front.filter(pred)[i].0@ != front.filter(pred)[j].0@);
                } else {
                    let e = front.filter(pred)[i];
                    assert(front.contains(e));
                    let at = choose|at: int| 0 <= at < front.len() && front[at] == e;
                    assert(entries[at].0@ != entries[entries.len() - 1].0@);
                }
            }
        }
    }
}

/// No identifier is both to be flagged and to be unflagged, and none is
/// named twice in either list, whatever the catalog and the files on disk.
pub proof fn lemma_partition_disjoint(entries: Seq<Entry>, fs_file_names: Seq<FileName>)
    requires
        distinct_keys(entries),
    ensures
        disjoint_ids(ids_to_mark(entries, fs_file_names), ids_to_unmark(entries, fs_file_names)),
        distinct_ids(ids_to_mark(entries, fs_file_names)),
        distinct_ids(ids_to_unmark(entries, fs_file_names)),
{
    let to_mark = entries.filter(needs_mark(fs_file_names));
    let to_unmark = entries.filter(needs_unmark(fs_file_names));
    lemma_kept_entries(entries, needs_mark(fs_file_names));
    lemma_kept_entries(entries, needs_unmark(fs_file_names));
    let mark = ids_to_mark(entries, fs_file_names);
    let unmark = ids_to_unmark(entries, fs_file_names);
    assert forall|i: int, j: int| 0 <= i < mark.len() && 0 <= j < unmark.len() implies (
    #[trigger] mark[i])@ != (#[trigger] unmark[j])@ by {
        let a = to_mark[i];
        let b = to_unmark[j];
        assert(entries.contains(a) && needs_mark(fs_file_names)(a));
        assert(entries.contains(b) && needs_unmark(fs_file_names)(b));
        let x = choose|x: int| 0 <= x < entries.len() && entries[x] == a;
        let y = choose|y: int| 0 <= y < entries.len() && entries[y] == b;
        if x < y {
            assert(entries[x].0@ != entries[y].0@);
        } else if y < x {
            assert(entries[y].0@ != entries[x].0@);
        }
    }
    assert forall|i: int, j: int| 0 <= i < j < mark.len() implies (#[trigger] mark[i])@ != (
    #[trigger] mark[j])@ by {
        assert(to_mark[i].0@ != to_mark[j].0@);
    }
    assert forall|i: int, j: int| 0 <= i < j < unmark.len() implies (#[trigger] unmark[i])@ != (
    #[trigger] unmark[j])@ by {
        assert(to_unmark[i].0@ != to_unmark[j].0@);
    }
}

/// What a catalog of stored items offers to the program that keeps it in
/// step with the remote side and with the disk.
pub trait AppStorage {
    /// The catalog's entries, in its order.
    spec fn catalog(&self) -> Seq<Entry>;

    /// Whether the catalog holds each identifier once.
    spec fn valid(&self) -> bool;

    /// The identifier that each file name on disk stands for.
    fn get_media_item_id_by_file_name(&self) -> (table: MediaItemIdByFileName)
        ensures
            table@ == ids_by_file_name(self.catalog()),
            distinct_keys(table@),
    ;

    /// Copies of the first `limit` records that are not flagged as fetched,
    /// or of all such records where there are fewer.
    fn select_files_for_download(&self, limit: usize) -> (selection: Vec<StoredItem>)
        ensures
            selection@ == undownloaded(self.catalog()).take(
                at_most(limit as nat, undownloaded(self.catalog()).len()) as int,
            ),
            forall|i: int| 0 <= i < selection@.len() ==> !(#[trigger] selection@[i]).downloaded(),
    ;

    /// Flags every record whose identifier is among `media_item_ids` as
    /// fetched at `now`.
    fn mark_downloaded_at(&mut self, media_item_ids: &Vec<MediaItemId>, now: Timestamp)
        ensures
            final(self).catalog() == marked_at(old(self).catalog(), media_item_ids@, now),
            old(self).valid() ==> final(self).valid(),
    ;

    /// Flags every record whose identifier is among `media_item_ids` as
    /// fetched at the time that the system clock shows.
    fn mark_downloaded(&mut self, media_item_ids: &Vec<MediaItemId>)
        ensures
            exists|now: Timestamp|
                final(self).catalog() == #[trigger] marked_at(
                    old(self).catalog(),
                    media_item_ids@,
                    now,
                ),
            old(self).valid() ==> final(self).valid(),
    ;

    /// Takes the flag from every record whose identifier is among
    /// `media_item_ids`.
    fn unmark_downloaded(&mut self, media_item_ids: &Vec<MediaItemId>)
        ensures
            final(self).catalog() == unmarked(old(self).catalog(), media_item_ids@),
            old(self).valid() ==> final(self).valid(),
    ;

    /// Holds the catalog against the names of the files on disk: an entry
    /// whose file is there and which is not flagged is to be flagged; an entry
    /// which is flagged and whose file is not there is to be unflagged.
    fn partition_by_marked_download(&self, fs_file_names: &Vec<FileName>) -> (partition:
        MarkDownloadedPartition)
        ensures
            partition.mark_downloaded@ == ids_to_mark(self.catalog(), fs_file_names@),
            partition.unmark_downloaded@ == ids_to_unmark(self.catalog(), fs_file_names@),
            self.valid() ==> disjoint_ids(partition.mark_downloaded@, partition.unmark_downloaded@),
    ;
}

impl AppStorage for StoredItemStore {
    open spec fn catalog(&self) -> Seq<Entry> {
        self@
    }

    open spec fn valid(&self) -> bool {
        self.wf()
    }

    fn partition_by_marked_download(&self, fs_file_names: &Vec<FileName>) -> (partition:
        MarkDownloadedPartition) {
        let mut partition = MarkDownloadedPartition {
            mark_downloaded: Vec::new(),
            unmark_downloaded: Vec::new(),
        };
        let ghost names = fs_file_names@;
        proof {
            self@.take(0).lemma_filter_len(needs_mark(names));
            self@.take(0).lemma_filter_len(needs_unmark(names));
            assert(partition.mark_downloaded@ =~= ids_to_mark(self@.take(0), names));
            assert(partition.unmark_downloaded@ =~= ids_to_unmark(self@.take(0), names));
        }
        let mut i: usize = 0;
        while i < self.data.len()
            invariant
                0 <= i <= self.data.len(),
                names == fs_file_names@,
                partition.mark_downloaded@ == ids_to_mark(self@.take(i as int), names),
                partition.unmark_downloaded@ == ids_to_unmark(self@.take(i as int), names),
            decreases self.data.len() - i,
        {
            let name = self.data[i].1.get_filename();
            let is_in_fs = contains_name(fs_file_names, &name);
            let is_marked = self.data[i].1.is_marked_downloaded();
            proof {
                let e = self@[i as int];
                let head = self@.take(i as int);
                assert(self@.take(i + 1) =~= head.push(e));
                head.lemma_filter_push(e, needs_mark(names));
                head.lemma_filter_push(e, needs_unmark(names));
                assert(keys_of(head.filter(needs_mark(names)).push(e)) =~= keys_of(
                    head.filter(needs_mark(names)),
                ).push(e.0));
                assert(keys_of(head.filter(needs_unmark(names)).push(e)) =~= keys_of(
                    head.filter(needs_unmark(names)),
                ).push(e.0));
            }
            if is_in_fs && !is_marked {
                partition.mark_downloaded.push(self.data[i].0.clone());
            }
            if !is_in_fs && is_marked {
                partition.unmark_downloaded.push(self.data[i].0.clone());
            }
            i += 1;
        }
        proof {
            assert(self@.take(i as int) =~= self@);
            if self.wf() {
                lemma_partition_disjoint(self@, names);
            }
        }
        partition
    }

    fn get_media_item_id_by_file_name(&self) -> (table: MediaItemIdByFileName) {
        let mut table: MediaItemIdByFileName = Vec::new();
        let mut i: usize = 0;
        while i < self.data.len()
            invariant
                0 <= i <= self.data.len(),
                distinct_keys(table@),
                table@ == ids_by_file_name(self@.take(i as int)),
            decreases self.data.len() - i,
        {
            proof {
                assert(self@.take(i + 1).drop_last() =~= self@.take(i as int));
            }
            let name = self.data[i].1.get_filename();
            let id = self.data[i].1.media_item.id.clone();
            put(&mut table, &name, id);
            i += 1;
        }
        proof {
            assert(self@.take(i as int) =~= self@);
        }
        table
    }

    fn select_files_for_download(&self, limit: usize) -> (selection: Vec<StoredItem>) {
        let not_yet = |entry: &(&String, &StoredItem)| -> (wanted: bool)
            ensures
                wanted == !entry.1.downloaded(),
            { !entry.1.is_marked_downloaded() };
        let selection = self.filter_values(not_yet, Some(limit));
        proof {
            assert(agrees(not_yet, self@, awaits_download()));
            let waiting = self@.filter(awaits_download());
            let n = at_most(limit as nat, undownloaded(self@).len()) as int;
            assert(selection@ =~= undownloaded(self@).take(n));
            broadcast use vstd::seq_lib::group_filter_ensures;
        }
        selection
    }

    fn mark_downloaded_at(&mut self, media_item_ids: &Vec<MediaItemId>, now: Timestamp)
        ensures
            final(self).path == old(self).path,
            final(self).last_save_at == old(self).last_save_at,
    {
        let mut i: usize = 0;
        while i < self.data.len()
            invariant
                0 <= i <= self.data.len(),
                self@.len() == old(self)@.len(),
                self.path == old(self).path,
                self.last_save_at == old(self).last_save_at,
                forall|j: int|
                    0 <= j < i ==> #[trigger] self@[j] == marked_at(old(self)@, media_item_ids@, now)[j],
                forall|j: int| i <= j < self@.len() ==> #[trigger] self@[j] == old(self)@[j],
            decreases self.data.len() - i,
        {
            if contains_name(media_item_ids, &self.data[i].0) {
                self.data[i].1.mark_downloaded_at(now);
            }
            i += 1;
        }
        proof {
            assert(self@ =~= marked_at(old(self)@, media_item_ids@, now));
            lemma_marking_keeps_keys(old(self)@, media_item_ids@, now);
        }
    }

    fn mark_downloaded(&mut self, media_item_ids: &Vec<MediaItemId>)
        ensures
            final(self).path == old(self).path,
            final(self).last_save_at == old(self).last_save_at,
    {
        self.mark_downloaded_at(media_item_ids, Timestamp::now());
    }

    fn unmark_downloaded(&mut self, media_item_ids: &Vec<MediaItemId>)
        ensures
            final(self).path == old(self).path,
            final(self).last_save_at == old(self).last_save_at,
    {
        let mut i: usize = 0;
        while i < self.data.len()
            invariant
                0 <= i <= self.data.len(),
                self@.len() == old(self)@.len(),
                self.path == old(self).path,
                self.last_save_at == old(self).last_save_at,
                forall|j: int|
                    0 <= j < i ==> #[trigger] self@[j] == unmarked(old(self)@, media_item_ids@)[j],
                forall|j: int| i <= j < self@.len() ==> #[trigger] self@[j] == old(self)@[j],
            decreases self.data.len() - i,
        {
            if contains_name(media_item_ids, &self.data[i].0) {
                self.data[i].1.unmark_downloaded();
            }
            i += 1;
        }
        proof {
            assert(self@ =~= unmarked(old(self)@, media_item_ids@));
            lemma_marking_keeps_keys(old(self)@, media_item_ids@, Timestamp { millis: 0 });
        }
    }
}

} // verus!
