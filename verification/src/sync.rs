use vstd::prelude::*;
use vstd::string::*;
use crate::app_storage::{
    contains_name,
    ids_to_mark,
    ids_to_unmark,
    lemma_marking_keeps_keys,
    listed,
    marked_at,
    unmarked,
    AppStorage,
    Entry,
    MarkDownloadedPartition,
};
use crate::catalog::{FileName, HasMediaItemId, MediaItem, MediaItemId, StoredItem, StoredItemStore};
use crate::clock::Timestamp;
use crate::config::FixMarkDownloadedInfo;
use crate::my_db::{distinct_keys, lemma_upsert, lookup, position_of, put, upsert};
use crate::text::{decimal, decimal_string, lemma_numbered_name_unique};

verus! {

/// The largest number of items that one round of fetching takes on.
pub const NUMBER_OF_FILES_PER_BATCH: i32 = 50;

/// The record that stands for `media_item` once it has been merged: the
/// notes of the record that was there are kept, a new record has none.
pub open spec fn merged_record(existing: Option<StoredItem>, media_item: MediaItem) -> StoredItem {
    match existing {
        Some(record) => StoredItem { media_item, ..record },
        None => StoredItem { media_item, app_data: None, alt_filename: None },
    }
}

/// The catalog after `media_item` has been merged into it.
pub open spec fn merge_one(entries: Seq<Entry>, media_item: MediaItem) -> Seq<Entry> {
    upsert(entries, media_item.id, merged_record(lookup(entries, media_item.id@), media_item))
}

/// The catalog after each of `media_items` has been merged into it, first
/// to last.
pub open spec fn merge_all(entries: Seq<Entry>, media_items: Seq<MediaItem>) -> Seq<Entry>
    decreases media_items.len(),
{
    if media_items.len() == 0 {
        entries
    } else {
        merge_one(merge_all(entries, media_items.drop_last()), media_items.last())
    }
}

/// The records filed under `ids`, in the order of `ids`; an identifier that
/// the catalog does not hold gives none.
pub open spec fn records_for(entries: Seq<Entry>, ids: Seq<MediaItemId>) -> Seq<StoredItem>
    decreases ids.len(),
{
    if ids.len() == 0 {
        Seq::empty()
    } else {
        let front = records_for(entries, ids.drop_last());
        match lookup(entries, ids.last()@) {
            Some(record) => front.push(record),
            None => front,
        }
    }
}

/// For each of `media_items` that the catalog holds, in their order, the
/// catalog's record with the item itself in the place of its older
/// description.
pub open spec fn refreshed(entries: Seq<Entry>, media_items: Seq<MediaItem>) -> Seq<StoredItem>
    decreases media_items.len(),
{
    if media_items.len() == 0 {
        Seq::empty()
    } else {
        let front = refreshed(entries, media_items.drop_last());
        match lookup(entries, media_items.last().id@) {
            Some(record) => front.push(StoredItem { media_item: media_items.last(), ..record }),
            None => front,
        }
    }
}

/// The identifiers of those of `media_items` that are reported as fetched,
/// in the order of `media_items`.
pub open spec fn fetched_ids(media_items: Seq<MediaItem>, downloaded_ids: Seq<MediaItemId>) -> Seq<
    MediaItemId,
>
    decreases media_items.len(),
{
    if media_items.len() == 0 {
        Seq::empty()
    } else {
        let front = fetched_ids(media_items.drop_last(), downloaded_ids);
        if listed(downloaded_ids, media_items.last().id@) {
            front.push(media_items.last().id)
        } else {
            front
        }
    }
}

/// The sizes of the rounds in which `num_files` items are fetched: full
/// rounds first, then one for what is left. Nothing is fetched for a number
/// that is not positive.
pub open spec fn batch_plan(num_files: int) -> Seq<i32> {
    if num_files <= 0 {
        Seq::empty()
    } else {
        let full = Seq::new(
            (num_files / (NUMBER_OF_FILES_PER_BATCH as int)) as nat,
            |i: int| NUMBER_OF_FILES_PER_BATCH,
        );
        if num_files % (NUMBER_OF_FILES_PER_BATCH as int) > 0 {
            full.push((num_files % (NUMBER_OF_FILES_PER_BATCH as int)) as i32)
        } else {
            full
        }
    }
}

/// The catalog after its flags were brought in line with the files named
/// `fs_file_names`, in the directions that `switches` allow.
pub open spec fn reconciled(
    entries: Seq<Entry>,
    fs_file_names: Seq<FileName>,
    switches: FixMarkDownloadedInfo,
    now: Timestamp,
) -> Seq<Entry> {
    let flagged = if switches.mark_downloaded {
        marked_at(entries, ids_to_mark(entries, fs_file_names), now)
    } else {
        entries
    };
    if switches.unmark_downloaded {
        unmarked(flagged, ids_to_unmark(entries, fs_file_names))
    } else {
        flagged
    }
}

/// The base file name of the entry at `k`: the one that the remote side
/// suggests.
pub open spec fn base_name(entries: Seq<Entry>, k: int) -> Seq<char> {
    entries[k].1.media_item.filename@
}

/// How many of the first `upto` entries have the base file name `base`.
pub open spec fn count_same(entries: Seq<Entry>, base: Seq<char>, upto: int) -> nat
    decreases upto,
{
    if upto <= 0 {
        0
    } else {
        count_same(entries, base, upto - 1) + if base_name(entries, upto - 1) == base {
            1nat
        } else {
            0nat
        }
    }
}

/// The place of the entry at `k` among the entries of its base file name,
/// counted from 0 in the catalog's order.
pub open spec fn rank(entries: Seq<Entry>, k: int) -> nat {
    count_same(entries, base_name(entries, k), k)
}

/// How many entries share the base file name of the entry at `k`.
pub open spec fn group_size(entries: Seq<Entry>, k: int) -> nat {
    count_same(entries, base_name(entries, k), entries.len() as int)
}

/// The file name given to the entry at place `i` among those of the base
/// file name `base`.
pub open spec fn prefixed(i: nat, base: Seq<char>) -> Seq<char> {
    decimal(i) + seq!['_'] + base
}

/// The characters of an optional name.
pub open spec fn name_view(name: Option<String>) -> Option<Seq<char>> {
    match name {
        Some(text) => Some(text@),
        None => None,
    }
}

/// The alternative file name that the entry at `k` has after colliding
/// names were resolved: the one it had; else, where its base file name is
/// shared, its place among the sharers, an underscore and the base file name.
pub open spec fn resolved_alt_name(entries: Seq<Entry>, k: int) -> Option<Seq<char>> {
    match entries[k].1.alt_filename {
        Some(name) => Some(name@),
        None => if group_size(entries, k) > 1 {
            Some(prefixed(rank(entries, k), base_name(entries, k)))
        } else {
            None
        },
    }
}

/// The file name that the entry at `k` goes by after colliding names were
/// resolved.
pub open spec fn resolved_name(entries: Seq<Entry>, k: int) -> Seq<char> {
    match resolved_alt_name(entries, k) {
        Some(name) => name,
        None => base_name(entries, k),
    }
}

/// Whether `after` is the entry at `k` of `before` with its colliding name
/// resolved and nothing else changed.
pub open spec fn entry_resolved(before: Seq<Entry>, k: int, after: Entry) -> bool {
    &&& after.0 == before[k].0
    &&& after.1.media_item == before[k].1.media_item
    &&& after.1.app_data == before[k].1.app_data
    &&& name_view(after.1.alt_filename) == resolved_alt_name(before, k)
    &&& before[k].1.alt_filename is Some ==> after.1 == before[k].1
}

/// Whether `after` is `before` with colliding file names resolved.
pub open spec fn deduplicated(before: Seq<Entry>, after: Seq<Entry>) -> bool {
    &&& after.len() == before.len()
    &&& forall|k: int| 0 <= k < before.len() ==> entry_resolved(before, k, #[trigger] after[k])
}

/// Merging a description a second time changes nothing: the catalog holds
/// each identifier once, and under the identifier of the description a record
/// that carries it.
pub proof fn lemma_merge_idempotent(entries: Seq<Entry>, media_item: MediaItem)
    requires
        distinct_keys(entries),
    ensures
        merge_one(merge_one(entries, media_item), media_item) == merge_one(entries, media_item),
        distinct_keys(merge_one(entries, media_item)),
        lookup(merge_one(entries, media_item), media_item.id@) matches Some(record)
            && record.media_item == media_item,
{
    let first = merged_record(lookup(entries, media_item.id@), media_item);
    let once = merge_one(entries, media_item);
    lemma_upsert(entries, media_item.id, first);
    let at = position_of(once, media_item.id@);
    assert(0 <= at < once.len() && once[at].0@ == media_item.id@);
    assert(merged_record(Some(first), media_item) == first);
    assert(merge_one(once, media_item) =~= once);
}

/// Of two descriptions under one identifier that are merged one after the
/// other, the later one stands: the catalog holds the identifier once, with
/// the later description, and with the notes that the earlier merge kept.
pub proof fn lemma_merge_latest_stands(entries: Seq<Entry>, earlier: MediaItem, later: MediaItem)
    requires
        distinct_keys(entries),
        earlier.id@ == later.id@,
    ensures
        distinct_keys(merge_one(merge_one(entries, earlier), later)),
        merge_one(merge_one(entries, earlier), later).len() == merge_one(entries, earlier).len(),
        lookup(merge_one(merge_one(entries, earlier), later), later.id@) == Some(
            StoredItem { media_item: later, ..merged_record(lookup(entries, earlier.id@), earlier) },
        ),
{
    let first = merged_record(lookup(entries, earlier.id@), earlier);
    let once = merge_one(entries, earlier);
    lemma_upsert(entries, earlier.id, first);
    lemma_upsert(once, later.id, merged_record(lookup(once, later.id@), later));
}

/// Counting by base file name looks at base file names only.
pub proof fn lemma_count_same_by_base(a: Seq<Entry>, b: Seq<Entry>, base: Seq<char>, upto: int)
    requires
        a.len() == b.len(),
        upto <= a.len(),
        forall|j: int| 0 <= j < a.len() ==> base_name(a, j) == base_name(b, j),
    ensures
        count_same(a, base, upto) == count_same(b, base, upto),
        count_same(a, base, upto) <= if upto < 0 { 0 } else { upto },
    decreases upto,
{
    if upto > 0 {
        lemma_count_same_by_base(a, b, base, upto - 1);
    }
}

/// Counting further never counts less, and counts one more at least past
/// an entry of the base file name that is counted.
pub proof fn lemma_count_same_grows(entries: Seq<Entry>, base: Seq<char>, from: int, upto: int)
    requires
        0 <= from <= upto,
    ensures
        count_same(entries, base, from) <= count_same(entries, base, upto),
        from < upto && base_name(entries, from) == base ==> count_same(entries, base, from)
            < count_same(entries, base, upto),
    decreases upto - from,
{
    if from < upto {
        lemma_count_same_grows(entries, base, from, upto - 1);
    }
}

/// Whether the entry at `k` goes by a name that resolving does not make:
/// it had an alternative name already, or shares its base file name with none.
pub open spec fn keeps_name(entries: Seq<Entry>, k: int) -> bool {
    entries[k].1.alt_filename is Some || group_size(entries, k) <= 1
}

/// Whether no two entries go by one file name once colliding names were
/// resolved.
pub open spec fn names_resolved_apart(entries: Seq<Entry>) -> bool {
    forall|a: int, b: int|
        0 <= a < b < entries.len() ==> #[trigger] resolved_name(entries, a) != #[trigger] resolved_name(
            entries,
            b,
        )
}

/// Whether no name that resolving leaves as it finds it is also the name of
/// another entry once colliding names were resolved.
pub open spec fn kept_names_stand_apart(entries: Seq<Entry>) -> bool {
    forall|a: int, b: int|
        0 <= a < entries.len() && 0 <= b < entries.len() && a != b && keeps_name(entries, a)
            ==> #[trigger] resolved_name(entries, a) != #[trigger] resolved_name(entries, b)
}

/// Two names that resolving makes are never alike.
pub proof fn lemma_made_names_differ(entries: Seq<Entry>, a: int, b: int)
    requires
        0 <= a < b < entries.len(),
        !keeps_name(entries, a),
        !keeps_name(entries, b),
    ensures
        resolved_name(entries, a) != resolved_name(entries, b),
{
    if resolved_name(entries, a) == resolved_name(entries, b) {
        lemma_numbered_name_unique(
            rank(entries, a),
            base_name(entries, a),
            rank(entries, b),
            base_name(entries, b),
        );
        lemma_count_same_grows(entries, base_name(entries, a), a, b);
    }
}

/// After colliding names were resolved no two entries go by one file name,
/// on every catalog in which the names that resolving leaves as it finds
/// them clash with no other; on every other catalog two entries do.
pub proof fn lemma_dedup_injective(entries: Seq<Entry>)
    ensures
        names_resolved_apart(entries) <==> kept_names_stand_apart(entries),
{
    if kept_names_stand_apart(entries) {
        assert forall|a: int, b: int| 0 <= a < b < entries.len() implies #[trigger] resolved_name(
            entries,
            a,
        ) != #[trigger] resolved_name(entries, b) by {
            if keeps_name(entries, a) {
            } else if keeps_name(entries, b) {
                assert(resolved_name(entries, b) != resolved_name(entries, a));
            } else {
                lemma_made_names_differ(entries, a, b);
            }
        }
    }
    if names_resolved_apart(entries) {
        assert forall|a: int, b: int|
            0 <= a < entries.len() && 0 <= b < entries.len() && a != b && keeps_name(
                entries,
                a,
            ) implies #[trigger] resolved_name(entries, a) != #[trigger] resolved_name(
            entries,
            b,
        ) by {
            if a < b {
                assert(resolved_name(entries, a) != resolved_name(entries, b));
            } else {
                assert(resolved_name(entries, b) != resolved_name(entries, a));
            }
        }
    }
}

/// The file names of a catalog whose colliding names were resolved are the
/// resolved names of the catalog before.
pub proof fn lemma_deduplicated_names(before: Seq<Entry>, after: Seq<Entry>)
    requires
        deduplicated(before, after),
    ensures
        forall|k: int|
            0 <= k < after.len() ==> (#[trigger] after[k]).1.filename() == resolved_name(before, k),
{
    assert forall|k: int| 0 <= k < after.len() implies (#[trigger] after[k]).1.filename()
        == resolved_name(before, k) by {
        assert(entry_resolved(before, k, after[k]));
    }
}

/// The catalog, and with it the steps of keeping it in step with the remote
/// side. Fetching from the remote side and writing to disk are the caller's.
#[derive(Debug, PartialEq, Eq)]
pub struct App {
    pub storage: StoredItemStore,
}

/// How many of the first `upto` entries of `data` have the base file name
/// of the entry at `k`.
fn count_same_base(data: &Vec<Entry>, k: usize, upto: usize) -> (count: usize)
    requires
        k < data@.len(),
        upto <= data@.len(),
    ensures
        count == count_same(data@, base_name(data@, k as int), upto as int),
{
    let mut count: usize = 0;
    let mut j: usize = 0;
    while j < upto
        invariant
            k < data@.len(),
            0 <= j <= upto <= data@.len(),
            count <= j,
            count == count_same(data@, base_name(data@, k as int), j as int),
        decreases upto - j,
    {
        if data[j].1.media_item.filename == data[k].1.media_item.filename {
            count += 1;
        }
        j += 1;
    }
    count
}

/// The name for place `i` among the items that share the name `base`.
pub fn prefixed_name(i: usize, base: &String) -> (name: String)
    ensures
        name@ == prefixed(i as nat, base@),
{
    let mut name = decimal_string(i);
    proof {
        reveal_strlit("_");
    }
    name.append("_");
    name.append(base.as_str());
    assert(name@ =~= prefixed(i as nat, base@));
    name
}

/// The sizes of the rounds in which `num_files` items are fetched.
pub fn batch_sizes(num_files: i32) -> (sizes: Vec<i32>)
    ensures
        sizes@ == batch_plan(num_files as int),
{
    let mut sizes: Vec<i32> = Vec::new();
    if num_files <= 0 {
        return sizes;
    }
    let groups: i32 = num_files / NUMBER_OF_FILES_PER_BATCH;
    let remainder: i32 = num_files % NUMBER_OF_FILES_PER_BATCH;
    let mut i: i32 = 0;
    while i < groups
        invariant
            0 <= i <= groups,
            sizes@ == Seq::new(i as nat, |j: int| NUMBER_OF_FILES_PER_BATCH),
        decreases groups - i,
    {
        sizes.push(NUMBER_OF_FILES_PER_BATCH);
        i += 1;
    }
    if remainder > 0 {
        sizes.push(remainder);
    }
    sizes
}

impl App {
    /// The program's state round the catalog `storage`.
    pub fn new(storage: StoredItemStore) -> (app: App)
        ensures
            app.storage == storage,
    {
        App { storage }
    }

    /// Copies of the records filed under `ids`, in the order of `ids`.
    pub fn get_stored_items_by_ids(&self, ids: &Vec<MediaItemId>) -> (stored_items: Vec<StoredItem>)
        requires
            self.storage.wf(),
        ensures
            stored_items@ == records_for(self.storage@, ids@),
    {
        let mut stored_items: Vec<StoredItem> = Vec::new();
        let mut i: usize = 0;
        while i < ids.len()
            invariant
                self.storage.wf(),
                0 <= i <= ids.len(),
                stored_items@ == records_for(self.storage@, ids@.take(i as int)),
            decreases ids.len() - i,
        {
            proof {
                assert(ids@.take(i + 1).drop_last() =~= ids@.take(i as int));
            }
            match self.storage.get_cloned(&ids[i]) {
                Some(record) => stored_items.push(record),
                None => {},
            }
            i += 1;
        }
        proof {
            assert(ids@.take(i as int) =~= ids@);
        }
        stored_items
    }

    /// What is to be fetched after the remote side has described the chosen
    /// items anew: for each of `media_items` that the catalog holds, the
    /// catalog's record with the new description, whose address is fresh.
    pub fn refreshed_items(&self, media_items: &Vec<MediaItem>) -> (stored_items: Vec<StoredItem>)
        requires
            self.storage.wf(),
        ensures
            stored_items@ == refreshed(self.storage@, media_items@),
    {
        let mut stored_items: Vec<StoredItem> = Vec::new();
        let mut i: usize = 0;
        while i < media_items.len()
            invariant
                self.storage.wf(),
                0 <= i <= media_items.len(),
                stored_items@ == refreshed(self.storage@, media_items@.take(i as int)),
            decreases media_items.len() - i,
        {
            proof {
                assert(media_items@.take(i + 1).drop_last() =~= media_items@.take(i as int));
            }
            match self.storage.get_cloned(&media_items[i].id) {
                Some(record) => {
                    let mut record = record;
                    record.media_item = media_items[i].clone();
                    stored_items.push(record);
                },
                None => {},
            }
            i += 1;
        }
        proof {
            assert(media_items@.take(i as int) =~= media_items@);
        }
        stored_items
    }

    /// Merges one description from the remote side into the catalog.
    pub fn merge(&mut self, media_item: MediaItem)
        requires
            old(self).storage.wf(),
        ensures
            final(self).storage.wf(),
            final(self).storage@ == merge_one(old(self).storage@, media_item),
            final(self).storage.path == old(self).storage.path,
            final(self).storage.last_save_at == old(self).storage.last_save_at,
    {
        let id = media_item.get_media_item_id();
        let record = match self.storage.get_cloned(&id) {
            Some(stored_item) => {
                let mut stored_item = stored_item;
                stored_item.media_item = media_item;
                stored_item
            },
            None => StoredItem::new(media_item),
        };
        put(&mut self.storage.data, &id, record);
    }

    /// Gives every record whose base file name is shared, and which has no
    /// alternative file name yet, the name made of its place among the sharers,
    /// an underscore and the base file name. Places are counted from 0 in the
    /// catalog's order, and the first of the sharers is renamed like the rest:
    /// none of them keeps the bare name. A name given earlier is never changed.
    pub fn fix_duplicate_filenames(&mut self)
        requires
            old(self).storage.wf(),
        ensures
            final(self).storage.wf(),
            deduplicated(old(self).storage@, final(self).storage@),
            final(self).storage.path == old(self).storage.path,
            final(self).storage.last_save_at == old(self).storage.last_save_at,
    {
        let n = self.storage.data.len();
        let mut k: usize = 0;
        while k < n
            invariant
                n == old(self).storage@.len(),
                0 <= k <= n,
                self.storage@.len() == n,
                self.storage.path == old(self).storage.path,
                self.storage.last_save_at == old(self).storage.last_save_at,
                forall|j: int|
                    0 <= j < n ==> (#[trigger] self.storage@[j]).0 == old(self).storage@[j].0
                        && self.storage@[j].1.media_item == old(self).storage@[j].1.media_item,
                forall|j: int|
                    0 <= j < k ==> entry_resolved(old(self).storage@, j, #[trigger] self.storage@[j]),
                forall|j: int| k <= j < n ==> #[trigger] self.storage@[j] == old(self).storage@[j],
            decreases n - k,
        {
            if self.storage.data[k].1.alt_filename.is_none() {
                let size = count_same_base(&self.storage.data, k, n);
                proof {
                    lemma_count_same_by_base(
                        self.storage@,
                        old(self).storage@,
                        base_name(old(self).storage@, k as int),
                        n as int,
                    );
                    lemma_count_same_by_base(
                        self.storage@,
                        old(self).storage@,
                        base_name(old(self).storage@, k as int),
                        k as int,
                    );
                }
                if size > 1 {
                    let place = count_same_base(&self.storage.data, k, k);
                    let name = prefixed_name(place, &self.storage.data[k].1.media_item.filename);
                    self.storage.data[k].1.alt_filename = Some(name);
                }
            }
            k += 1;
        }
        proof {
            assert forall|i: int, j: int| 0 <= i < j < n implies (#[trigger] self.storage@[i]).0@
                != (#[trigger] self.storage@[j]).0@ by {
                assert(old(self).storage@[i].0@ != old(self).storage@[j].0@);
            }
        }
    }

    /// Takes in what the remote side tells of `media_items`: each is merged
    /// into the catalog, first to last, and colliding file names are then
    /// resolved. The saving interval is left alone: the caller writes the
    /// catalog out once, afterwards.
    pub fn on_media_items(&mut self, media_items: Vec<MediaItem>)
        requires
            old(self).storage.wf(),
        ensures
            final(self).storage.wf(),
            deduplicated(merge_all(old(self).storage@, media_items@), final(self).storage@),
            final(self).storage.path == old(self).storage.path,
            final(self).storage.last_save_at == old(self).storage.last_save_at,
    {
        let ghost all = media_items@;
        for media_item in it: media_items
            invariant
                it.seq() == all,
                self.storage.wf(),
                self.storage@ == merge_all(old(self).storage@, all.take(it.index() as int)),
                self.storage.path == old(self).storage.path,
                self.storage.last_save_at == old(self).storage.last_save_at,
        {
            proof {
                assert(all.take(it.index() + 1).drop_last() =~= all.take(it.index() as int));
            }
            self.merge(media_item);
        }
        proof {
            assert(all.take(all.len() as int) =~= all);
        }
        self.fix_duplicate_filenames();
    }

    /// Closes one round of fetching: those of `updated_media_items` whose
    /// identifier is among `downloaded_ids` are flagged as fetched at `now`;
    /// then the new descriptions are taken in as `on_media_items` does.
    pub fn complete_download(
        &mut self,
        updated_media_items: Vec<MediaItem>,
        downloaded_ids: &Vec<MediaItemId>,
        now: Timestamp,
    )
        requires
            old(self).storage.wf(),
        ensures
            final(self).storage.wf(),
            deduplicated(
                merge_all(
                    marked_at(
                        old(self).storage@,
                        fetched_ids(updated_media_items@, downloaded_ids@),
                        now,
                    ),
                    updated_media_items@,
                ),
                final(self).storage@,
            ),
            final(self).storage.path == old(self).storage.path,
            final(self).storage.last_save_at == old(self).storage.last_save_at,
    {
        let mut mark_downloaded: Vec<MediaItemId> = Vec::new();
        let mut i: usize = 0;
        while i < updated_media_items.len()
            invariant
                0 <= i <= updated_media_items.len(),
                mark_downloaded@ == fetched_ids(
                    updated_media_items@.take(i as int),
                    downloaded_ids@,
                ),
            decreases updated_media_items.len() - i,
        {
            proof {
                assert(updated_media_items@.take(i + 1).drop_last() =~= updated_media_items@.take(
                    i as int,
                ));
            }
            if contains_name(downloaded_ids, &updated_media_items[i].id) {
                mark_downloaded.push(updated_media_items[i].get_media_item_id());
            }
            i += 1;
        }
        proof {
            assert(updated_media_items@.take(i as int) =~= updated_media_items@);
        }
        self.storage.mark_downloaded_at(&mark_downloaded, now);
        self.on_media_items(updated_media_items);
    }
}

/// Brings the flags of the catalog in line with the files on disk, in the
/// directions that `switches` allow: first what is on disk and unflagged is
/// flagged as fetched at `now`, then what is flagged and not on disk is
/// unflagged. Hands back what was found, whether or not it was applied.
pub fn mark_unmark_downloaded_photos_in_fs(
    app: &mut App,
    fs_file_names: &Vec<FileName>,
    switches: &FixMarkDownloadedInfo,
    now: Timestamp,
) -> (partition: MarkDownloadedPartition)
    requires
        old(app).storage.wf(),
    ensures
        final(app).storage.wf(),
        partition.mark_downloaded@ == ids_to_mark(old(app).storage@, fs_file_names@),
        partition.unmark_downloaded@ == ids_to_unmark(old(app).storage@, fs_file_names@),
        final(app).storage@ == reconciled(old(app).storage@, fs_file_names@, *switches, now),
        final(app).storage.path == old(app).storage.path,
        final(app).storage.last_save_at == old(app).storage.last_save_at,
{
    let partition = app.storage.partition_by_marked_download(fs_file_names);
    if switches.mark_downloaded {
        app.storage.mark_downloaded_at(&partition.mark_downloaded, now);
    }
    if switches.unmark_downloaded {
        app.storage.unmark_downloaded(&partition.unmark_downloaded);
    }
    partition
}

} // verus!
