use vstd::prelude::*;
use crate::app_storage::{distinct_ids, listed};
use crate::catalog::{FileName, MediaItemId, StoredItem};
use crate::error::{CustomError, CustomResult};

verus! {

/// Anything whose bytes can be fetched from an address.
pub trait DownloadUrl {
    /// The address to fetch from; `None` where the item cannot be fetched.
    spec fn download_url(&self) -> Option<Seq<char>>;

    /// The address to fetch from. An item that cannot be fetched is refused
    /// as of an unsupported kind.
    fn create_download_url(&self) -> (url: CustomResult<String>)
        ensures
            match url {
                Ok(address) => self.download_url() == Some(address@),
                Err(e) => self.download_url() is None && e == CustomError::UnsupportedMediaKind,
            },
    ;
}

/// The work of fetching one item: where from, under which name the bytes
/// are kept, and the time that the file is to show as its last change.
#[derive(Debug, PartialEq, Eq)]
pub struct DownloadTask {
    pub id: MediaItemId,
    pub file_name: FileName,
    /// The address, or why there is none.
    pub url: CustomResult<String>,
    /// Seconds since the epoch at which the item was made.
    pub modified_at: i64,
}

/// The tasks of one round of fetching and the number of workers that share
/// them.
#[derive(Debug, PartialEq, Eq)]
pub struct DownloadPlan {
    pub workers: usize,
    pub tasks: Vec<DownloadTask>,
}

/// Whether `task` is the work of fetching `item`.
pub open spec fn task_of(item: StoredItem, task: DownloadTask) -> bool {
    &&& task.id == item.media_item.id
    &&& task.file_name == item.filename_string()
    &&& task.modified_at == item.media_item.media_metadata.creation_time.spec_unix_seconds()
    &&& match task.url {
        Ok(address) => item.media_item.download_url() == Some(address@),
        Err(e) => item.media_item.download_url() is None && e == CustomError::UnsupportedMediaKind,
    }
}

/// The identifiers among `outcomes`, in their order: a worker reports the
/// identifier of an item that it fetched, and nothing for one that it failed
/// to fetch.
pub open spec fn reported_ids(outcomes: Seq<Option<MediaItemId>>) -> Seq<MediaItemId>
    decreases outcomes.len(),
{
    if outcomes.len() == 0 {
        Seq::empty()
    } else {
        match outcomes.last() {
            Some(id) => reported_ids(outcomes.drop_last()).push(id),
            None => reported_ids(outcomes.drop_last()),
        }
    }
}

/// The first `count` of `outcomes`, or all of them where they are fewer.
pub open spec fn drained(outcomes: Seq<Option<MediaItemId>>, count: nat) -> Seq<
    Option<MediaItemId>,
> {
    if count < outcomes.len() {
        outcomes.take(count as int)
    } else {
        outcomes
    }
}

/// Whether `outcomes` are what the workers report of `tasks`: each report
/// comes from a task of its own, `origin` naming it, and a report that names
/// an identifier names that of its task, which had an address.
pub open spec fn reports_of(
    tasks: Seq<DownloadTask>,
    outcomes: Seq<Option<MediaItemId>>,
    origin: Seq<int>,
) -> bool {
    &&& origin.len() == outcomes.len()
    &&& forall|m: int| 0 <= m < origin.len() ==> 0 <= #[trigger] origin[m] < tasks.len()
    &&& forall|m: int, n: int| 0 <= m < n < origin.len() ==> #[trigger] origin[m] != #[trigger] origin[n]
    &&& forall|m: int|
        0 <= m < outcomes.len() ==> match #[trigger] outcomes[m] {
            Some(id) => id@ == tasks[origin[m]].id@ && tasks[origin[m]].url is Ok,
            None => true,
        }
}

/// The identifiers of `tasks`, one for one.
pub open spec fn task_ids(tasks: Seq<DownloadTask>) -> Seq<MediaItemId> {
    tasks.map_values(|t: DownloadTask| t.id)
}

impl StoredItem {
    /// The work of fetching this item.
    pub fn download(&self) -> (task: DownloadTask)
        ensures
            task_of(*self, task),
    {
        DownloadTask {
            id: self.media_item.id.clone(),
            file_name: self.get_filename(),
            url: self.media_item.create_download_url(),
            modified_at: self.media_item.media_metadata.creation_time.unix_seconds(),
        }
    }
}

/// Lays out one round of fetching: a task for each of `stored_items`, in
/// their order, to be shared among `concurrency` workers. A pool of no
/// workers is refused. For no items there are no tasks and no workers.
pub fn download(stored_items: &Vec<StoredItem>, concurrency: usize) -> (plan: CustomResult<
    DownloadPlan,
>)
    ensures
        match plan {
            Ok(p) => {
                &&& concurrency > 0
                &&& p.workers == if stored_items@.len() == 0 {
                    0
                } else {
                    concurrency
                }
                &&& p.tasks@.len() == stored_items@.len()
                &&& forall|i: int|
                    0 <= i < p.tasks@.len() ==> task_of(stored_items@[i], #[trigger] p.tasks@[i])
            },
            Err(e) => concurrency == 0 && e == CustomError::InvalidPoolSize,
        },
{
    if concurrency == 0 {
        return Err(CustomError::InvalidPoolSize);
    }
    let mut tasks: Vec<DownloadTask> = Vec::new();
    let mut i: usize = 0;
    while i < stored_items.len()
        invariant
            0 <= i <= stored_items.len(),
            tasks@.len() == i,
            forall|j: int| 0 <= j < i ==> task_of(stored_items@[j], #[trigger] tasks@[j]),
        decreases stored_items.len() - i,
    {
        tasks.push(stored_items[i].download());
        i += 1;
    }
    let workers: usize = if stored_items.len() == 0 {
        0
    } else {
        concurrency
    };
    Ok(DownloadPlan { workers, tasks })
}

/// The identifiers of the items that were fetched: of the first
/// `task_count` reports, one per task, those that name an identifier, in
/// the order in which they came in.
pub fn collect_downloaded(task_count: usize, outcomes: Vec<Option<MediaItemId>>) -> (ids: Vec<
    MediaItemId,
>)
    ensures
        ids@ == reported_ids(drained(outcomes@, task_count as nat)),
{
    let mut ids: Vec<MediaItemId> = Vec::new();
    let ghost all = outcomes@;
    let mut taken: usize = 0;
    for outcome in it: outcomes
        invariant
            it.seq() == all,
            taken <= it.index(),
            taken <= task_count,
            taken == if it.index() < task_count { it.index() } else { task_count as int },
            ids@ == reported_ids(all.take(taken as int)),
    {
        if taken < task_count {
            proof {
                assert(all.take(taken + 1).drop_last() =~= all.take(taken as int));
            }
            match outcome {
                Some(id) => ids.push(id),
                None => {},
            }
            taken += 1;
        }
    }
    proof {
        assert(all.take(all.len() as int) =~= all);
    }
    ids
}

/// What is reported as fetched are identifiers of tasks, and none twice,
/// where the tasks have an identifier each and the reports are the workers'.
pub proof fn lemma_reported_ids_sound(
    tasks: Seq<DownloadTask>,
    outcomes: Seq<Option<MediaItemId>>,
    origin: Seq<int>,
)
    requires
        distinct_ids(task_ids(tasks)),
        reports_of(tasks, outcomes, origin),
    ensures
        distinct_ids(reported_ids(outcomes)),
        forall|i: int|
            0 <= i < reported_ids(outcomes).len() ==> listed(
                task_ids(tasks),
                (#[trigger] reported_ids(outcomes)[i])@,
            ),
        reported_ids(outcomes).len() <= outcomes.len(),
        forall|i: int|
            0 <= i < reported_ids(outcomes).len() ==> exists|m: int|
                0 <= m < outcomes.len() && outcomes[m] == Some(
                    #[trigger] reported_ids(outcomes)[i],
                ),
    decreases outcomes.len(),
{
    if outcomes.len() > 0 {
        let front = outcomes.drop_last();
        let front_origin = origin.drop_last();
        let last = outcomes.len() - 1;
        assert(reports_of(tasks, front, front_origin)) by {
            assert forall|m: int| 0 <= m < front.len() implies match #[trigger] front[m] {
                Some(id) => id@ == tasks[front_origin[m]].id@ && tasks[front_origin[m]].url is Ok,
                None => true,
            } by {
                assert(front[m] == outcomes[m]);
            }
        }
        lemma_reported_ids_sound(tasks, front, front_origin);
        let ids = reported_ids(outcomes);
        let front_ids = reported_ids(front);
        assert forall|i: int| 0 <= i < ids.len() implies exists|m: int|
            0 <= m < outcomes.len() && outcomes[m] == Some(#[trigger] ids[i]) by {
            if i < front_ids.len() {
                let m = choose|m: int| 0 <= m < front.len() && front[m] == Some(front_ids[i]);
                assert(outcomes[m] == Some(ids[i]));
            } else {
                assert(outcomes[last] == Some(ids[i]));
            }
        }
        assert forall|i: int| 0 <= i < ids.len() implies listed(
            task_ids(tasks),
            (#[trigger] ids[i])@,
        ) by {
            let m = choose|m: int| 0 <= m < outcomes.len() && outcomes[m] == Some(ids[i]);
            assert(task_ids(tasks)[origin[m]]@ == ids[i]@);
        }
        assert forall|i: int, j: int| 0 <= i < j < ids.len() implies (#[trigger] ids[i])@ != (
        #[trigger] ids[j])@ by {
            if j < front_ids.len() {
                assert(front_ids[i]@ != front_ids[j]@);
            } else {
                let m = choose|m: int| 0 <= m < front.len() && front[m] == Some(front_ids[i]);
                assert(outcomes[m] == Some(ids[i]));
                assert(outcomes[last] == Some(ids[j]));
                assert(origin[m] != origin[last]);
                let x = origin[m];
                let y = origin[last];
                if x < y {
                    assert(task_ids(tasks)[x]@ != task_ids(tasks)[y]@);
                } else {
                    assert(task_ids(tasks)[y]@ != task_ids(tasks)[x]@);
                }
            }
        }
    }
}

/// What a round of fetching hands back, once a report has come in for
/// every task, are identifiers of its tasks, and none twice.
pub proof fn lemma_download_result_sound(
    tasks: Seq<DownloadTask>,
    outcomes: Seq<Option<MediaItemId>>,
    origin: Seq<int>,
)
    requires
        distinct_ids(task_ids(tasks)),
        outcomes.len() == tasks.len(),
        reports_of(tasks, outcomes, origin),
    ensures
        distinct_ids(reported_ids(drained(outcomes, tasks.len()))),
        forall|i: int|
            0 <= i < reported_ids(drained(outcomes, tasks.len())).len() ==> listed(
                task_ids(tasks),
                (#[trigger] reported_ids(drained(outcomes, tasks.len()))[i])@,
            ),
        reported_ids(drained(outcomes, tasks.len())).len() <= tasks.len(),
{
    lemma_reported_ids_sound(tasks, outcomes, origin);
}

} // verus!
