use vstd::prelude::*;

verus! {

/// The identifier of a fiber.
#[derive(Debug, Clone, Copy, PartialEq, Eq, Hash, Structural)]
pub struct FiberId(pub u64);

/// Where a fiber is in its life.
#[derive(Debug, Clone, PartialEq, Eq)]
pub enum FiberState {
    Ready,
    Running,
    Suspended,
    Completed,
    Panicked(String),
}

/// Where a worker takes its next job from.
#[derive(Debug, Clone, Copy, PartialEq, Eq, Structural)]
pub enum JobSource {
    /// The front of its own queue.
    Local,
    /// The front of the shared injector queue.
    Injector,
    /// The back of the queue of the worker with this index.
    Steal(usize),
    /// Nowhere: the worker sleeps briefly and looks again.
    Idle,
}

/// Whether worker `worker_id` may steal from worker `j`: another worker
/// whose queue could be locked (`Some`) and holds at least one job.
pub open spec fn stealable(others: Seq<Option<usize>>, worker_id: usize, j: int) -> bool {
    &&& 0 <= j < others.len()
    &&& j != worker_id
    &&& others[j] matches Some(n) && n > 0
}

/// The source a worker picks: its own queue first, then the injector, then
/// the first other worker, in index order, that has a job to steal.
pub open spec fn job_source_spec(
    worker_id: usize,
    local_len: usize,
    injector_len: usize,
    others: Seq<Option<usize>>,
) -> JobSource {
    if local_len > 0 {
        JobSource::Local
    } else if injector_len > 0 {
        JobSource::Injector
    } else if exists|j: int| stealable(others, worker_id, j) {
        JobSource::Steal(first_stealable(others, worker_id) as usize)
    } else {
        JobSource::Idle
    }
}

/// The least index worker `worker_id` may steal from, where there is one.
pub open spec fn first_stealable(others: Seq<Option<usize>>, worker_id: usize) -> int {
    choose|j: int|
        stealable(others, worker_id, j) && forall|k: int|
            0 <= k < j ==> !stealable(others, worker_id, k)
}

proof fn lemma_first_stealable(others: Seq<Option<usize>>, worker_id: usize, j: int)
    requires
        stealable(others, worker_id, j),
        forall|k: int| 0 <= k < j ==> !stealable(others, worker_id, k),
    ensures
        first_stealable(others, worker_id) == j,
{
    let i = first_stealable(others, worker_id);
    assert(stealable(others, worker_id, i) && forall|k: int|
        0 <= k < i ==> !stealable(others, worker_id, k));
    if i < j {
        assert(!stealable(others, worker_id, i));
    }
    if j < i {
        assert(!stealable(others, worker_id, j));
    }
}

/// One step of a worker's loop: given the length of its own queue, of the
/// injector, and of every worker's queue as seen through a lock that was
/// free (`None` where the lock was busy), picks where the next job comes
/// from.
pub fn pick_job_source(
    worker_id: usize,
    local_len: usize,
    injector_len: usize,
    others: &Vec<Option<usize>>,
) -> (r: JobSource)
    ensures
        r == job_source_spec(worker_id, local_len, injector_len, others@),
        r matches JobSource::Steal(j) ==> stealable(others@, worker_id, j as int),
{
    if local_len > 0 {
        return JobSource::Local;
    }
    if injector_len > 0 {
        return JobSource::Injector;
    }
    let mut idx: usize = 0;
    while idx < others.len()
        invariant
            local_len == 0,
            injector_len == 0,
            idx <= others.len(),
            forall|k: int| 0 <= k < idx ==> !stealable(others@, worker_id, k),
        decreases others.len() - idx,
    {
        if idx != worker_id {
            if let Some(n) = others[idx] {
                if n > 0 {
                    proof {
                        assert(stealable(others@, worker_id, idx as int));
                        lemma_first_stealable(others@, worker_id, idx as int);
                        assert(first_stealable(others@, worker_id) as usize == idx);
                        assert(exists|j: int| stealable(others@, worker_id, j));
                        assert(job_source_spec(worker_id, local_len, injector_len, others@)
                            == JobSource::Steal(idx));
                    }
                    return JobSource::Steal(idx);
                }
            }
        }
        assert(!stealable(others@, worker_id, idx as int));
        idx = idx + 1;
    }
    proof {
        assert forall|j: int| !stealable(others@, worker_id, j) by {
            if 0 <= j < others@.len() {
                assert(!stealable(others@, worker_id, j));
            }
        }
    }
    JobSource::Idle
}

/// Whether every result is a success.
pub open spec fn all_ok<T>(results: Seq<Result<T, String>>) -> bool {
    forall|i: int| 0 <= i < results.len() ==> results[i] is Ok
}

/// The values of results that all succeeded, in order.
pub open spec fn ok_values<T>(results: Seq<Result<T, String>>) -> Seq<T> {
    Seq::new(results.len(), |i: int| results[i]->Ok_0)
}

/// The index of the first failure among `results`.
pub open spec fn first_err_index<T>(results: Seq<Result<T, String>>) -> int {
    choose|i: int|
        0 <= i < results.len() && results[i] is Err && forall|k: int|
            0 <= k < i ==> results[k] is Ok
}

proof fn lemma_first_err<T>(results: Seq<Result<T, String>>, i: int)
    requires
        0 <= i < results.len(),
        results[i] is Err,
        forall|k: int| 0 <= k < i ==> results[k] is Ok,
    ensures
        first_err_index(results) == i,
        !all_ok(results),
{
    let f = first_err_index(results);
    assert(0 <= f < results.len() && results[f] is Err && forall|k: int|
        0 <= k < f ==> results[k] is Ok);
    if f < i {
        assert(results[f] is Ok);
    }
    if i < f {
        assert(results[i] is Ok);
    }
}

/// What waiting for a group of fibers gives, from their results in the
/// order they were spawned: all values when every fiber succeeded, else
/// the error of the first that failed.
pub fn gather_results<T>(results: Vec<Result<T, String>>) -> (r: Result<Vec<T>, String>)
    ensures
        all_ok(results@) ==> (r matches Ok(v) && v@ == ok_values(results@)),
        !all_ok(results@) ==> r == Err::<Vec<T>, String>(
            results@[first_err_index(results@)]->Err_0,
        ),
        !all_ok(results@) ==> 0 <= first_err_index(results@) < results@.len()
            && results@[first_err_index(results@)] is Err
            && forall|k: int| 0 <= k < first_err_index(results@) ==> results@[k] is Ok,
{
    let ghost orig = results@;
    let mut values: Vec<T> = Vec::new();
    let mut rest = results;
    let mut idx: usize = 0;
    let n = rest.len();
    while idx < n
        invariant
            orig == results@,
            n == orig.len(),
            idx <= n,
            rest@ == orig.subrange(idx as int, n as int),
            values@.len() == idx,
            forall|k: int| 0 <= k < idx ==> #[trigger] orig[k] is Ok,
            forall|k: int| 0 <= k < idx ==> #[trigger] values@[k] == orig[k]->Ok_0,
        decreases n - idx,
    {
        let ghost before = rest@;
        let item = rest.remove(0);
        proof {
            assert(before[0] == orig[idx as int]);
            assert(rest@ =~= orig.subrange(idx + 1, n as int));
        }
        let ghost seen = item;
        match item {
            Ok(v) => {
                values.push(v);
            },
            Err(e) => {
                proof {
                    assert(seen == orig[idx as int]);
                    lemma_first_err(orig, idx as int);
                }
                return Err(e);
            },
        }
        idx = idx + 1;
    }
    proof {
        assert(values@ == ok_values(orig));
        assert(all_ok(orig));
    }
    Ok(values)
}

} // verus!
