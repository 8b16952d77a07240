//! Splitting an ordered list of files among workers.

use vstd::prelude::*;

verus! {

/// The number of workers for `files` files on `parallelism` processors: one
/// per processor, but never more than there are files.
pub open spec fn workers_for(files: nat, parallelism: nat) -> nat {
    if files <= parallelism {
        files
    } else {
        parallelism
    }
}

/// Where chunk `i` of `workers` starts in a list of `len` items.
pub open spec fn chunk_start(len: nat, workers: nat, i: nat) -> nat {
    (i * len) / workers
}

/// Where chunk `i` of `workers` ends in a list of `len` items. The last chunk
/// runs to the end of the list.
pub open spec fn chunk_end(len: nat, workers: nat, i: nat) -> nat {
    if i + 1 == workers {
        len
    } else {
        ((i + 1) * len) / workers
    }
}

/// Chunk `i` of `items` when it is split among `workers`.
pub open spec fn chunk<T>(items: Seq<T>, workers: nat, i: nat) -> Seq<T> {
    items.subrange(
        chunk_start(items.len(), workers, i) as int,
        chunk_end(items.len(), workers, i) as int,
    )
}

/// The chunks of `items` when it is split among `workers`, in order.
pub open spec fn chunks<T>(items: Seq<T>, workers: nat) -> Seq<Seq<T>> {
    Seq::new(workers, |i: int| chunk(items, workers, i as nat))
}

/// The contents of a vector of vectors.
pub open spec fn contents<T>(parts: Seq<Vec<T>>) -> Seq<Seq<T>> {
    Seq::new(parts.len(), |i: int| parts[i]@)
}

/// The cut points of the chunks are in order and stay inside the list.
pub proof fn lemma_cut_points(len: nat, workers: nat, i: nat)
    requires
        i < workers,
    ensures
        chunk_start(len, workers, i) <= chunk_end(len, workers, i) <= len,
        chunk_end(len, workers, i) == ((i + 1) * len) / workers,
        i + 1 < workers ==> chunk_end(len, workers, i) == chunk_start(len, workers, i + 1),
        chunk_start(len, workers, 0) == 0,
{
    let n = workers as int;
    let l = len as int;
    let k = i as int;
    assert((k * l) / n <= ((k + 1) * l) / n && ((k + 1) * l) / n <= l) by (nonlinear_arith)
        requires
            0 <= k < n,
            0 <= l,
    ;
    assert((n * l) / n == l) by (nonlinear_arith)
        requires
            0 < n,
    ;
    assert((0 * l) / n == 0) by (nonlinear_arith)
        requires
            0 < n,
    ;
}

/// Computes the number of workers.
pub fn worker_count(files: usize, parallelism: usize) -> (workers: usize)
    ensures
        workers == workers_for(files as nat, parallelism as nat),
{
    if files <= parallelism {
        files
    } else {
        parallelism
    }
}

/// Computes where chunk `i` starts and ends.
pub fn chunk_bounds(len: usize, workers: usize, i: usize) -> (bounds: (usize, usize))
    requires
        i < workers,
    ensures
        bounds.0 == chunk_start(len as nat, workers as nat, i as nat),
        bounds.1 == chunk_end(len as nat, workers as nat, i as nat),
        bounds.0 <= bounds.1 <= len,
{
    proof {
        lemma_cut_points(len as nat, workers as nat, i as nat);
        assert(0 <= (i as int) * (len as int) <= (workers as int) * (len as int)
            <= 0xffff_ffff_ffff_ffff * 0xffff_ffff_ffff_ffff) by (nonlinear_arith)
            requires
                0 <= i < workers <= 0xffff_ffff_ffff_ffff,
                0 <= len <= 0xffff_ffff_ffff_ffff,
        ;
        assert(0 <= (i as int + 1) * (len as int) <= (workers as int) * (len as int)) by (nonlinear_arith)
            requires
                0 <= i < workers,
                0 <= len,
        ;
    }
    let start = ((i as u128) * (len as u128) / (workers as u128)) as usize;
    let end = if i + 1 == workers {
        len
    } else {
        (((i as u128) + 1) * (len as u128) / (workers as u128)) as usize
    };
    (start, end)
}

/// Splits `items` into `workers` contiguous chunks.
pub fn partition<T>(items: Vec<T>, workers: usize) -> (parts: Vec<Vec<T>>)
    ensures
        contents(parts@) == chunks(items@, workers as nat),
{
    let len = items.len();
    let mut rest = items;
    let mut reversed: Vec<Vec<T>> = Vec::new();
    let mut i: usize = workers;
    while i > 0
        invariant
            i <= workers,
            len == items@.len(),
            reversed@.len() == workers - i,
            i > 0 ==> rest@ == items@.subrange(0, chunk_end(len as nat, workers as nat, (i - 1) as nat) as int),
            i > 0 ==> chunk_end(len as nat, workers as nat, (i - 1) as nat) <= len,
            forall|k: int|
                0 <= k < reversed@.len() ==> (#[trigger] reversed@[k])@ == chunk(
                    items@,
                    workers as nat,
                    (workers - 1 - k) as nat,
                ),
        decreases i,
    {
        i -= 1;
        let (start, end) = chunk_bounds(len, workers, i);
        proof {
            lemma_cut_points(len as nat, workers as nat, i as nat);
            if i > 0 {
                lemma_cut_points(len as nat, workers as nat, (i - 1) as nat);
            }
        }
        let part = rest.split_off(start);
        assert(part@ =~= chunk(items@, workers as nat, i as nat));
        assert(rest@ =~= items@.subrange(0, start as int));
        reversed.push(part);
    }
    let mut parts: Vec<Vec<T>> = Vec::new();
    while reversed.len() > 0
        invariant
            reversed@.len() + parts@.len() == workers,
            forall|k: int|
                0 <= k < reversed@.len() ==> (#[trigger] reversed@[k])@ == chunk(
                    items@,
                    workers as nat,
                    (workers - 1 - k) as nat,
                ),
            forall|k: int|
                0 <= k < parts@.len() ==> (#[trigger] parts@[k])@ == chunk(
                    items@,
                    workers as nat,
                    k as nat,
                ),
        decreases reversed@.len(),
    {
        let part = reversed.pop().unwrap();
        parts.push(part);
    }
    assert(contents(parts@) =~= chunks(items@, workers as nat));
    parts
}

/// Calls `num_cpus::get`, the number of processors this process may use.
/// Trusted: the count is at least 1, as the crate documents; it may differ
/// from one call to the next.
#[verifier::external_body]
fn available_cpus() -> (cpus: usize)
    ensures
        cpus >= 1,
{
    num_cpus::get()
}

/// Splits `files` among one worker per available processor, but never among
/// more workers than there are files. Every file lands in exactly one chunk,
/// and no chunk is made when there is no file.
pub fn plan<T>(files: Vec<T>) -> (parts: Vec<Vec<T>>)
    ensures
        exists|parallelism: nat|
            parallelism >= 1 && contents(parts@) == chunks(
                files@,
                #[trigger] workers_for(files@.len(), parallelism),
            ),
        contents(parts@).flatten() == files@,
        files@.len() == 0 ==> parts@.len() == 0,
{
    let cpus = available_cpus();
    let workers = worker_count(files.len(), cpus);
    proof {
        if workers >= 1 {
            lemma_chunks_rebuild(files@, workers as nat);
        } else {
            assert(chunks(files@, 0).flatten() =~= files@);
        }
        assert(workers == workers_for(files@.len(), cpus as nat));
    }
    let parts = partition(files, workers);
    assert(contents(parts@).len() == workers);
    parts
}

/// With at least one worker, the chunks lie side by side: the first starts at
/// the head of the list, each one starts where the one before it ends, and
/// the last ends with the list. So no item is in two chunks and none is left
/// out.
pub proof fn lemma_chunks_tile(len: nat, workers: nat)
    requires
        workers >= 1,
    ensures
        chunk_start(len, workers, 0) == 0,
        chunk_end(len, workers, (workers - 1) as nat) == len,
        forall|i: nat|
            i + 1 < workers ==> #[trigger] chunk_end(len, workers, i) == chunk_start(
                len,
                workers,
                i + 1,
            ),
        forall|i: nat|
            i < workers ==> chunk_start(len, workers, i) <= #[trigger] chunk_end(len, workers, i)
                <= len,
        forall|i: nat, j: nat|
            i < j < workers ==> #[trigger] chunk_end(len, workers, i) <= #[trigger] chunk_start(
                len,
                workers,
                j,
            ),
{
    lemma_cut_points(len, workers, 0);
    assert forall|i: nat| i + 1 < workers implies #[trigger] chunk_end(len, workers, i)
        == chunk_start(len, workers, i + 1) by {
        lemma_cut_points(len, workers, i);
    }
    assert forall|i: nat| i < workers implies chunk_start(len, workers, i) <= #[trigger] chunk_end(
        len,
        workers,
        i,
    ) <= len by {
        lemma_cut_points(len, workers, i);
    }
    assert forall|i: nat, j: nat| i < j < workers implies #[trigger] chunk_end(len, workers, i)
        <= #[trigger] chunk_start(len, workers, j) by {
        lemma_cut_points(len, workers, i);
        let n = workers as int;
        let l = len as int;
        let a = i as int + 1;
        let b = j as int;
        assert((a * l) / n <= (b * l) / n) by (nonlinear_arith)
            requires
                0 <= a <= b,
                0 < n,
                0 <= l,
        ;
    }
}

/// With at least one worker, the chunks put end to end are the list itself.
pub proof fn lemma_chunks_rebuild<T>(items: Seq<T>, workers: nat)
    requires
        workers >= 1,
    ensures
        chunks(items, workers).flatten() == items,
{
    let all = chunks(items, workers);
    lemma_prefix_rebuilds(items, workers, workers);
    assert(all.take(workers as int) =~= all);
    lemma_cut_points(items.len(), workers, (workers - 1) as nat);
    assert(items.subrange(0, items.len() as int) =~= items);
    all.lemma_flatten_and_flatten_alt_are_equivalent();
}

/// The first `k` chunks put end to end are the list up to the end of chunk
/// `k - 1`.
proof fn lemma_prefix_rebuilds<T>(items: Seq<T>, workers: nat, k: nat)
    requires
        k <= workers,
    ensures
        chunks(items, workers).take(k as int).flatten_alt() == items.subrange(
            0,
            if k == 0 {
                0
            } else {
                chunk_end(items.len(), workers, (k - 1) as nat) as int
            },
        ),
    decreases k,
{
    let all = chunks(items, workers);
    if k == 0 {
        assert(all.take(0).flatten_alt() =~= items.subrange(0, 0));
    } else {
        let i = (k - 1) as nat;
        lemma_prefix_rebuilds(items, workers, i);
        lemma_cut_points(items.len(), workers, i);
        if i > 0 {
            lemma_cut_points(items.len(), workers, (i - 1) as nat);
        }
        assert(all.take(k as int).drop_last() =~= all.take(i as int));
        assert(all.take(k as int).last() == chunk(items, workers, i));
        assert(all.take(k as int).flatten_alt() =~= items.subrange(
            0,
            chunk_end(items.len(), workers, i) as int,
        ));
    }
}

/// The size of chunk `i`.
pub open spec fn chunk_size(len: nat, workers: nat, i: nat) -> int {
    chunk_end(len, workers, i) - chunk_start(len, workers, i)
}

/// Every chunk holds the whole part of `len / workers` items or one more, so
/// two chunks differ by one item at most.
pub proof fn lemma_chunks_balanced(len: nat, workers: nat, i: nat, j: nat)
    requires
        i < workers,
        j < workers,
    ensures
        len / workers <= chunk_size(len, workers, i) <= len / workers + 1,
        chunk_size(len, workers, i) - chunk_size(len, workers, j) <= 1,
{
    lemma_chunk_size(len, workers, i);
    lemma_chunk_size(len, workers, j);
}

/// A chunk holds the whole part of `len / workers` items or one more.
proof fn lemma_chunk_size(len: nat, workers: nat, i: nat)
    requires
        i < workers,
    ensures
        len / workers <= chunk_size(len, workers, i) <= len / workers + 1,
{
    lemma_cut_points(len, workers, i);
    let n = workers as int;
    let l = len as int;
    let k = i as int;
    let q = l / n;
    let r = l % n;
    assert(l == q * n + r && 0 <= r < n) by (nonlinear_arith)
        requires
            q == l / n,
            r == l % n,
            0 < n,
    ;
    let a = k * r;
    assert(k * l == (k * q) * n + a && (k + 1) * l == ((k + 1) * q) * n + (a + r) && 0 <= a)
        by (nonlinear_arith)
        requires
            l == q * n + r,
            a == k * r,
            0 <= k,
            0 <= r,
    ;
    assert((k * l) / n == k * q + a / n) by (nonlinear_arith)
        requires
            k * l == (k * q) * n + a,
            0 < n,
    ;
    assert(((k + 1) * l) / n == (k + 1) * q + (a + r) / n) by (nonlinear_arith)
        requires
            (k + 1) * l == ((k + 1) * q) * n + (a + r),
            0 < n,
    ;
    assert(a / n <= (a + r) / n <= a / n + 1) by (nonlinear_arith)
        requires
            0 <= a,
            0 <= r < n,
    ;
    assert((k + 1) * q == k * q + q) by (nonlinear_arith);
}

/// With no file there is no worker and no chunk.
pub proof fn lemma_nothing_to_split<T>(parallelism: nat)
    ensures
        workers_for(0, parallelism) == 0,
        chunks(Seq::<T>::empty(), workers_for(0, parallelism)) == Seq::<Seq<T>>::empty(),
{
    assert(chunks(Seq::<T>::empty(), 0) =~= Seq::<Seq<T>>::empty());
}

} // verus!
