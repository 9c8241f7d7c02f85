//! Guarantees of the streaming loop across whole runs, stated over a model
//! of one run: the file on disk as a byte sequence, the response body as the
//! sequence of chunks it arrived in. `Transfer::begin` opens a run with the
//! counter at the initial file length, and each `Transfer::on_chunk(n)`
//! accounts a chunk of `n` bytes written whole to the file, so a run driven
//! by `chunks` leaves the counter at `spec_counter` and the file at
//! `file_after`.

use vstd::prelude::*;

use vstd::seq_lib::lemma_flatten_concat;

verus! {

/// The file after a run that began with `initial` on disk and wrote these
/// chunks, each appended whole.
pub open spec fn file_after(initial: Seq<u8>, chunks: Seq<Seq<u8>>) -> Seq<u8> {
    initial + chunks.flatten()
}

/// The lengths of the chunks, in arrival order.
pub open spec fn chunk_sizes(chunks: Seq<Seq<u8>>) -> Seq<nat> {
    chunks.map_values(|c: Seq<u8>| c.len())
}

/// The running counter after a run that began at `initial_len` and accounted
/// chunks of these sizes.
pub open spec fn spec_counter(initial_len: nat, sizes: Seq<nat>) -> nat
    decreases sizes.len(),
{
    if sizes.len() == 0 {
        initial_len
    } else {
        spec_counter(initial_len, sizes.drop_last()) + sizes.last()
    }
}

/// At every moment of a run, the running counter equals the on-disk file
/// size: both begin at the initial file length and both advance by exactly
/// the bytes of each written chunk. The byte count a terminal event reports
/// out of the counter is therefore the file's true size.
pub proof fn lemma_counter_matches_file(initial: Seq<u8>, chunks: Seq<Seq<u8>>)
    ensures
        spec_counter(initial.len(), chunk_sizes(chunks)) == file_after(initial, chunks).len(),
    decreases chunks.len(),
{
    if chunks.len() == 0 {
        assert(chunks.flatten().len() == 0);
    } else {
        let dl = chunks.drop_last();
        lemma_counter_matches_file(initial, dl);
        assert(chunk_sizes(chunks).drop_last() =~= chunk_sizes(dl));
        assert(chunk_sizes(chunks).last() == chunks.last().len());
        assert(dl.push(chunks.last()) =~= chunks);
        Seq::lemma_flatten_push(dl, chunks.last());
        assert(chunks.flatten() =~= dl.flatten() + chunks.last());
    }
}

/// For every terminal event of a run, the byte count taken from the running
/// counter equals the on-disk file size at that moment: whatever prefix of
/// the run's chunks has been written when the event is emitted, counter and
/// file size agree. A `Paused` terminal carries the re-read file size, which
/// this ties to the counter the `Running` updates reported; a `Complete`
/// carries the counter itself.
pub proof fn lemma_terminal_reports_file_size(initial: Seq<u8>, chunks: Seq<Seq<u8>>, k: int)
    requires
        0 <= k <= chunks.len(),
    ensures
        spec_counter(initial.len(), chunk_sizes(chunks.take(k))) == file_after(
            initial,
            chunks.take(k),
        ).len(),
{
    lemma_counter_matches_file(initial, chunks.take(k));
}

/// For every `Complete` event the on-disk size equals `content_length`: a
/// run succeeds only with its counter at or above `content_length`, so if
/// the origin served no more bytes than it announced, the file holds exactly
/// `content_length` bytes when the run completes.
pub proof fn lemma_complete_file_size(
    initial: Seq<u8>,
    chunks: Seq<Seq<u8>>,
    content_length: nat,
)
    requires
        spec_counter(initial.len(), chunk_sizes(chunks)) >= content_length,
        file_after(initial, chunks).len() <= content_length,
    ensures
        file_after(initial, chunks).len() == content_length,
        spec_counter(initial.len(), chunk_sizes(chunks)) == content_length,
{
    lemma_counter_matches_file(initial, chunks);
}

/// Within one run the byte counts of the `Running` updates never decrease:
/// the counter after any later prefix of the chunks is at least the counter
/// after any earlier one.
pub proof fn lemma_running_counter_monotonic(
    initial_len: nat,
    sizes: Seq<nat>,
    i: int,
    j: int,
)
    requires
        0 <= i <= j <= sizes.len(),
    ensures
        spec_counter(initial_len, sizes.take(i)) <= spec_counter(initial_len, sizes.take(j)),
    decreases j - i,
{
    if i < j {
        lemma_running_counter_monotonic(initial_len, sizes, i, j - 1);
        let tj = sizes.take(j);
        assert(tj.drop_last() =~= sizes.take(j - 1));
        assert(spec_counter(initial_len, sizes.take(j)) == spec_counter(
            initial_len,
            sizes.take(j - 1),
        ) + tj.last());
    }
}

/// The byte counts a run reports are monotone non-decreasing, never fall
/// below the count the run began at, and never exceed the run's final
/// count; across any interleaving of runs on one download, each reported
/// cumulative count therefore never decreases until a terminal `Paused` or
/// `Complete` resets the accounting.
pub proof fn lemma_reported_counts_bounded_monotonic(
    initial_len: nat,
    sizes: Seq<nat>,
    i: int,
    j: int,
)
    requires
        0 <= i <= j <= sizes.len(),
    ensures
        spec_counter(initial_len, sizes.take(i)) <= spec_counter(initial_len, sizes.take(j)),
        initial_len <= spec_counter(initial_len, sizes.take(i)),
        spec_counter(initial_len, sizes.take(j)) <= spec_counter(initial_len, sizes),
{
    lemma_running_counter_monotonic(initial_len, sizes, i, j);
    lemma_counter_ge_initial(initial_len, sizes.take(i));
    lemma_running_counter_monotonic(initial_len, sizes, j, sizes.len() as int);
    assert(sizes.take(sizes.len() as int) =~= sizes);
}

/// The counter never falls below the point the run began at.
pub proof fn lemma_counter_ge_initial(initial_len: nat, sizes: Seq<nat>)
    ensures
        spec_counter(initial_len, sizes) >= initial_len,
    decreases sizes.len(),
{
    if sizes.len() > 0 {
        lemma_counter_ge_initial(initial_len, sizes.drop_last());
    }
}

/// A resumed run never reports a byte count below its starting point: after
/// `stop_all` paused a download at `b` bytes on disk, the resume-mode run
/// that `start_all` issues begins its counter at `b` and every count it
/// reports stays at or above `b`.
pub proof fn lemma_resumed_counter_not_below_pause(b: nat, sizes: Seq<nat>, i: int)
    requires
        0 <= i <= sizes.len(),
    ensures
        spec_counter(b, sizes.take(i)) >= b,
{
    assert(sizes.take(0) =~= Seq::<nat>::empty());
    lemma_running_counter_monotonic(b, sizes, 0, i);
}

/// Stopping and resuming reproduces the file a single run would have
/// written. A start run over a stream of `content` is cancelled after `k`
/// chunks, leaving a prefix of `content` on disk; the resume run asks the
/// origin for the bytes from that prefix's end on, and an idempotent origin
/// serves exactly `content` minus the prefix. Run to completion, the file
/// equals `content` — byte for byte what the uninterrupted run writes.
pub proof fn lemma_pause_resume_parity(
    content: Seq<u8>,
    first: Seq<Seq<u8>>,
    k: int,
    second: Seq<Seq<u8>>,
)
    requires
        first.flatten() == content,
        0 <= k <= first.len(),
        second.flatten() == content.skip(
            file_after(Seq::empty(), first.take(k)).len() as int,
        ),
    ensures
        file_after(file_after(Seq::empty(), first.take(k)), second) == content,
        file_after(Seq::empty(), first.take(k)).len() <= content.len(),
{
    let paused = file_after(Seq::empty(), first.take(k));
    lemma_flatten_concat(first.take(k), first.skip(k));
    assert(first.take(k) + first.skip(k) =~= first);
    assert(first.take(k).flatten() + first.skip(k).flatten() =~= content);
    assert(paused =~= first.take(k).flatten());
    assert(paused.len() <= content.len());
    assert(paused =~= content.take(paused.len() as int));
    assert(file_after(paused, second) =~= content.take(paused.len() as int) + content.skip(
        paused.len() as int,
    ));
    assert(content.take(paused.len() as int) + content.skip(paused.len() as int) =~= content);
}

} // verus!
