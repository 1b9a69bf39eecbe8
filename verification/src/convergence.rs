//! What the engine guarantees over time: a write that succeeded can be read
//! back at once, and once the queue holds no more row for its key, every
//! member has it.
//!
//! Convergence rests on keys being content-addressed: a member that holds
//! a key at all holds the one value that belongs to it.

use vstd::prelude::*;
use crate::config::RepositoryId;
use crate::engine::{
    after_get, after_put, after_repair, distinct_ids, get_of, lemma_target_found,
    lemma_target_unique, member_acks, member_reads, members_repaired, put_accepted, repair_one,
    repair_prefix, row_fate, target_of, EngineView, MemberView,
};
use crate::errors::BlobFault;
use crate::memblob::{read_of, write_to, Read};
use crate::multiplex::{
    absent_rows, first_found, get_rows, lemma_all_absent_is_absent, lemma_all_failed_is_error,
    lemma_found_somewhere, missed_rows, put_reports, put_rows, repair_row, MemberAck,
    MemberRead, ReportView, RowFate,
};
use crate::sync_queue::{
    is_pending, lemma_rows_for_prefix, rows_for, Operation, QueueRow,
};
use crate::time::Timestamp;

verus! {

/// The member has `value` under `key`.
pub open spec fn holds(member: MemberView, key: Seq<u8>, value: Seq<u8>) -> bool {
    member.store.blobs.contains_key(key) && member.store.blobs[key] == value
}

/// Every member that has `key` at all has `value` under it.
pub open spec fn agrees(members: Seq<MemberView>, key: Seq<u8>, value: Seq<u8>) -> bool {
    forall|i: int|
        0 <= i < members.len() && (#[trigger] members[i]).store.blobs.contains_key(key)
            ==> members[i].store.blobs[key] == value
}

/// Every member has `value` under `key`, or a row in the queue says that it
/// may not.
pub open spec fn covered(
    repo: RepositoryId,
    members: Seq<MemberView>,
    rows: Seq<QueueRow>,
    key: Seq<u8>,
    value: Seq<u8>,
) -> bool {
    forall|i: int|
        0 <= i < members.len() ==> holds(#[trigger] members[i], key, value) || is_pending(
            rows,
            repo,
            members[i].id,
            key,
        )
}

/// The queue holds no row for `key` and any of the members.
pub open spec fn settled(
    repo: RepositoryId,
    members: Seq<MemberView>,
    rows: Seq<QueueRow>,
    key: Seq<u8>,
) -> bool {
    forall|i: int|
        0 <= i < members.len() ==> !is_pending(rows, repo, (#[trigger] members[i]).id, key)
}

/// The same members with the same blobs; who is online may differ.
pub open spec fn same_blobs(a: Seq<MemberView>, b: Seq<MemberView>) -> bool {
    &&& a.len() == b.len()
    &&& forall|i: int|
        0 <= i < a.len() ==> (#[trigger] a[i]).id == b[i].id && a[i].store.blobs == b[i].store.blobs
}

/// A row at or after position `n` names this repository, member and key.
pub open spec fn pending_from(
    rows: Seq<QueueRow>,
    n: int,
    repo: RepositoryId,
    member: u64,
    key: Seq<u8>,
) -> bool {
    exists|j: int|
        n <= j < rows.len() && (#[trigger] rows[j]).repo == repo && rows[j].member == member
            && rows[j].key == key
}

/// Every member that did not acknowledge has its row among those recorded.
proof fn lemma_missed_has_row(
    repo: RepositoryId,
    key: Seq<u8>,
    now: Timestamp,
    acks: Seq<MemberAck>,
    n: int,
    j: int,
)
    requires
        0 <= j < n <= acks.len(),
        !acks[j].acked,
    ensures
        is_pending(missed_rows(repo, key, now, acks, n), repo, acks[j].member, key),
    decreases n,
{
    let rows = missed_rows(repo, key, now, acks, n);
    let shorter = missed_rows(repo, key, now, acks, n - 1);
    if j == n - 1 {
        assert(rows == shorter.push(repair_row(repo, acks[j].member, key, now, Operation::Write)));
        assert(rows[shorter.len() as int].member == acks[j].member);
    } else {
        lemma_missed_has_row(repo, key, now, acks, n - 1, j);
        let at = choose|at: int|
            0 <= at < shorter.len() && (#[trigger] shorter[at]).repo == repo && shorter[at].member
                == acks[j].member && shorter[at].key == key;
        if !acks[n - 1].acked {
            assert(rows[at] == shorter[at]);
        }
    }
}

/// A value that the members' answers hold is held by a member.
proof fn lemma_found_is_held(members: Seq<MemberView>, key: Seq<u8>)
    requires
        first_found(member_reads(members, key), 0) is Some,
    ensures
        exists|j: int|
            0 <= j < members.len() && holds(
                #[trigger] members[j],
                key,
                first_found(member_reads(members, key), 0)->0,
            ),
{
    let reads = member_reads(members, key);
    lemma_found_somewhere(reads, 0);
    let j = choose|j: int|
        0 <= j < reads.len() && (#[trigger] reads[j]).read == Read::Found(first_found(reads, 0)->0);
    assert(read_of(members[j].store, key) == Read::Found(first_found(reads, 0)->0));
    assert(holds(members[j], key, first_found(reads, 0)->0));
}

/// A write that succeeded is read back at once.
pub proof fn lemma_read_after_write(s: EngineView, key: Seq<u8>, value: Seq<u8>, now: Timestamp)
    requires
        put_accepted(s),
    ensures
        get_of(after_put(s, key, value, now), key) == Ok::<Option<Seq<u8>>, BlobFault>(Some(value)),
{
    let after = after_put(s, key, value, now).members;
    let reads = member_reads(after, key);
    let acks = member_acks(s.members);
    let w = choose|i: int| 0 <= i < acks.len() && (#[trigger] acks[i]).acked;
    assert(reads[w].read == Read::Found(value));
    lemma_first_found_is(reads, value, w, 0);
}

/// Where every answer that holds a value holds `value`, and one does, that
/// is the value found.
proof fn lemma_first_found_is(reads: Seq<MemberRead>, value: Seq<u8>, w: int, i: int)
    requires
        0 <= i <= w < reads.len(),
        reads[w].read == Read::Found(value),
        forall|k: int|
            0 <= k < reads.len() && (#[trigger] reads[k]).read is Found ==> reads[k].read
                == Read::Found(value),
    ensures
        first_found(reads, i) == Some(value),
    decreases w - i,
{
    if i < w {
        if !(reads[i].read is Found) {
            lemma_first_found_is(reads, value, w, i + 1);
        }
    }
}

/// A key that was never written is absent from a multiplex whose members
/// are all online: the read is no error.
pub proof fn lemma_unwritten_key_is_absent(s: EngineView, key: Seq<u8>)
    requires
        s.members.len() > 0,
        forall|i: int|
            0 <= i < s.members.len() ==> (#[trigger] s.members[i]).store.online
                && !s.members[i].store.blobs.contains_key(key),
    ensures
        get_of(s, key) == Ok::<Option<Seq<u8>>, BlobFault>(None),
{
    let reads = member_reads(s.members, key);
    assert forall|i: int| 0 <= i < reads.len() implies (#[trigger] reads[i]).read is Absent by {
        assert(s.members[i].store.online);
    }
    lemma_all_absent_is_absent(reads);
}

/// Where every member fails, the read is an error and not an absent
/// result.
pub proof fn lemma_no_member_online_is_error(s: EngineView, key: Seq<u8>)
    requires
        forall|i: int| 0 <= i < s.members.len() ==> !(#[trigger] s.members[i]).store.online,
    ensures
        get_of(s, key) == Err::<Option<Seq<u8>>, BlobFault>(BlobFault::AllMembersFailed),
{
    let reads = member_reads(s.members, key);
    assert forall|i: int| 0 <= i < reads.len() implies (#[trigger] reads[i]).read is Failed by {
        assert(!s.members[i].store.online);
    }
    lemma_all_failed_is_error(reads);
}

/// After a write that succeeded while the queue could be reached, every
/// member has the value or a row in the queue.
pub proof fn lemma_put_covers(s: EngineView, key: Seq<u8>, value: Seq<u8>, now: Timestamp)
    requires
        s.queue.available,
        put_accepted(s),
    ensures
        covered(
            s.repo,
            after_put(s, key, value, now).members,
            after_put(s, key, value, now).queue.rows,
            key,
            value,
        ),
{
    let after = after_put(s, key, value, now);
    let acks = member_acks(s.members);
    let missed = missed_rows(s.repo, key, now, acks, acks.len() as int);
    assert(after.queue.rows == s.queue.rows + missed);
    assert forall|i: int| 0 <= i < after.members.len() implies holds(
        #[trigger] after.members[i],
        key,
        value,
    ) || is_pending(after.queue.rows, s.repo, after.members[i].id, key) by {
        if !s.members[i].store.online {
            assert(!acks[i].acked);
            lemma_missed_has_row(s.repo, key, now, acks, acks.len() as int, i);
            let at = choose|at: int|
                0 <= at < missed.len() && (#[trigger] missed[at]).repo == s.repo && missed[at].member
                    == acks[i].member && missed[at].key == key;
            assert(after.queue.rows[s.queue.rows.len() + at] == missed[at]);
        }
    }
}

/// A write of the value that belongs to a key keeps the members agreed on
/// it.
pub proof fn lemma_put_agrees(s: EngineView, key: Seq<u8>, value: Seq<u8>, now: Timestamp)
    requires
        agrees(s.members, key, value),
    ensures
        agrees(after_put(s, key, value, now).members, key, value),
{
    let after = after_put(s, key, value, now).members;
    assert forall|i: int|
        0 <= i < after.len() && (#[trigger] after[i]).store.blobs.contains_key(
            key,
        ) implies after[i].store.blobs[key] == value by {
        if !s.members[i].store.online {
            assert(s.members[i].store.blobs.contains_key(key));
        }
    }
}

/// A repair pass keeps the members agreed on the key, and keeps every
/// member covered: by the value, by a row that stays, or by a row that the
/// pass has yet to reach.
proof fn lemma_repair_keeps_cover(
    repo: RepositoryId,
    members: Seq<MemberView>,
    rows: Seq<QueueRow>,
    key: Seq<u8>,
    value: Seq<u8>,
    n: int,
)
    requires
        distinct_ids(members),
        agrees(members, key, value),
        covered(repo, members, rows, key, value),
        0 <= n <= rows.len(),
    ensures
        ({
            let p = repair_prefix(repo, members, rows, n);
            &&& p.members.len() == members.len()
            &&& forall|i: int|
                0 <= i < members.len() ==> (#[trigger] p.members[i]).id == members[i].id
                    && p.members[i].store.online == members[i].store.online
            &&& agrees(p.members, key, value)
            &&& forall|i: int|
                0 <= i < members.len() ==> holds(#[trigger] p.members[i], key, value) || is_pending(
                    p.kept,
                    repo,
                    members[i].id,
                    key,
                ) || pending_from(rows, n, repo, members[i].id, key)
        }),
    decreases n,
{
    let p = repair_prefix(repo, members, rows, n);
    if n == 0 {
        assert forall|i: int| 0 <= i < members.len() implies holds(
            #[trigger] p.members[i],
            key,
            value,
        ) || is_pending(p.kept, repo, members[i].id, key) || pending_from(
            rows,
            n,
            repo,
            members[i].id,
            key,
        ) by {
            if !holds(members[i], key, value) {
                let j = choose|j: int|
                    0 <= j < rows.len() && (#[trigger] rows[j]).repo == repo && rows[j].member
                        == members[i].id && rows[j].key == key;
                assert(rows[j].repo == repo);
            }
        }
    } else {
        lemma_repair_keeps_cover(repo, members, rows, key, value, n - 1);
        let q = repair_prefix(repo, members, rows, n - 1);
        let row = rows[n - 1];
        assert(p == repair_one(repo, q, row));
        let repaired = row.repo == repo && row_fate(q.members, row) == RowFate::Repaired;
        if repaired {
            let reads = member_reads(q.members, row.key);
            let written = first_found(reads, 0)->0;
            let t = target_of(q.members, row.member, 0)->0;
            lemma_target_found(q.members, row.member, 0);
            assert(p.members == members_repaired(q.members, row));
            assert(p.members =~= q.members.update(
                t,
                MemberView {
                    store: write_to(q.members[t].store, row.key, written),
                    ..q.members[t]
                },
            ));
            lemma_found_is_held(q.members, row.key);
            if row.key == key {
                let j = choose|j: int|
                    0 <= j < q.members.len() && holds(#[trigger] q.members[j], row.key, written);
                assert(q.members[j].store.blobs.contains_key(key));
                assert(written == value);
            }
            assert(distinct_ids(q.members)) by {
                assert forall|a: int, b: int| 0 <= a < b < q.members.len() implies (
                #[trigger] q.members[a]).id != (#[trigger] q.members[b]).id by {
                    assert(members[a].id != members[b].id);
                }
            }
            assert forall|i: int| 0 <= i < members.len() implies holds(
                #[trigger] p.members[i],
                key,
                value,
            ) || is_pending(p.kept, repo, members[i].id, key) || pending_from(
                rows,
                n,
                repo,
                members[i].id,
                key,
            ) by {
                if holds(q.members[i], key, value) {
                    assert(holds(p.members[i], key, value));
                } else if is_pending(q.kept, repo, members[i].id, key) {
                } else {
                    let j = choose|j: int|
                        n - 1 <= j < rows.len() && (#[trigger] rows[j]).repo == repo
                            && rows[j].member == members[i].id && rows[j].key == key;
                    if j == n - 1 {
                        lemma_target_unique(q.members, row.member, i);
                        assert(t == i);
                        assert(holds(p.members[i], key, value));
                    } else {
                        assert(rows[j].repo == repo);
                    }
                }
            }
            assert(agrees(p.members, key, value)) by {
                assert forall|i: int|
                    0 <= i < p.members.len() && (#[trigger] p.members[i]).store.blobs.contains_key(
                        key,
                    ) implies p.members[i].store.blobs[key] == value by {
                    if i != t || row.key != key {
                        assert(q.members[i].store.blobs.contains_key(key));
                    }
                }
            }
        } else {
            assert(p.members == q.members);
            assert(p.kept == q.kept.push(row));
            assert forall|i: int| 0 <= i < members.len() implies holds(
                #[trigger] p.members[i],
                key,
                value,
            ) || is_pending(p.kept, repo, members[i].id, key) || pending_from(
                rows,
                n,
                repo,
                members[i].id,
                key,
            ) by {
                if holds(q.members[i], key, value) {
                } else if is_pending(q.kept, repo, members[i].id, key) {
                    let at = choose|at: int|
                        0 <= at < q.kept.len() && (#[trigger] q.kept[at]).repo == repo
                            && q.kept[at].member == members[i].id && q.kept[at].key == key;
                    assert(p.kept[at] == q.kept[at]);
                } else {
                    let j = choose|j: int|
                        n - 1 <= j < rows.len() && (#[trigger] rows[j]).repo == repo
                            && rows[j].member == members[i].id && rows[j].key == key;
                    if j == n - 1 {
                        assert(p.kept[q.kept.len() as int] == row);
                    } else {
                        assert(rows[j].repo == repo);
                    }
                }
            }
        }
    }
}

/// A repair pass keeps what a write has established: the members stay
/// agreed on the key, and each has the value or a row in the queue.
pub proof fn lemma_repair_keeps_covered(s: EngineView, key: Seq<u8>, value: Seq<u8>)
    requires
        distinct_ids(s.members),
        agrees(s.members, key, value),
        covered(s.repo, s.members, s.queue.rows, key, value),
    ensures
        distinct_ids(after_repair(s).members),
        agrees(after_repair(s).members, key, value),
        covered(s.repo, after_repair(s).members, after_repair(s).queue.rows, key, value),
        same_online(s.members, after_repair(s).members),
{
    if s.queue.available {
        let n = s.queue.rows.len() as int;
        lemma_repair_keeps_cover(s.repo, s.members, s.queue.rows, key, value, n);
        let p = repair_prefix(s.repo, s.members, s.queue.rows, n);
        assert(after_repair(s).members == p.members);
        assert forall|a: int, b: int| 0 <= a < b < p.members.len() implies (
        #[trigger] p.members[a]).id != (#[trigger] p.members[b]).id by {
            assert(s.members[a].id != s.members[b].id);
        }
    }
}

/// The same members, online or offline as before.
pub open spec fn same_online(a: Seq<MemberView>, b: Seq<MemberView>) -> bool {
    &&& a.len() == b.len()
    &&& forall|i: int|
        0 <= i < a.len() ==> (#[trigger] a[i]).id == b[i].id && a[i].store.online
            == b[i].store.online
}

/// Eventual convergence.
///
/// A key is written while at least one member is online and the queue can
/// be reached. Members then come and go. A repair pass runs, and when it
/// is over the queue holds no row for the key: the pass ran to completion.
/// Then every member has the written value, and every member that is
/// online returns it.
pub proof fn lemma_repair_converges(
    s: EngineView,
    key: Seq<u8>,
    value: Seq<u8>,
    now: Timestamp,
    later: EngineView,
)
    requires
        distinct_ids(s.members),
        agrees(s.members, key, value),
        s.queue.available,
        put_accepted(s),
        later.repo == s.repo,
        later.queue.rows == after_put(s, key, value, now).queue.rows,
        same_blobs(after_put(s, key, value, now).members, later.members),
        settled(s.repo, after_repair(later).members, after_repair(later).queue.rows, key),
    ensures
        forall|i: int|
            0 <= i < after_repair(later).members.len() ==> holds(
                #[trigger] after_repair(later).members[i],
                key,
                value,
            ),
        forall|i: int|
            0 <= i < after_repair(later).members.len() && (#[trigger] after_repair(
                later,
            ).members[i]).store.online ==> read_of(after_repair(later).members[i].store, key)
                == Read::Found(value),
        (exists|i: int|
            0 <= i < after_repair(later).members.len() && (#[trigger] after_repair(
                later,
            ).members[i]).store.online) ==> get_of(after_repair(later), key) == Ok::<
            Option<Seq<u8>>,
            BlobFault,
        >(Some(value)),
{
    let written = after_put(s, key, value, now);
    lemma_put_covers(s, key, value, now);
    lemma_put_agrees(s, key, value, now);
    assert(distinct_ids(later.members)) by {
        assert forall|a: int, b: int| 0 <= a < b < later.members.len() implies (
        #[trigger] later.members[a]).id != (#[trigger] later.members[b]).id by {
            assert(written.members[a].id == later.members[a].id);
            assert(written.members[b].id == later.members[b].id);
            assert(s.members[a].id != s.members[b].id);
        }
    }
    assert(agrees(later.members, key, value)) by {
        assert forall|i: int|
            0 <= i < later.members.len() && (#[trigger] later.members[i]).store.blobs.contains_key(
                key,
            ) implies later.members[i].store.blobs[key] == value by {
            assert(written.members[i].store.blobs == later.members[i].store.blobs);
        }
    }
    assert(covered(later.repo, later.members, later.queue.rows, key, value)) by {
        assert forall|i: int| 0 <= i < later.members.len() implies holds(
            #[trigger] later.members[i],
            key,
            value,
        ) || is_pending(later.queue.rows, later.repo, later.members[i].id, key) by {
            assert(written.members[i].store.blobs == later.members[i].store.blobs);
            assert(holds(written.members[i], key, value) || is_pending(
                written.queue.rows,
                s.repo,
                written.members[i].id,
                key,
            ));
        }
    }
    lemma_repair_keeps_covered(later, key, value);
    let done = after_repair(later);
    assert forall|i: int| 0 <= i < done.members.len() implies holds(
        #[trigger] done.members[i],
        key,
        value,
    ) by {
        assert(!is_pending(done.queue.rows, s.repo, done.members[i].id, key));
    }
    if exists|i: int| 0 <= i < done.members.len() && (#[trigger] done.members[i]).store.online {
        let w = choose|i: int|
            0 <= i < done.members.len() && (#[trigger] done.members[i]).store.online;
        let reads = member_reads(done.members, key);
        assert(holds(done.members[w], key, value));
        assert(reads[w].read == Read::Found(value));
        assert forall|k: int| 0 <= k < reads.len() && (#[trigger] reads[k]).read is Found implies reads[k].read
            == Read::Found(value) by {
            assert(holds(done.members[k], key, value));
        }
        lemma_first_found_is(reads, value, w, 0);
    }
}

/// A read changes no member and takes no row out of the queue, so it keeps
/// what a write has established.
pub proof fn lemma_get_keeps_covered(
    s: EngineView,
    key: Seq<u8>,
    value: Seq<u8>,
    read_key: Seq<u8>,
    now: Timestamp,
)
    requires
        covered(s.repo, s.members, s.queue.rows, key, value),
    ensures
        after_get(s, read_key, now).members == s.members,
        covered(
            s.repo,
            after_get(s, read_key, now).members,
            after_get(s, read_key, now).queue.rows,
            key,
            value,
        ),
{
    let t = after_get(s, read_key, now);
    assert forall|i: int| 0 <= i < t.members.len() implies holds(
        #[trigger] t.members[i],
        key,
        value,
    ) || is_pending(t.queue.rows, s.repo, t.members[i].id, key) by {
        if !holds(s.members[i], key, value) {
            let at = choose|at: int|
                0 <= at < s.queue.rows.len() && (#[trigger] s.queue.rows[at]).repo == s.repo
                    && s.queue.rows[at].member == s.members[i].id && s.queue.rows[at].key == key;
            assert(t.queue.rows[at] == s.queue.rows[at]);
        }
    }
}

/// A write to another key keeps what a write has established for this
/// one.
pub proof fn lemma_put_elsewhere_keeps_covered(
    s: EngineView,
    key: Seq<u8>,
    value: Seq<u8>,
    other_key: Seq<u8>,
    other_value: Seq<u8>,
    now: Timestamp,
)
    requires
        other_key != key,
        agrees(s.members, key, value),
        covered(s.repo, s.members, s.queue.rows, key, value),
    ensures
        agrees(after_put(s, other_key, other_value, now).members, key, value),
        covered(
            s.repo,
            after_put(s, other_key, other_value, now).members,
            after_put(s, other_key, other_value, now).queue.rows,
            key,
            value,
        ),
{
    let t = after_put(s, other_key, other_value, now);
    assert forall|i: int|
        0 <= i < t.members.len() && (#[trigger] t.members[i]).store.blobs.contains_key(
            key,
        ) implies t.members[i].store.blobs[key] == value by {
        assert(s.members[i].store.blobs.contains_key(key));
    }
    assert forall|i: int| 0 <= i < t.members.len() implies holds(
        #[trigger] t.members[i],
        key,
        value,
    ) || is_pending(t.queue.rows, s.repo, t.members[i].id, key) by {
        if holds(s.members[i], key, value) {
            assert(holds(t.members[i], key, value));
        } else {
            let at = choose|at: int|
                0 <= at < s.queue.rows.len() && (#[trigger] s.queue.rows[at]).repo == s.repo
                    && s.queue.rows[at].member == s.members[i].id && s.queue.rows[at].key == key;
            assert(t.queue.rows[at] == s.queue.rows[at]);
        }
    }
}

/// The rows of a repository among the first `n` of the rows that a repair
/// pass of another repository keeps are the rows it had before.
proof fn lemma_repair_keeps_foreign(
    repo: RepositoryId,
    members: Seq<MemberView>,
    rows: Seq<QueueRow>,
    other: RepositoryId,
    n: int,
)
    requires
        other != repo,
        0 <= n <= rows.len(),
    ensures
        rows_for(
            repair_prefix(repo, members, rows, n).kept,
            other,
            repair_prefix(repo, members, rows, n).kept.len() as int,
        ) == rows_for(rows, other, n),
    decreases n,
{
    let p = repair_prefix(repo, members, rows, n);
    if n > 0 {
        lemma_repair_keeps_foreign(repo, members, rows, other, n - 1);
        let q = repair_prefix(repo, members, rows, n - 1);
        let row = rows[n - 1];
        if p.kept != q.kept {
            assert(p.kept == q.kept.push(row));
            lemma_rows_for_prefix(q.kept, p.kept, other, q.kept.len() as int);
        }
    }
}

/// Repositories that share a sync queue never touch each other's rows: a
/// repair pass of one repository leaves the rows of every other as they
/// were.
pub proof fn lemma_repair_leaves_other_repositories(s: EngineView, other: RepositoryId)
    requires
        other != s.repo,
    ensures
        rows_for(after_repair(s).queue.rows, other, after_repair(s).queue.rows.len() as int)
            == rows_for(s.queue.rows, other, s.queue.rows.len() as int),
{
    if s.queue.available {
        lemma_repair_keeps_foreign(s.repo, s.members, s.queue.rows, other, s.queue.rows.len() as int);
    }
}

/// The rows that a write or a read adds to the queue belong to the
/// engine's own repository.
pub proof fn lemma_rows_are_own(
    s: EngineView,
    key: Seq<u8>,
    value: Seq<u8>,
    now: Timestamp,
    other: RepositoryId,
)
    requires
        other != s.repo,
    ensures
        rows_for(
            after_put(s, key, value, now).queue.rows,
            other,
            after_put(s, key, value, now).queue.rows.len() as int,
        ) == rows_for(s.queue.rows, other, s.queue.rows.len() as int),
        rows_for(
            after_get(s, key, now).queue.rows,
            other,
            after_get(s, key, now).queue.rows.len() as int,
        ) == rows_for(s.queue.rows, other, s.queue.rows.len() as int),
{
    let acks = member_acks(s.members);
    let reads = member_reads(s.members, key);
    lemma_missed_rows_are_own(s.repo, key, now, acks, acks.len() as int);
    lemma_absent_rows_are_own(s.repo, key, now, reads, reads.len() as int);
    let added = put_rows(s.repo, key, now, acks);
    lemma_appended_rows(s.queue.rows, added, s.repo, other, added.len() as int);
    let repairs = get_rows(s.repo, key, now, reads);
    lemma_appended_rows(s.queue.rows, repairs, s.repo, other, repairs.len() as int);
}

/// Rows recorded for a write carry the engine's repository.
proof fn lemma_missed_rows_are_own(
    repo: RepositoryId,
    key: Seq<u8>,
    now: Timestamp,
    acks: Seq<MemberAck>,
    n: int,
)
    ensures
        forall|i: int|
            0 <= i < missed_rows(repo, key, now, acks, n).len() ==> (#[trigger] missed_rows(
                repo,
                key,
                now,
                acks,
                n,
            )[i]).repo == repo,
    decreases n,
{
    if 0 < n <= acks.len() {
        lemma_missed_rows_are_own(repo, key, now, acks, n - 1);
    }
}

/// Rows recorded for a read carry the engine's repository.
proof fn lemma_absent_rows_are_own(
    repo: RepositoryId,
    key: Seq<u8>,
    now: Timestamp,
    reads: Seq<MemberRead>,
    n: int,
)
    ensures
        forall|i: int|
            0 <= i < absent_rows(repo, key, now, reads, n).len() ==> (#[trigger] absent_rows(
                repo,
                key,
                now,
                reads,
                n,
            )[i]).repo == repo,
    decreases n,
{
    if 0 < n <= reads.len() {
        lemma_absent_rows_are_own(repo, key, now, reads, n - 1);
    }
}

/// Rows of one repository, appended to a queue, are not among the rows of
/// another.
proof fn lemma_appended_rows(
    rows: Seq<QueueRow>,
    added: Seq<QueueRow>,
    repo: RepositoryId,
    other: RepositoryId,
    n: int,
)
    requires
        other != repo,
        0 <= n <= added.len(),
        forall|i: int| 0 <= i < added.len() ==> (#[trigger] added[i]).repo == repo,
    ensures
        rows_for(rows + added.subrange(0, n), other, rows.len() + n) == rows_for(
            rows,
            other,
            rows.len() as int,
        ),
        n == added.len() ==> rows_for(rows + added, other, (rows + added).len() as int)
            == rows_for(rows, other, rows.len() as int),
    decreases n,
{
    let longer = rows + added.subrange(0, n);
    if n == 0 {
        assert(longer =~= rows);
    } else {
        lemma_appended_rows(rows, added, repo, other, n - 1);
        let shorter = rows + added.subrange(0, n - 1);
        assert(longer[rows.len() + n - 1] == added[n - 1]);
        lemma_rows_for_prefix(shorter, longer, other, rows.len() + n - 1);
    }
    if n == added.len() {
        assert(added.subrange(0, n) =~= added);
    }
}

/// Telemetry changes no result: two engines that differ in nothing but
/// their telemetry take the same writes, give the same answers and leave
/// the same members and the same queue behind. With telemetry configured,
/// a write reports each member once, by its id and the key.
pub proof fn lemma_telemetry_changes_nothing(
    s: EngineView,
    t: EngineView,
    key: Seq<u8>,
    value: Seq<u8>,
    now: Timestamp,
)
    requires
        s.repo == t.repo,
        s.members == t.members,
        s.queue == t.queue,
    ensures
        put_accepted(s) == put_accepted(t),
        get_of(s, key) == get_of(t, key),
        after_put(s, key, value, now).members == after_put(t, key, value, now).members,
        after_put(s, key, value, now).queue == after_put(t, key, value, now).queue,
        after_get(s, key, now).queue == after_get(t, key, now).queue,
        after_repair(s).members == after_repair(t).members,
        after_repair(s).queue == after_repair(t).queue,
        s.telemetry is Some ==> {
            let sent = put_reports(s.telemetry, s.repo, key, member_acks(s.members));
            &&& after_put(s, key, value, now).reports == s.reports + sent
            &&& sent.len() == s.members.len()
            &&& forall|i: int|
                0 <= i < s.members.len() ==> (#[trigger] sent[i]).member == s.members[i].id
                    && sent[i].key == key && sent[i].success == s.members[i].store.online
        },
        s.telemetry is None ==> after_put(s, key, value, now).reports == s.reports,
{
    assert(s.reports + Seq::<ReportView>::empty() =~= s.reports);
}

} // verus!
