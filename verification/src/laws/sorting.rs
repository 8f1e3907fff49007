//! What sorting a table by a column means: how any two of its rows stand to each other.

use vstd::prelude::*;

use crate::map::count_sum;
use crate::model::job_number;
use crate::model::rank_of_state;
use crate::model::slurm_seconds;
use crate::model::JobView;
use crate::model::NodeView;
use crate::model::RecordView;
use crate::order::arrange;
use crate::order::is_stable_order;
use crate::order::key_before;
use crate::order::law_key_order_total;
use crate::order::lemma_text_before_total;
use crate::order::sorted_stably;
use crate::order::text_before;
use crate::order::PartView;
use crate::sorting::job_key;
use crate::sorting::jobs_sorted;
use crate::sorting::keys_of;
use crate::sorting::node_key;
use crate::sorting::nodes_sorted;
use crate::sorting::record_key;
use crate::sorting::records_sorted;
use crate::sorting::AccountingColumn;
use crate::sorting::JobColumn;
use crate::sorting::NodeColumn;
use crate::text::lowercase;
use crate::units::SortDirection;

verus! {

/// Whether a number may stand in front of another.
pub open spec fn numbers_stand(a: int, b: int, direction: SortDirection) -> bool {
    match direction {
        SortDirection::Asc => a <= b,
        SortDirection::Desc => a >= b,
    }
}

/// Whether a text may stand in front of another.
pub open spec fn texts_stand(a: Seq<char>, b: Seq<char>, direction: SortDirection) -> bool {
    a == b || match direction {
        SortDirection::Asc => text_before(a, b),
        SortDirection::Desc => text_before(b, a),
    }
}

/// Whether a job identifier may stand in front of another: by its number, and then by that of its
/// task.
pub open spec fn ids_stand(a: Seq<char>, b: Seq<char>, direction: SortDirection) -> bool {
    let (x, y) = (job_number(a), job_number(b));
    numbers_stand(x.0 as int, y.0 as int, direction) && (x.0 == y.0 ==> numbers_stand(
        x.1 as int,
        y.1 as int,
        direction,
    ))
}

/// Texts are in the order of their first characters that differ, and a text comes before a longer
/// one that begins with it.
pub proof fn law_text_order(front: Seq<char>, a: Seq<char>, b: Seq<char>)
    ensures
        a.len() > 0 && b.len() > 0 && a[0] != b[0] ==> (text_before(front + a, front + b) <==> a[0]
            < b[0]),
        b.len() > 0 ==> text_before(front, front + b),
        !text_before(front + b, front),
    decreases front.len(),
{
    if front.len() > 0 {
        let rest = front.drop_first();
        law_text_order(rest, a, b);
        assert((front + a).drop_first() =~= rest + a);
        assert((front + b).drop_first() =~= rest + b);
    } else {
        assert(front + a =~= a);
        assert(front + b =~= b);
    }
}

/// How two rows of a stably sorted table stand to each other: the first does not come later by key,
/// and rows with the same key keep their order. Every row is there once.
pub proof fn lemma_places<T>(
    old_rows: Seq<T>,
    new_rows: Seq<T>,
    keys: Seq<Seq<PartView>>,
    descending: bool,
    i: int,
    j: int,
) -> (r: (int, int))
    requires
        sorted_stably(old_rows, new_rows, keys, descending),
        old_rows.len() == keys.len(),
        0 <= i < j < new_rows.len(),
    ensures
        0 <= r.0 < old_rows.len() && 0 <= r.1 < old_rows.len(),
        new_rows[i] == old_rows[r.0] && new_rows[j] == old_rows[r.1],
        keys[r.0] == keys[r.1] || if descending {
            key_before(keys[r.1], keys[r.0])
        } else {
            key_before(keys[r.0], keys[r.1])
        },
{
    let order = choose|order: Seq<int>| #[trigger]
        is_stable_order(keys, descending, order) && new_rows == arrange(old_rows, order);
    assert(new_rows[i] == old_rows[order[i]]);
    assert(new_rows[j] == old_rows[order[j]]);
    (order[i], order[j])
}

/// Sorting moves rows and does nothing else to them: each row goes to one place, and rows with the
/// same key keep their order.
pub proof fn law_sort_is_stable<T>(
    old_rows: Seq<T>,
    new_rows: Seq<T>,
    keys: Seq<Seq<PartView>>,
    descending: bool,
)
    requires
        sorted_stably(old_rows, new_rows, keys, descending),
        old_rows.len() == keys.len(),
    ensures
        new_rows.len() == old_rows.len(),
        exists|order: Seq<int>|
            {
                &&& #[trigger] order.len() == old_rows.len()
                &&& forall|i: int|
                    0 <= i < order.len() ==> 0 <= #[trigger] order[i] < old_rows.len() && new_rows[i]
                        == old_rows[order[i]]
                &&& forall|i: int, j: int|
                    0 <= i < j < order.len() ==> #[trigger] order[i] != #[trigger] order[j] && (
                    keys[order[i]] == keys[order[j]] ==> order[i] < order[j])
            },
{
    let order = choose|order: Seq<int>| #[trigger]
        is_stable_order(keys, descending, order) && new_rows == arrange(old_rows, order);
    assert forall|i: int, j: int| 0 <= i < j < order.len() implies #[trigger] order[i] != #[trigger] order[j]
        && (keys[order[i]] == keys[order[j]] ==> order[i] < order[j]) by {
        law_key_order_total(keys[order[i]], keys[order[j]]);
    }
    assert(order.len() == old_rows.len());
}

proof fn lemma_one_number(m: nat, n: nat)
    ensures
        key_before(seq![PartView::Number(m)], seq![PartView::Number(n)]) <==> m < n,
{
    let (a, b) = (seq![PartView::Number(m)], seq![PartView::Number(n)]);
    if m == n {
        assert(a =~= b);
        law_key_order_total(a, b);
    } else {
        assert(a[0] != b[0]);
    }
}

proof fn lemma_one_text(s: Seq<char>, t: Seq<char>)
    ensures
        key_before(seq![PartView::Text(s)], seq![PartView::Text(t)]) <==> text_before(s, t),
{
    let (a, b) = (seq![PartView::Text(s)], seq![PartView::Text(t)]);
    if s == t {
        assert(a =~= b);
        law_key_order_total(a, b);
        lemma_text_before_total(s, t);
    } else {
        assert(a[0] != b[0]);
    }
}

proof fn lemma_two_numbers(a: (nat, nat), b: (nat, nat))
    ensures
        key_before(
            seq![PartView::Number(a.0), PartView::Number(a.1)],
            seq![PartView::Number(b.0), PartView::Number(b.1)],
        ) <==> a.0 < b.0 || a.0 == b.0 && a.1 < b.1,
{
    let x = seq![PartView::Number(a.0), PartView::Number(a.1)];
    let y = seq![PartView::Number(b.0), PartView::Number(b.1)];
    if a.0 == b.0 {
        assert(x.drop_first() =~= seq![PartView::Number(a.1)]);
        assert(y.drop_first() =~= seq![PartView::Number(b.1)]);
        lemma_one_number(a.1, b.1);
    } else {
        assert(x[0] != y[0]);
    }
}

/// Keys of a number and a pair are in the order of the numbers, and then of the pairs.
pub proof fn lemma_three_numbers(r: nat, a: (nat, nat), s: nat, b: (nat, nat))
    ensures
        key_before(
            seq![PartView::Number(r)] + seq![PartView::Number(a.0), PartView::Number(a.1)],
            seq![PartView::Number(s)] + seq![PartView::Number(b.0), PartView::Number(b.1)],
        ) <==> r < s || r == s && (a.0 < b.0 || a.0 == b.0 && a.1 < b.1),
{
    let x = seq![PartView::Number(r)] + seq![PartView::Number(a.0), PartView::Number(a.1)];
    let y = seq![PartView::Number(s)] + seq![PartView::Number(b.0), PartView::Number(b.1)];
    if r == s {
        assert(x.drop_first() =~= seq![PartView::Number(a.0), PartView::Number(a.1)]);
        assert(y.drop_first() =~= seq![PartView::Number(b.0), PartView::Number(b.1)]);
        lemma_two_numbers(a, b);
    } else {
        assert(x[0] != y[0]);
    }
}

/// Whether a job may stand in front of another in a table that is sorted by a column.
pub open spec fn jobs_stand(a: JobView, b: JobView, column: JobColumn, direction: SortDirection) -> bool {
    match column {
        JobColumn::State => {
            let (x, y) = (rank_of_state(a.state), rank_of_state(b.state));
            numbers_stand(x as int, y as int, direction) && (x == y ==> ids_stand(a.id, b.id, direction))
        },
        JobColumn::JobId => ids_stand(a.id, b.id, direction),
        JobColumn::User => texts_stand(lowercase(a.user), lowercase(b.user), direction),
        JobColumn::Partition => texts_stand(lowercase(a.partition), lowercase(b.partition), direction),
        JobColumn::Qos => texts_stand(lowercase(a.qos), lowercase(b.qos), direction),
        JobColumn::Priority => numbers_stand(a.priority as int, b.priority as int, direction),
        JobColumn::Name => texts_stand(lowercase(a.name), lowercase(b.name), direction),
        JobColumn::Nodes => texts_stand(a.nodes, b.nodes, direction),
        JobColumn::Cpus => numbers_stand(a.cpus as int, b.cpus as int, direction),
        JobColumn::Gpus => numbers_stand(count_sum(a.gpus) as int, count_sum(b.gpus) as int, direction),
        JobColumn::Memory => numbers_stand(a.memory.0 as int, b.memory.0 as int, direction),
        JobColumn::Time => numbers_stand(
            slurm_seconds(a.time_used) as int,
            slurm_seconds(b.time_used) as int,
            direction,
        ),
    }
}

/// In a table of jobs that is sorted by a column, what the column shows of a row never comes before
/// what it shows of a row in front of it.
pub proof fn law_jobs_stand_in_order(
    old_jobs: Seq<JobView>,
    new_jobs: Seq<JobView>,
    column: JobColumn,
    direction: SortDirection,
)
    requires
        jobs_sorted(old_jobs, new_jobs, column, direction),
    ensures
        new_jobs.len() == old_jobs.len(),
        forall|i: int, j: int|
            0 <= i < j < new_jobs.len() ==> jobs_stand(
                #[trigger] new_jobs[i],
                #[trigger] new_jobs[j],
                column,
                direction,
            ),
{
    let keys = keys_of(old_jobs, |j: JobView| job_key(j, column));
    let descending = direction == SortDirection::Desc;
    law_sort_is_stable(old_jobs, new_jobs, keys, descending);
    assert forall|i: int, j: int| 0 <= i < j < new_jobs.len() implies jobs_stand(
        #[trigger] new_jobs[i],
        #[trigger] new_jobs[j],
        column,
        direction,
    ) by {
        let (m, n) = lemma_places(old_jobs, new_jobs, keys, descending, i, j);
        let (a, b) = (new_jobs[i], new_jobs[j]);
        lemma_job_keys(a, b, column, direction);
        assert(keys[m] == job_key(a, column) && keys[n] == job_key(b, column));
    }
}

proof fn lemma_job_keys(a: JobView, b: JobView, column: JobColumn, direction: SortDirection)
    requires
        job_key(a, column) == job_key(b, column) || if direction == SortDirection::Desc {
            key_before(job_key(b, column), job_key(a, column))
        } else {
            key_before(job_key(a, column), job_key(b, column))
        },
    ensures
        jobs_stand(a, b, column, direction),
{
    let (x, y) = (job_number(a.id), job_number(b.id));
    let (p, q) = ((x.0 as nat, x.1 as nat), (y.0 as nat, y.1 as nat));
    let (k, l) = (job_key(a, column), job_key(b, column));
    match column {
        JobColumn::State => {
            let (r, s) = (rank_of_state(a.state) as nat, rank_of_state(b.state) as nat);
            lemma_three_numbers(r, p, s, q);
            lemma_three_numbers(s, q, r, p);
            assert(k[0] == PartView::Number(r) && k[1] == PartView::Number(p.0) && k[2] == PartView::Number(p.1));
            assert(l[0] == PartView::Number(s) && l[1] == PartView::Number(q.0) && l[2] == PartView::Number(q.1));
        },
        JobColumn::JobId => {
            lemma_two_numbers(p, q);
            lemma_two_numbers(q, p);
            assert(k[0] == PartView::Number(p.0) && k[1] == PartView::Number(p.1));
            assert(l[0] == PartView::Number(q.0) && l[1] == PartView::Number(q.1));
        },
        JobColumn::User => lemma_text_keys(lowercase(a.user), lowercase(b.user)),
        JobColumn::Partition => lemma_text_keys(lowercase(a.partition), lowercase(b.partition)),
        JobColumn::Qos => lemma_text_keys(lowercase(a.qos), lowercase(b.qos)),
        JobColumn::Priority => lemma_number_keys(a.priority as nat, b.priority as nat),
        JobColumn::Name => lemma_text_keys(lowercase(a.name), lowercase(b.name)),
        JobColumn::Nodes => lemma_text_keys(a.nodes, b.nodes),
        JobColumn::Cpus => lemma_number_keys(a.cpus as nat, b.cpus as nat),
        JobColumn::Gpus => lemma_number_keys(a.gpu_count(), b.gpu_count()),
        JobColumn::Memory => lemma_number_keys(a.memory.0 as nat, b.memory.0 as nat),
        JobColumn::Time => lemma_number_keys(slurm_seconds(a.time_used), slurm_seconds(b.time_used)),
    }
}

/// Keys of one text are in the order of the texts.
pub proof fn lemma_text_keys(s: Seq<char>, t: Seq<char>)
    ensures
        key_before(seq![PartView::Text(s)], seq![PartView::Text(t)]) <==> text_before(s, t),
        key_before(seq![PartView::Text(t)], seq![PartView::Text(s)]) <==> text_before(t, s),
        seq![PartView::Text(s)] == seq![PartView::Text(t)] ==> s == t,
{
    lemma_one_text(s, t);
    lemma_one_text(t, s);
    assert(seq![PartView::Text(s)][0] == PartView::Text(s));
    assert(seq![PartView::Text(t)][0] == PartView::Text(t));
}

/// Keys of one number are in the order of the numbers.
pub proof fn lemma_number_keys(m: nat, n: nat)
    ensures
        key_before(seq![PartView::Number(m)], seq![PartView::Number(n)]) <==> m < n,
        key_before(seq![PartView::Number(n)], seq![PartView::Number(m)]) <==> n < m,
        seq![PartView::Number(m)] == seq![PartView::Number(n)] ==> m == n,
{
    lemma_one_number(m, n);
    lemma_one_number(n, m);
    assert(seq![PartView::Number(m)][0] == PartView::Number(m));
    assert(seq![PartView::Number(n)][0] == PartView::Number(n));
}

/// Whether a node may stand in front of another in a table that is sorted by a column. GPUs are free
/// where the node has them and they are not allocated.
pub open spec fn nodes_stand(a: NodeView, b: NodeView, column: NodeColumn, direction: SortDirection) -> bool {
    match column {
        NodeColumn::State => texts_stand(lowercase(a.state), lowercase(b.state), direction),
        NodeColumn::Name => texts_stand(a.name, b.name, direction),
        NodeColumn::CpusTotal => numbers_stand(a.cpus.total as int, b.cpus.total as int, direction),
        NodeColumn::CpusFree => numbers_stand(a.cpus.idle as int, b.cpus.idle as int, direction),
        NodeColumn::MemoryTotal => numbers_stand(
            a.memory_total.0 as int,
            b.memory_total.0 as int,
            direction,
        ),
        NodeColumn::MemoryFree => numbers_stand(a.memory_free.0 as int, b.memory_free.0 as int, direction),
        NodeColumn::GpusTotal => numbers_stand(
            count_sum(a.gpus) as int,
            count_sum(b.gpus) as int,
            direction,
        ),
        NodeColumn::GpusFree => numbers_stand(
            left_over(count_sum(a.gpus) as int, count_sum(a.gpus_allocated) as int),
            left_over(count_sum(b.gpus) as int, count_sum(b.gpus_allocated) as int),
            direction,
        ),
    }
}

/// What is left of `all` after `used` is taken away, at least zero.
pub open spec fn left_over(all: int, used: int) -> int {
    if all < used {
        0
    } else {
        all - used
    }
}

/// In a table of nodes that is sorted by a column, what the column shows of a row never comes before
/// what it shows of a row in front of it.
pub proof fn law_nodes_stand_in_order(
    old_nodes: Seq<NodeView>,
    new_nodes: Seq<NodeView>,
    column: NodeColumn,
    direction: SortDirection,
)
    requires
        nodes_sorted(old_nodes, new_nodes, column, direction),
    ensures
        new_nodes.len() == old_nodes.len(),
        forall|i: int, j: int|
            0 <= i < j < new_nodes.len() ==> nodes_stand(
                #[trigger] new_nodes[i],
                #[trigger] new_nodes[j],
                column,
                direction,
            ),
{
    let keys = keys_of(old_nodes, |n: NodeView| node_key(n, column));
    let descending = direction == SortDirection::Desc;
    law_sort_is_stable(old_nodes, new_nodes, keys, descending);
    assert forall|i: int, j: int| 0 <= i < j < new_nodes.len() implies nodes_stand(
        #[trigger] new_nodes[i],
        #[trigger] new_nodes[j],
        column,
        direction,
    ) by {
        let (m, n) = lemma_places(old_nodes, new_nodes, keys, descending, i, j);
        let (a, b) = (new_nodes[i], new_nodes[j]);
        assert(keys[m] == node_key(a, column) && keys[n] == node_key(b, column));
        match column {
            NodeColumn::State => lemma_text_keys(lowercase(a.state), lowercase(b.state)),
            NodeColumn::Name => lemma_text_keys(a.name, b.name),
            NodeColumn::CpusTotal => lemma_number_keys(a.cpus.total as nat, b.cpus.total as nat),
            NodeColumn::CpusFree => lemma_number_keys(a.cpus.idle as nat, b.cpus.idle as nat),
            NodeColumn::MemoryTotal => lemma_number_keys(a.memory_total.0 as nat, b.memory_total.0 as nat),
            NodeColumn::MemoryFree => lemma_number_keys(a.memory_free.0 as nat, b.memory_free.0 as nat),
            NodeColumn::GpusTotal => lemma_number_keys(a.gpu_count(), b.gpu_count()),
            NodeColumn::GpusFree => lemma_number_keys(a.gpu_free(), b.gpu_free()),
        }
    }
}

/// Whether an accounting record may stand in front of another in a table that is sorted by a column.
pub open spec fn records_stand(
    a: RecordView,
    b: RecordView,
    column: AccountingColumn,
    direction: SortDirection,
) -> bool {
    match column {
        AccountingColumn::JobId => ids_stand(a.job_id, b.job_id, direction),
        AccountingColumn::User => texts_stand(lowercase(a.user), lowercase(b.user), direction),
        AccountingColumn::State => texts_stand(lowercase(a.state), lowercase(b.state), direction),
        AccountingColumn::Partition => texts_stand(
            lowercase(a.partition),
            lowercase(b.partition),
            direction,
        ),
        AccountingColumn::Cpus => numbers_stand(a.cpus as int, b.cpus as int, direction),
        AccountingColumn::Memory => numbers_stand(a.memory.0 as int, b.memory.0 as int, direction),
        AccountingColumn::Elapsed => texts_stand(a.elapsed, b.elapsed, direction),
        AccountingColumn::End => texts_stand(a.end, b.end, direction),
    }
}

/// In a table of accounting records that is sorted by a column, what the column shows of a row never
/// comes before what it shows of a row in front of it.
pub proof fn law_records_stand_in_order(
    old_rows: Seq<RecordView>,
    new_rows: Seq<RecordView>,
    column: AccountingColumn,
    direction: SortDirection,
)
    requires
        records_sorted(old_rows, new_rows, column, direction),
    ensures
        new_rows.len() == old_rows.len(),
        forall|i: int, j: int|
            0 <= i < j < new_rows.len() ==> records_stand(
                #[trigger] new_rows[i],
                #[trigger] new_rows[j],
                column,
                direction,
            ),
{
    let keys = keys_of(old_rows, |r: RecordView| record_key(r, column));
    let descending = direction == SortDirection::Desc;
    law_sort_is_stable(old_rows, new_rows, keys, descending);
    assert forall|i: int, j: int| 0 <= i < j < new_rows.len() implies records_stand(
        #[trigger] new_rows[i],
        #[trigger] new_rows[j],
        column,
        direction,
    ) by {
        let (m, n) = lemma_places(old_rows, new_rows, keys, descending, i, j);
        let (a, b) = (new_rows[i], new_rows[j]);
        let (k, l) = (record_key(a, column), record_key(b, column));
        assert(keys[m] == k && keys[n] == l);
        match column {
            AccountingColumn::JobId => {
                let (x, y) = (job_number(a.job_id), job_number(b.job_id));
                let (p, q) = ((x.0 as nat, x.1 as nat), (y.0 as nat, y.1 as nat));
                lemma_two_numbers(p, q);
                lemma_two_numbers(q, p);
                assert(k[0] == PartView::Number(p.0) && k[1] == PartView::Number(p.1));
                assert(l[0] == PartView::Number(q.0) && l[1] == PartView::Number(q.1));
            },
            AccountingColumn::User => lemma_text_keys(lowercase(a.user), lowercase(b.user)),
            AccountingColumn::State => lemma_text_keys(lowercase(a.state), lowercase(b.state)),
            AccountingColumn::Partition => lemma_text_keys(
                lowercase(a.partition),
                lowercase(b.partition),
            ),
            AccountingColumn::Cpus => lemma_number_keys(a.cpus as nat, b.cpus as nat),
            AccountingColumn::Memory => lemma_number_keys(a.memory.0 as nat, b.memory.0 as nat),
            AccountingColumn::Elapsed => lemma_text_keys(a.elapsed, b.elapsed),
            AccountingColumn::End => lemma_text_keys(a.end, b.end),
        }
    }
}

} // verus!
