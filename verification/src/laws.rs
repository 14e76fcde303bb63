//! What holds of the board whatever happens on it.

use vstd::prelude::*;
use crate::kanban::{BuffOrder, HISTORY_CAPACITY};
use crate::model::{
    archived, fresh_card, goes_before, is_dispatch_order, plan, BoardView, CardView,
};
use crate::task::{Task, WorkCompleted};

verus! {

/// Crediting a task keeps what it has taken between nothing and the total,
/// and energy that is not negative never lowers it.
pub proof fn lemma_credit_is_clamped(task: Task, energy_add: int)
    requires
        task.wf(),
    ensures
        0 <= task.credited(energy_add).energy_taken <= task.total_energy_required,
        task.credited(energy_add).total_energy_required == task.total_energy_required,
        task.credited(energy_add).wf(),
        energy_add >= 0 ==> task.credited(energy_add).energy_taken >= task.energy_taken,
{
}

/// A report that brings no negative energy lowers the progress of no task:
/// a task that is open before and after the report has taken at least as
/// much as before, and never more than its total.
pub proof fn lemma_progress_never_falls(
    board: BoardView,
    report: WorkCompleted,
    i: int,
    j: int,
)
    requires
        board.wf(),
        report.energy_add >= 0,
        0 <= i < board.open.len(),
        0 <= j < board.reported(report).open.len(),
        board.open[i].uuid == board.reported(report).open[j].uuid,
    ensures
        board.open[i].task.energy_taken <= board.reported(report).open[j].task.energy_taken,
        board.reported(report).open[j].task.energy_taken <= board.reported(
            report,
        ).open[j].task.total_energy_required,
        board.reported(report).open[j].task.total_energy_required
            == board.open[i].task.total_energy_required,
{
    let after = board.reported(report);
    if board.holds(report.uuid) {
        let k = board.index_of(report.uuid);
        let card = board.open[k].worked_on(report);
        lemma_credit_is_clamped(board.open[k].task, report.energy_add as int);
        if !card.task.done() {
            assert(after.open == board.open.update(k, card));
            if j != i {
                if i < j {
                    assert(board.open[i].uuid < board.open[j].uuid);
                } else {
                    assert(board.open[j].uuid < board.open[i].uuid);
                }
            }
        } else {
            let rest = board.open.remove(k);
            if j < rest.len() {
                let from = if j < k {
                    j
                } else {
                    j + 1
                };
                assert(after.open[j] == board.open[from]);
                if from != i {
                    if i < from {
                        assert(board.open[i].uuid < board.open[from].uuid);
                    } else {
                        assert(board.open[from].uuid < board.open[i].uuid);
                    }
                }
            } else {
                assert(after.open[j].uuid == board.next_id);
            }
        }
    } else {
        if i < j {
            assert(board.open[i].uuid < board.open[j].uuid);
        } else if j < i {
            assert(board.open[j].uuid < board.open[i].uuid);
        }
    }
}

/// The throw of the dice for a new task touches no task that is open: each
/// keeps its place, its progress and its contributors.
pub proof fn lemma_arrival_keeps_open_tasks(board: BoardView, arrival: bool, urgent: bool, i: int)
    requires
        0 <= i < board.open.len(),
    ensures
        board.arrived(arrival, urgent).open.len() >= board.open.len(),
        board.arrived(arrival, urgent).open[i] == board.open[i],
        board.arrived(arrival, urgent).done == board.done,
{
}

/// A report that finishes a task takes it from the open tasks and opens
/// exactly the one task that follows from its kind, fresh from the catalog,
/// or none where nothing follows.
pub proof fn lemma_completion_opens_successor(board: BoardView, report: WorkCompleted)
    requires
        board.wf(),
        board.next_id < usize::MAX,
        board.holds(report.uuid),
        board.open[board.index_of(report.uuid)].worked_on(report).task.done(),
    ensures
        match board.open[board.index_of(report.uuid)].task.id.next_kind() {
            Some(kind) => {
                &&& board.reported(report).open == board.open.remove(
                    board.index_of(report.uuid),
                ).push(fresh_card(board.next_id, kind.template()))
                &&& board.reported(report).open.len() == board.open.len()
                &&& board.reported(report).next_id == board.next_id + 1
            },
            None => {
                &&& board.reported(report).open == board.open.remove(board.index_of(report.uuid))
                &&& board.reported(report).open.len() == board.open.len() - 1
                &&& board.reported(report).next_id == board.next_id
            },
        },
        board.reported(report).done[0] == board.open[board.index_of(report.uuid)].worked_on(
            report,
        ),
{
}

/// In one tick no employee gets two orders and no task is ordered twice,
/// and no more orders go out than there are employees or open tasks.
pub proof fn lemma_one_order_per_employee(
    board: BoardView,
    ordered: Seq<CardView>,
    a: int,
    b: int,
)
    requires
        board.wf(),
        is_dispatch_order(ordered, board.open),
        0 <= a < b < plan(ordered, board.roster).len(),
    ensures
        plan(ordered, board.roster).len() <= board.roster.len(),
        plan(ordered, board.roster).len() <= board.open.len(),
        plan(ordered, board.roster)[a].employee_id != plan(ordered, board.roster)[b].employee_id,
        plan(ordered, board.roster)[a].work.uuid != plan(ordered, board.roster)[b].work.uuid,
{
    assert(goes_before(ordered[a], ordered[b]));
    lemma_goes_before_is_strict(ordered[a], ordered[b]);
    if ordered[a].uuid == ordered[b].uuid {
        assert(board.open.contains(ordered[a]));
        assert(board.open.contains(ordered[b]));
        let i = choose|i: int| 0 <= i < board.open.len() && board.open[i] == ordered[a];
        let j = choose|j: int| 0 <= j < board.open.len() && board.open[j] == ordered[b];
        if i < j {
            assert(board.open[i].uuid < board.open[j].uuid);
        } else if j < i {
            assert(board.open[j].uuid < board.open[i].uuid);
        }
    }
}

/// Of two cards at most one goes before the other, and none before itself.
pub proof fn lemma_goes_before_is_strict(a: CardView, b: CardView)
    ensures
        !(goes_before(a, b) && goes_before(b, a)),
        !goes_before(a, a),
        goes_before(a, b) ==> a.uuid != b.uuid || a.task.id.rank() != b.task.id.rank()
            || a.task.fraction() != b.task.fraction(),
{
}

/// The dispatch order puts the lower rank first whatever the progress, and
/// of two tasks of one rank the one that is further along.
pub proof fn lemma_dispatch_order_ranks(
    ordered: Seq<CardView>,
    open: Seq<CardView>,
    i: int,
    j: int,
)
    requires
        is_dispatch_order(ordered, open),
        0 <= i < ordered.len(),
        0 <= j < ordered.len(),
        ordered[i].task.id.rank() < ordered[j].task.id.rank() || (ordered[i].task.id.rank()
            == ordered[j].task.id.rank() && ordered[i].task.fraction()
            > ordered[j].task.fraction()),
    ensures
        i < j,
{
    if j < i {
        assert(goes_before(ordered[j], ordered[i]));
    }
}

/// Two dispatch orders of the same open tasks are the same: the order of
/// dispatch is settled by the open tasks alone.
pub proof fn lemma_dispatch_order_is_unique(
    first: Seq<CardView>,
    second: Seq<CardView>,
    open: Seq<CardView>,
)
    requires
        is_dispatch_order(first, open),
        is_dispatch_order(second, open),
    ensures
        first == second,
    decreases first.len(),
{
    if first.len() > 0 {
        let n = first.len() as int;
        // the last card of each order is the one that all others go before
        let x = first[n - 1];
        let y = second[n - 1];
        assert(open.contains(x));
        assert(open.contains(y));
        let ox = choose|k: int| 0 <= k < open.len() && open[k] == x;
        let oy = choose|k: int| 0 <= k < open.len() && open[k] == y;
        assert(second.contains(open[ox]));
        assert(first.contains(open[oy]));
        let sx = choose|k: int| 0 <= k < second.len() && second[k] == x;
        let fy = choose|k: int| 0 <= k < first.len() && first[k] == y;
        if sx < n - 1 {
            assert(goes_before(second[sx], second[n - 1]));
            if fy < n - 1 {
                assert(goes_before(first[fy], first[n - 1]));
            }
        }
        assert(x == y);
        let open_rest = open.remove(ox);
        let first_rest = first.drop_last();
        let second_rest = second.drop_last();
        assert forall|i: int| 0 <= i < first_rest.len() implies open_rest.contains(
            #[trigger] first_rest[i],
        ) by {
            lemma_rest_holds(first, open, ox, i);
        }
        assert forall|i: int| 0 <= i < second_rest.len() implies open_rest.contains(
            #[trigger] second_rest[i],
        ) by {
            lemma_rest_holds(second, open, ox, i);
        }
        assert forall|k: int| 0 <= k < open_rest.len() implies first_rest.contains(
            #[trigger] open_rest[k],
        ) by {
            lemma_rest_is_held(first, open, ox, k);
        }
        assert forall|k: int| 0 <= k < open_rest.len() implies second_rest.contains(
            #[trigger] open_rest[k],
        ) by {
            lemma_rest_is_held(second, open, ox, k);
        }
        assert forall|i: int, j: int| 0 <= i < j < first_rest.len() implies goes_before(
            first_rest[i],
            first_rest[j],
        ) by {
            assert(goes_before(first[i], first[j]));
        }
        assert forall|i: int, j: int| 0 <= i < j < second_rest.len() implies goes_before(
            second_rest[i],
            second_rest[j],
        ) by {
            assert(goes_before(second[i], second[j]));
        }
        lemma_dispatch_order_is_unique(first_rest, second_rest, open_rest);
        assert(first =~= first_rest.push(x));
        assert(second =~= second_rest.push(y));
    } else {
        assert(first =~= second);
    }
}

/// A card of a dispatch order that is not its last is among the open cards
/// without the last one.
proof fn lemma_rest_holds(ordered: Seq<CardView>, open: Seq<CardView>, last_at: int, i: int)
    requires
        is_dispatch_order(ordered, open),
        0 <= last_at < open.len(),
        open[last_at] == ordered.last(),
        0 <= i < ordered.len() - 1,
    ensures
        open.remove(last_at).contains(ordered.drop_last()[i]),
{
    let n = ordered.len() as int;
    assert(goes_before(ordered[i], ordered[n - 1]));
    assert(open.contains(ordered[i]));
    let k = choose|k: int| 0 <= k < open.len() && open[k] == ordered[i];
    assert(k != last_at);
    if k < last_at {
        assert(open.remove(last_at)[k] == ordered[i]);
    } else {
        assert(open.remove(last_at)[k - 1] == ordered[i]);
    }
}

/// An open card other than the last of the dispatch order is in the order
/// before its last place.
proof fn lemma_rest_is_held(ordered: Seq<CardView>, open: Seq<CardView>, last_at: int, k: int)
    requires
        is_dispatch_order(ordered, open),
        0 <= last_at < open.len(),
        open[last_at] == ordered.last(),
        0 <= k < open.len() - 1,
    ensures
        ordered.drop_last().contains(open.remove(last_at)[k]),
{
    let n = ordered.len() as int;
    let from = if k < last_at {
        k
    } else {
        k + 1
    };
    let card = open[from];
    assert(open.remove(last_at)[k] == card);
    assert(ordered.contains(card));
    let i = choose|i: int| 0 <= i < ordered.len() && ordered[i] == card;
    if i == n - 1 {
        // then two places of `open` hold the last card of the order, and
        // the order, which is as long as `open`, would hold it twice
        lemma_order_has_no_twins(ordered, open, from, last_at);
    }
    assert(ordered.drop_last()[i] == card);
}

/// No card stands at two places of the open cards that a dispatch order
/// lists.
proof fn lemma_order_has_no_twins(ordered: Seq<CardView>, open: Seq<CardView>, a: int, b: int)
    requires
        is_dispatch_order(ordered, open),
        0 <= a < open.len(),
        0 <= b < open.len(),
        a != b,
    ensures
        open[a] != open[b],
{
    // the cards of the order are all different, so they are as many as the
    // set of them; that set is the set of the open cards, which would be
    // smaller than their number if two of them were the same
    assert(ordered.no_duplicates()) by {
        assert forall|i: int, j: int| 0 <= i < j < ordered.len() implies ordered[i]
            != ordered[j] by {
            assert(goes_before(ordered[i], ordered[j]));
        }
    }
    ordered.unique_seq_to_set();
    assert(ordered.to_set() =~= open.to_set()) by {
        assert forall|c: CardView| ordered.to_set().contains(c) <==> open.to_set().contains(
            c,
        ) by {
            if ordered.contains(c) {
                let i = choose|i: int| 0 <= i < ordered.len() && ordered[i] == c;
                assert(open.contains(ordered[i]));
            }
            if open.contains(c) {
                let k = choose|k: int| 0 <= k < open.len() && open[k] == c;
                assert(ordered.contains(open[k]));
            }
        }
    }
    if open[a] == open[b] {
        let less = open.remove(b);
        assert(less.to_set() =~= open.to_set()) by {
            assert forall|c: CardView| less.to_set().contains(c) <==> open.to_set().contains(
                c,
            ) by {
                if less.contains(c) {
                    let i = choose|i: int| 0 <= i < less.len() && less[i] == c;
                    if i < b {
                        assert(open[i] == c);
                    } else {
                        assert(open[i + 1] == c);
                    }
                }
                if open.contains(c) {
                    let k = choose|k: int| 0 <= k < open.len() && open[k] == c;
                    let at = if k == b {
                        a
                    } else {
                        k
                    };
                    if at < b {
                        assert(less[at] == c);
                    } else {
                        assert(less[at - 1] == c);
                    }
                }
            }
        }
        less.lemma_cardinality_of_set();
    }
}

/// The history never grows past its capacity. A finished card goes to the
/// front, those before it keep their order behind it, and when there is no
/// room the one at the back leaves.
pub proof fn lemma_history_is_bounded(done: Seq<CardView>, card: CardView)
    requires
        done.len() <= HISTORY_CAPACITY,
    ensures
        archived(done, card).len() <= HISTORY_CAPACITY,
        archived(done, card).len() == if done.len() < HISTORY_CAPACITY {
            done.len() + 1
        } else {
            HISTORY_CAPACITY as nat
        },
        archived(done, card)[0] == card,
        forall|i: int|
            1 <= i < archived(done, card).len() ==> archived(done, card)[i] == done[i - 1],
{
}

/// A report on a task that is not open changes nothing and sets off no
/// buff.
pub proof fn lemma_stale_report_is_ignored(board: BoardView, report: WorkCompleted)
    requires
        !board.holds(report.uuid),
    ensures
        board.reported(report) == board,
        board.buffs(report) == Seq::<BuffOrder>::empty(),
{
}

/// Once a report has finished a task, the task is no longer open, and every
/// later report on it is ignored.
pub proof fn lemma_completion_happens_once(
    board: BoardView,
    report: WorkCompleted,
    later: WorkCompleted,
)
    requires
        board.wf(),
        board.next_id < usize::MAX,
        board.holds(report.uuid),
        board.open[board.index_of(report.uuid)].worked_on(report).task.done(),
        later.uuid == report.uuid,
    ensures
        !board.reported(report).holds(report.uuid),
        board.reported(report).reported(later) == board.reported(report),
        board.reported(report).buffs(later) == Seq::<BuffOrder>::empty(),
{
    let k = board.index_of(report.uuid);
    let after = board.reported(report);
    let rest = board.open.remove(k);
    assert forall|i: int| 0 <= i < after.open.len() implies after.open[i].uuid
        != report.uuid by {
        if i < rest.len() {
            if i < k {
                assert(after.open[i] == board.open[i]);
                assert(board.open[i].uuid < board.open[k].uuid);
            } else {
                assert(after.open[i] == board.open[i + 1]);
                assert(board.open[k].uuid < board.open[i + 1].uuid);
            }
        } else {
            assert(after.open[i].uuid == board.next_id);
            assert(board.open[k].uuid < board.next_id);
        }
    }
}

/// A report keeps the invariant of the board.
pub proof fn lemma_report_keeps_invariant(board: BoardView, report: WorkCompleted)
    requires
        board.wf(),
        board.next_id < usize::MAX,
    ensures
        board.reported(report).wf(),
        board.reported(report).roster == board.roster,
        board.reported(report).next_id >= board.next_id,
{
    if board.holds(report.uuid) {
        let k = board.index_of(report.uuid);
        let card = board.open[k].worked_on(report);
        lemma_credit_is_clamped(board.open[k].task, report.energy_add as int);
        if card.task.done() {
            let moved = BoardView {
                open: board.open.remove(k),
                done: archived(board.done, card),
                ..board
            };
            assert forall|i: int, j: int|
                0 <= i < moved.open.len() && 0 <= j < moved.done.len() implies moved.open[i].uuid
                != moved.done[j].uuid by {
                let from = if i < k {
                    i
                } else {
                    i + 1
                };
                assert(moved.open[i] == board.open[from]);
                if j == 0 {
                    if from < k {
                        assert(board.open[from].uuid < board.open[k].uuid);
                    } else {
                        assert(board.open[k].uuid < board.open[from].uuid);
                    }
                } else {
                    assert(moved.done[j] == board.done[j - 1]);
                }
            }
            assert forall|i: int, j: int| 0 <= i < j < moved.open.len() implies moved.open[i].uuid
                < moved.open[j].uuid by {
                let fi = if i < k {
                    i
                } else {
                    i + 1
                };
                let fj = if j < k {
                    j
                } else {
                    j + 1
                };
                assert(board.open[fi].uuid < board.open[fj].uuid);
            }
            assert(moved.wf());
        }
    }
}

} // verus!
