//! The board as the contracts see it: what is on it, what each event makes
//! of it, and in what order its open tasks are dispatched.

use vstd::prelude::*;
use crate::employee::{Buff, BuffId, EmployeeActor};
use crate::kanban::{Assignment, BuffOrder, Key, HISTORY_CAPACITY, OPEN_TASK_CAP};
use crate::task::{Task, TaskId, Work, WorkCompleted};

verus! {

/// A card as the contracts see it: the contributors are a set.
pub struct CardView {
    pub uuid: usize,
    pub task: Task,
    pub contributors: Set<usize>,
}

impl CardView {
    /// The card after an employee's report: the energy is credited and the
    /// employee is among the contributors.
    pub open spec fn worked_on(self, report: WorkCompleted) -> CardView {
        CardView {
            uuid: self.uuid,
            task: self.task.credited(report.energy_add as int),
            contributors: self.contributors.insert(report.employee_id),
        }
    }
}

/// A fresh card for a task that nobody has worked on.
pub open spec fn fresh_card(uuid: usize, task: Task) -> CardView {
    CardView { uuid, task, contributors: Set::empty() }
}

/// Whether card `a` is dispatched before card `b`: the lower rank first; of
/// equal ranks the one that is further along; of equals the older one.
pub open spec fn goes_before(a: CardView, b: CardView) -> bool {
    ||| a.task.id.rank() < b.task.id.rank()
    ||| (a.task.id.rank() == b.task.id.rank() && a.task.fraction() > b.task.fraction())
    ||| (a.task.id.rank() == b.task.id.rank() && a.task.fraction() == b.task.fraction() && a.uuid
        < b.uuid)
}

/// Whether `ordered` holds exactly the cards of `open`, each before all
/// those that are dispatched after it.
pub open spec fn is_dispatch_order(ordered: Seq<CardView>, open: Seq<CardView>) -> bool {
    &&& ordered.len() == open.len()
    &&& forall|i: int| 0 <= i < ordered.len() ==> open.contains(#[trigger] ordered[i])
    &&& forall|i: int| 0 <= i < open.len() ==> ordered.contains(#[trigger] open[i])
    &&& forall|i: int, j: int|
        0 <= i < j < ordered.len() ==> goes_before(ordered[i], ordered[j])
}

/// The orders of one tick: the employee at each place of the roster gets the
/// card at the same place of the dispatch order, as far as both reach.
pub open spec fn plan(ordered: Seq<CardView>, roster: Seq<usize>) -> Seq<Assignment> {
    Seq::new(
        if roster.len() <= ordered.len() {
            roster.len()
        } else {
            ordered.len()
        },
        |i: int|
            Assignment {
                employee_id: roster[i],
                work: Work { task: ordered[i].task.id, uuid: ordered[i].uuid },
            },
    )
}

/// The task that arrives by chance: a new pull request to create, tagged
/// as a bug fix when urgent and as a feature when not.
pub open spec fn arrival_task(urgent: bool) -> Task {
    Task {
        name: if urgent {
            "Bug fix"
        } else {
            "Feature"
        },
        ..TaskId::CreatePR.template()
    }
}

/// The history after a finished card was put in front of it: the card at
/// the back leaves when the history would grow past its capacity.
pub open spec fn archived(done: Seq<CardView>, card: CardView) -> Seq<CardView> {
    let pushed = seq![card] + done;
    if pushed.len() > HISTORY_CAPACITY {
        pushed.drop_last()
    } else {
        pushed
    }
}

/// The buff that a finished coffee break gives.
pub open spec fn coffee(employee_id: usize) -> BuffOrder {
    BuffOrder { employee_id, buff: Buff { id: BuffId::Caffeinated } }
}

/// The first `limit` items of a sequence, or all of them if there are fewer.
pub open spec fn capped<T>(items: Seq<T>, limit: usize) -> Seq<T> {
    if items.len() <= limit {
        items
    } else {
        items.take(limit as int)
    }
}

/// The open tasks that an employee has worked on, in the order of the cards.
pub open spec fn tasks_of(open: Seq<CardView>, employee_id: usize) -> Seq<Task> {
    open.filter_map(
        |card: CardView|
            if card.contributors.contains(employee_id) {
                Some(card.task)
            } else {
                None::<Task>
            },
    )
}

/// Whether place `p` parts the employees with a smaller identifier from
/// those with one that is not smaller.
pub open spec fn splits_at(staff: Seq<EmployeeActor>, employee_id: usize, p: int) -> bool {
    &&& 0 <= p <= staff.len()
    &&& forall|i: int| 0 <= i < p ==> (#[trigger] staff[i]).employee_id < employee_id
    &&& forall|i: int| p <= i < staff.len() ==> (#[trigger] staff[i]).employee_id >= employee_id
}

/// The place that an identifier has, or would have, among employees listed
/// in ascending order.
pub open spec fn place_of(staff: Seq<EmployeeActor>, employee_id: usize) -> int {
    choose|p: int| splits_at(staff, employee_id, p)
}

/// The record of the employees after news of one of them: the news takes
/// the place of what was known of that employee, or its place in the order
/// when nothing was.
pub open spec fn upsert(staff: Seq<EmployeeActor>, data: EmployeeActor) -> Seq<EmployeeActor> {
    let p = place_of(staff, data.employee_id);
    if p < staff.len() && staff[p].employee_id == data.employee_id {
        staff.update(p, data)
    } else {
        staff.insert(p, data)
    }
}

/// The board as the contracts see it.
pub struct BoardView {
    /// The open tasks, in ascending order of their identifiers
    pub open: Seq<CardView>,
    /// The finished tasks, the latest first
    pub done: Seq<CardView>,
    /// The employees, in the order in which they joined
    pub roster: Seq<usize>,
    /// The identifier that the next task will get
    pub next_id: usize,
    /// What the employees last told of themselves, in ascending order of
    /// their identifiers
    pub staff: Seq<EmployeeActor>,
    /// The place, in that record, of the employee whose card is shown
    pub selected: usize,
}

impl BoardView {
    /// The invariant of the board.
    pub open spec fn wf(self) -> bool {
        &&& forall|i: int, j: int|
            0 <= i < j < self.open.len() ==> self.open[i].uuid < self.open[j].uuid
        &&& forall|i: int|
            0 <= i < self.open.len() ==> (#[trigger] self.open[i]).uuid < self.next_id
        &&& forall|i: int| 0 <= i < self.open.len() ==> (#[trigger] self.open[i]).task.wf()
        &&& forall|i: int|
            0 <= i < self.open.len() ==> (#[trigger] self.open[i]).contributors.finite()
        &&& forall|i: int|
            0 <= i < self.done.len() ==> (#[trigger] self.done[i]).uuid < self.next_id
        &&& forall|i: int|
            0 <= i < self.done.len() ==> (#[trigger] self.done[i]).contributors.finite()
        &&& forall|i: int, j: int|
            0 <= i < self.open.len() && 0 <= j < self.done.len() ==> self.open[i].uuid
                != self.done[j].uuid
        &&& self.done.len() <= HISTORY_CAPACITY
        &&& self.roster.no_duplicates()
        &&& forall|i: int, j: int|
            0 <= i < j < self.staff.len() ==> self.staff[i].employee_id
                < self.staff[j].employee_id
        &&& (self.selected == 0 || self.selected < self.roster.len())
    }

    /// Whether a task with this identifier is open.
    pub open spec fn holds(self, uuid: usize) -> bool {
        exists|i: int| 0 <= i < self.open.len() && self.open[i].uuid == uuid
    }

    /// The place of an open task among the open tasks.
    pub open spec fn index_of(self, uuid: usize) -> int {
        choose|i: int| 0 <= i < self.open.len() && self.open[i].uuid == uuid
    }

    /// The board after a task was submitted: it is open under the next
    /// identifier, with no contributors.
    pub open spec fn submitted(self, task: Task) -> BoardView {
        BoardView {
            open: self.open.push(fresh_card(self.next_id, task)),
            next_id: (self.next_id + 1) as usize,
            ..self
        }
    }

    /// The board after the dice were thrown for a new task: one arrives
    /// when the throw says so and fewer tasks are open than the cap.
    pub open spec fn arrived(self, arrival: bool, urgent: bool) -> BoardView {
        if arrival && self.open.len() < OPEN_TASK_CAP {
            self.submitted(arrival_task(urgent))
        } else {
            self
        }
    }

    /// The board after an employee's report. A report on a task that is not
    /// open changes nothing. Else the task is credited; when that finishes
    /// it, it moves to the front of the history and the task that follows
    /// from its kind, if any, is opened.
    pub open spec fn reported(self, report: WorkCompleted) -> BoardView {
        if !self.holds(report.uuid) {
            self
        } else {
            let k = self.index_of(report.uuid);
            let card = self.open[k].worked_on(report);
            if !card.task.done() {
                BoardView { open: self.open.update(k, card), ..self }
            } else {
                let moved = BoardView {
                    open: self.open.remove(k),
                    done: archived(self.done, card),
                    ..self
                };
                match card.task.id.next_kind() {
                    Some(kind) => moved.submitted(kind.template()),
                    None => moved,
                }
            }
        }
    }

    /// The buffs that an employee's report sets off: a coffee break that the
    /// report finishes buffs everybody on the roster when more than one
    /// employee took part in it, and the reporting employee when not.
    pub open spec fn buffs(self, report: WorkCompleted) -> Seq<BuffOrder> {
        if !self.holds(report.uuid) {
            Seq::empty()
        } else {
            let card = self.open[self.index_of(report.uuid)].worked_on(report);
            if card.task.done() && card.task.id == TaskId::CoffeeBreak {
                if card.contributors.len() > 1 {
                    Seq::new(self.roster.len(), |i: int| coffee(self.roster[i]))
                } else {
                    seq![coffee(report.employee_id)]
                }
            } else {
                Seq::empty()
            }
        }
    }

    /// The board after a run of reports, taken in the order of arrival.
    pub open spec fn reported_all(self, reports: Seq<WorkCompleted>) -> BoardView
        decreases reports.len(),
    {
        if reports.len() == 0 {
            self
        } else {
            self.reported_all(reports.drop_last()).reported(reports.last())
        }
    }

    /// The buffs that a run of reports sets off, in the order of the reports.
    pub open spec fn buffs_all(self, reports: Seq<WorkCompleted>) -> Seq<BuffOrder>
        decreases reports.len(),
    {
        if reports.len() == 0 {
            Seq::empty()
        } else {
            self.buffs_all(reports.drop_last()) + self.reported_all(reports.drop_last()).buffs(
                reports.last(),
            )
        }
    }

    /// The board after news of an employee.
    pub open spec fn recorded(self, data: EmployeeActor) -> BoardView {
        BoardView { staff: upsert(self.staff, data), ..self }
    }

    /// The board after a key was pressed: left and right move the selection
    /// round the roster, every other key leaves the board as it is.
    pub open spec fn after_key(self, key: Key) -> BoardView {
        match key {
            Key::Left => BoardView {
                selected: if self.selected == 0 {
                    (self.roster.len() - 1) as usize
                } else {
                    (self.selected - 1) as usize
                },
                ..self
            },
            Key::Right => BoardView {
                selected: ((self.selected + 1) % (self.roster.len() as int)) as usize,
                ..self
            },
            _ => self,
        }
    }

    /// The employee whose card is shown, if the record reaches that far.
    pub open spec fn current(self) -> Option<EmployeeActor> {
        if self.selected < self.staff.len() {
            Some(self.staff[self.selected as int])
        } else {
            None
        }
    }

    /// The board after an employee joined.
    pub open spec fn enrolled(self, employee_id: usize) -> BoardView {
        BoardView { roster: self.roster.push(employee_id), ..self }
    }
}

} // verus!
