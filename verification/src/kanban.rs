//! The board: the open tasks, the history of finished ones, the roster of
//! employees, and the rules that move work between them.

use std::collections::VecDeque;
use vstd::prelude::*;
use crate::dice::roll_ratio;
use crate::employee::{Buff, BuffId, EmployeeActor};
use crate::model::{
    archived, capped, coffee, fresh_card, goes_before, is_dispatch_order, place_of, plan,
    splits_at, tasks_of,
    BoardView, CardView,
};
use crate::task::{Task, TaskId, Work, WorkCompleted};

verus! {

/// No task arrives by chance while this many tasks are open.
pub const OPEN_TASK_CAP: usize = 10;

/// The history keeps this many finished tasks.
pub const HISTORY_CAPACITY: usize = 5;

/// The board ticks this many times a second.
pub const TICK_RATE: u32 = 10;

/// A task arrives by chance at one tick in this many.
pub const ARRIVAL_ONE_IN: u32 = 100;

/// Of the tasks that arrive by chance, one in this many is urgent.
pub const URGENT_ONE_IN: u32 = 5;

/// Hands out the next task identifier and moves the counter on.
pub fn create_task_id(counter: &mut usize) -> (r: usize)
    requires
        *old(counter) < usize::MAX,
    ensures
        r == *old(counter),
        *final(counter) == *old(counter) + 1,
{
    let id: usize = *counter;
    *counter = id + 1;
    id
}

/// A task on the board, with its identifier and those who worked on it,
/// in ascending order.
#[derive(Debug)]
pub struct Card {
    pub uuid: usize,
    pub task: Task,
    pub contributors: Vec<usize>,
}

impl View for Card {
    type V = CardView;

    open spec fn view(&self) -> CardView {
        CardView {
            uuid: self.uuid,
            task: self.task,
            contributors: self.contributors@.to_set(),
        }
    }
}

/// The views of a sequence of cards.
pub open spec fn views(cards: Seq<Card>) -> Seq<CardView> {
    Seq::new(cards.len(), |i: int| cards[i]@)
}

/// Whether a sequence of identifiers ascends strictly.
pub open spec fn ascending(ids: Seq<usize>) -> bool {
    forall|i: int, j: int| 0 <= i < j < ids.len() ==> ids[i] < ids[j]
}

/// An order to an employee, as the board sends it.
#[derive(Debug, Copy, Clone)]
pub struct Assignment {
    pub employee_id: usize,
    pub work: Work,
}

/// The word that an employee joins the team.
#[derive(Debug, Copy, Clone)]
pub struct AddEmployee {
    pub employee_id: usize,
}

/// A buff on its way to an employee.
#[derive(Debug, Copy, Clone)]
pub struct BuffOrder {
    pub employee_id: usize,
    pub buff: Buff,
}

/// The screen shows this many open tasks.
pub const SHOWN_TASKS: usize = 6;

/// An employee's card shows this many of the employee's tasks.
pub const SHOWN_OWN_TASKS: usize = 5;

/// What the screen shows of the board.
#[derive(Debug)]
pub struct Frame {
    /// The employee whose card is shown
    pub current: Option<EmployeeActor>,
    /// The first open tasks that this employee has worked on
    pub current_tasks: Vec<Task>,
    /// The employees that the board has news of
    pub employees: Vec<usize>,
    /// The first open tasks in the order of dispatch
    pub shown: Vec<Card>,
    /// The history
    pub done: Vec<Card>,
}

/// The keys that the board answers to.
#[derive(Debug, Copy, Clone, Eq, PartialEq, Structural)]
pub enum Key {
    Left,
    Right,
    Esc,
    Other,
}

/// What one tick of the board gives: the orders to send, and the open tasks
/// in the order of dispatch.
#[derive(Debug)]
pub struct TickReport {
    pub assignments: Vec<Assignment>,
    pub ordered: Vec<Card>,
}

impl Card {
    /// A copy of the card.
    pub fn duplicate(&self) -> (r: Card)
        ensures
            r.uuid == self.uuid,
            r.task == self.task,
            r.contributors@ == self.contributors@,
            r@ == self@,
    {
        let contributors = self.contributors.clone();
        assert(contributors@ =~= self.contributors@);
        Card { uuid: self.uuid, task: self.task, contributors }
    }

    /// Whether this card is dispatched before the other.
    pub fn dispatched_before(&self, other: &Card) -> (r: bool)
        requires
            self.task.wf(),
            other.task.wf(),
        ensures
            r == goes_before(self@, other@),
    {
        let rank = self.task.id.priority();
        let other_rank = other.task.id.priority();
        if rank != other_rank {
            rank < other_rank
        } else {
            let fraction = self.task.progress();
            let other_fraction = other.task.progress();
            if fraction != other_fraction {
                fraction > other_fraction
            } else {
                self.uuid < other.uuid
            }
        }
    }
}

/// Puts an identifier into an ascending list, unless it is there.
pub fn add_contributor(list: &mut Vec<usize>, employee_id: usize)
    requires
        ascending(old(list)@),
    ensures
        ascending(final(list)@),
        final(list)@.to_set() == old(list)@.to_set().insert(employee_id),
{
    let mut p: usize = 0;
    while p < list.len() && list[p] < employee_id
        invariant
            p <= list.len(),
            *list == *old(list),
            forall|i: int| 0 <= i < p ==> list@[i] < employee_id,
        decreases list.len() - p,
    {
        p += 1;
    }
    if p < list.len() && list[p] == employee_id {
        assert(list@.contains(employee_id));
        assert(list@.to_set() =~= list@.to_set().insert(employee_id));
    } else {
        list.insert(p, employee_id);
        proof {
            let before = old(list)@;
            let after = list@;
            assert forall|x: usize| after.to_set().contains(x) <==> before.to_set().insert(
                employee_id,
            ).contains(x) by {
                if after.contains(x) {
                    let i = choose|i: int| 0 <= i < after.len() && after[i] == x;
                    if i < p {
                        assert(before[i] == x);
                    } else if i > p {
                        assert(before[i - 1] == x);
                    }
                }
                if before.contains(x) {
                    let i = choose|i: int| 0 <= i < before.len() && before[i] == x;
                    if i < p {
                        assert(after[i] == x);
                    } else {
                        assert(after[i + 1] == x);
                    }
                }
                if x == employee_id {
                    assert(after[p as int] == x);
                }
            }
            assert(after.to_set() =~= before.to_set().insert(employee_id));
        }
    }
}

/// Whether an identifier is in a list.
pub fn has_contributor(list: &Vec<usize>, employee_id: usize) -> (r: bool)
    ensures
        r == list@.to_set().contains(employee_id),
{
    let mut i: usize = 0;
    while i < list.len()
        invariant
            i <= list.len(),
            forall|j: int| 0 <= j < i ==> list@[j] != employee_id,
        decreases list.len() - i,
    {
        if list[i] == employee_id {
            assert(list@.contains(employee_id));
            return true;
        }
        i += 1;
    }
    assert(!list@.contains(employee_id));
    false
}

/// An ascending list holds as many identifiers as the set of them.
pub proof fn lemma_ascending_len(ids: Seq<usize>)
    requires
        ascending(ids),
    ensures
        ids.to_set().len() == ids.len(),
{
    assert(ids.no_duplicates());
    ids.unique_seq_to_set();
}

/// The board.
pub struct Kanban {
    task_list: Vec<Card>,
    done_list: VecDeque<Card>,
    employee_addresses: Vec<usize>,
    next_id: usize,
    employee_data: Vec<EmployeeActor>,
    curr_employee: usize,
}

impl View for Kanban {
    type V = BoardView;

    closed spec fn view(&self) -> BoardView {
        BoardView {
            open: views(self.task_list@),
            done: views(self.done_list@),
            roster: self.employee_addresses@,
            next_id: self.next_id,
            staff: self.employee_data@,
            selected: self.curr_employee,
        }
    }
}

impl Kanban {
    /// The invariant of the board and of the lists that hold it.
    pub closed spec fn wf(&self) -> bool {
        &&& self@.wf()
        &&& forall|i: int|
            0 <= i < self.task_list@.len() ==> ascending(
                (#[trigger] self.task_list@[i]).contributors@,
            )
        &&& forall|i: int|
            0 <= i < self.done_list@.len() ==> ascending(
                (#[trigger] self.done_list@[i]).contributors@,
            )
    }

    /// A well-formed board keeps the invariant of its view.
    pub proof fn lemma_wf_view(&self)
        requires
            self.wf(),
        ensures
            self@.wf(),
    {
    }

    /// An empty board. The first task will get the identifier 1.
    pub fn new() -> (r: Kanban)
        ensures
            r.wf(),
            r@.open == Seq::<CardView>::empty(),
            r@.done == Seq::<CardView>::empty(),
            r@.roster == Seq::<usize>::empty(),
            r@.next_id == 1,
            r@.staff == Seq::<EmployeeActor>::empty(),
            r@.selected == 0,
    {
        let r = Kanban {
            task_list: Vec::new(),
            done_list: VecDeque::new(),
            employee_addresses: Vec::new(),
            next_id: 1,
            employee_data: Vec::new(),
            curr_employee: 0,
        };
        assert(r@.open =~= Seq::<CardView>::empty());
        assert(r@.done =~= Seq::<CardView>::empty());
        r
    }

    /// Whether the board can still number a new task.
    pub fn has_room(&self) -> (r: bool)
        ensures
            r == (self@.next_id < usize::MAX),
    {
        self.next_id < usize::MAX
    }

    /// The identifier that the next task will get.
    pub fn next_task_id(&self) -> (r: usize)
        ensures
            r == self@.next_id,
    {
        self.next_id
    }

    /// Whether an employee with this identifier is on the roster.
    pub fn has_employee(&self, employee_id: usize) -> (r: bool)
        ensures
            r == self@.roster.contains(employee_id),
    {
        let mut i: usize = 0;
        while i < self.employee_addresses.len()
            invariant
                0 <= i <= self.employee_addresses.len(),
                forall|j: int| 0 <= j < i ==> self.employee_addresses@[j] != employee_id,
            decreases self.employee_addresses.len() - i,
        {
            if self.employee_addresses[i] == employee_id {
                return true;
            }
            i += 1;
        }
        false
    }

    /// The roster, in the order in which the employees joined.
    pub fn employees(&self) -> (r: Vec<usize>)
        ensures
            r@ == self@.roster,
    {
        let r = self.employee_addresses.clone();
        assert(r@ =~= self.employee_addresses@);
        r
    }

    /// The open tasks, in ascending order of their identifiers.
    pub fn open_items(&self) -> (r: Vec<Card>)
        ensures
            views(r@) == self@.open,
            self.wf() ==> forall|i: int|
                0 <= i < r@.len() ==> ascending((#[trigger] r@[i]).contributors@),
    {
        let mut items: Vec<Card> = Vec::new();
        let mut i: usize = 0;
        while i < self.task_list.len()
            invariant
                i <= self.task_list.len(),
                items.len() == i,
                forall|j: int|
                    0 <= j < i ==> (#[trigger] items@[j])@ == self.task_list@[j]@
                        && items@[j].contributors@ == self.task_list@[j].contributors@,
            decreases self.task_list.len() - i,
        {
            items.push(self.task_list[i].duplicate());
            i += 1;
        }
        assert(views(items@) =~= views(self.task_list@));
        items
    }

    /// The finished tasks that the history keeps, the latest first.
    pub fn done_items(&self) -> (r: Vec<Card>)
        ensures
            views(r@) == self@.done,
            self.wf() ==> forall|i: int|
                0 <= i < r@.len() ==> ascending((#[trigger] r@[i]).contributors@),
    {
        let mut items: Vec<Card> = Vec::new();
        let mut i: usize = 0;
        while i < self.done_list.len()
            invariant
                i <= self.done_list.len(),
                items.len() == i,
                forall|j: int|
                    0 <= j < i ==> (#[trigger] items@[j])@ == self.done_list@[j]@
                        && items@[j].contributors@ == self.done_list@[j].contributors@,
            decreases self.done_list.len() - i,
        {
            items.push(self.done_list[i].duplicate());
            i += 1;
        }
        assert(views(items@) =~= views(self.done_list@));
        items
    }

    /// Puts an employee at the end of the roster.
    pub fn add_employee(&mut self, add_employee: AddEmployee)
        requires
            old(self).wf(),
            !old(self)@.roster.contains(add_employee.employee_id),
        ensures
            final(self).wf(),
            final(self)@ == old(self)@.enrolled(add_employee.employee_id),
    {
        self.employee_addresses.push(add_employee.employee_id);
    }

    /// Opens a task under a fresh identifier, which is returned.
    pub fn submit(&mut self, task: Task) -> (uuid: usize)
        requires
            old(self).wf(),
            old(self)@.next_id < usize::MAX,
            task.wf(),
        ensures
            final(self).wf(),
            final(self)@ == old(self)@.submitted(task),
            uuid == old(self)@.next_id,
    {
        let uuid = create_task_id(&mut self.next_id);
        self.task_list.push(Card { uuid, task, contributors: Vec::new() });
        proof {
            let card = self.task_list@.last();
            assert(card.contributors@.to_set() =~= Set::<usize>::empty());
            assert(views(self.task_list@) =~= views(old(self).task_list@).push(
                fresh_card(uuid, task),
            ));
        }
        uuid
    }

    /// The open tasks in the order of dispatch.
    #[verifier::loop_isolation(false)]
    pub fn ordered(&self) -> (r: Vec<Card>)
        requires
            self.wf(),
        ensures
            is_dispatch_order(views(r@), self@.open),
            forall|i: int| 0 <= i < r@.len() ==> ascending((#[trigger] r@[i]).contributors@),
    {
        let ghost open = views(self.task_list@);
        let mut sorted: Vec<Card> = Vec::new();
        let ghost mut from: Seq<int> = Seq::empty();
        let ghost mut to: Seq<int> = Seq::empty();
        let mut k: usize = 0;
        while k < self.task_list.len()
            invariant
                k <= self.task_list.len(),
                sorted.len() == k,
                from.len() == k,
                to.len() == k,
                forall|i: int|
                    0 <= i < k ==> 0 <= #[trigger] from[i] < k && views(sorted@)[i] == open[from[i]]
                        && sorted@[i].contributors@ == self.task_list@[from[i]].contributors@,
                forall|j: int| 0 <= j < k ==> 0 <= #[trigger] to[j] < k && from[to[j]] == j,
                forall|i: int, j: int|
                    0 <= i < j < k ==> goes_before(views(sorted@)[i], views(sorted@)[j]),
                forall|i: int| 0 <= i < k ==> (#[trigger] sorted@[i]).task.wf(),
            decreases self.task_list.len() - k,
        {
            let card = self.task_list[k].duplicate();
            let mut p: usize = 0;
            while p < sorted.len() && !card.dispatched_before(&sorted[p])
                invariant
                    p <= sorted.len(),
                    card@ == open[k as int],
                    forall|i: int| 0 <= i < p ==> goes_before(views(sorted@)[i], card@),
                decreases sorted.len() - p,
            {
                proof {
                    let q = from[p as int];
                    assert(views(sorted@)[p as int] == open[q]);
                    assert(open[q].uuid < open[k as int].uuid);
                }
                p += 1;
            }
            let ghost before = views(sorted@);
            let ghost old_from = from;
            let ghost old_to = to;
            sorted.insert(p, card);
            proof {
                from = old_from.insert(p as int, k as int);
                to = Seq::new(
                    k as nat,
                    |j: int|
                        if old_to[j] >= p {
                            old_to[j] + 1
                        } else {
                            old_to[j]
                        },
                ).push(p as int);
                let after = views(sorted@);
                assert(after =~= before.insert(p as int, open[k as int]));
                assert(open[k as int].task.wf());
                assert forall|i: int| 0 <= i < k + 1 implies (#[trigger] sorted@[i]).task.wf() by {
                    assert(after[i].task == sorted@[i].task);
                    if i < p {
                        assert(before[i].task.wf());
                    } else if i > p {
                        assert(before[i - 1].task.wf());
                    }
                }
                assert forall|i: int, j: int| 0 <= i < j < k + 1 implies goes_before(
                    after[i],
                    after[j],
                ) by {
                    if i < p && j > p {
                        assert(goes_before(before[i], before[j - 1]));
                    } else if i == p {
                        assert(goes_before(open[k as int], before[p as int]));
                        if j - 1 > p {
                            assert(goes_before(before[p as int], before[j - 1]));
                        }
                    } else if j == p {
                    } else if j < p {
                        assert(goes_before(before[i], before[j]));
                    } else {
                        assert(goes_before(before[i - 1], before[j - 1]));
                    }
                }
                assert forall|i: int| 0 <= i < k + 1 implies 0 <= #[trigger] from[i] < k + 1
                    && after[i] == open[from[i]] && sorted@[i].contributors@
                    == self.task_list@[from[i]].contributors@ by {
                    if i < p {
                        assert(from[i] == old_from[i]);
                    } else if i > p {
                        assert(from[i] == old_from[i - 1]);
                    }
                }
                assert forall|j: int| 0 <= j < k + 1 implies 0 <= #[trigger] to[j] < k + 1
                    && from[to[j]] == j by {
                    if j < k {
                        assert(old_from[old_to[j]] == j);
                    }
                }
            }
            k += 1;
        }
        proof {
            let result = views(sorted@);
            assert forall|i: int| 0 <= i < result.len() implies open.contains(
                #[trigger] result[i],
            ) by {
                assert(open[from[i]] == result[i]);
            }
            assert forall|i: int| 0 <= i < open.len() implies result.contains(
                #[trigger] open[i],
            ) by {
                assert(result[to[i]] == open[i]);
            }
            assert forall|i: int| 0 <= i < sorted@.len() implies ascending(
                (#[trigger] sorted@[i]).contributors@,
            ) by {
                assert(sorted@[i].contributors@ == self.task_list@[from[i]].contributors@);
            }
        }
        sorted
    }

    /// The orders of one tick, from the open tasks in the order of dispatch.
    pub fn assign(&self, ordered: &Vec<Card>) -> (r: Vec<Assignment>)
        ensures
            r@ == plan(views(ordered@), self@.roster),
    {
        let mut orders: Vec<Assignment> = Vec::new();
        let mut i: usize = 0;
        while i < self.employee_addresses.len() && i < ordered.len()
            invariant
                i <= self.employee_addresses.len(),
                i <= ordered.len(),
                orders.len() == i,
                forall|j: int|
                    0 <= j < i ==> orders@[j] == plan(views(ordered@), self@.roster)[j],
            decreases ordered.len() - i,
        {
            orders.push(
                Assignment {
                    employee_id: self.employee_addresses[i],
                    work: Work { task: ordered[i].task.id, uuid: ordered[i].uuid },
                },
            );
            i += 1;
        }
        assert(orders@ =~= plan(views(ordered@), self@.roster));
        orders
    }

    /// One tick of the board, given the two throws of the dice: whether a
    /// task arrives, and whether it is urgent. A task that arrives is opened
    /// first; then the open tasks are put in the order of dispatch and handed
    /// out, one to each employee, down the roster.
    pub fn tick_with(&mut self, arrival: bool, urgent: bool) -> (out: TickReport)
        requires
            old(self).wf(),
            old(self)@.next_id < usize::MAX,
        ensures
            final(self).wf(),
            final(self)@ == old(self)@.arrived(arrival, urgent),
            is_dispatch_order(views(out.ordered@), final(self)@.open),
            out.assignments@ == plan(views(out.ordered@), final(self)@.roster),
    {
        if arrival && self.task_list.len() < OPEN_TASK_CAP {
            let mut task = TaskId::CreatePR.to_task();
            let task = if urgent {
                task.as_bug_fix()
            } else {
                task.as_feature()
            };
            self.submit(task);
        }
        let ordered = self.ordered();
        let assignments = self.assign(&ordered);
        TickReport { assignments, ordered }
    }

    /// One tick of the board. The dice are thrown: one time in a hundred a
    /// task arrives, if fewer tasks are open than the cap, and one such task
    /// in five is urgent.
    pub fn tick(&mut self) -> (out: TickReport)
        requires
            old(self).wf(),
            old(self)@.next_id < usize::MAX,
        ensures
            final(self).wf(),
            final(self)@ == old(self)@.arrived(false, false) || final(self)@ == old(
                self,
            )@.arrived(true, false) || final(self)@ == old(self)@.arrived(true, true),
            is_dispatch_order(views(out.ordered@), final(self)@.open),
            out.assignments@ == plan(views(out.ordered@), final(self)@.roster),
    {
        let arrival = roll_ratio(1, ARRIVAL_ONE_IN);
        let urgent = if arrival && self.task_list.len() < OPEN_TASK_CAP {
            roll_ratio(1, URGENT_ONE_IN)
        } else {
            false
        };
        self.tick_with(arrival, urgent)
    }

    /// The place of the open task with this identifier, if there is one.
    fn find(&self, uuid: usize) -> (r: Option<usize>)
        requires
            self.wf(),
        ensures
            match r {
                Some(k) => k < self.task_list.len() && self.task_list@[k as int].uuid == uuid
                    && self@.holds(uuid) && self@.index_of(uuid) == k,
                None => !self@.holds(uuid),
            },
    {
        let mut k: usize = 0;
        while k < self.task_list.len()
            invariant
                self.wf(),
                k <= self.task_list.len(),
                forall|i: int| 0 <= i < k ==> self@.open[i].uuid != uuid,
            decreases self.task_list.len() - k,
        {
            if self.task_list[k].uuid == uuid {
                proof {
                    assert(self@.open[k as int].uuid == uuid);
                    assert(self@.holds(uuid));
                    let c = self@.index_of(uuid);
                    assert(0 <= c < self@.open.len() && self@.open[c].uuid == uuid);
                    if c < k {
                        assert(self@.open[c].uuid < self@.open[k as int].uuid);
                    } else if c > k {
                        assert(self@.open[k as int].uuid < self@.open[c].uuid);
                    }
                }
                return Some(k);
            }
            k += 1;
        }
        None
    }

    /// Takes an employee's report of one tick of work. A report on a task
    /// that is not open is ignored. The buffs that the report sets off are
    /// returned, to be sent on.
    pub fn work_completed(&mut self, report: WorkCompleted) -> (out: Vec<BuffOrder>)
        requires
            old(self).wf(),
            old(self)@.next_id < usize::MAX,
        ensures
            final(self).wf(),
            final(self)@ == old(self)@.reported(report),
            out@ == old(self)@.buffs(report),
    {
        let mut orders: Vec<BuffOrder> = Vec::new();
        match self.find(report.uuid) {
            None => {},
            Some(k) => {
                let ghost before = self@;
                let mut card = self.task_list.remove(k);
                card.task.credit(report.energy_add);
                add_contributor(&mut card.contributors, report.employee_id);
                proof {
                    assert(card@ == before.open[k as int].worked_on(report));
                    assert(views(self.task_list@) =~= before.open.remove(k as int));
                    lemma_ascending_len(card.contributors@);
                }
                if card.task.is_done() {
                    if card.task.id == TaskId::CoffeeBreak {
                        if card.contributors.len() > 1 {
                            let mut i: usize = 0;
                            while i < self.employee_addresses.len()
                                invariant
                                    i <= self.employee_addresses.len(),
                                    orders.len() == i,
                                    forall|j: int|
                                        0 <= j < i ==> orders@[j] == coffee(
                                            self.employee_addresses@[j],
                                        ),
                                decreases self.employee_addresses.len() - i,
                            {
                                orders.push(
                                    BuffOrder {
                                        employee_id: self.employee_addresses[i],
                                        buff: Buff { id: BuffId::Caffeinated },
                                    },
                                );
                                i += 1;
                            }
                        } else {
                            orders.push(
                                BuffOrder {
                                    employee_id: report.employee_id,
                                    buff: Buff { id: BuffId::Caffeinated },
                                },
                            );
                        }
                    }
                    assert(orders@ =~= before.buffs(report));
                    let next = card.task.id.successor();
                    let ghost finished = card@;
                    let ghost history = views(self.done_list@);
                    self.done_list.push_front(card);
                    assert(views(self.done_list@) =~= seq![finished] + history);
                    if self.done_list.len() > HISTORY_CAPACITY {
                        self.done_list.pop_back();
                    }
                    assert(views(self.done_list@) =~= archived(history, finished));
                    if let Some(kind) = next {
                        self.submit(kind.to_task());
                    }
                } else {
                    let ghost credited = card@;
                    self.task_list.insert(k, card);
                    assert(views(self.task_list@) =~= before.open.update(k as int, credited));
                    assert(orders@ =~= before.buffs(report));
                }
            },
        }
        orders
    }

    /// Takes the reports that are waiting, in the order of their arrival.
    /// The buffs that they set off are returned, to be sent on.
    pub fn drain(&mut self, reports: &Vec<WorkCompleted>) -> (out: Vec<BuffOrder>)
        requires
            old(self).wf(),
            old(self)@.next_id + reports@.len() <= usize::MAX,
        ensures
            final(self).wf(),
            final(self)@ == old(self)@.reported_all(reports@),
            out@ == old(self)@.buffs_all(reports@),
    {
        let mut orders: Vec<BuffOrder> = Vec::new();
        let mut i: usize = 0;
        while i < reports.len()
            invariant
                self.wf(),
                i <= reports.len(),
                old(self)@.next_id + reports@.len() <= usize::MAX,
                self@.next_id <= old(self)@.next_id + i,
                self@ == old(self)@.reported_all(reports@.take(i as int)),
                orders@ == old(self)@.buffs_all(reports@.take(i as int)),
            decreases reports.len() - i,
        {
            let ghost before = self@;
            let mut buffs = self.work_completed(reports[i]);
            orders.append(&mut buffs);
            proof {
                assert(reports@.take(i + 1).drop_last() =~= reports@.take(i as int));
                assert(reports@.take(i + 1).last() == reports@[i as int]);
            }
            i += 1;
        }
        assert(reports@.take(i as int) =~= reports@);
        orders
    }

    /// Takes news of an employee into the record.
    pub fn record_employee(&mut self, data: EmployeeActor)
        requires
            old(self).wf(),
        ensures
            final(self).wf(),
            final(self)@ == old(self)@.recorded(data),
    {
        let mut p: usize = 0;
        while p < self.employee_data.len() && self.employee_data[p].employee_id
            < data.employee_id
            invariant
                *self == *old(self),
                self.wf(),
                p <= self.employee_data.len(),
                forall|i: int|
                    0 <= i < p ==> (#[trigger] self.employee_data@[i]).employee_id
                        < data.employee_id,
            decreases self.employee_data.len() - p,
        {
            p += 1;
        }
        proof {
            let staff = self.employee_data@;
            assert forall|i: int| p <= i < staff.len() implies (#[trigger] staff[i]).employee_id
                >= data.employee_id by {
                if i > p {
                    assert(staff[p as int].employee_id < staff[i].employee_id);
                }
            }
            assert(splits_at(staff, data.employee_id, p as int));
            let c = place_of(staff, data.employee_id);
            assert(splits_at(staff, data.employee_id, c));
            if c < p {
                assert(staff[c].employee_id >= data.employee_id);
            } else if p < c {
                assert(staff[p as int].employee_id < data.employee_id);
            }
        }
        if p < self.employee_data.len() && self.employee_data[p].employee_id
            == data.employee_id {
            self.employee_data.set(p, data);
        } else {
            self.employee_data.insert(p, data);
        }
        proof {
            let before = old(self).employee_data@;
            let after = self.employee_data@;
            assert forall|i: int, j: int| 0 <= i < j < after.len() implies after[i].employee_id
                < after[j].employee_id by {
                if after.len() == before.len() {
                    if i != p && j != p {
                        assert(before[i].employee_id < before[j].employee_id);
                    }
                } else {
                    let fi = if i < p {
                        i
                    } else {
                        i - 1
                    };
                    let fj = if j < p {
                        j
                    } else {
                        j - 1
                    };
                    if i != p && j != p {
                        assert(before[fi].employee_id < before[fj].employee_id);
                    }
                }
            }
        }
    }

    /// Answers a key. Left and right move the selection round the roster;
    /// the answer says whether the key asks to stop.
    pub fn handle_key(&mut self, key: Key) -> (stop: bool)
        requires
            old(self).wf(),
            key == Key::Left || key == Key::Right ==> old(self)@.roster.len() > 0,
        ensures
            final(self).wf(),
            final(self)@ == old(self)@.after_key(key),
            stop == (key == Key::Esc),
    {
        match key {
            Key::Left => {
                if self.curr_employee == 0 {
                    self.curr_employee = self.employee_addresses.len() - 1;
                } else {
                    self.curr_employee -= 1;
                }
                false
            },
            Key::Right => {
                let employees: usize = self.employee_addresses.len();
                self.curr_employee = (self.curr_employee + 1) % employees;
                false
            },
            Key::Esc => true,
            Key::Other => false,
        }
    }

    /// The employee whose card is shown, if the record reaches that far.
    pub fn current_employee(&self) -> (r: Option<EmployeeActor>)
        ensures
            r == self@.current(),
    {
        if self.curr_employee < self.employee_data.len() {
            Some(self.employee_data[self.curr_employee])
        } else {
            None
        }
    }

    /// The open tasks that an employee has worked on, the first few of them.
    fn own_tasks(&self, employee_id: usize) -> (r: Vec<Task>)
        ensures
            r@ == capped(tasks_of(self@.open, employee_id), SHOWN_OWN_TASKS),
    {
        let ghost open = views(self.task_list@);
        let ghost pick = |card: CardView|
            if card.contributors.contains(employee_id) {
                Some(card.task)
            } else {
                None::<Task>
            };
        let mut tasks: Vec<Task> = Vec::new();
        let mut i: usize = 0;
        while i < self.task_list.len()
            invariant
                i <= self.task_list.len(),
                open == views(self.task_list@),
                pick == |card: CardView|
                    if card.contributors.contains(employee_id) {
                        Some(card.task)
                    } else {
                        None::<Task>
                    },
                tasks@ == capped(open.take(i as int).filter_map(pick), SHOWN_OWN_TASKS),
            decreases self.task_list.len() - i,
        {
            proof {
                open.lemma_filter_map_take_succ(pick, i as int);
            }
            if has_contributor(&self.task_list[i].contributors, employee_id) {
                if tasks.len() < SHOWN_OWN_TASKS {
                    tasks.push(self.task_list[i].task);
                }
            }
            proof {
                let before = open.take(i as int).filter_map(pick);
                let after = open.take(i + 1).filter_map(pick);
                assert(open[i as int] == self.task_list@[i as int]@);
                assert(tasks@ =~= capped(after, SHOWN_OWN_TASKS));
            }
            i += 1;
        }
        assert(open.take(i as int) =~= open);
        tasks
    }

    /// What the screen shows of the board, given the open tasks in the
    /// order of dispatch.
    pub fn draw(&self, sorted_task_list: &Vec<Card>) -> (frame: Frame)
        ensures
            frame.current == self@.current(),
            frame.current_tasks@ == match self@.current() {
                Some(employee) => capped(
                    tasks_of(self@.open, employee.employee_id),
                    SHOWN_OWN_TASKS,
                ),
                None => Seq::<Task>::empty(),
            },
            frame.employees@ == Seq::new(
                self@.staff.len(),
                |i: int| self@.staff[i].employee_id,
            ),
            views(frame.shown@) == capped(views(sorted_task_list@), SHOWN_TASKS),
            views(frame.done@) == self@.done,
    {
        let current = self.current_employee();
        let current_tasks = match current {
            Some(employee) => self.own_tasks(employee.employee_id),
            None => Vec::new(),
        };
        let mut employees: Vec<usize> = Vec::new();
        let mut i: usize = 0;
        while i < self.employee_data.len()
            invariant
                i <= self.employee_data.len(),
                employees.len() == i,
                forall|j: int| 0 <= j < i ==> employees@[j] == self.employee_data@[j].employee_id,
            decreases self.employee_data.len() - i,
        {
            employees.push(self.employee_data[i].employee_id);
            i += 1;
        }
        let mut shown: Vec<Card> = Vec::new();
        let mut k: usize = 0;
        while k < sorted_task_list.len() && k < SHOWN_TASKS
            invariant
                k <= sorted_task_list.len(),
                k <= SHOWN_TASKS,
                shown.len() == k,
                forall|j: int| 0 <= j < k ==> (#[trigger] shown@[j])@ == sorted_task_list@[j]@,
            decreases sorted_task_list.len() - k,
        {
            shown.push(sorted_task_list[k].duplicate());
            k += 1;
        }
        assert(views(shown@) =~= capped(views(sorted_task_list@), SHOWN_TASKS));
        assert(employees@ =~= Seq::new(self@.staff.len(), |i: int| self@.staff[i].employee_id));
        Frame { current, current_tasks, employees, shown, done: self.done_items() }
    }
}

} // verus!
