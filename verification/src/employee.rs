//! Employees: what they bring, what they spend, and how they work.

use std::ops::AddAssign;
use vstd::prelude::*;
use crate::dice::{roll_range, roll_ratio};
use crate::fixed::{narrow, sat_add, sat_sub, saturate, scaled_mul, scaled_product};
use crate::task::{energy_cost, Task, TaskId, Work, WorkCompleted};

verus! {

/// Below this much focus an employee starts to think of a break.
pub const LOW_FOCUS: i64 = 30_000_000;

/// A tired employee asks for a break at one tick in this many.
pub const BREAK_ONE_IN: u32 = 100;

/// The least value of a characteristic drawn by chance.
pub const TRAIT_LOW: i64 = 15_000_000;

/// The bound below which every characteristic drawn by chance lies.
pub const TRAIT_HIGH: i64 = 85_000_000;

#[derive(Debug, Copy, Clone, Eq, PartialEq, Structural)]
pub enum EmployeeType {
    Manager,
    Developer,
}

/// What an employee brings and keeps: fixed when the employee is made.
#[derive(Debug, Copy, Clone)]
pub struct EmployeeCharacteristics {
    pub company_experience: i64,
    pub rigor: i64,
    pub programming_skills: i64,
    pub fitness: i64,
}

impl EmployeeCharacteristics {
    /// Whether every characteristic lies in the range that chance draws from.
    pub open spec fn in_drawn_range(self) -> bool {
        &&& TRAIT_LOW <= self.company_experience < TRAIT_HIGH
        &&& TRAIT_LOW <= self.rigor < TRAIT_HIGH
        &&& TRAIT_LOW <= self.programming_skills < TRAIT_HIGH
        &&& TRAIT_LOW <= self.fitness < TRAIT_HIGH
    }

    /// Draws each characteristic by chance, between 15 and 85.
    pub fn new() -> (r: EmployeeCharacteristics)
        ensures
            r.in_drawn_range(),
    {
        EmployeeCharacteristics {
            company_experience: roll_range(TRAIT_LOW, TRAIT_HIGH),
            rigor: roll_range(TRAIT_LOW, TRAIT_HIGH),
            programming_skills: roll_range(TRAIT_LOW, TRAIT_HIGH),
            fitness: roll_range(TRAIT_LOW, TRAIT_HIGH),
        }
    }
}

impl Default for EmployeeCharacteristics {
    fn default() -> (r: Self)
        ensures
            r.in_drawn_range(),
    {
        EmployeeCharacteristics::new()
    }
}

/// What an employee spends while working.
#[derive(Debug, Copy, Clone)]
pub struct EmployeeResources {
    pub energy: i64,
    pub focus: i64,
    pub stress: i64,
}

impl EmployeeResources {
    /// The sum of two sets of resources, each kept within the range of the
    /// numbers that hold it.
    pub open spec fn plus(self, other: EmployeeResources) -> EmployeeResources {
        EmployeeResources {
            energy: saturate(self.energy + other.energy) as i64,
            focus: saturate(self.focus + other.focus) as i64,
            stress: saturate(self.stress + other.stress) as i64,
        }
    }

    /// A rested employee: full energy, full focus, no stress.
    pub fn new() -> (r: EmployeeResources)
        ensures
            r == (EmployeeResources { energy: 100_000_000, focus: 100_000_000, stress: 0 }),
    {
        EmployeeResources { energy: 100_000_000, focus: 100_000_000, stress: 0 }
    }

    pub fn empty() -> (r: EmployeeResources)
        ensures
            r == (EmployeeResources { energy: 0, focus: 0, stress: 0 }),
    {
        EmployeeResources { energy: 0, focus: 0, stress: 0 }
    }
}

impl Default for EmployeeResources {
    fn default() -> (r: Self)
        ensures
            r == (EmployeeResources { energy: 100_000_000, focus: 100_000_000, stress: 0 }),
    {
        EmployeeResources::new()
    }
}

impl AddAssign for EmployeeResources {
    fn add_assign(&mut self, other: Self)
        ensures
            *final(self) == old(self).plus(other),
    {
        *self = Self {
            energy: sat_add(self.energy, other.energy),
            focus: sat_add(self.focus, other.focus),
            stress: sat_add(self.stress, other.stress),
        };
    }
}

/// The buffs that an employee can be given.
#[derive(Debug, Copy, Clone, Eq, PartialEq, Structural)]
pub enum BuffId {
    Caffeinated,
}

impl BuffId {
    /// What a buff adds to an employee's resources.
    pub open spec fn bonus(self) -> EmployeeResources {
        match self {
            BuffId::Caffeinated => EmployeeResources {
                energy: 20_000_000,
                focus: 30_000_000,
                stress: 0,
            },
        }
    }

    pub fn translate_to_resources(&self) -> (r: EmployeeResources)
        ensures
            r == self.bonus(),
    {
        match *self {
            BuffId::Caffeinated => {
                let mut bonus_resources = EmployeeResources::empty();
                bonus_resources.focus = sat_add(bonus_resources.focus, 30_000_000);
                bonus_resources.energy = sat_add(bonus_resources.energy, 20_000_000);
                bonus_resources
            },
        }
    }
}

/// An order to an employee: take this buff.
#[derive(Debug, Copy, Clone)]
pub struct Buff {
    pub id: BuffId,
}

/// What an employee sends to the board after one tick of work.
#[derive(Debug)]
pub struct Outbox {
    /// New tasks that the employee asks for
    pub spawned: Vec<Task>,
    /// The report of the work done
    pub completed: WorkCompleted,
    /// The employee as the work left them
    pub snapshot: EmployeeActor,
}

/// One employee.
#[derive(Debug, Copy, Clone)]
pub struct EmployeeActor {
    pub employee_id: usize,
    pub employee_name: &'static str,
    pub employee_type: EmployeeType,
    pub characteristics: EmployeeCharacteristics,
    pub resources: EmployeeResources,
}

impl EmployeeActor {
    /// Whether the employee's focus is low enough to think of a break.
    pub open spec fn low_on_focus(self) -> bool {
        self.resources.focus < LOW_FOCUS
    }

    /// The tasks that the employee asks for before working: two coffee breaks
    /// when focus is low and the throw was lucky, else none.
    pub open spec fn breaks(self, lucky: bool) -> Seq<Task> {
        if self.low_on_focus() && lucky {
            seq![TaskId::CoffeeBreak.template(), TaskId::CoffeeBreak.template()]
        } else {
            Seq::empty()
        }
    }

    /// The energy that one tick of the employee's work gives to a task of a
    /// kind: the kind's rate times the employee's present multiplier.
    pub open spec fn effort(self, kind: TaskId) -> int {
        scaled_product(
            kind.template().energy_taken_per_tick as int,
            energy_cost(self.characteristics, self.resources),
        )
    }

    /// The employee after one tick of work on a task of a kind: the effort
    /// is paid once from energy and twice from focus.
    pub open spec fn after_work(self, kind: TaskId) -> EmployeeActor {
        EmployeeActor {
            resources: EmployeeResources {
                energy: saturate(self.resources.energy - self.effort(kind)) as i64,
                focus: saturate(self.resources.focus - 2 * self.effort(kind)) as i64,
                stress: self.resources.stress,
            },
            ..self
        }
    }

    /// The employee after a buff.
    pub open spec fn after_buff(self, id: BuffId) -> EmployeeActor {
        EmployeeActor { resources: self.resources.plus(id.bonus()), ..self }
    }

    pub fn new(
        employee_type: EmployeeType,
        employee_id: usize,
        name: &'static str,
        characteristics: EmployeeCharacteristics,
        resources: EmployeeResources,
    ) -> (r: EmployeeActor)
        ensures
            r == (EmployeeActor {
                employee_id,
                employee_name: name,
                employee_type,
                characteristics,
                resources,
            }),
    {
        EmployeeActor {
            employee_id,
            employee_name: name,
            employee_type,
            characteristics,
            resources,
        }
    }

    /// The tasks that the employee asks for, given the throw of the dice.
    pub fn spawn_tasks(&self, lucky: bool) -> (r: Vec<Task>)
        ensures
            r@ == self.breaks(lucky),
    {
        let mut spawned: Vec<Task> = Vec::new();
        if self.resources.focus < LOW_FOCUS {
            if lucky {
                spawned.push(TaskId::CoffeeBreak.to_task());
                spawned.push(TaskId::CoffeeBreak.to_task());
            }
        }
        assert(spawned@ =~= self.breaks(lucky));
        spawned
    }

    /// One tick of work on a task, given the throw of the dice that decides
    /// whether a tired employee asks for a break.
    pub fn handle_work_with(&mut self, work: Work, lucky: bool) -> (out: Outbox)
        ensures
            *final(self) == old(self).after_work(work.task),
            out.spawned@ == old(self).breaks(lucky),
            out.completed == (WorkCompleted {
                employee_id: old(self).employee_id,
                uuid: work.uuid,
                energy_add: old(self).effort(work.task) as i64,
            }),
            out.snapshot == *final(self),
    {
        let spawned = self.spawn_tasks(lucky);
        let task_data = work.task.to_task();
        let multiplier = task_data.energy_multipliers.get_energy_cost(&*self);
        let energy_add = scaled_mul(task_data.energy_taken_per_tick, multiplier);
        self.resources.energy = sat_sub(self.resources.energy, energy_add);
        self.resources.focus = narrow(self.resources.focus as i128 - 2 * (energy_add as i128));
        Outbox {
            spawned,
            completed: WorkCompleted { employee_id: self.employee_id, uuid: work.uuid, energy_add },
            snapshot: *self,
        }
    }

    /// One tick of work on a task. A tired employee throws the dice and, one
    /// time in a hundred, asks for a break.
    pub fn handle_work(&mut self, work: Work) -> (out: Outbox)
        ensures
            *final(self) == old(self).after_work(work.task),
            out.spawned@ == old(self).breaks(true) || out.spawned@ == old(self).breaks(false),
            out.completed == (WorkCompleted {
                employee_id: old(self).employee_id,
                uuid: work.uuid,
                energy_add: old(self).effort(work.task) as i64,
            }),
            out.snapshot == *final(self),
    {
        let lucky = if self.resources.focus < LOW_FOCUS {
            roll_ratio(1, BREAK_ONE_IN)
        } else {
            false
        };
        self.handle_work_with(work, lucky)
    }

    /// Takes a buff: its bonus is added to the employee's resources.
    pub fn handle_buff(&mut self, buff: Buff)
        ensures
            *final(self) == old(self).after_buff(buff.id),
    {
        self.resources.add_assign(buff.id.translate_to_resources());
    }
}

/// A buff adds exactly its bonus wherever the sum can still be held.
pub proof fn lemma_buff_is_additive(employee: EmployeeActor, id: BuffId)
    requires
        employee.resources.energy + id.bonus().energy <= i64::MAX,
        employee.resources.focus + id.bonus().focus <= i64::MAX,
    ensures
        employee.after_buff(id).resources.energy == employee.resources.energy + id.bonus().energy,
        employee.after_buff(id).resources.focus == employee.resources.focus + id.bonus().focus,
        employee.after_buff(id).resources.stress == employee.resources.stress,
        id == BuffId::Caffeinated ==> id.bonus().focus == 30_000_000 && id.bonus().energy
            == 20_000_000,
{
}

} // verus!
