//! Kinds of work, the catalog of their defaults, and the messages that carry
//! work between the board and the employees.

use vstd::prelude::*;
use crate::employee::{EmployeeActor, EmployeeCharacteristics, EmployeeResources};

verus! {

/// `String::push_str` appends the given text to the string: the characters
/// of the string afterwards are those it had, followed by those of the text.
pub assume_specification[ String::push_str ](s: &mut String, string: &str)
    ensures
        final(s)@ == old(s)@ + string@,
;

/// The kinds of work that the team knows.
#[derive(Debug, Copy, Clone, Eq, PartialEq, Structural)]
pub enum TaskId {
    CreatePR,
    ReviewPR,
    MergePR,
    CoffeeBreak,
}

impl TaskId {
    /// The rank of a kind in the dispatch order; a lower rank goes first.
    pub open spec fn rank(self) -> int {
        match self {
            TaskId::CreatePR => 0,
            TaskId::ReviewPR => 1,
            TaskId::MergePR => 2,
            TaskId::CoffeeBreak => 3,
        }
    }

    /// The kind of work that follows a finished task of this kind, if any.
    pub open spec fn next_kind(self) -> Option<TaskId> {
        match self {
            TaskId::CreatePR => Some(TaskId::ReviewPR),
            TaskId::ReviewPR => Some(TaskId::MergePR),
            TaskId::MergePR => None,
            TaskId::CoffeeBreak => None,
        }
    }

    /// The catalog entry of a kind: a fresh task with nothing done yet.
    pub open spec fn template(self) -> Task {
        Task {
            name: "Feature",
            id: self,
            total_energy_required: match self {
                TaskId::CreatePR => 10_000_000,
                TaskId::ReviewPR => 10_000_000,
                TaskId::MergePR => 1_000_000,
                TaskId::CoffeeBreak => 1_000_000,
            },
            energy_taken: 0,
            energy_taken_per_tick: 100_000,
            energy_multipliers: TaskEnergyMultipliers::catalog_weights(),
        }
    }

    pub fn priority(&self) -> (r: u32)
        ensures
            r == self.rank(),
    {
        match *self {
            TaskId::CreatePR => 0,
            TaskId::ReviewPR => 1,
            TaskId::MergePR => 2,
            TaskId::CoffeeBreak => 3,
        }
    }

    /// What a finished task of this kind turns into.
    pub fn successor(&self) -> (r: Option<TaskId>)
        ensures
            r == self.next_kind(),
    {
        match *self {
            TaskId::CreatePR => Some(TaskId::ReviewPR),
            TaskId::ReviewPR => Some(TaskId::MergePR),
            TaskId::MergePR => None,
            TaskId::CoffeeBreak => None,
        }
    }

    pub fn to_task(&self) -> (r: Task)
        ensures
            r == self.template(),
            r.wf(),
    {
        let total: i64 = match *self {
            TaskId::CreatePR => 10_000_000,
            TaskId::ReviewPR => 10_000_000,
            TaskId::MergePR => 1_000_000,
            TaskId::CoffeeBreak => 1_000_000,
        };
        Task {
            name: "Feature",
            id: *self,
            total_energy_required: total,
            energy_taken: 0,
            energy_taken_per_tick: 100_000,
            energy_multipliers: TaskEnergyMultipliers {
                company_experience: 2_000_000,
                rigor: 2_000_000,
                programming_skills: 2_000_000,
                fitness: 1_000_000,
                energy: 1_200_000,
                focus: 1_500_000,
                stress: 500_000,
            },
        }
    }
}

/// The weights that a kind of work gives to what an employee brings.
#[derive(Debug, Copy, Clone)]
pub struct TaskEnergyMultipliers {
    pub company_experience: i64,
    pub rigor: i64,
    pub programming_skills: i64,
    pub fitness: i64,
    pub energy: i64,
    pub focus: i64,
    pub stress: i64,
}

/// The multiplier that an employee's present state gives to a task's rate:
/// (rigor + fitness + skills + experience + 2 focus + 1.5 energy - 3 stress) / 400,
/// rounded down to a millionth.
pub open spec fn energy_cost(c: EmployeeCharacteristics, r: EmployeeResources) -> int {
    (2 * (c.rigor + c.fitness + c.programming_skills + c.company_experience) + 4 * r.focus + 3
        * r.energy - 6 * r.stress) / 800
}

impl TaskEnergyMultipliers {
    /// The weights that every catalog entry carries.
    pub open spec fn catalog_weights() -> TaskEnergyMultipliers {
        TaskEnergyMultipliers {
            company_experience: 2_000_000,
            rigor: 2_000_000,
            programming_skills: 2_000_000,
            fitness: 1_000_000,
            energy: 1_200_000,
            focus: 1_500_000,
            stress: 500_000,
        }
    }

    pub fn get_energy_cost(&self, employee: &EmployeeActor) -> (r: i64)
        ensures
            r == energy_cost(employee.characteristics, employee.resources),
    {
        let c = employee.characteristics;
        let s = employee.resources;
        let traits: i128 = c.rigor as i128 + c.fitness as i128 + c.programming_skills as i128
            + c.company_experience as i128;
        let doubled: i128 = 2 * traits + 4 * (s.focus as i128) + 3 * (s.energy as i128) - 6 * (
        s.stress as i128);
        match doubled.checked_div_euclid(800) {
            Some(q) => q as i64,
            None => 0,
        }
    }
}

impl Default for TaskEnergyMultipliers {
    fn default() -> (r: Self)
        ensures
            r == (TaskEnergyMultipliers {
                company_experience: 1_000_000,
                rigor: 1_000_000,
                programming_skills: 1_000_000,
                fitness: 1_000_000,
                energy: 1_000_000,
                focus: 1_000_000,
                stress: 1_000_000,
            }),
    {
        TaskEnergyMultipliers {
            company_experience: 1_000_000,
            rigor: 1_000_000,
            programming_skills: 1_000_000,
            fitness: 1_000_000,
            energy: 1_000_000,
            focus: 1_000_000,
            stress: 1_000_000,
        }
    }
}

/// One piece of work and how far it has come.
#[derive(Debug, Copy, Clone)]
pub struct Task {
    pub name: &'static str,
    pub id: TaskId,
    /// How much energy is needed in total
    pub total_energy_required: i64,
    /// How much has been given already
    pub energy_taken: i64,
    /// How much energy an employee gives at each tick, before the multiplier
    pub energy_taken_per_tick: i64,
    pub energy_multipliers: TaskEnergyMultipliers,
}

impl Task {
    /// A task is well formed when it asks for a positive amount of energy at
    /// a positive rate and has taken between nothing and all of it.
    pub open spec fn wf(self) -> bool {
        &&& self.total_energy_required > 0
        &&& self.energy_taken_per_tick > 0
        &&& 0 <= self.energy_taken <= self.total_energy_required
    }

    /// Whether all the energy that the task asks for has been given.
    pub open spec fn done(self) -> bool {
        self.total_energy_required <= self.energy_taken
    }

    /// The part of the task that is done, in millionths, rounded down.
    pub open spec fn fraction(self) -> int {
        (self.energy_taken * 1_000_000) / (self.total_energy_required as int)
    }

    /// The task after `energy_add` more has been given: the sum, kept between
    /// nothing and the total.
    pub open spec fn credited(self, energy_add: int) -> Task {
        let sum = self.energy_taken + energy_add;
        Task {
            energy_taken: if sum < 0 {
                0
            } else if sum > self.total_energy_required {
                self.total_energy_required
            } else {
                sum as i64
            },
            ..self
        }
    }

    /// What stands before the name of a task of each kind.
    pub open spec fn prefix(self) -> Seq<char> {
        match self.id {
            TaskId::CreatePR => "[create] "@,
            TaskId::MergePR => "[merge] "@,
            TaskId::ReviewPR => "[review] "@,
            TaskId::CoffeeBreak => ""@,
        }
    }

    /// The task in words: the prefix of its kind, then its name.
    pub fn to_string(&self) -> (r: String)
        ensures
            r@ == self.prefix() + self.name@,
    {
        let task_prefix = match self.id {
            TaskId::CreatePR => "[create] ",
            TaskId::MergePR => "[merge] ",
            TaskId::ReviewPR => "[review] ",
            TaskId::CoffeeBreak => "",
        };
        let mut text = task_prefix.to_owned();
        text.push_str(self.name);
        text
    }

    pub fn is_valid(&self) -> (r: bool)
        ensures
            r == self.wf(),
    {
        self.total_energy_required > 0 && self.energy_taken_per_tick > 0 && 0 <= self.energy_taken
            && self.energy_taken <= self.total_energy_required
    }

    pub fn is_done(&self) -> (r: bool)
        ensures
            r == self.done(),
    {
        self.total_energy_required <= self.energy_taken
    }

    pub fn progress(&self) -> (r: i64)
        requires
            self.wf(),
        ensures
            r == self.fraction(),
            0 <= r <= 1_000_000,
            r == 1_000_000 <==> self.done(),
    {
        let taken: u128 = self.energy_taken as u128;
        let total: u128 = self.total_energy_required as u128;
        proof {
            lemma_fraction_bounds(self.energy_taken as int, self.total_energy_required as int);
        }
        ((taken * 1_000_000) / total) as i64
    }

    /// Gives the task `energy_add` more, keeping what it has taken between
    /// nothing and the total.
    pub fn credit(&mut self, energy_add: i64)
        requires
            old(self).wf(),
        ensures
            *final(self) == old(self).credited(energy_add as int),
            final(self).wf(),
    {
        let sum: i128 = self.energy_taken as i128 + energy_add as i128;
        if sum < 0 {
            self.energy_taken = 0;
        } else if sum > self.total_energy_required as i128 {
            self.energy_taken = self.total_energy_required;
        } else {
            self.energy_taken = sum as i64;
        }
    }

    pub fn as_feature(&mut self) -> (r: Self)
        ensures
            *final(self) == (Task { name: "Feature", ..*old(self) }),
            r == *final(self),
    {
        self.name = "Feature";
        *self
    }

    pub fn as_bug_fix(&mut self) -> (r: Self)
        ensures
            *final(self) == (Task { name: "Bug fix", ..*old(self) }),
            r == *final(self),
    {
        self.name = "Bug fix";
        *self
    }
}

/// The quotient `taken * 1_000_000 / total` lies between nothing and a whole,
/// and is a whole only when everything has been taken.
pub proof fn lemma_fraction_bounds(taken: int, total: int)
    requires
        0 <= taken <= total,
        0 < total,
    ensures
        0 <= (taken * 1_000_000) / total <= 1_000_000,
        (taken * 1_000_000) / total == 1_000_000 <==> taken == total,
{
    assert(0 <= (taken * 1_000_000) / total <= 1_000_000 && ((taken * 1_000_000) / total
        == 1_000_000 <==> taken == total)) by (nonlinear_arith)
        requires
            0 <= taken <= total,
            0 < total,
    ;
}

impl Default for Task {
    fn default() -> (r: Self)
        ensures
            r.name == "Feature",
            r.id == TaskId::CreatePR,
            r.total_energy_required == 5_000_000,
            r.energy_taken == 0,
            r.energy_taken_per_tick == 100_000,
            r.wf(),
    {
        Task {
            name: "Feature",
            id: TaskId::CreatePR,
            total_energy_required: 5_000_000,
            energy_taken: 0,
            energy_taken_per_tick: 100_000,
            energy_multipliers: TaskEnergyMultipliers::default(),
        }
    }
}

/// An order to an employee: one tick of work on the task named.
#[derive(Debug, Copy, Clone)]
pub struct Work {
    pub task: TaskId,
    pub uuid: usize,
}

/// An employee's report of one tick of work on a task.
#[derive(Debug, Copy, Clone)]
pub struct WorkCompleted {
    pub employee_id: usize,
    pub uuid: usize,
    pub energy_add: i64,
}

} // verus!
