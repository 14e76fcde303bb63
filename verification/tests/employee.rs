use kanban_sim::employee::{
    Buff, BuffId, EmployeeActor, EmployeeCharacteristics, EmployeeResources, EmployeeType,
    LOW_FOCUS, TRAIT_HIGH, TRAIT_LOW,
};
use kanban_sim::task::{TaskId, Work};
use std::ops::AddAssign;

fn steady(resources: EmployeeResources) -> EmployeeActor {
    EmployeeActor::new(
        EmployeeType::Developer,
        7,
        "Anton",
        EmployeeCharacteristics {
            company_experience: 100_000_000,
            rigor: 50_000_000,
            programming_skills: 100_000_000,
            fitness: 100_000_000,
        },
        resources,
    )
}

#[test]
fn rested_and_empty_resources() {
    let rested = EmployeeResources::new();
    assert_eq!((rested.energy, rested.focus, rested.stress), (100_000_000, 100_000_000, 0));
    let empty = EmployeeResources::empty();
    assert_eq!((empty.energy, empty.focus, empty.stress), (0, 0, 0));
    let default = EmployeeResources::default();
    assert_eq!((default.energy, default.focus, default.stress), (100_000_000, 100_000_000, 0));
}

#[test]
fn resources_add_up_field_by_field() {
    let mut resources = EmployeeResources { energy: 1, focus: 2, stress: 3 };
    resources.add_assign(EmployeeResources { energy: 10, focus: -20, stress: 30 });
    assert_eq!((resources.energy, resources.focus, resources.stress), (11, -18, 33));
    resources += EmployeeResources { energy: i64::MAX, focus: i64::MIN, stress: 0 };
    assert_eq!((resources.energy, resources.focus, resources.stress), (i64::MAX, i64::MIN, 33));
}

#[test]
fn drawn_characteristics_lie_between_15_and_85() {
    assert_eq!(TRAIT_LOW, 15_000_000);
    assert_eq!(TRAIT_HIGH, 85_000_000);
    let mut seen_above_low = false;
    for _ in 0..200 {
        let drawn = EmployeeCharacteristics::new();
        for value in
            [drawn.company_experience, drawn.rigor, drawn.programming_skills, drawn.fitness]
        {
            assert!(TRAIT_LOW <= value && value < TRAIT_HIGH);
            if value != TRAIT_LOW {
                seen_above_low = true;
            }
        }
    }
    assert!(seen_above_low);
    let by_default = EmployeeCharacteristics::default();
    assert!(TRAIT_LOW <= by_default.rigor && by_default.rigor < TRAIT_HIGH);
}

#[test]
fn new_employee_keeps_what_it_was_given() {
    let worker = steady(EmployeeResources { energy: 50_000_000, focus: 80_000_000, stress: 10_000_000 });
    assert_eq!(worker.employee_id, 7);
    assert_eq!(worker.employee_name, "Anton");
    assert_eq!(worker.employee_type, EmployeeType::Developer);
    assert_eq!(worker.characteristics.rigor, 50_000_000);
    assert_eq!(worker.resources.energy, 50_000_000);
    assert_eq!(worker.resources.focus, 80_000_000);
    assert_eq!(worker.resources.stress, 10_000_000);
}

#[test]
fn caffeine_is_thirty_focus_and_twenty_energy() {
    let bonus = BuffId::Caffeinated.translate_to_resources();
    assert_eq!((bonus.energy, bonus.focus, bonus.stress), (20_000_000, 30_000_000, 0));
}

#[test]
fn buff_adds_to_whatever_was_there() {
    for (energy, focus, stress) in [
        (100_000_000, 10_000_000, 0),
        (0, 0, 5_000_000),
        (-40_000_000, -70_000_000, 99_000_000),
        (95_000_000, 99_000_000, 1),
    ] {
        let mut worker = steady(EmployeeResources { energy, focus, stress });
        worker.handle_buff(Buff { id: BuffId::Caffeinated });
        assert_eq!(worker.resources.focus, focus + 30_000_000);
        assert_eq!(worker.resources.energy, energy + 20_000_000);
        assert_eq!(worker.resources.stress, stress);
        assert_eq!(worker.employee_id, 7);
    }
}

#[test]
fn buff_stops_at_the_end_of_the_range() {
    let mut worker = steady(EmployeeResources { energy: i64::MAX, focus: i64::MAX - 1, stress: 0 });
    worker.handle_buff(Buff { id: BuffId::Caffeinated });
    assert_eq!(worker.resources.energy, i64::MAX);
    assert_eq!(worker.resources.focus, i64::MAX);
}

#[test]
fn tired_employee_asks_for_two_breaks_when_lucky() {
    assert_eq!(LOW_FOCUS, 30_000_000);
    let tired = steady(EmployeeResources { energy: 100_000_000, focus: 10_000_000, stress: 0 });
    let spawned = tired.spawn_tasks(true);
    assert_eq!(spawned.len(), 2);
    for task in spawned {
        assert_eq!(task.id, TaskId::CoffeeBreak);
        assert_eq!(task.energy_taken, 0);
        assert_eq!(task.total_energy_required, 1_000_000);
    }
    assert_eq!(tired.spawn_tasks(false).len(), 0);
}

#[test]
fn focused_employee_asks_for_no_break() {
    let at_threshold = steady(EmployeeResources { energy: 0, focus: 30_000_000, stress: 0 });
    assert_eq!(at_threshold.spawn_tasks(true).len(), 0);
    let just_below = steady(EmployeeResources { energy: 0, focus: 29_999_999, stress: 0 });
    assert_eq!(just_below.spawn_tasks(true).len(), 2);
    let rested = steady(EmployeeResources::new());
    assert_eq!(rested.spawn_tasks(true).len(), 0);
}

#[test]
fn work_pays_energy_once_and_focus_twice() {
    let mut worker = steady(EmployeeResources::new());
    let out = worker.handle_work_with(Work { task: TaskId::CreatePR, uuid: 42 }, false);
    assert_eq!(out.completed.employee_id, 7);
    assert_eq!(out.completed.uuid, 42);
    assert_eq!(out.completed.energy_add, 175_000);
    assert_eq!(worker.resources.energy, 99_825_000);
    assert_eq!(worker.resources.focus, 99_650_000);
    assert_eq!(worker.resources.stress, 0);
    assert_eq!(out.snapshot.resources.energy, 99_825_000);
    assert_eq!(out.snapshot.resources.focus, 99_650_000);
    assert_eq!(out.snapshot.employee_id, 7);
    assert_eq!(out.spawned.len(), 0);
}

#[test]
fn multiplier_follows_the_resources_of_the_moment() {
    let mut worker = steady(EmployeeResources::new());
    let first = worker.handle_work_with(Work { task: TaskId::CreatePR, uuid: 1 }, false);
    let second = worker.handle_work_with(Work { task: TaskId::CreatePR, uuid: 1 }, false);
    assert_eq!(first.completed.energy_add, 175_000);
    // (350 + 2 * 99.65 + 1.5 * 99.825) / 400 = 1.74759375, rounded down
    assert_eq!(second.completed.energy_add, 174_759);
    assert_eq!(worker.resources.energy, 99_650_241);
    assert_eq!(worker.resources.focus, 99_300_482);
}

#[test]
fn break_is_decided_before_the_work_is_done() {
    // focus is just at the threshold before the work and below it after
    let mut worker = steady(EmployeeResources { energy: 100_000_000, focus: 30_000_000, stress: 0 });
    let out = worker.handle_work_with(Work { task: TaskId::ReviewPR, uuid: 3 }, true);
    assert_eq!(out.spawned.len(), 0);
    assert!(worker.resources.focus < LOW_FOCUS);
    let out = worker.handle_work_with(Work { task: TaskId::ReviewPR, uuid: 3 }, true);
    assert_eq!(out.spawned.len(), 2);
}

#[test]
fn stressed_employee_takes_energy_away() {
    let mut worker = EmployeeActor::new(
        EmployeeType::Manager,
        2,
        "Okko",
        EmployeeCharacteristics {
            company_experience: 15_000_000,
            rigor: 15_000_000,
            programming_skills: 15_000_000,
            fitness: 15_000_000,
        },
        EmployeeResources { energy: 0, focus: 0, stress: 100_000_000 },
    );
    let out = worker.handle_work_with(Work { task: TaskId::MergePR, uuid: 9 }, false);
    assert_eq!(out.completed.energy_add, -60_000);
    assert_eq!(worker.resources.energy, 60_000);
    assert_eq!(worker.resources.focus, 120_000);
    assert_eq!(worker.employee_type, EmployeeType::Manager);
}

#[test]
fn work_stops_at_the_ends_of_the_range() {
    let mut worker = EmployeeActor::new(
        EmployeeType::Developer,
        2,
        "Okko",
        EmployeeCharacteristics {
            company_experience: i64::MAX,
            rigor: i64::MAX,
            programming_skills: i64::MAX,
            fitness: i64::MAX,
        },
        EmployeeResources { energy: i64::MIN, focus: i64::MIN, stress: 0 },
    );
    let out = worker.handle_work_with(Work { task: TaskId::MergePR, uuid: 9 }, false);
    // (8 * (2^63 - 1) - 7 * 2^63) / 800 is the multiplier; a tenth of it is the effort
    assert_eq!(out.completed.energy_add, 1_152_921_504_606_846);
    assert_eq!(worker.resources.energy, i64::MIN);
    assert_eq!(worker.resources.focus, i64::MIN);
}

#[test]
fn tired_employee_sometimes_asks_for_a_break() {
    let tired = steady(EmployeeResources { energy: 100_000_000, focus: 10_000_000, stress: 0 });
    let mut asked = 0;
    let mut kept_quiet = 0;
    for _ in 0..20_000 {
        let mut worker = tired;
        let out = worker.handle_work(Work { task: TaskId::CreatePR, uuid: 1 });
        assert!(out.spawned.len() == 0 || out.spawned.len() == 2);
        if out.spawned.len() == 2 {
            asked += 1;
        } else {
            kept_quiet += 1;
        }
        assert_eq!(out.completed.energy_add, 130_000);
    }
    assert!(asked > 0);
    assert!(kept_quiet > asked);
}

#[test]
fn rested_employee_never_asks_for_a_break() {
    let rested = steady(EmployeeResources::new());
    for _ in 0..2_000 {
        let mut worker = rested;
        let out = worker.handle_work(Work { task: TaskId::CreatePR, uuid: 1 });
        assert_eq!(out.spawned.len(), 0);
        assert_eq!(out.completed.energy_add, 175_000);
    }
}
