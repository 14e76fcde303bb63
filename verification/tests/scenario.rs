use kanban_sim::employee::{
    Buff, BuffId, EmployeeActor, EmployeeCharacteristics, EmployeeResources, EmployeeType,
};
use kanban_sim::kanban::{AddEmployee, Kanban};
use kanban_sim::task::TaskId;

fn developer(employee_id: usize, rigor: i64, resources: EmployeeResources) -> EmployeeActor {
    EmployeeActor::new(
        EmployeeType::Developer,
        employee_id,
        "Okko",
        EmployeeCharacteristics {
            company_experience: 100_000_000,
            rigor,
            programming_skills: 100_000_000,
            fitness: 100_000_000,
        },
        resources,
    )
}

#[test]
fn one_employee_finishes_a_pull_request_in_sixty_ticks() {
    let mut board = Kanban::new();
    let mut worker = developer(1, 50_000_000, EmployeeResources::new());
    board.add_employee(AddEmployee { employee_id: 1 });
    assert_eq!(board.submit(TaskId::CreatePR.to_task()), 1);
    let mut ticks = 0;
    let mut last = 0;
    loop {
        let out = board.tick_with(false, false);
        if out.ordered[0].uuid != 1 {
            break;
        }
        assert_eq!(out.assignments.len(), 1);
        assert_eq!(out.assignments[0].employee_id, 1);
        assert_eq!(out.assignments[0].work.task, TaskId::CreatePR);
        let sent = worker.handle_work_with(out.assignments[0].work, false);
        if ticks == 0 {
            // (50 + 100 + 100 + 100 + 200 + 150 - 0) / 400 = 1.75, times 0.1
            assert_eq!(sent.completed.energy_add, 175_000);
        }
        assert!(sent.completed.energy_add > 161_000 && sent.completed.energy_add <= 175_000);
        board.work_completed(sent.completed);
        board.record_employee(sent.snapshot);
        ticks += 1;
        if let Some(card) = board.open_items().iter().find(|card| card.uuid == 1) {
            assert!(card.task.energy_taken > last);
            assert!(card.task.energy_taken < 10_000_000);
            last = card.task.energy_taken;
            assert_eq!(card.contributors, vec![1]);
        }
    }
    // at a steady 0.175 a tick it would be 58 ticks; the employee tires, so it is 60
    assert_eq!(ticks, 60);
    assert_eq!(last, 9_923_818);
    assert_eq!(worker.resources.energy, 89_914_828);
    assert_eq!(worker.resources.focus, 79_829_656);
    let done = board.done_items();
    assert_eq!(done.len(), 1);
    assert_eq!(done[0].uuid, 1);
    assert_eq!(done[0].task.energy_taken, 10_000_000);
    let open = board.open_items();
    assert_eq!(open.len(), 1);
    assert_eq!(open[0].task.id, TaskId::ReviewPR);
    assert_eq!(board.current_employee().unwrap().resources.energy, 89_914_828);
}

#[test]
fn tired_employee_is_buffed_after_a_break() {
    let mut board = Kanban::new();
    let mut worker =
        developer(3, 50_000_000, EmployeeResources { energy: 40_000_000, focus: 10_000_000, stress: 0 });
    board.add_employee(AddEmployee { employee_id: 3 });
    board.submit(TaskId::MergePR.to_task());
    let out = board.tick_with(false, false);
    let sent = worker.handle_work_with(out.assignments[0].work, true);
    assert_eq!(sent.spawned.len(), 2);
    for task in sent.spawned {
        assert_eq!(task.id, TaskId::CoffeeBreak);
        board.submit(task);
    }
    board.work_completed(sent.completed);
    assert_eq!(board.open_items().len(), 3);
    // the merge goes before the breaks, which wait their turn
    let mut buffs = Vec::new();
    let mut ticks = 0;
    while !board.open_items().is_empty() {
        let out = board.tick_with(false, false);
        let sent = worker.handle_work_with(out.assignments[0].work, false);
        buffs.extend(board.work_completed(sent.completed));
        ticks += 1;
        assert!(ticks < 1_000);
    }
    assert_eq!(buffs.len(), 2);
    let before = worker.resources;
    for order in buffs {
        assert_eq!(order.employee_id, 3);
        worker.handle_buff(order.buff);
    }
    assert_eq!(worker.resources.focus, before.focus + 60_000_000);
    assert_eq!(worker.resources.energy, before.energy + 40_000_000);
    assert_eq!(worker.resources.stress, before.stress);
}

#[test]
fn stimulant_raises_focus_by_thirty_and_energy_by_twenty() {
    let mut worker =
        developer(1, 50_000_000, EmployeeResources { energy: 12_345_678, focus: 10_000_000, stress: 3 });
    assert_eq!(worker.spawn_tasks(true).len(), 2);
    worker.handle_buff(Buff { id: BuffId::Caffeinated });
    assert_eq!(worker.resources.focus, 40_000_000);
    assert_eq!(worker.resources.energy, 32_345_678);
    assert_eq!(worker.resources.stress, 3);
    assert_eq!(worker.spawn_tasks(true).len(), 0);
}

#[test]
fn two_employees_share_two_tasks() {
    let mut board = Kanban::new();
    let mut okko = developer(1, 60_000_000, EmployeeResources::new());
    let mut anton =
        developer(2, 40_000_000, EmployeeResources { energy: 50_000_000, focus: 80_000_000, stress: 10_000_000 });
    board.add_employee(AddEmployee { employee_id: 1 });
    board.add_employee(AddEmployee { employee_id: 2 });
    let mut feature = TaskId::CreatePR.to_task();
    feature.as_feature();
    board.submit(feature);
    board.submit(feature);
    for _ in 0..10 {
        let out = board.tick_with(false, false);
        assert_eq!(out.assignments.len(), 2);
        let mut reports = Vec::new();
        for order in out.assignments {
            let worker = if order.employee_id == 1 { &mut okko } else { &mut anton };
            reports.push(worker.handle_work_with(order.work, false).completed);
        }
        assert!(board.drain(&reports).is_empty());
    }
    let open = board.open_items();
    assert_eq!(open.len(), 2);
    // the task that is further along goes to the first employee, so after the
    // first tick the two change tasks whenever the second one falls behind
    assert!(open[0].task.energy_taken > 0 && open[1].task.energy_taken > 0);
    assert_eq!(
        open[0].task.energy_taken + open[1].task.energy_taken,
        (100_000_000 - okko.resources.energy) + (50_000_000 - anton.resources.energy)
    );
}
