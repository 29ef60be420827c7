use unsealer::supervisor::{StopReason, SupervisorAction, SupervisorRun};

#[test]
fn scenario_failing_command_runs_exactly_twice() {
    // A command that always exits non-zero, with a retry budget of 2,
    // is attempted exactly twice; then the supervisor stops and reports.
    let mut run = SupervisorRun::new(2);
    let mut launches: u32 = 0;
    loop {
        match run.next_action() {
            SupervisorAction::Launch => {
                run.begin_attempt();
                launches += 1;
                run.record_exit(false);
            }
            SupervisorAction::Stop(reason) => {
                assert_eq!(reason, StopReason::RetriesExhausted);
                break;
            }
        }
    }
    assert_eq!(launches, 2);
    assert_eq!(run.attempts_made(), 2);
}

#[test]
fn success_stops_the_loop() {
    let mut run = SupervisorRun::new(2);
    assert_eq!(run.next_action(), SupervisorAction::Launch);
    run.begin_attempt();
    run.record_exit(true);
    assert_eq!(run.next_action(), SupervisorAction::Stop(StopReason::Succeeded));
    assert_eq!(run.attempts_made(), 1);
}

#[test]
fn cancellation_prevents_further_launches() {
    let mut run = SupervisorRun::new(2);
    run.begin_attempt();
    run.record_exit(false);
    run.cancel();
    assert_eq!(run.next_action(), SupervisorAction::Stop(StopReason::Cancelled));
    assert_eq!(run.attempts_made(), 1);
}

#[test]
fn spawn_failure_is_fatal() {
    let mut run = SupervisorRun::new(2);
    assert_eq!(run.next_action(), SupervisorAction::Launch);
    run.begin_attempt();
    run.record_spawn_failure();
    assert_eq!(run.next_action(), SupervisorAction::Stop(StopReason::SpawnFailure));
}

#[test]
fn zero_budget_never_launches() {
    let run = SupervisorRun::new(0);
    assert_eq!(run.next_action(), SupervisorAction::Stop(StopReason::RetriesExhausted));
}
