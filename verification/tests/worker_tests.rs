use polyminis_server::{
    EpochState, HandleStage, Json, WorkerCommand, WorkerEvent, WorkerThreadActions,
    WorkerThreadState,
};

fn s(x: &str) -> String {
    x.to_string()
}

fn obj(members: Vec<(&str, Json)>) -> Json {
    Json::Object(members.into_iter().map(|(k, v)| (s(k), v)).collect())
}

fn simulate_data(epoch: u64, sim_type: Option<Json>) -> Json {
    let mut members = vec![("EpochNum", Json::U64(epoch))];
    if let Some(t) = sim_type {
        members.push(("SimulationType", t));
    }
    obj(members)
}

/// Drives the handling of `action` the way the worker does, with a simulation
/// of epoch `epoch_num` that ends after `steps` steps; gives the commands seen.
fn drive(ws: &mut WorkerThreadState, action: &WorkerThreadActions, epoch_num: usize, steps: u64) -> Vec<WorkerCommand> {
    let mut commands = Vec::new();
    let mut stage = HandleStage::Ready;
    let mut event = WorkerEvent::Start;
    let mut taken = 0u64;
    loop {
        let (next, command) = action.handle(ws, stage, event);
        stage = next;
        commands.push(command);
        event = match command {
            WorkerCommand::BuildSimulation => WorkerEvent::SimulationBuilt {
                epoch_num,
                species: vec![Json::String(s("sp1")), Json::String(s("sp2"))],
                environment: Json::U64(99),
            },
            WorkerCommand::TakeStep => {
                taken += 1;
                WorkerEvent::StepTaken { finished: taken == steps, snapshot: Json::U64(taken) }
            },
            WorkerCommand::RunScenarios => WorkerEvent::ScenariosRun,
            WorkerCommand::EvaluateSpecies => WorkerEvent::SpeciesEvaluated {
                evaluation: vec![(s("sp1"), Json::U64(10)), (s("sp2"), Json::U64(20))],
                persistable_data: obj(vec![("db", Json::Boolean(true))]),
                species_data: vec![(s("sp1"), Json::Null)],
            },
            WorkerCommand::AdvanceEpoch => WorkerEvent::EpochAdvanced {
                epoch_num,
                persistable_data: obj(vec![("next", Json::U64(epoch_num as u64))]),
                species_data: vec![(s("spA"), Json::I64(-1))],
            },
            WorkerCommand::Finish | WorkerCommand::Abort => break,
        };
    }
    commands
}

fn advance_epoch(ws: &mut WorkerThreadState, epoch_num: usize) {
    let action = WorkerThreadActions::Advance { simulation_data: Json::Null };
    assert_eq!(drive(ws, &action, epoch_num, 0), vec![WorkerCommand::AdvanceEpoch, WorkerCommand::Finish]);
}

#[test]
fn new_epoch_summary() {
    let e = EpochState::new(3);
    assert_eq!(
        e.serialize(),
        obj(vec![("Epoch", Json::U64(3)), ("Steps", Json::U64(0)), ("Evaluated", Json::Boolean(false))])
    );
}

#[test]
fn legacy_simulation_records_steps_and_evaluation() {
    let mut ws = WorkerThreadState::new();
    let action = WorkerThreadActions::Simulate { simulation_data: simulate_data(4, None) };
    let commands = drive(&mut ws, &action, 4, 3);
    assert_eq!(
        commands,
        vec![
            WorkerCommand::BuildSimulation,
            WorkerCommand::TakeStep,
            WorkerCommand::TakeStep,
            WorkerCommand::TakeStep,
            WorkerCommand::EvaluateSpecies,
            WorkerCommand::Finish,
        ]
    );
    assert!(ws.is_epoch_cached(4));
    assert_eq!(ws.step_count(4), 3);
    assert_eq!(
        ws.serialize_step_all(4),
        obj(vec![("Steps", Json::Array(vec![Json::U64(1), Json::U64(2), Json::U64(3)]))])
    );
    assert_eq!(ws.serialize_step(4, 1), Json::U64(2));
    assert_eq!(
        ws.serialize_epoch(4),
        obj(vec![
            ("Epoch", Json::U64(4)),
            ("Steps", Json::U64(3)),
            ("Evaluated", Json::Boolean(true)),
            ("EvaluationData", obj(vec![("sp1", Json::U64(10)), ("sp2", Json::U64(20))])),
        ])
    );
    assert_eq!(
        ws.serialize_species_all(4),
        obj(vec![("Species", Json::Array(vec![Json::String(s("sp1")), Json::String(s("sp2"))]))])
    );
    assert_eq!(ws.serialize_environment(4), obj(vec![("Environment", Json::U64(99))]));
    assert_eq!(ws.serialize_persistent_data(4), obj(vec![("db", Json::Boolean(true))]));
    assert_eq!(ws.serialize_persistent_data_species(4), obj(vec![("sp1", Json::Null)]));
}

#[test]
fn evaluated_epoch_is_not_simulated_again() {
    let mut ws = WorkerThreadState::new();
    let action = WorkerThreadActions::Simulate { simulation_data: simulate_data(2, None) };
    drive(&mut ws, &action, 2, 1);
    let again = WorkerThreadActions::Simulate { simulation_data: simulate_data(2, None) };
    assert_eq!(drive(&mut ws, &again, 2, 1), vec![WorkerCommand::Finish]);
    assert_eq!(ws.step_count(2), 1);
}

#[test]
fn unevaluated_cached_epoch_is_simulated_again() {
    let mut ws = WorkerThreadState::new();
    advance_epoch(&mut ws, 6);
    let action = WorkerThreadActions::Simulate { simulation_data: simulate_data(6, None) };
    assert_eq!(drive(&mut ws, &action, 6, 1)[0], WorkerCommand::BuildSimulation);
}

#[test]
fn solo_run_runs_scenarios() {
    let mut ws = WorkerThreadState::new();
    let action = WorkerThreadActions::Simulate {
        simulation_data: simulate_data(1, Some(Json::String(s("Solo Run")))),
    };
    assert_eq!(
        drive(&mut ws, &action, 1, 0),
        vec![WorkerCommand::BuildSimulation, WorkerCommand::RunScenarios, WorkerCommand::EvaluateSpecies, WorkerCommand::Finish]
    );
    assert_eq!(ws.step_count(1), 0);
}

#[test]
fn other_simulation_types_go_straight_to_evaluation() {
    for t in ["Creature Design", "Creature Observation", "Something Else"] {
        let mut ws = WorkerThreadState::new();
        let action = WorkerThreadActions::Simulate { simulation_data: simulate_data(1, Some(Json::String(s(t)))) };
        assert_eq!(
            drive(&mut ws, &action, 1, 0),
            vec![WorkerCommand::BuildSimulation, WorkerCommand::EvaluateSpecies, WorkerCommand::Finish]
        );
    }
}

#[test]
fn explicit_legacy_style_steps() {
    let mut ws = WorkerThreadState::new();
    let action = WorkerThreadActions::Simulate {
        simulation_data: simulate_data(1, Some(Json::String(s("Legacy Style")))),
    };
    assert_eq!(drive(&mut ws, &action, 1, 1)[1], WorkerCommand::TakeStep);
}

#[test]
fn non_string_simulation_type_aborts_after_recording_static_data() {
    let mut ws = WorkerThreadState::new();
    let action = WorkerThreadActions::Simulate { simulation_data: simulate_data(5, Some(Json::U64(1))) };
    assert_eq!(drive(&mut ws, &action, 5, 1), vec![WorkerCommand::BuildSimulation, WorkerCommand::Abort]);
    assert!(ws.is_epoch_cached(5));
    assert_eq!(ws.serialize_environment(5), obj(vec![("Environment", Json::U64(99))]));
}

#[test]
fn data_that_is_no_object_is_simulated() {
    let mut ws = WorkerThreadState::new();
    let action = WorkerThreadActions::Simulate { simulation_data: Json::Null };
    assert_eq!(drive(&mut ws, &action, 0, 1).len(), 4);
    assert!(ws.is_epoch_cached(0));
}

#[test]
fn advance_stores_persistable_data() {
    let mut ws = WorkerThreadState::new();
    advance_epoch(&mut ws, 8);
    assert_eq!(ws.serialize_persistent_data(8), obj(vec![("next", Json::U64(8))]));
    assert_eq!(ws.serialize_persistent_data_species(8), obj(vec![("spA", Json::I64(-1))]));
    assert_eq!(
        ws.serialize_epoch(8),
        obj(vec![("Epoch", Json::U64(8)), ("Steps", Json::U64(0)), ("Evaluated", Json::Boolean(false))])
    );
}

#[test]
fn exit_finishes_and_ends_the_worker() {
    let mut ws = WorkerThreadState::new();
    let action = WorkerThreadActions::Exit;
    assert!(action.is_exit());
    assert_eq!(drive(&mut ws, &action, 0, 0), vec![WorkerCommand::Finish]);
    assert!(!WorkerThreadActions::Advance { simulation_data: Json::Null }.is_exit());
}

#[test]
fn mismatched_event_aborts() {
    let mut ws = WorkerThreadState::new();
    let action = WorkerThreadActions::Exit;
    let r = action.handle(&mut ws, HandleStage::Ready, WorkerEvent::ScenariosRun);
    assert_eq!(r, (HandleStage::Done, WorkerCommand::Abort));
    let r = action.handle(
        &mut ws,
        HandleStage::Stepping { epoch_num: 3 },
        WorkerEvent::StepTaken { finished: false, snapshot: Json::Null },
    );
    assert_eq!(r, (HandleStage::Done, WorkerCommand::Abort));
}

#[test]
fn cache_keeps_ten_most_recent_epochs() {
    let mut ws = WorkerThreadState::new();
    for e in 0..11 {
        advance_epoch(&mut ws, e);
    }
    assert!(!ws.is_epoch_cached(0));
    for e in 1..11 {
        assert!(ws.is_epoch_cached(e));
    }
    let all = ws.serialize_epoch_all();
    match all {
        Json::Array(items) => {
            assert_eq!(items.len(), 10);
            assert_eq!(items[0], EpochState::new(1).serialize());
            assert_eq!(items[9], EpochState::new(10).serialize());
        },
        _ => panic!("not an array"),
    }
}

#[test]
fn looking_up_an_epoch_keeps_it_from_eviction() {
    let mut ws = WorkerThreadState::new();
    for e in 0..10 {
        advance_epoch(&mut ws, e);
    }
    ws.serialize_epoch(0);
    advance_epoch(&mut ws, 10);
    assert!(ws.is_epoch_cached(0));
    assert!(!ws.is_epoch_cached(1));
}

#[test]
fn epoch_keys_are_cut_to_32_bits() {
    if usize::BITS == 64 {
        let mut ws = WorkerThreadState::new();
        let big = (1usize << 32) + 3;
        advance_epoch(&mut ws, big);
        assert!(ws.is_epoch_cached(3));
        assert_eq!(ws.serialize_persistent_data(3), obj(vec![("next", Json::U64(big as u64))]));
    }
}

#[test]
fn actions_are_taken_in_queue_order() {
    let mut ws = WorkerThreadState::new();
    assert_eq!(ws.next_action(), None);
    assert_eq!(ws.simulate(Json::U64(1)), Json::Object(vec![]));
    assert_eq!(ws.advance(Json::U64(2)), Json::Object(vec![]));
    assert_eq!(ws.simulate(Json::U64(3)), Json::Object(vec![]));
    assert_eq!(ws.next_action(), Some(WorkerThreadActions::Simulate { simulation_data: Json::U64(1) }));
    assert_eq!(ws.next_action(), Some(WorkerThreadActions::Advance { simulation_data: Json::U64(2) }));
    assert_eq!(ws.next_action(), Some(WorkerThreadActions::Simulate { simulation_data: Json::U64(3) }));
    assert_eq!(ws.next_action(), None);
    assert_eq!(ws.serialize(), Json::Object(vec![]));
}

#[test]
fn storing_an_epoch_again_replaces_it() {
    let mut ws = WorkerThreadState::new();
    advance_epoch(&mut ws, 3);
    advance_epoch(&mut ws, 4);
    let action = WorkerThreadActions::Simulate { simulation_data: simulate_data(3, None) };
    drive(&mut ws, &action, 3, 2);
    match ws.serialize_epoch_all() {
        Json::Array(items) => {
            assert_eq!(items.len(), 2);
            assert_eq!(items[0], EpochState::new(4).serialize());
        },
        _ => panic!("not an array"),
    }
    assert_eq!(ws.step_count(3), 2);
    assert_eq!(ws.serialize_persistent_data(3), obj(vec![("db", Json::Boolean(true))]));
}

#[test]
fn stored_epoch_is_most_recent() {
    let mut ws = WorkerThreadState::new();
    advance_epoch(&mut ws, 1);
    advance_epoch(&mut ws, 2);
    ws.serialize_epoch(1);
    match ws.serialize_epoch_all() {
        Json::Array(items) => {
            assert_eq!(items.len(), 2);
            assert_eq!(items[1], EpochState::new(1).serialize());
            assert_eq!(items[0], EpochState::new(2).serialize());
        },
        _ => panic!("not an array"),
    }
}

#[test]
fn handling_run_touches_only_its_epoch_and_not_the_queue() {
    let mut ws = WorkerThreadState::new();
    advance_epoch(&mut ws, 1);
    advance_epoch(&mut ws, 2);
    let before_1 = ws.serialize_persistent_data(1);
    let before_2 = ws.serialize_persistent_data_species(2);
    ws.simulate(Json::U64(7));
    let action = WorkerThreadActions::Simulate { simulation_data: simulate_data(3, None) };
    drive(&mut ws, &action, 3, 2);
    assert_eq!(ws.serialize_persistent_data(1), before_1);
    assert_eq!(ws.serialize_persistent_data_species(2), before_2);
    assert_eq!(ws.step_count(1), 0);
    assert_eq!(ws.step_count(2), 0);
    assert_eq!(ws.step_count(3), 2);
    assert_eq!(ws.next_action(), Some(WorkerThreadActions::Simulate { simulation_data: Json::U64(7) }));
    assert_eq!(ws.next_action(), None);
}

#[test]
fn handling_exit_changes_nothing() {
    let mut ws = WorkerThreadState::new();
    advance_epoch(&mut ws, 1);
    let before = ws.serialize_epoch_all();
    drive(&mut ws, &WorkerThreadActions::Exit, 1, 0);
    assert_eq!(ws.serialize_epoch_all(), before);
}
