use polyminis_server::{EndpointHelper, Error, Management, Reply, RoutePlan, Simulation};

fn plan(route: Simulation, sim: Option<usize>, epoch: Option<usize>, step: Option<usize>) -> RoutePlan {
    route.plan_request(sim, epoch, step)
}

fn reply(route: Simulation, sim: Option<usize>, epoch: Option<usize>, step: Option<usize>) -> Reply {
    plan(route, sim, epoch, step).reply
}

#[test]
fn get_usize_var_reads_decimal_numbers() {
    assert_eq!(EndpointHelper::get_usize_var(Some("42")), Some(42));
    assert_eq!(EndpointHelper::get_usize_var(Some("0")), Some(0));
    assert_eq!(EndpointHelper::get_usize_var(Some("+7")), Some(7));
    assert_eq!(EndpointHelper::get_usize_var(Some("007")), Some(7));
}

#[test]
fn get_usize_var_rejects_other_text() {
    assert_eq!(EndpointHelper::get_usize_var(None), None);
    assert_eq!(EndpointHelper::get_usize_var(Some("")), None);
    assert_eq!(EndpointHelper::get_usize_var(Some("+")), None);
    assert_eq!(EndpointHelper::get_usize_var(Some("-1")), None);
    assert_eq!(EndpointHelper::get_usize_var(Some("12a")), None);
    assert_eq!(EndpointHelper::get_usize_var(Some(" 1")), None);
    assert_eq!(EndpointHelper::get_usize_var(Some("1_000")), None);
    assert_eq!(EndpointHelper::get_usize_var(Some("0x10")), None);
}

#[test]
fn get_usize_var_rejects_overflow() {
    let max = usize::MAX.to_string();
    assert_eq!(EndpointHelper::get_usize_var(Some(&max)), Some(usize::MAX));
    let over = format!("{}0", usize::MAX);
    assert_eq!(EndpointHelper::get_usize_var(Some(&over)), None);
}

#[test]
fn error_messages() {
    assert_eq!(EndpointHelper::error_message(Error::NotFound), "Error Not Found");
    assert_eq!(EndpointHelper::error_message(Error::InternalServerError), "Internal Error");
    assert_eq!(Management::Ping.reply(), "MGMT PING");
}

#[test]
fn simulation_routes() {
    assert_eq!(reply(Simulation::SimulationStateAll, None, None, None), Reply::ServerSummary);
    assert_eq!(reply(Simulation::SimulationStateOne, Some(2), None, None), Reply::SimulationSummary { sim: 2 });
    assert_eq!(reply(Simulation::SimulationStateOne, None, None, None), Reply::Error(Error::NotFound));
}

#[test]
fn add_simulation_adds_then_answers_internal_error() {
    let p = plan(Simulation::AddSimulation, None, None, None);
    assert!(p.add_simulation);
    assert_eq!(p.reply, Reply::Error(Error::InternalServerError));
    let p = plan(Simulation::AddSimulation, Some(1), Some(1), None);
    assert!(p.add_simulation);
    assert_eq!(p.reply, Reply::Nothing);
    assert!(!plan(Simulation::EpochStateAll, Some(0), None, None).add_simulation);
}

#[test]
fn epoch_routes() {
    assert_eq!(reply(Simulation::EpochStateAll, Some(1), None, None), Reply::EpochAll { sim: 1 });
    assert_eq!(reply(Simulation::EpochStateAll, None, Some(1), None), Reply::Error(Error::InternalServerError));
    assert_eq!(reply(Simulation::EpochStateOne, Some(1), Some(3), None), Reply::EpochOne { sim: 1, epoch: 3 });
    assert_eq!(reply(Simulation::EpochStateOne, Some(1), None, None), Reply::Error(Error::NotFound));
    assert_eq!(reply(Simulation::AdvanceEpoch, Some(0), None, None), Reply::Advance { sim: 0 });
    assert_eq!(reply(Simulation::SimulateEpoch, Some(0), None, None), Reply::Simulate { sim: 0 });
    assert_eq!(reply(Simulation::SimulateEpoch, None, None, None), Reply::Error(Error::InternalServerError));
}

#[test]
fn epoch_content_routes() {
    assert_eq!(reply(Simulation::SpeciesInEpoch, Some(1), Some(2), None), Reply::SpeciesAll { sim: 1, epoch: 2 });
    assert_eq!(reply(Simulation::SpeciesInEpoch, Some(1), None, None), Reply::Error(Error::InternalServerError));
    assert_eq!(reply(Simulation::SpeciesInEpochOne, Some(1), Some(2), None), Reply::Nothing);
    assert_eq!(reply(Simulation::EnvironmentInEpoch, Some(1), Some(2), None), Reply::Environment { sim: 1, epoch: 2 });
    assert_eq!(reply(Simulation::StepStateAll, Some(1), Some(2), None), Reply::StepAll { sim: 1, epoch: 2 });
    assert_eq!(reply(Simulation::StepStateOne, Some(1), Some(2), Some(5)), Reply::StepOne { sim: 1, epoch: 2, step: 5 });
    assert_eq!(reply(Simulation::StepStateOne, Some(1), Some(2), None), Reply::Error(Error::NotFound));
    assert_eq!(reply(Simulation::StepStateOne, Some(1), None, Some(5)), Reply::Error(Error::InternalServerError));
    assert_eq!(reply(Simulation::PersistentDataEpoch, Some(1), Some(2), None), Reply::PersistentData { sim: 1, epoch: 2 });
    assert_eq!(reply(Simulation::PersistentDataSpecies, Some(1), Some(2), None), Reply::PersistentSpecies { sim: 1, epoch: 2 });
    assert_eq!(reply(Simulation::PersistentDataSpeciesOne, Some(1), Some(2), None), Reply::Nothing);
    assert_eq!(reply(Simulation::PersistentDataSpeciesOne, None, Some(2), None), Reply::Error(Error::InternalServerError));
}

#[test]
fn routes_without_simulation_number_are_internal_errors() {
    let routes = [
        Simulation::AddSimulation,
        Simulation::EpochStateAll,
        Simulation::EpochStateOne,
        Simulation::AdvanceEpoch,
        Simulation::SimulateEpoch,
        Simulation::StepStateAll,
        Simulation::StepStateOne,
        Simulation::SpeciesInEpoch,
        Simulation::SpeciesInEpochOne,
        Simulation::EnvironmentInEpoch,
        Simulation::PersistentDataEpoch,
        Simulation::PersistentDataSpecies,
        Simulation::PersistentDataSpeciesOne,
    ];
    for route in routes {
        assert_eq!(reply(route, None, Some(1), Some(1)), Reply::Error(Error::InternalServerError));
    }
}
