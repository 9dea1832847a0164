use vstd::prelude::*;

verus! {

/// The errors that a request can be answered with.
#[derive(Debug, Clone, Copy, PartialEq, Eq)]
pub enum Error {
    NotFound,
    InternalServerError,
}

/// The management endpoints.
#[derive(Debug, Clone, Copy, PartialEq, Eq)]
pub enum Management {
    Ping,
}

/// The simulation endpoints, one for each route of the server.
#[derive(Debug, Clone, Copy, PartialEq, Eq)]
pub enum Simulation {
    SimulationStateAll,
    SimulationStateOne,
    AddSimulation,
    EpochStateAll,
    EpochStateOne,
    AdvanceEpoch,
    SimulateEpoch,
    StepStateAll,
    StepStateOne,
    SpeciesInEpoch,
    SpeciesInEpochOne,
    EnvironmentInEpoch,
    PersistentDataEpoch,
    PersistentDataSpecies,
    PersistentDataSpeciesOne,
}

/// Every endpoint of the server.
#[derive(Debug, Clone, Copy, PartialEq, Eq)]
pub enum Endpoint {
    Simulation(Simulation),
    Management(Management),
}

/// What a request to a simulation endpoint is answered with.
#[derive(Debug, Clone, Copy, PartialEq, Eq)]
pub enum Reply {
    /// The error's message.
    Error(Error),
    /// The server's summary.
    ServerSummary,
    /// The summary of simulation `sim`.
    SimulationSummary { sim: usize },
    /// The summaries of all cached epochs of simulation `sim`.
    EpochAll { sim: usize },
    /// The summary of one epoch.
    EpochOne { sim: usize, epoch: usize },
    /// Queue an advance of simulation `sim` with the request's body.
    Advance { sim: usize },
    /// Queue a simulation run of simulation `sim` with the request's body.
    Simulate { sim: usize },
    /// The species of one epoch.
    SpeciesAll { sim: usize, epoch: usize },
    /// The environment of one epoch.
    Environment { sim: usize, epoch: usize },
    /// The step snapshots of one epoch.
    StepAll { sim: usize, epoch: usize },
    /// The snapshot of one step.
    StepOne { sim: usize, epoch: usize, step: usize },
    /// The persistable data of one epoch.
    PersistentData { sim: usize, epoch: usize },
    /// The persistable data of the species of one epoch.
    PersistentSpecies { sim: usize, epoch: usize },
    /// Nothing is sent.
    Nothing,
}

/// How a request to a simulation endpoint is served: whether a simulation is
/// added first, and what the request is answered with.
#[derive(Debug, Clone, Copy, PartialEq, Eq)]
pub struct RoutePlan {
    pub add_simulation: bool,
    pub reply: Reply,
}

/// The message that answers an error.
pub open spec fn error_text(err: Error) -> Seq<char> {
    match err {
        Error::NotFound => "Error Not Found"@,
        Error::InternalServerError => "Internal Error"@,
    }
}

/// What a request to `route` is answered with, given the simulation, epoch
/// and step numbers that its path holds.  A route that needs a simulation
/// number and gets none is an internal error, as is one that needs an epoch
/// number and gets none; a missing number that selects one item among others
/// of the same kind is "not found".
pub open spec fn planned_reply(
    route: Simulation,
    sim: Option<usize>,
    epoch: Option<usize>,
    step: Option<usize>,
) -> Reply {
    let ise = Reply::Error(Error::InternalServerError);
    match route {
        Simulation::SimulationStateAll => Reply::ServerSummary,
        Simulation::SimulationStateOne => match sim {
            Some(s) => Reply::SimulationSummary { sim: s },
            None => Reply::Error(Error::NotFound),
        },
        Simulation::AddSimulation => if sim is Some && epoch is Some {
            Reply::Nothing
        } else {
            ise
        },
        Simulation::EpochStateAll => match sim {
            Some(s) => Reply::EpochAll { sim: s },
            None => ise,
        },
        Simulation::EpochStateOne => match (sim, epoch) {
            (None, _) => ise,
            (Some(s), Some(e)) => Reply::EpochOne { sim: s, epoch: e },
            (Some(_), None) => Reply::Error(Error::NotFound),
        },
        Simulation::AdvanceEpoch => match sim {
            Some(s) => Reply::Advance { sim: s },
            None => ise,
        },
        Simulation::SimulateEpoch => match sim {
            Some(s) => Reply::Simulate { sim: s },
            None => ise,
        },
        Simulation::StepStateOne => match (sim, epoch, step) {
            (Some(s), Some(e), Some(t)) => Reply::StepOne { sim: s, epoch: e, step: t },
            (Some(_), Some(_), None) => Reply::Error(Error::NotFound),
            _ => ise,
        },
        _ => match (sim, epoch) {
            (Some(s), Some(e)) => match route {
                Simulation::SpeciesInEpoch => Reply::SpeciesAll { sim: s, epoch: e },
                Simulation::EnvironmentInEpoch => Reply::Environment { sim: s, epoch: e },
                Simulation::StepStateAll => Reply::StepAll { sim: s, epoch: e },
                Simulation::PersistentDataEpoch => Reply::PersistentData { sim: s, epoch: e },
                Simulation::PersistentDataSpecies => Reply::PersistentSpecies { sim: s, epoch: e },
                _ => Reply::Nothing,
            },
            _ => ise,
        },
    }
}

/// Whether a decimal digit.
pub open spec fn is_decimal_digit(c: char) -> bool {
    '0' <= c && c <= '9'
}

/// The number that a string of decimal digits writes.
pub open spec fn decimal_value(s: Seq<char>) -> nat
    decreases s.len(),
{
    if s.len() == 0 {
        0
    } else {
        decimal_value(s.drop_last()) * 10 + ((s.last() as int) - ('0' as int)) as nat
    }
}

/// The digits of a number written with an optional leading `+`.
pub open spec fn unsigned_digits(s: Seq<char>) -> Seq<char> {
    if s.len() > 0 && s[0] == '+' {
        s.drop_first()
    } else {
        s
    }
}

/// Whether every character of `d` is a decimal digit.
pub open spec fn all_decimal_digits(d: Seq<char>) -> bool {
    forall|i: int| 0 <= i < d.len() ==> is_decimal_digit(#[trigger] d[i])
}

/// The `usize` that `s` writes in decimal, after an optional `+`; `None`
/// where `s` is anything else or the number does not fit.
pub open spec fn parse_usize_decimal(s: Seq<char>) -> Option<usize> {
    let digits = unsigned_digits(s);
    if digits.len() > 0 && all_decimal_digits(digits) && decimal_value(digits) <= usize::MAX {
        Some(decimal_value(digits) as usize)
    } else {
        None
    }
}

/// `usize::from_str_radix` in base 10: an optional `+` followed by decimal
/// digits whose number fits a `usize`; anything else is an error.
#[verifier::external_body]
fn usize_from_decimal(s: &str) -> (r: Option<usize>)
    ensures
        r == parse_usize_decimal(s@),
{
    usize::from_str_radix(s, 10).ok()
}

pub struct EndpointHelper;

impl EndpointHelper {
    /// The number that a path variable holds, read in decimal; `None` where
    /// the variable is missing or holds no such number.
    pub fn get_usize_var(variable: Option<&str>) -> (r: Option<usize>)
        ensures
            r == match variable {
                Some(s) => parse_usize_decimal(s@),
                None => None,
            },
    {
        match variable {
            Some(number) => usize_from_decimal(number),
            None => None,
        }
    }

    /// The message sent for an error.
    pub fn error_message(err: Error) -> (r: &'static str)
        ensures
            r@ == error_text(err),
    {
        match err {
            Error::NotFound => "Error Not Found",
            Error::InternalServerError => "Internal Error",
        }
    }
}

impl Management {
    /// What a management endpoint answers.
    pub fn reply(&self) -> (r: &'static str)
        ensures
            r@ == "MGMT PING"@,
    {
        "MGMT PING"
    }
}

impl Simulation {
    /// How a request to this route is served, given the simulation, epoch
    /// and step numbers of its path: a simulation is added exactly for the
    /// route that adds one, and the reply is [`planned_reply`].
    pub fn plan_request(
        &self,
        simulation_num: Option<usize>,
        epoch_num: Option<usize>,
        step_num: Option<usize>,
    ) -> (r: RoutePlan)
        ensures
            r.add_simulation == (*self is AddSimulation),
            r.reply == planned_reply(*self, simulation_num, epoch_num, step_num),
    {
        let mut add_simulation = false;
        // /simulations/
        match self {
            Simulation::SimulationStateAll => {
                return RoutePlan { add_simulation, reply: Reply::ServerSummary };
            },
            Simulation::SimulationStateOne => {
                let reply = match simulation_num {
                    Some(sim) => Reply::SimulationSummary { sim },
                    None => Reply::Error(Error::NotFound),
                };
                return RoutePlan { add_simulation, reply };
            },
            Simulation::AddSimulation => {
                add_simulation = true;
            },
            _ => {},
        }
        let sim = match simulation_num {
            Some(s) => s,
            None => {
                return RoutePlan { add_simulation, reply: Reply::Error(Error::InternalServerError) };
            },
        };
        // /simulations/:simnumber/epochs
        match self {
            Simulation::EpochStateAll => {
                return RoutePlan { add_simulation, reply: Reply::EpochAll { sim } };
            },
            Simulation::EpochStateOne => {
                let reply = match epoch_num {
                    Some(epoch) => Reply::EpochOne { sim, epoch },
                    None => Reply::Error(Error::NotFound),
                };
                return RoutePlan { add_simulation, reply };
            },
            Simulation::AdvanceEpoch => {
                return RoutePlan { add_simulation, reply: Reply::Advance { sim } };
            },
            Simulation::SimulateEpoch => {
                return RoutePlan { add_simulation, reply: Reply::Simulate { sim } };
            },
            _ => {},
        }
        let epoch = match epoch_num {
            Some(e) => e,
            None => {
                return RoutePlan { add_simulation, reply: Reply::Error(Error::InternalServerError) };
            },
        };
        // /simulations/:simnumber/epochs/:epoch/...
        let reply = match self {
            Simulation::SpeciesInEpoch => Reply::SpeciesAll { sim, epoch },
            Simulation::EnvironmentInEpoch => Reply::Environment { sim, epoch },
            Simulation::StepStateAll => Reply::StepAll { sim, epoch },
            Simulation::StepStateOne => match step_num {
                Some(step) => Reply::StepOne { sim, epoch, step },
                None => Reply::Error(Error::NotFound),
            },
            Simulation::PersistentDataEpoch => Reply::PersistentData { sim, epoch },
            Simulation::PersistentDataSpecies => Reply::PersistentSpecies { sim, epoch },
            _ => Reply::Nothing,
        };
        RoutePlan { add_simulation, reply }
    }
}

} // verus!
