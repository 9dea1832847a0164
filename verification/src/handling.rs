use vstd::prelude::*;

use crate::cache::lru_insert;
use crate::epoch::{empty_epoch, EpochState, EpochView};
use crate::json::{insert_all, named_views, view_as_u64, view_find, view_members_or_empty, Json, JsonView};
use crate::worker::{
    entry_for, epoch_key, has_key, touched_key, ActionView, WorkerThreadActions, WorkerThreadState,
    WorkerView,
};

verus! {

/// Whether the snapshot of each simulated step is kept.
pub const RECORD_FOR_PLAYBACK: bool = true;

/// Whether the persistable data of an evaluated epoch is kept.
pub const RECORD_FOR_DATABASE: bool = true;

/// How a simulated epoch is run, by the simulation's type.
#[derive(Debug, Clone, Copy, PartialEq, Eq)]
pub enum EpochLoopKind {
    CreatureDesign,
    SoloRun,
    CreatureObservation,
    LegacyStyle,
    Unrecognised,
}

/// Where the handling of an action stands.
#[derive(Debug, Clone, Copy, PartialEq, Eq)]
pub enum HandleStage {
    /// Nothing done yet.
    Ready,
    /// Waiting for the simulation to be loaded.
    Building,
    /// Stepping the simulation of the epoch.
    Stepping { epoch_num: usize },
    /// Running the solo-run scenarios of the epoch.
    RunningScenarios { epoch_num: usize },
    /// Waiting for the species of the epoch to be evaluated.
    Evaluating { epoch_num: usize },
    /// Waiting for the simulation to advance to its next epoch.
    Advancing,
    /// The action is handled.
    Done,
}

/// The outside work that the worker is to do next.
#[derive(Debug, Clone, Copy, PartialEq, Eq)]
pub enum WorkerCommand {
    /// Load the simulation from the action's data and report its epoch
    /// number, the static data of its species and its environment.
    BuildSimulation,
    /// Advance the simulation by one step and report its snapshot and
    /// whether the simulation ended.
    TakeStep,
    /// Run the species through the solo-run scenarios.
    RunScenarios,
    /// Evaluate the species and report their evaluation and persistable data.
    EvaluateSpecies,
    /// Load the simulation, advance it to its next epoch and report that
    /// epoch's persistable data.
    AdvanceEpoch,
    /// The action is handled.
    Finish,
    /// The worker cannot go on with this action.
    Abort,
}

/// What the worker reports of the outside work it did.
#[derive(Debug)]
pub enum WorkerEvent {
    Start,
    SimulationBuilt { epoch_num: usize, species: Vec<Json>, environment: Json },
    StepTaken { finished: bool, snapshot: Json },
    ScenariosRun,
    SpeciesEvaluated {
        evaluation: Vec<(String, Json)>,
        persistable_data: Json,
        species_data: Vec<(String, Json)>,
    },
    EpochAdvanced { epoch_num: usize, persistable_data: Json, species_data: Vec<(String, Json)> },
}

pub enum EventView {
    Start,
    SimulationBuilt { epoch_num: usize, species: Seq<JsonView>, environment: JsonView },
    StepTaken { finished: bool, snapshot: JsonView },
    ScenariosRun,
    SpeciesEvaluated {
        evaluation: Seq<(Seq<char>, JsonView)>,
        persistable_data: JsonView,
        species_data: Seq<(Seq<char>, JsonView)>,
    },
    EpochAdvanced {
        epoch_num: usize,
        persistable_data: JsonView,
        species_data: Seq<(Seq<char>, JsonView)>,
    },
}

impl View for WorkerEvent {
    type V = EventView;

    open spec fn view(&self) -> EventView {
        match self {
            WorkerEvent::Start => EventView::Start,
            WorkerEvent::SimulationBuilt { epoch_num, species, environment } => EventView::SimulationBuilt {
                epoch_num: *epoch_num,
                species: crate::json::array_view(species@),
                environment: environment@,
            },
            WorkerEvent::StepTaken { finished, snapshot } => EventView::StepTaken {
                finished: *finished,
                snapshot: snapshot@,
            },
            WorkerEvent::ScenariosRun => EventView::ScenariosRun,
            WorkerEvent::SpeciesEvaluated { evaluation, persistable_data, species_data } => EventView::SpeciesEvaluated {
                evaluation: named_views(evaluation@),
                persistable_data: persistable_data@,
                species_data: named_views(species_data@),
            },
            WorkerEvent::EpochAdvanced { epoch_num, persistable_data, species_data } => EventView::EpochAdvanced {
                epoch_num: *epoch_num,
                persistable_data: persistable_data@,
                species_data: named_views(species_data@),
            },
        }
    }
}

/// How an epoch of a simulation of type `name` is run.
pub open spec fn loop_kind_of(name: Seq<char>) -> EpochLoopKind {
    if name == "Creature Design"@ {
        EpochLoopKind::CreatureDesign
    } else if name == "Solo Run"@ {
        EpochLoopKind::SoloRun
    } else if name == "Creature Observation"@ {
        EpochLoopKind::CreatureObservation
    } else if name == "Legacy Style"@ {
        EpochLoopKind::LegacyStyle
    } else {
        EpochLoopKind::Unrecognised
    }
}

/// The type of the simulation that `data` asks for: its member
/// "SimulationType", "Legacy Style" where there is none; `None` where that
/// member is not a string.
pub open spec fn simulation_type(data: JsonView) -> Option<Seq<char>> {
    match view_find(data, "SimulationType"@) {
        None => Some("Legacy Style"@),
        Some(JsonView::Str(s)) => Some(s),
        Some(_) => None,
    }
}

/// The epoch that `data` names in its member "EpochNum", 0 where it names
/// none.
pub open spec fn requested_epoch(data: JsonView) -> u64 {
    match view_find(data, "EpochNum"@) {
        Some(v) => match view_as_u64(v) {
            Some(n) => n,
            None => 0,
        },
        None => 0,
    }
}

/// The epoch of a freshly loaded simulation: its species and environment.
pub open spec fn static_epoch(epoch_num: usize, species: Seq<JsonView>, environment: JsonView) -> EpochView {
    EpochView {
        species,
        environment: Map::empty().insert("Environment"@, environment),
        ..empty_epoch(epoch_num)
    }
}

/// An epoch once its species are evaluated.
pub open spec fn evaluated_epoch(
    e: EpochView,
    evaluation: Seq<(Seq<char>, JsonView)>,
    persistable_data: JsonView,
    species_data: Seq<(Seq<char>, JsonView)>,
) -> EpochView {
    let evaluated = EpochView {
        evaluated: true,
        evaluation_data: insert_all(e.evaluation_data, evaluation),
        ..e
    };
    if RECORD_FOR_DATABASE {
        EpochView {
            persistable_data: view_members_or_empty(persistable_data),
            persistable_species_data: insert_all(evaluated.persistable_species_data, species_data),
            ..evaluated
        }
    } else {
        evaluated
    }
}

/// The epoch that an advanced simulation reports.
pub open spec fn advanced_epoch(
    epoch_num: usize,
    persistable_data: JsonView,
    species_data: Seq<(Seq<char>, JsonView)>,
) -> EpochView {
    EpochView {
        persistable_data: view_members_or_empty(persistable_data),
        persistable_species_data: insert_all(Map::empty(), species_data),
        ..empty_epoch(epoch_num)
    }
}

/// One step of the handling of `action`: from the cached epochs, the stage
/// and the reported event, the epochs after it, the next stage and the next
/// command.
pub open spec fn handle_step(action: ActionView, w: WorkerView, stage: HandleStage, event: EventView) -> (
    Seq<(u32, EpochView)>,
    HandleStage,
    WorkerCommand,
) {
    match (stage, event) {
        (HandleStage::Ready, EventView::Start) => match action {
            ActionView::Simulate(d) => {
                let k = requested_epoch(d) as u32;
                if d is Object && has_key(w, k) {
                    let refreshed = touched_key(w, k, entry_for(w, k));
                    if entry_for(w, k).evaluated {
                        (refreshed, HandleStage::Done, WorkerCommand::Finish)
                    } else {
                        (refreshed, HandleStage::Building, WorkerCommand::BuildSimulation)
                    }
                } else {
                    (w.epochs, HandleStage::Building, WorkerCommand::BuildSimulation)
                }
            },
            ActionView::Advance(_) => (w.epochs, HandleStage::Advancing, WorkerCommand::AdvanceEpoch),
            ActionView::Exit => (w.epochs, HandleStage::Done, WorkerCommand::Finish),
        },
        (
            HandleStage::Building,
            EventView::SimulationBuilt { epoch_num, species, environment },
        ) => match action {
            ActionView::Simulate(d) => {
                let stored = lru_insert(
                    w.epochs,
                    epoch_key(epoch_num),
                    static_epoch(epoch_num, species, environment),
                    w.capacity,
                );
                match simulation_type(d) {
                    None => (stored, HandleStage::Done, WorkerCommand::Abort),
                    Some(t) => match loop_kind_of(t) {
                        EpochLoopKind::LegacyStyle => (
                            stored,
                            HandleStage::Stepping { epoch_num },
                            WorkerCommand::TakeStep,
                        ),
                        EpochLoopKind::SoloRun => (
                            stored,
                            HandleStage::RunningScenarios { epoch_num },
                            WorkerCommand::RunScenarios,
                        ),
                        _ => (
                            stored,
                            HandleStage::Evaluating { epoch_num },
                            WorkerCommand::EvaluateSpecies,
                        ),
                    },
                }
            },
            _ => (w.epochs, HandleStage::Done, WorkerCommand::Abort),
        },
        (HandleStage::Stepping { epoch_num }, EventView::StepTaken { finished, snapshot }) => {
            let k = epoch_key(epoch_num);
            if RECORD_FOR_PLAYBACK && !has_key(w, k) {
                (w.epochs, HandleStage::Done, WorkerCommand::Abort)
            } else {
                let recorded = if RECORD_FOR_PLAYBACK {
                    touched_key(
                        w,
                        k,
                        EpochView { steps: entry_for(w, k).steps.push(snapshot), ..entry_for(w, k) },
                    )
                } else {
                    w.epochs
                };
                if finished {
                    (recorded, HandleStage::Evaluating { epoch_num }, WorkerCommand::EvaluateSpecies)
                } else {
                    (recorded, HandleStage::Stepping { epoch_num }, WorkerCommand::TakeStep)
                }
            }
        },
        (HandleStage::RunningScenarios { epoch_num }, EventView::ScenariosRun) => (
            w.epochs,
            HandleStage::Evaluating { epoch_num },
            WorkerCommand::EvaluateSpecies,
        ),
        (
            HandleStage::Evaluating { epoch_num },
            EventView::SpeciesEvaluated { evaluation, persistable_data, species_data },
        ) => {
            let k = epoch_key(epoch_num);
            if !has_key(w, k) {
                (w.epochs, HandleStage::Done, WorkerCommand::Abort)
            } else {
                (
                    touched_key(
                        w,
                        k,
                        evaluated_epoch(entry_for(w, k), evaluation, persistable_data, species_data),
                    ),
                    HandleStage::Done,
                    WorkerCommand::Finish,
                )
            }
        },
        (
            HandleStage::Advancing,
            EventView::EpochAdvanced { epoch_num, persistable_data, species_data },
        ) => (
            lru_insert(
                w.epochs,
                epoch_key(epoch_num),
                advanced_epoch(epoch_num, persistable_data, species_data),
                w.capacity,
            ),
            HandleStage::Done,
            WorkerCommand::Finish,
        ),
        _ => (w.epochs, HandleStage::Done, WorkerCommand::Abort),
    }
}

/// A whole handling run: the worker state and stage after the events, in
/// order, each taken by [`handle_step`] as [`WorkerThreadActions::handle`]
/// takes it.
pub open spec fn handle_run(action: ActionView, w: WorkerView, stage: HandleStage, events: Seq<EventView>) -> (
    WorkerView,
    HandleStage,
)
    decreases events.len(),
{
    if events.len() == 0 {
        (w, stage)
    } else {
        let step = handle_step(action, w, stage, events[0]);
        handle_run(action, WorkerView { epochs: step.0, ..w }, step.1, events.drop_first())
    }
}

/// The key of the epoch that a handling run works on: that of the first
/// event that reports a loaded or advanced simulation (0 where there is none).
pub open spec fn run_key(events: Seq<EventView>) -> u32
    decreases events.len(),
{
    if events.len() == 0 {
        0
    } else {
        match events[0] {
            EventView::SimulationBuilt { epoch_num, .. } => epoch_key(epoch_num),
            EventView::EpochAdvanced { epoch_num, .. } => epoch_key(epoch_num),
            _ => run_key(events.drop_first()),
        }
    }
}

/// The key of the epoch that a stage works on, if any.
pub open spec fn stage_key(stage: HandleStage) -> Option<u32> {
    match stage {
        HandleStage::Stepping { epoch_num } => Some(epoch_key(epoch_num)),
        HandleStage::RunningScenarios { epoch_num } => Some(epoch_key(epoch_num)),
        HandleStage::Evaluating { epoch_num } => Some(epoch_key(epoch_num)),
        _ => None,
    }
}

/// How an epoch of a simulation of type `name` is run.
pub fn epoch_loop_kind(name: &String) -> (r: EpochLoopKind)
    ensures
        r == loop_kind_of(name@),
{
    if *name == "Creature Design".to_owned() {
        EpochLoopKind::CreatureDesign
    } else if *name == "Solo Run".to_owned() {
        EpochLoopKind::SoloRun
    } else if *name == "Creature Observation".to_owned() {
        EpochLoopKind::CreatureObservation
    } else if *name == "Legacy Style".to_owned() {
        EpochLoopKind::LegacyStyle
    } else {
        EpochLoopKind::Unrecognised
    }
}

/// The type of the simulation that `data` asks for; `None` where its member
/// "SimulationType" is not a string.
pub fn simulation_type_of(data: &Json) -> (r: Option<String>)
    ensures
        match r {
            Some(s) => simulation_type(data@) == Some(s@),
            None => simulation_type(data@) is None,
        },
{
    match data.find(&"SimulationType".to_owned()) {
        None => Some("Legacy Style".to_owned()),
        Some(t) => match t.as_string() {
            Some(s) => Some(s.clone()),
            None => None,
        },
    }
}

/// The epoch that `data` names in its member "EpochNum", 0 where it names none.
pub fn requested_epoch_of(data: &Json) -> (r: u64)
    ensures
        r == requested_epoch(data@),
{
    match data.find(&"EpochNum".to_owned()) {
        Some(v) => match v.as_u64() {
            Some(n) => n,
            None => 0,
        },
        None => 0,
    }
}

impl WorkerThreadActions {
    /// Whether this action ends the worker.
    pub fn is_exit(&self) -> (r: bool)
        ensures
            r == (self@ is Exit),
    {
        match self {
            WorkerThreadActions::Exit => true,
            _ => false,
        }
    }

    /// One step of the handling of this action on the worker state `ws`: the
    /// worker reports `event` for the outside work it did at `stage`, and is
    /// told the next stage and what to do next, as [`handle_step`] says.
    pub fn handle(&self, ws: &mut WorkerThreadState, stage: HandleStage, event: WorkerEvent) -> (r: (
        HandleStage,
        WorkerCommand,
    ))
        requires
            old(ws).wf(),
        ensures
            final(ws).wf(),
            final(ws)@ == (WorkerView {
                epochs: handle_step(self@, old(ws)@, stage, event@).0,
                ..old(ws)@
            }),
            r.0 == handle_step(self@, old(ws)@, stage, event@).1,
            r.1 == handle_step(self@, old(ws)@, stage, event@).2,
    {
        match (stage, event) {
            (HandleStage::Ready, WorkerEvent::Start) => match self {
                WorkerThreadActions::Simulate { simulation_data } => {
                    if let Json::Object(_) = simulation_data {
                        let epoch_num = requested_epoch_of(simulation_data);
                        match ws.epoch_mut_by_key(epoch_num as u32) {
                            Some(epoch_state) => {
                                if epoch_state.is_evaluated() {
                                    return (HandleStage::Done, WorkerCommand::Finish);
                                }
                            },
                            None => {},
                        }
                    }
                    (HandleStage::Building, WorkerCommand::BuildSimulation)
                },
                WorkerThreadActions::Advance { .. } => (HandleStage::Advancing, WorkerCommand::AdvanceEpoch),
                WorkerThreadActions::Exit => (HandleStage::Done, WorkerCommand::Finish),
            },
            (HandleStage::Building, WorkerEvent::SimulationBuilt { epoch_num, species, environment }) => {
                match self {
                    WorkerThreadActions::Simulate { simulation_data } => {
                        let epoch_state = EpochState::with_static_data(epoch_num, species, environment);
                        ws.store_epoch(epoch_num, epoch_state);
                        match simulation_type_of(simulation_data) {
                            None => (HandleStage::Done, WorkerCommand::Abort),
                            Some(t) => match epoch_loop_kind(&t) {
                                EpochLoopKind::LegacyStyle => (HandleStage::Stepping { epoch_num }, WorkerCommand::TakeStep),
                                EpochLoopKind::SoloRun => (HandleStage::RunningScenarios { epoch_num }, WorkerCommand::RunScenarios),
                                _ => (HandleStage::Evaluating { epoch_num }, WorkerCommand::EvaluateSpecies),
                            },
                        }
                    },
                    _ => (HandleStage::Done, WorkerCommand::Abort),
                }
            },
            (HandleStage::Stepping { epoch_num }, WorkerEvent::StepTaken { finished, snapshot }) => {
                if RECORD_FOR_PLAYBACK {
                    match ws.epoch_mut_by_key(epoch_num as u32) {
                        Some(epoch_state) => epoch_state.push_step(snapshot),
                        None => return (HandleStage::Done, WorkerCommand::Abort),
                    }
                }
                if finished {
                    (HandleStage::Evaluating { epoch_num }, WorkerCommand::EvaluateSpecies)
                } else {
                    (HandleStage::Stepping { epoch_num }, WorkerCommand::TakeStep)
                }
            },
            (HandleStage::RunningScenarios { epoch_num }, WorkerEvent::ScenariosRun) => (
                HandleStage::Evaluating { epoch_num },
                WorkerCommand::EvaluateSpecies,
            ),
            (
                HandleStage::Evaluating { epoch_num },
                WorkerEvent::SpeciesEvaluated { evaluation, persistable_data, species_data },
            ) => {
                match ws.epoch_mut_by_key(epoch_num as u32) {
                    Some(epoch_state) => {
                        epoch_state.record_evaluation(&evaluation);
                        if RECORD_FOR_DATABASE {
                            epoch_state.set_persistable_data(persistable_data);
                            epoch_state.add_persistable_species_data(&species_data);
                        }
                        (HandleStage::Done, WorkerCommand::Finish)
                    },
                    None => (HandleStage::Done, WorkerCommand::Abort),
                }
            },
            (
                HandleStage::Advancing,
                WorkerEvent::EpochAdvanced { epoch_num, persistable_data, species_data },
            ) => {
                let epoch_state = EpochState::with_persistable_data(
                    epoch_num,
                    persistable_data,
                    &species_data,
                );
                ws.store_epoch(epoch_num, epoch_state);
                (HandleStage::Done, WorkerCommand::Finish)
            },
            _ => (HandleStage::Done, WorkerCommand::Abort),
        }
    }
}

} // verus!
