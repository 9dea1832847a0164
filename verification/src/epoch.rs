use vstd::prelude::*;

use crate::json::{
    array_copy, array_view, insert_all, lemma_array_view, members_copy, members_view,
    named_views, new_members, object_insert, object_insert_all, view_members_or_empty, Json, JsonView,
};

verus! {

/// What the server keeps of one epoch of a simulation.
pub struct EpochState {
    epoch_num: usize,
    evaluated: bool,
    pub steps: Vec<Json>,
    pub species: Vec<Json>,
    pub environment: Vec<(String, Json)>,
    pub evaluation_data: Vec<(String, Json)>,
    pub persistable_data: Vec<(String, Json)>,
    pub persistable_species_data: Vec<(String, Json)>,
}

/// The value of an [`EpochState`]: snapshots and species in recording order,
/// the JSON objects as maps.
pub struct EpochView {
    pub epoch_num: usize,
    pub evaluated: bool,
    pub steps: Seq<JsonView>,
    pub species: Seq<JsonView>,
    pub environment: Map<Seq<char>, JsonView>,
    pub evaluation_data: Map<Seq<char>, JsonView>,
    pub persistable_data: Map<Seq<char>, JsonView>,
    pub persistable_species_data: Map<Seq<char>, JsonView>,
}

impl View for EpochState {
    type V = EpochView;

    closed spec fn view(&self) -> EpochView {
        EpochView {
            epoch_num: self.epoch_num,
            evaluated: self.evaluated,
            steps: array_view(self.steps@),
            species: array_view(self.species@),
            environment: members_view(self.environment@),
            evaluation_data: members_view(self.evaluation_data@),
            persistable_data: members_view(self.persistable_data@),
            persistable_species_data: members_view(self.persistable_species_data@),
        }
    }
}

/// A fresh epoch: nothing recorded and not evaluated.
pub open spec fn empty_epoch(i: usize) -> EpochView {
    EpochView {
        epoch_num: i,
        evaluated: false,
        steps: Seq::empty(),
        species: Seq::empty(),
        environment: Map::empty(),
        evaluation_data: Map::empty(),
        persistable_data: Map::empty(),
        persistable_species_data: Map::empty(),
    }
}

/// The summary that the server gives of an epoch: its number, how many steps
/// were recorded, whether it was evaluated, and the evaluation data where it
/// was.
pub open spec fn epoch_summary(e: EpochView) -> JsonView {
    let base = Map::<Seq<char>, JsonView>::empty().insert(
        "Epoch"@,
        JsonView::U64(e.epoch_num as u64),
    ).insert("Steps"@, JsonView::U64(e.steps.len() as u64)).insert(
        "Evaluated"@,
        JsonView::Boolean(e.evaluated),
    );
    if e.evaluated {
        JsonView::Object(base.insert("EvaluationData"@, JsonView::Object(e.evaluation_data)))
    } else {
        JsonView::Object(base)
    }
}

impl EpochState {
    /// A fresh epoch numbered `i`.
    pub fn new(i: usize) -> (r: EpochState)
        ensures
            r@ == empty_epoch(i),
    {
        let r = EpochState {
            epoch_num: i,
            steps: Vec::new(),
            species: Vec::new(),
            evaluated: false,
            evaluation_data: Vec::new(),
            environment: Vec::new(),
            persistable_data: Vec::new(),
            persistable_species_data: Vec::new(),
        };
        proof {
            assert(array_view(r.steps@) =~= Seq::<JsonView>::empty());
            assert(array_view(r.species@) =~= Seq::<JsonView>::empty());
            assert(members_view(r.environment@) =~= Map::<Seq<char>, JsonView>::empty());
        }
        r
    }

    /// The epoch's summary document.
    pub fn serialize(&self) -> (r: Json)
        ensures
            r@ == epoch_summary(self@),
    {
        proof {
            lemma_array_view(self.steps@);
        }
        let mut json_obj = new_members();
        object_insert(&mut json_obj, "Epoch".to_owned(), Json::U64(self.epoch_num as u64));
        object_insert(&mut json_obj, "Steps".to_owned(), Json::U64(self.steps.len() as u64));
        object_insert(&mut json_obj, "Evaluated".to_owned(), Json::Boolean(self.evaluated));
        if self.evaluated {
            object_insert(
                &mut json_obj,
                "EvaluationData".to_owned(),
                Json::Object(members_copy(&self.evaluation_data)),
            );
        }
        Json::Object(json_obj)
    }

    /// A copy of the recorded species.
    pub fn species_copy(&self) -> (r: Vec<Json>)
        ensures
            array_view(r@) == self@.species,
    {
        array_copy(&self.species)
    }

    /// A copy of the recorded step snapshots, in recording order.
    pub fn steps_copy(&self) -> (r: Vec<Json>)
        ensures
            array_view(r@) == self@.steps,
    {
        array_copy(&self.steps)
    }

    /// A copy of the snapshot of step `s`.
    pub fn step_copy(&self, s: usize) -> (r: Json)
        requires
            s < self@.steps.len(),
        ensures
            r@ == self@.steps[s as int],
    {
        proof {
            lemma_array_view(self.steps@);
        }
        self.steps[s].deep_copy()
    }

    /// A copy of the environment document.
    pub fn environment_copy(&self) -> (r: Vec<(String, Json)>)
        ensures
            members_view(r@) == self@.environment,
    {
        members_copy(&self.environment)
    }

    /// A copy of the epoch's persistable data.
    pub fn persistable_data_copy(&self) -> (r: Vec<(String, Json)>)
        ensures
            members_view(r@) == self@.persistable_data,
    {
        members_copy(&self.persistable_data)
    }

    /// A copy of the persistable data of each species.
    pub fn persistable_species_data_copy(&self) -> (r: Vec<(String, Json)>)
        ensures
            members_view(r@) == self@.persistable_species_data,
    {
        members_copy(&self.persistable_species_data)
    }

    /// The number of recorded steps.
    pub fn steps_len(&self) -> (r: usize)
        ensures
            r == self@.steps.len(),
    {
        proof {
            lemma_array_view(self.steps@);
        }
        self.steps.len()
    }

    /// Whether the epoch was evaluated.
    pub fn is_evaluated(&self) -> (r: bool)
        ensures
            r == self@.evaluated,
    {
        self.evaluated
    }

    /// A fresh epoch numbered `i` holding the static data of its simulation:
    /// the species, and the environment as `{"Environment": environment}`.
    pub fn with_static_data(i: usize, species: Vec<Json>, environment: Json) -> (r: EpochState)
        ensures
            r@ == (EpochView {
                species: array_view(species@),
                environment: Map::empty().insert("Environment"@, environment@),
                ..empty_epoch(i)
            }),
    {
        let mut r = EpochState::new(i);
        r.species = species;
        let mut env_obj = new_members();
        object_insert(&mut env_obj, "Environment".to_owned(), environment);
        r.environment = env_obj;
        r
    }

    /// A fresh epoch numbered `i` holding its persistable data: that of the
    /// epoch (the members of `data`, none where it is no object) and that of
    /// each named species.
    pub fn with_persistable_data(i: usize, data: Json, species_data: &Vec<(String, Json)>) -> (r:
        EpochState)
        ensures
            r@ == (EpochView {
                persistable_data: view_members_or_empty(data@),
                persistable_species_data: insert_all(Map::empty(), named_views(species_data@)),
                ..empty_epoch(i)
            }),
    {
        let mut r = EpochState::new(i);
        r.set_persistable_data(data);
        r.add_persistable_species_data(species_data);
        r
    }

    /// Replaces the epoch's persistable data by the members of `data`, or by
    /// nothing where `data` is no object.
    pub fn set_persistable_data(&mut self, data: Json)
        ensures
            final(self)@ == (EpochView { persistable_data: view_members_or_empty(data@), ..old(self)@ }),
    {
        self.persistable_data = match data {
            Json::Object(d) => d,
            _ => new_members(),
        };
    }

    /// Sets the persistable data of each named species.
    pub fn add_persistable_species_data(&mut self, species_data: &Vec<(String, Json)>)
        ensures
            final(self)@ == (EpochView {
                persistable_species_data: insert_all(
                    old(self)@.persistable_species_data,
                    named_views(species_data@),
                ),
                ..old(self)@
            }),
    {
        object_insert_all(&mut self.persistable_species_data, species_data);
    }

    /// Marks the epoch evaluated and sets the evaluation data of each named
    /// species.
    pub fn record_evaluation(&mut self, evaluation: &Vec<(String, Json)>)
        ensures
            final(self)@ == (EpochView {
                evaluated: true,
                evaluation_data: insert_all(old(self)@.evaluation_data, named_views(evaluation@)),
                ..old(self)@
            }),
    {
        self.evaluated = true;
        object_insert_all(&mut self.evaluation_data, evaluation);
    }

    /// Appends the snapshot of a step.
    pub fn push_step(&mut self, snapshot: Json)
        ensures
            final(self)@ == (EpochView { steps: old(self)@.steps.push(snapshot@), ..old(self)@ }),
    {
        proof {
            assert(self.steps@.push(snapshot).drop_last() =~= self.steps@);
        }
        self.steps.push(snapshot);
    }
}

} // verus!
