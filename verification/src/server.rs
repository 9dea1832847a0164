use vstd::prelude::*;

use crate::json::{new_members, object_insert, single_member, Json, JsonView};

verus! {

/// The server's registry of simulations, in the order they were added.
pub struct ServerState<S> {
    simulations: Vec<S>,
}

impl<S> View for ServerState<S> {
    type V = Seq<S>;

    closed spec fn view(&self) -> Seq<S> {
        self.simulations@
    }
}

impl<S> ServerState<S> {
    /// A server with no simulation.
    pub fn new() -> (r: ServerState<S>)
        ensures
            r@ == Seq::<S>::empty(),
    {
        ServerState { simulations: Vec::new() }
    }

    /// Registers a simulation after those already there.
    pub fn add_simulation(&mut self, simulation: S)
        ensures
            final(self)@ == old(self)@.push(simulation),
    {
        self.simulations.push(simulation);
    }

    /// How many simulations there are.
    pub fn num_simulations(&self) -> (r: usize)
        ensures
            r == self@.len(),
    {
        self.simulations.len()
    }

    /// Simulation `i`, where there is one.
    pub fn simulation(&self, i: usize) -> (r: Option<&S>)
        ensures
            i < self@.len() ==> r == Some(&self@[i as int]),
            i >= self@.len() ==> r is None,
    {
        if i < self.simulations.len() {
            Some(&self.simulations[i])
        } else {
            None
        }
    }

    /// The server's summary: `{"NumSimulations": n}`.
    pub fn serialize(&self) -> (r: Json)
        ensures
            r@ == single_member("NumSimulations"@, JsonView::U64(self@.len() as u64)),
    {
        let mut json_obj = new_members();
        object_insert(
            &mut json_obj,
            "NumSimulations".to_owned(),
            Json::U64(self.simulations.len() as u64),
        );
        Json::Object(json_obj)
    }
}

} // verus!
