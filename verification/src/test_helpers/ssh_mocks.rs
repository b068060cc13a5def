//! A deterministic fleet double: it records every call it receives and
//! answers from scripted outcomes, so scheduling runs can be replayed
//! and inspected without any remote channel.

use vstd::prelude::*;
use crate::scheduler::Fleet;

verus! {

/// A scripted fleet. `known_nodes` are the nodes it holds a channel
/// for; `apply_outcomes` and `remove_outcomes` are consumed front to
/// back, one per call, with success and empty output once they run
/// out. Every call is recorded in order.
pub struct MockSshManager {
    pub known_nodes: Vec<String>,
    pub apply_outcomes: Vec<Result<(String, String), String>>,
    pub remove_outcomes: Vec<Result<(), String>>,
    pub find_calls: Vec<String>,
    pub apply_calls: Vec<(String, String)>,
    pub remove_calls: Vec<(String, String, String)>,
}

impl MockSshManager {
    /// A fleet double that knows the given nodes and answers every
    /// call with success and empty output.
    pub fn new(known_nodes: Vec<String>) -> (r: Self)
        ensures
            r.known_nodes == known_nodes,
            r.apply_outcomes@.len() == 0,
            r.remove_outcomes@.len() == 0,
            r.find_calls@.len() == 0,
            r.apply_calls@.len() == 0,
            r.remove_calls@.len() == 0,
    {
        MockSshManager {
            known_nodes,
            apply_outcomes: Vec::new(),
            remove_outcomes: Vec::new(),
            find_calls: Vec::new(),
            apply_calls: Vec::new(),
            remove_calls: Vec::new(),
        }
    }
}

impl Fleet for MockSshManager {
    fn find(&mut self, node_name: &String) -> bool {
        self.find_calls.push(node_name.clone());
        let mut i: usize = 0;
        while i < self.known_nodes.len()
            invariant
                i <= self.known_nodes@.len(),
            decreases self.known_nodes@.len() - i,
        {
            if self.known_nodes[i] == *node_name {
                return true;
            }
            i = i + 1;
        }
        false
    }

    fn apply_resource(&mut self, node_name: &String, manifest: &String) -> Result<
        (String, String),
        String,
    > {
        self.apply_calls.push((node_name.clone(), manifest.clone()));
        if self.apply_outcomes.len() > 0 {
            self.apply_outcomes.remove(0)
        } else {
            Ok((String::new(), String::new()))
        }
    }

    fn remove_resource(&mut self, node_name: &String, name: &String, namespace: &String) -> Result<
        (),
        String,
    > {
        self.remove_calls.push((node_name.clone(), name.clone(), namespace.clone()));
        if self.remove_outcomes.len() > 0 {
            self.remove_outcomes.remove(0)
        } else {
            Ok(())
        }
    }
}

} // verus!
