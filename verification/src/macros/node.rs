//! Planning of the `node` attribute: the names of the generated node functions.
use vstd::prelude::*;
use vstd::string::*;

verus! {

/// A method of a node impl and the name of the function generated for it.
#[derive(Clone, Debug, PartialEq, Eq)]
pub struct NodeFunction {
    pub name: String,
    pub node_ident: String,
}

impl NodeFunction {
    /// Names the node function of method `name`: `__node_<name>`. Node
    /// methods must take `&mut self` first; any other method is refused (the
    /// attribute panics).
    pub fn new(name: &String, takes_mut_self: bool) -> (f: NodeFunction)
        requires
            takes_mut_self,
        ensures
            f.name == *name,
            f.node_ident@ == "__node_"@ + name@,
    {
        let node_ident = "__node_".to_owned().concat(name.as_str());
        NodeFunction { name: name.clone(), node_ident }
    }
}

} // verus!
