//! Classes of the running machine.

use crate::vmobjects::{SObject, Sendable};
use std::rc::Rc;
use vstd::hash_map::StringHashMap;
use vstd::prelude::*;

verus! {

pub struct SClass {
    pub superclass: Option<Rc<SObject>>,
    pub name: String,
    pub invokables: StringHashMap<Box<dyn Sendable>>,
}

} // verus!
