//! Instances of classes.

use crate::vmobjects::{SClass, Sendable};
use std::rc::Rc;
use vstd::prelude::*;

verus! {

pub struct SObject {
    class: Rc<SClass>,
    fields: Vec<Box<dyn Sendable>>,
}

} // verus!
