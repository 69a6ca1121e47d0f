//! Capability-style stubs for a future performance-analysis layer. They are
//! kept decoupled from the codec and schema core and take no part in the
//! decode pipeline.

use vstd::prelude::*;

verus! {

/// A footprint in tiles.
#[derive(Debug, Clone, Copy, PartialEq, Eq, Structural)]
pub struct Size {
    /// Width in tiles.
    pub w: usize,
    /// Height in tiles.
    pub h: usize,
}

/// An item prototype: name and stack size.
#[derive(Debug, Clone)]
pub struct Item {
    name: String,
    stack_size: usize,
}

impl Item {
    /// The prototype name, for specifications.
    pub closed spec fn spec_name(self) -> Seq<char> {
        self.name@
    }

    /// The stack size, for specifications.
    pub closed spec fn spec_stack_size(self) -> usize {
        self.stack_size
    }

    /// Make an item prototype.
    pub fn new(name: String, stack_size: usize) -> (r: Item)
        ensures
            r.spec_name() == name@ && r.spec_stack_size() == stack_size,
    {
        Item { name, stack_size }
    }

    /// The prototype name.
    pub fn name(&self) -> (r: &String)
        ensures
            r@ == self.spec_name(),
    {
        &self.name
    }

    /// The number of items in a full stack.
    pub fn stack_size(&self) -> (r: usize)
        ensures
            r == self.spec_stack_size(),
    {
        self.stack_size
    }
}

/// A fluid prototype: name and stack size.
#[derive(Debug, Clone)]
pub struct Fluid {
    name: String,
    stack_size: usize,
}

impl Fluid {
    /// The prototype name, for specifications.
    pub closed spec fn spec_name(self) -> Seq<char> {
        self.name@
    }

    /// The stack size, for specifications.
    pub closed spec fn spec_stack_size(self) -> usize {
        self.stack_size
    }

    /// Make a fluid prototype.
    pub fn new(name: String, stack_size: usize) -> (r: Fluid)
        ensures
            r.spec_name() == name@ && r.spec_stack_size() == stack_size,
    {
        Fluid { name, stack_size }
    }

    /// The prototype name.
    pub fn name(&self) -> (r: &String)
        ensures
            r@ == self.spec_name(),
    {
        &self.name
    }

    /// The number of units in a full stack.
    pub fn stack_size(&self) -> (r: usize)
        ensures
            r == self.spec_stack_size(),
    {
        self.stack_size
    }
}

/// Common capability of things a recipe consumes or produces.
pub trait RecipeIO {
    /// The prototype name.
    fn io_name(&self) -> &String;
}

/// Capability of a recipe.
pub trait Recipe {
    /// Whether productivity modules may be used with this recipe.
    fn can_use_productivity(&self) -> bool;
}

} // verus!
