use vstd::prelude::*;

use crate::structure::GValue;

verus! {

/// One step of a traversal: an operator name and its arguments.
#[derive(Debug, PartialEq, Eq)]
pub struct Instruction {
    pub operator: String,
    pub args: Vec<GValue>,
}

/// The ordered steps of a traversal; steps are only ever appended.
#[derive(Debug, PartialEq, Eq)]
pub struct Bytecode {
    pub steps: Vec<Instruction>,
}

impl View for Bytecode {
    type V = Seq<Instruction>;

    open spec fn view(&self) -> Seq<Instruction> {
        self.steps@
    }
}

impl Bytecode {
    /// Bytecode without steps.
    pub fn new() -> (r: Bytecode)
        ensures
            r@ == Seq::<Instruction>::empty(),
    {
        Bytecode { steps: Vec::new() }
    }

    /// Appends the step `operator(args)`; the earlier steps stay as they were.
    pub fn add_step(&mut self, operator: String, args: Vec<GValue>)
        ensures
            final(self)@ == old(self)@.push(Instruction { operator, args }),
            final(self)@.last() == (Instruction { operator, args }),
            forall|i: int| 0 <= i < old(self)@.len() ==> final(self)@[i] == old(self)@[i],
    {
        self.steps.push(Instruction { operator, args });
    }

    /// The steps, in the order they were added.
    pub fn steps(&self) -> (r: &[Instruction])
        ensures
            r@ == self@,
    {
        self.steps.as_slice()
    }
}

} // verus!
