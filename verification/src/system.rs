//! The assembled console: one interpreter built around one loaded program.

use vstd::prelude::*;
use crate::Chip8Error;
use crate::StepNote;
use crate::cpu::Cpu;
use crate::semantics::MachineState;
use crate::semantics::spec_init;
use crate::semantics::spec_load;
use crate::semantics::step_post;

verus! {

/// A machine with a program already in memory. Its view is the same ghost
/// `MachineState` as the interpreter's.
pub struct System {
    cpu: Cpu,
}

impl View for System {
    type V = MachineState;

    closed spec fn view(&self) -> MachineState {
        self.cpu@
    }
}

impl System {
    pub open spec fn wf(&self) -> bool {
        self@.inv()
    }

    /// A freshly initialized machine with `game` copied in at 0x200; a
    /// program longer than the space from 0x200 on is rejected whole.
    pub fn new(game: &Vec<u8>) -> (r: Result<System, Chip8Error>)
        ensures
            game@.len() <= 4096 - 0x200 ==> (r matches Ok(s) && s.wf() && s@ == spec_load(
                spec_init(),
                game@,
            )),
            game@.len() > 4096 - 0x200 ==> r == Err::<System, Chip8Error>(
                Chip8Error::ProgramTooLarge,
            ),
    {
        let mut cpu = Cpu::new();
        match cpu.load_game(game) {
            Ok(()) => Ok(System { cpu }),
            Err(e) => Err(e),
        }
    }

    /// One fetch-decode-execute cycle of the loaded machine.
    pub fn cycle(&mut self) -> (r: Result<StepNote, Chip8Error>)
        requires
            old(self).wf(),
        ensures
            final(self).wf(),
            exists|rnd: u8| #[trigger] step_post(old(self)@, final(self)@, r, rnd),
    {
        let ghost pre = self@;
        let r = self.cpu.step();
        proof {
            let rnd = choose|rnd: u8| step_post(pre, self.cpu@, r, rnd);
            assert(step_post(pre, self@, r, rnd));
        }
        r
    }

    /// The machine inside, for inspection.
    pub fn machine(&self) -> (r: &Cpu)
        ensures
            r@ == self@,
    {
        &self.cpu
    }
}

} // verus!
