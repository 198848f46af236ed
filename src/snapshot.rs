//! The machine state captured when the device halted.
use vstd::prelude::*;

verus! {

/// The upper half of a saved register window: it holds the return-address
/// register `a11` and the trap-id register `d15`.
#[derive(Debug, Clone, Copy, PartialEq, Eq, Structural)]
pub struct UpperContext {
    pub a11: u32,
    pub d15: u32,
}

/// The lower half of a saved register window; it carries no trap id.
#[derive(Debug, Clone, Copy, PartialEq, Eq, Structural)]
pub struct LowerContext {
    pub a11: u32,
}

/// A saved register-window half, as found in the chain of saved contexts.
#[derive(Debug, Clone, Copy, PartialEq, Eq, Structural)]
pub enum SavedContext {
    Upper(UpperContext),
    Lower(LowerContext),
}

impl SavedContext {
    pub open spec fn spec_return_address(&self) -> u32 {
        match self {
            SavedContext::Upper(u) => u.a11,
            SavedContext::Lower(l) => l.a11,
        }
    }

    /// The return address held by this saved context.
    pub fn return_address(&self) -> (r: u32)
        ensures
            r == self.spec_return_address(),
    {
        match self {
            SavedContext::Upper(u) => u.a11,
            SavedContext::Lower(l) => l.a11,
        }
    }
}

/// A captured machine state: the current program counter, the current
/// upper register window and the saved contexts in the order captured.
#[derive(Debug)]
pub struct Stacktrace {
    pub current_pc: u32,
    pub current_upper: UpperContext,
    pub stack_frames: Vec<SavedContext>,
}

impl Stacktrace {
    /// Every address that a reconstruction resolves: the return address of
    /// each saved context in order, then the current program counter, then
    /// the current link register.
    pub open spec fn spec_required_addresses(&self) -> Seq<u32> {
        self.stack_frames@.map_values(|c: SavedContext| c.spec_return_address()) + seq![
            self.current_pc,
            self.current_upper.a11,
        ]
    }

    /// The addresses to hand to the decoder in one batch before a
    /// reconstruction.
    pub fn required_addresses(&self) -> (r: Vec<u32>)
        ensures
            r@ == self.spec_required_addresses(),
    {
        let mut r: Vec<u32> = Vec::new();
        let n = self.stack_frames.len();
        let mut i: usize = 0;
        while i < n
            invariant
                n == self.stack_frames@.len(),
                0 <= i <= n,
                r@ == self.stack_frames@.subrange(0, i as int).map_values(
                    |c: SavedContext| c.spec_return_address(),
                ),
            decreases n - i,
        {
            r.push(self.stack_frames[i].return_address());
            assert(self.stack_frames@.subrange(0, i + 1) =~= self.stack_frames@.subrange(
                0,
                i as int,
            ).push(self.stack_frames@[i as int]));
            i = i + 1;
        }
        assert(self.stack_frames@.subrange(0, n as int) =~= self.stack_frames@);
        r.push(self.current_pc);
        r.push(self.current_upper.a11);
        assert(r@ =~= self.spec_required_addresses());
        r
    }
}

} // verus!
