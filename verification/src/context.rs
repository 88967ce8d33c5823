//! The register state saved when a thread traps into the kernel.

use vstd::prelude::*;

verus! {

/// Previous-privilege bit of `sstatus`: set when the trap came from
/// supervisor mode, clear when it came from user mode.
pub const SSTATUS_SPP: u64 = 1 << 8;

/// Previous-interrupt-enable bit of `sstatus`.
pub const SSTATUS_SPIE: u64 = 1 << 5;

/// Index of the stack pointer among the general registers.
pub const REG_SP: usize = 2;
/// Index of the return address among the general registers.
pub const REG_RA: usize = 1;
/// Index of the first argument register, which also carries return values.
pub const REG_A0: usize = 10;
/// Index of the register that carries the system call number.
pub const REG_A7: usize = 17;

/// The arguments given to a new thread: none when there are none.
pub open spec fn arguments_of(arguments: Option<&[u64]>) -> Seq<u64> {
    match arguments {
        Some(a) => a@,
        None => Seq::empty(),
    }
}

/// `c` is the context a new thread starts from: its stack top in sp, its
/// arguments in a0.., every other register zero, its entry point in
/// `sepc`, and `sstatus` (the value it was created under) with the previous
/// privilege set to user or supervisor and interrupts enabled on return.
pub open spec fn is_initial_context(
    c: Context,
    stack_top: u64,
    entry_point: u64,
    arguments: Seq<u64>,
    is_user: bool,
    sstatus: u64,
) -> bool {
    &&& c.x@[REG_SP as int] == stack_top
    &&& forall|i: int| 0 <= i < 32 && i != REG_SP ==> #[trigger] c.x@[i]
        == if REG_A0 <= i < REG_A0 + arguments.len() { arguments[i - REG_A0] } else { 0 }
    &&& c.sepc == entry_point
    &&& c.sstatus == if is_user { (sstatus & !SSTATUS_SPP) | SSTATUS_SPIE } else { (sstatus | SSTATUS_SPP) | SSTATUS_SPIE }
}

/// A trap context: the 32 general registers, `sstatus` and `sepc`.
#[derive(Clone, Copy, Debug)]
pub struct Context {
    pub x: [u64; 32],
    pub sstatus: u64,
    pub sepc: u64,
}

impl Context {
    /// All registers zero.
    pub fn default() -> (c: Self)
        ensures
            forall|i: int| 0 <= i < 32 ==> #[trigger] c.x@[i] == 0,
            c.sstatus == 0,
            c.sepc == 0,
    {
        Context { x: [0u64; 32], sstatus: 0, sepc: 0 }
    }

    /// The stack pointer.
    pub fn sp(&self) -> (r: u64)
        ensures
            r == self.x@[REG_SP as int],
    {
        self.x[REG_SP]
    }

    /// Sets the stack pointer; every other register stays.
    pub fn set_sp(&mut self, sp: u64)
        ensures
            final(self).x@ == old(self).x@.update(REG_SP as int, sp),
            final(self).sstatus == old(self).sstatus,
            final(self).sepc == old(self).sepc,
    {
        self.x[REG_SP] = sp;
    }

    /// The return address.
    pub fn ra(&self) -> (r: u64)
        ensures
            r == self.x@[REG_RA as int],
    {
        self.x[REG_RA]
    }

    /// Sets the return address; every other register stays.
    pub fn set_ra(&mut self, ra: u64)
        ensures
            final(self).x@ == old(self).x@.update(REG_RA as int, ra),
            final(self).sstatus == old(self).sstatus,
            final(self).sepc == old(self).sepc,
    {
        self.x[REG_RA] = ra;
    }

    /// Puts `arguments`, at most eight, in the argument registers a0, a1, ...
    pub fn set_arguments(&mut self, arguments: &[u64])
        requires
            arguments@.len() <= 8,
        ensures
            forall|i: int| 0 <= i < 32 ==> #[trigger] final(self).x@[i]
                == if REG_A0 <= i < REG_A0 + arguments@.len() { arguments@[i - REG_A0] } else { old(self).x@[i] },
            final(self).sstatus == old(self).sstatus,
            final(self).sepc == old(self).sepc,
    {
        let mut i: usize = 0;
        while i < arguments.len()
            invariant
                i <= arguments@.len() <= 8,
                forall|j: int| 0 <= j < 32 ==> #[trigger] self.x@[j]
                    == if REG_A0 <= j < REG_A0 + i { arguments@[j - REG_A0] } else { old(self).x@[j] },
                self.sstatus == old(self).sstatus,
                self.sepc == old(self).sepc,
            decreases arguments@.len() - i,
        {
            self.x[REG_A0 + i] = arguments[i];
            i = i + 1;
        }
    }

    /// The context a new thread starts from: its stack top in sp, its
    /// arguments in a0.., its entry point in sepc, and `sstatus` (the current
    /// value is passed in) with the previous privilege set to user or
    /// supervisor and interrupts enabled on return.
    pub fn thread_init_context(
        stack_top: u64,
        entry_point: u64,
        arguments: Option<&[u64]>,
        is_user: bool,
        sstatus: u64,
    ) -> (c: Self)
        requires
            arguments is Some ==> arguments.unwrap()@.len() <= 8,
        ensures
            is_initial_context(c, stack_top, entry_point, arguments_of(arguments), is_user, sstatus),
    {
        let mut context = Self::default();
        context.set_sp(stack_top);
        if let Some(args) = arguments {
            context.set_arguments(args);
        }
        context.sepc = entry_point;
        context.sstatus = sstatus;
        if is_user {
            context.sstatus = context.sstatus & !SSTATUS_SPP;
        } else {
            context.sstatus = context.sstatus | SSTATUS_SPP;
        }
        context.sstatus = context.sstatus | SSTATUS_SPIE;
        context
    }
}

} // verus!
