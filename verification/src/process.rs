//! Processes: id, address space, run stacks and exit state.

use vstd::prelude::*;
use crate::address::{Range, VirtualAddress, PAGE_SIZE};
use crate::frame::{FrameAllocator, MemoryResult};
use crate::mapping::{lemma_mapped_page_present, lemma_same_slot_translate, distinct_slots, frames_needed, kernel_address_of, lemma_near_slots_distinct, page_count, same_slot, Mapping, MemoryWrite};
use crate::memory_set::{kernel_frames_needed, kernel_segments, program_fits, program_written, segment_list, lemma_page_index_bounds, page_written, pages_written, total_pages, view_segments, KernelLayout, MemorySet};
use crate::page_table_entry::{Flags, PageTableEntry, FLAG_R, FLAG_U, FLAG_W};
use crate::pid::PidAllocator;
use crate::context::{Context, REG_A0, REG_SP};
use crate::syscall::{
    law_wait_reaps_exited_child, load_entry_point, sys_exec, wait_answer_spec, wait_outcome, ChildStatus, SyscallResult, WaitAction,
};
use crate::segment::{end_page, first_page, MapType, Segment};
use crate::thread_pool::{Condvar, ThreadID, ThreadPool};
use crate::elf::{elf_header_valid, entry_reading, loadable, loaded, ph_count_reading, program_segment, segments_view};

verus! {

/// Size of a thread's run stack: 32 KiB.
pub const STACK_SIZE: u64 = 0x8000;

/// Size of a processor's trap stack: 32 KiB.
pub const TRAP_STACK_SIZE: u64 = 0x8000;

/// Where a user process's first run stack ends.
pub const USER_STACK_TOP: u64 = 0x0C00_0000;

/// The flag that makes a page accessible from user mode, for a user process.
pub fn user_flag(is_user: bool) -> (f: Flags)
    ensures
        f.bits == if is_user { FLAG_U } else { 0 },
{
    if is_user { Flags::u() } else { Flags::empty() }
}

/// `pid` is the id that `allocate` hands out on `before`, leaving `after`:
/// one not in use before and in use after.
pub open spec fn new_id(before: PidAllocator, after: PidAllocator, pid: u64) -> bool {
    &&& before.free().len() > 0 ==> pid == before.free().last() && after.free() == before.free().drop_last()
    &&& before.free().len() == 0 ==> pid == before.max() + 1 && after.max() == before.max() + 1
    &&& !before.in_use().contains(pid as usize)
    &&& pid <= usize::MAX
}

/// `after` is `before` once it has handed out one id: the one given back
/// most recently, or else the next new one.
pub open spec fn took_one_id(before: PidAllocator, after: PidAllocator) -> bool {
    &&& before.free().len() > 0 ==> after.free() == before.free().drop_last() && after.max() == before.max()
    &&& before.free().len() == 0 ==> after.max() == before.max() + 1 && after.free() == before.free()
}

/// The state of a process that has just been created on `memory_set`.
pub open spec fn fresh_inner(inner: ProcessInner, memory_set: MemorySet) -> bool {
    &&& inner.run_stack_pointer == USER_STACK_TOP
    &&& inner.user_size == 0
    &&& inner.memory_set == memory_set
    &&& inner.xstate == 0
    &&& !inner.exited
    &&& !inner.killed
    &&& inner.child@.len() == 0
    &&& inner.wait.watchers@.len() == 0
}

/// `after` is `before` with its user memory unmapped: the framed segments
/// are gone, every page they covered translates to the empty entry, the
/// address space is still owned by the allocator and keeps its root.
pub open spec fn user_unmapped(before: Process, after: Process, alloc_before: FrameAllocator, alloc_after: FrameAllocator) -> bool {
    let b = before.inner.memory_set;
    let a = after.inner.memory_set;
    &&& a.mapping.owned_by(&alloc_after)
    &&& alloc_after.managed() == alloc_before.managed()
    &&& a.mapping.root() == b.mapping.root()
    &&& a.segments@ == b.segments@.filter(|s: Segment| s.map_type != MapType::Framed)
    &&& forall|k: int, q: u64|
        0 <= k < b.segments@.len() && (#[trigger] b.segments@[k]).map_type == MapType::Framed
            && b.segments@[k].pages().0 <= q < b.segments@[k].pages().1
            ==> #[trigger] a.mapping.translate(q) == PageTableEntry(0)
}

/// The first and one past the last virtual page of the run stack below
/// `sp`.
pub open spec fn stack_pages(sp: u64) -> (u64, u64) {
    (first_page((sp - STACK_SIZE) as u64), end_page(sp))
}

/// How many pages the run stack below `sp` covers: `STACK_SIZE / PAGE_SIZE`
/// when `sp` is page aligned, one more otherwise.
pub open spec fn stack_page_count(sp: u64) -> int {
    page_count(stack_pages(sp).0, stack_pages(sp).1)
}

/// `writes` clear, one page each, the `count` frames that `mapping`
/// recorded from position `n` on.
pub open spec fn clears_stack_frames(mapping: Mapping, n: int, writes: Seq<MemoryWrite>, count: int) -> bool {
    &&& mapping.mapped().len() == n + count
    &&& writes.len() == count
    &&& forall|k: int| 0 <= k < count ==> {
        &&& #[trigger] writes[k].address.0 == kernel_address_of(mapping.mapped()[n + k].1.0.0)
        &&& writes[k].data@.len() == PAGE_SIZE
        &&& forall|j: int| 0 <= j < PAGE_SIZE ==> #[trigger] writes[k].data@[j] == 0
    }
}

/// The run stack below `sp`: `STACK_SIZE` bytes ending there.
pub open spec fn run_stack_range(sp: u64) -> Range<VirtualAddress> {
    Range { start: VirtualAddress((sp - STACK_SIZE) as u64), end: VirtualAddress(sp) }
}

/// The segment of the run stack below `sp`: framed, readable and writable,
/// user accessible in a user process.
pub open spec fn run_stack_segment(sp: u64, is_user: bool) -> Segment {
    Segment {
        map_type: MapType::Framed,
        range: run_stack_range(sp),
        flags: Flags { bits: FLAG_R | FLAG_W | if is_user { FLAG_U } else { 0 } },
    }
}

/// `ms` holds the program in ELF file `d`, read in byte order `little`: the
/// kernel's segments, the program's, then a run stack from
/// `USER_STACK_TOP` down; `writes` fill the program's pages and then clear
/// the stack's.
pub open spec fn exec_image(
    ms: MemorySet,
    d: Seq<u8>,
    little: bool,
    layout: KernelLayout,
    is_user: bool,
    writes: Seq<MemoryWrite>,
) -> bool {
    let sv = loaded(d, little, ph_count_reading(d, little), is_user);
    let n = total_pages(view_segments(sv), sv.len() as int);
    &&& ms.segments@ == kernel_segments(layout) + view_segments(sv) + seq![run_stack_segment(USER_STACK_TOP, is_user)]
    &&& pages_written(ms.mapping, sv, 0, sv.len() as int, writes.subrange(0, n))
    &&& clears_stack_frames(ms.mapping, n, writes.subrange(n, writes.len() as int), (STACK_SIZE / PAGE_SIZE) as int)
}

/// What a parent sees of its child `p` when it waits.
pub open spec fn child_status(p: Process) -> ChildStatus {
    ChildStatus { pid: p.pid, exited: p.inner.exited, xstate: p.inner.xstate }
}

/// The part of a process that changes.
pub struct ProcessInner {
    /// Top of the next run stack to hand out; stacks grow down, a guard page apart.
    pub run_stack_pointer: u64,
    pub user_size: u64,
    /// Page tables and segments shared by the process's threads.
    pub memory_set: MemorySet,
    /// Exit code.
    pub xstate: i32,
    pub exited: bool,
    pub killed: bool,
    /// Ids of the children not waited for yet.
    pub child: Vec<u64>,
    /// Threads waiting for a child to exit.
    pub wait: Condvar,
}

/// A process.
pub struct Process {
    pub pid: u64,
    pub is_user: bool,
    /// Id of the parent process, if any.
    pub parent: Option<u64>,
    pub inner: ProcessInner,
}

impl Process {
    /// The address space is owned by `allocator`, the run-stack pointer
    /// leaves room for a stack and a guard page below it, and the pages of
    /// the next stack are not mapped yet.
    pub open spec fn can_alloc_run_stack(&self, allocator: &FrameAllocator) -> bool {
        &&& self.inner.memory_set.mapping.owned_by(allocator)
        &&& self.inner.run_stack_pointer >= STACK_SIZE + PAGE_SIZE
        &&& self.inner.memory_set.mapping.pages_free(
            stack_pages(self.inner.run_stack_pointer).0,
            stack_pages(self.inner.run_stack_pointer).1,
        )
    }

    /// Whether the next run stack can be handed out: `can_alloc_run_stack`,
    /// for an address space that `allocator` owns.
    pub fn run_stack_ready(&self, allocator: &FrameAllocator) -> (r: bool)
        requires
            self.inner.memory_set.mapping.owned_by(allocator),
        ensures
            r == self.can_alloc_run_stack(allocator),
    {
        let sp = self.inner.run_stack_pointer;
        if sp < STACK_SIZE + PAGE_SIZE {
            return false;
        }
        let end = if sp % PAGE_SIZE == 0 { sp / PAGE_SIZE } else { sp / PAGE_SIZE + 1 };
        self.inner.memory_set.mapping.pages_unmapped((sp - STACK_SIZE) / PAGE_SIZE, end)
    }

    /// The kernel process: a new id and the kernel's address space, with run
    /// stacks from the top page of the address space downwards.
    pub fn new_kernel(pids: &mut PidAllocator, allocator: &mut FrameAllocator, layout: KernelLayout) -> (r: MemoryResult<Process>)
        requires
            old(pids).wf(),
            old(pids).free().len() > 0 || old(pids).max() < usize::MAX,
            old(allocator).wf(),
            layout.valid(),
        ensures
            final(pids).wf(),
            final(allocator).wf(),
            old(allocator).available() >= 1 + 2 * total_pages(kernel_segments(layout), 6) ==> r is Ok,
            r is Err ==> final(allocator).available() == 0,
            r is Err <==> old(allocator).available() < kernel_frames_needed(layout, 6),
            r is Ok ==> {
                let p = r->Ok_0;
                &&& !old(pids).in_use().contains(p.pid as usize)
                &&& !p.is_user
                &&& p.parent is None
                &&& p.inner.run_stack_pointer == u64::MAX - PAGE_SIZE + 1
                &&& p.inner.memory_set.mapping.owned_by(final(allocator))
                &&& p.inner.memory_set.segments@ == kernel_segments(layout)
                &&& !p.inner.exited && !p.inner.killed
                &&& p.inner.xstate == 0
                &&& p.inner.child@.len() == 0
                &&& p.inner.wait.watchers@.len() == 0
            },
    {
        let pid = pids.allocate();
        let memory_set = match MemorySet::new_kernel(allocator, layout) {
            Ok(m) => m,
            Err(msg) => {
                return Err(msg);
            },
        };
        Ok(Process {
            pid: pid as u64,
            is_user: false,
            parent: None,
            inner: ProcessInner {
                run_stack_pointer: u64::MAX - PAGE_SIZE + 1,
                user_size: 0,
                memory_set,
                xstate: 0,
                exited: false,
                killed: false,
                child: Vec::new(),
                wait: Condvar::new(),
            },
        })
    }

    /// A process running the program in ELF file `data`: its address space
    /// is the kernel's with the program's loadable segments mapped over
    /// their bytes (user accessible in a user process), it has a new id and
    /// no parent, and its run stacks go from `USER_STACK_TOP` downwards. The
    /// result lists the bytes to store. The id is taken first; when `data`
    /// is not a program that can be loaded or frames run out, the call fails
    /// and that id stays taken.
    pub fn from_elf(
        pids: &mut PidAllocator,
        allocator: &mut FrameAllocator,
        layout: KernelLayout,
        data: &[u8],
        is_user: bool,
    ) -> (r: MemoryResult<(Process, Vec<MemoryWrite>)>)
        requires
            old(pids).wf(),
            old(pids).free().len() > 0 || old(pids).max() < usize::MAX,
            old(allocator).wf(),
            layout.valid(),
        ensures
            final(pids).wf(),
            final(allocator).wf(),
            final(allocator).managed() == old(allocator).managed(),
            data@.len() < 64 || !elf_header_valid(data@) ==> r is Err,
            took_one_id(*old(pids), *final(pids)),
            r is Ok ==> {
                let p = (r->Ok_0).0;
                &&& new_id(*old(pids), *final(pids), p.pid)
                &&& p.is_user == is_user
                &&& p.parent is None
                &&& fresh_inner(p.inner, p.inner.memory_set)
                &&& p.inner.memory_set.mapping.owned_by(final(allocator))
                &&& exists|little: bool| #[trigger] loadable(data@, little) && {
                    let sv = loaded(data@, little, ph_count_reading(data@, little), is_user);
                    &&& p.inner.memory_set.segments@ == kernel_segments(layout) + view_segments(sv)
                    &&& pages_written(p.inner.memory_set.mapping, sv, 0, sv.len() as int, (r->Ok_0).1@)
                }
            },
    {
        let pid = pids.allocate();
        let (memory_set, writes) = match MemorySet::from_elf(allocator, layout, data, is_user) {
            Ok(m) => m,
            Err(msg) => {
                return Err(msg);
            },
        };
        Ok((Process { pid: pid as u64, is_user, parent: None, inner: Self::fresh(memory_set) }, writes))
    }

    /// A child of `parent` with a copy of its user memory: `copies` are the
    /// parent's framed segments, in order, each with the bytes it holds now,
    /// and `memory_set` is a fresh kernel address space. Each copy is
    /// mapped into it over its bytes (`add_program_segments`); then the
    /// child gets a new id (`from_parent`). The result lists the bytes to
    /// store. Fails, taking no id, exactly when the copies cannot all be
    /// mapped (`program_fits`).
    pub fn copy_parent(
        pids: &mut PidAllocator,
        allocator: &mut FrameAllocator,
        memory_set: MemorySet,
        parent: &Process,
        copies: &Vec<(Segment, Vec<u8>)>,
    ) -> (r: MemoryResult<(Process, Vec<MemoryWrite>)>)
        requires
            old(pids).wf(),
            old(pids).free().len() > 0 || old(pids).max() < usize::MAX,
            memory_set.mapping.owned_by(old(allocator)),
            segment_list(copies@) == parent.inner.memory_set.segments@.filter(
                |s: Segment| s.map_type == MapType::Framed,
            ),
            forall|k: int| 0 <= k < copies@.len() ==> program_segment(#[trigger] segments_view(copies@)[k]),
        ensures
            final(pids).wf(),
            final(allocator).wf(),
            final(allocator).managed() == old(allocator).managed(),
            r is Ok <==> program_fits(memory_set.mapping, segment_list(copies@), old(allocator).available()),
            r is Err ==> *final(pids) == *old(pids),
            r is Ok ==> {
                let c = (r->Ok_0).0;
                &&& new_id(*old(pids), *final(pids), c.pid)
                &&& c.is_user == parent.is_user
                &&& c.parent == Some(parent.pid)
                &&& fresh_inner(c.inner, c.inner.memory_set)
                &&& c.inner.memory_set.mapping.owned_by(final(allocator))
                &&& c.inner.memory_set.segments@ == memory_set.segments@ + parent.inner.memory_set.segments@.filter(
                    |s: Segment| s.map_type == MapType::Framed,
                )
                &&& program_written(memory_set.mapping, c.inner.memory_set.mapping, copies@, copies@.len() as int, (r->Ok_0).1@)
            },
    {
        let mut memory_set = memory_set;
        let writes = match memory_set.add_program_segments(allocator, copies) {
            Ok(w) => w,
            Err(msg) => {
                return Err(msg);
            },
        };
        let child = Process::from_parent(pids, parent, memory_set);
        Ok((child, writes))
    }

    /// A child of `parent` whose address space is `memory_set`, a copy of
    /// the parent's: a new id, the parent's mode, and run stacks from
    /// `USER_STACK_TOP` downwards.
    pub fn from_parent(pids: &mut PidAllocator, parent: &Process, memory_set: MemorySet) -> (p: Process)
        requires
            old(pids).wf(),
            old(pids).free().len() > 0 || old(pids).max() < usize::MAX,
        ensures
            final(pids).wf(),
            new_id(*old(pids), *final(pids), p.pid),
            p.is_user == parent.is_user,
            p.parent == Some(parent.pid),
            fresh_inner(p.inner, memory_set),
    {
        let pid = pids.allocate();
        Process { pid: pid as u64, is_user: parent.is_user, parent: Some(parent.pid), inner: Self::fresh(memory_set) }
    }

    fn fresh(memory_set: MemorySet) -> (inner: ProcessInner)
        ensures
            fresh_inner(inner, memory_set),
    {
        ProcessInner {
            run_stack_pointer: USER_STACK_TOP,
            user_size: 0,
            memory_set,
            xstate: 0,
            exited: false,
            killed: false,
            child: Vec::new(),
            wait: Condvar::new(),
        }
    }

    /// The run stack below the last one handed out, a guard page lower down:
    /// `STACK_SIZE` bytes ending at the run-stack pointer, mapped to new
    /// frames, readable and writable (and user-accessible in a user process).
    /// The result also lists the writes that clear the new frames.
    pub fn alloc_run_stack(&mut self, allocator: &mut FrameAllocator)
        -> (r: MemoryResult<(Range<VirtualAddress>, Vec<MemoryWrite>)>)
        requires
            old(self).can_alloc_run_stack(old(allocator)),
        ensures
            final(self).inner.memory_set.mapping.owned_by(final(allocator)),
            final(self).pid == old(self).pid,
            final(self).is_user == old(self).is_user,
            final(self).parent == old(self).parent,
            final(self).inner.child@ == old(self).inner.child@,
            final(self).inner.exited == old(self).inner.exited,
            final(self).inner.killed == old(self).inner.killed,
            final(self).inner.xstate == old(self).inner.xstate,
            final(allocator).managed() == old(allocator).managed(),
            final(self).inner.memory_set.mapping.mapped().subrange(0, old(self).inner.memory_set.mapping.mapped().len() as int)
                == old(self).inner.memory_set.mapping.mapped(),
            final(self).inner.memory_set.mapping.unchanged_outside(
                &old(self).inner.memory_set.mapping,
                stack_pages(old(self).inner.run_stack_pointer).0,
                stack_pages(old(self).inner.run_stack_pointer).1,
            ),
            r is Ok ==> {
                let sp = old(self).inner.run_stack_pointer;
                let (range, writes) = r->Ok_0;
                &&& range.start.0 == sp - STACK_SIZE
                &&& range.end.0 == sp
                &&& final(self).inner.run_stack_pointer == sp - STACK_SIZE - PAGE_SIZE
                &&& final(self).inner.memory_set.segments@ == old(self).inner.memory_set.segments@.push(Segment {
                    map_type: MapType::Framed,
                    range,
                    flags: Flags { bits: FLAG_R | FLAG_W | if old(self).is_user { FLAG_U } else { 0 } },
                })
                &&& clears_stack_frames(final(self).inner.memory_set.mapping, old(self).inner.memory_set.mapping.mapped().len() as int,
                    writes@, stack_page_count(sp))
            },
            r is Err ==> final(self).inner.run_stack_pointer == old(self).inner.run_stack_pointer
                && final(self).inner.memory_set.segments@ == old(self).inner.memory_set.segments@,
            old(allocator).available() >= 3 * stack_page_count(old(self).inner.run_stack_pointer) ==> r is Ok,
            r is Err <==> old(allocator).available() < frames_needed(old(self).inner.memory_set.mapping,
                stack_pages(old(self).inner.run_stack_pointer).0,
                stack_pages(old(self).inner.run_stack_pointer).1, true),
    {
        let run_stack_pointer = self.inner.run_stack_pointer;
        let range = Range { start: VirtualAddress(run_stack_pointer - STACK_SIZE), end: VirtualAddress(run_stack_pointer) };
        let new_pointer = run_stack_pointer - (STACK_SIZE + PAGE_SIZE);
        let flags = Flags::r().union(Flags::w()).union(user_flag(self.is_user));
        let segment = Segment { map_type: MapType::Framed, range, flags };
        proof {
            let (s, e) = segment.pages();
            assert((s, e) == stack_pages(run_stack_pointer));
            assert(e - s <= STACK_SIZE / PAGE_SIZE + 1) by (nonlinear_arith)
                requires
                    run_stack_pointer >= 0x8000,
                    s == (run_stack_pointer - 0x8000) / 4096,
                    e == run_stack_pointer / 4096 + if run_stack_pointer % 4096 == 0 { 0int } else { 1int };
            assert(s <= e) by (nonlinear_arith)
                requires
                    run_stack_pointer >= 0x8000,
                    s == (run_stack_pointer - 0x8000) / 4096,
                    e == run_stack_pointer / 4096 + if run_stack_pointer % 4096 == 0 { 0int } else { 1int };
            assert forall|p: u64, q: u64| s <= p < e && s <= q < e && p != q implies !#[trigger] same_slot(p, q) by {
                if p < q {
                    lemma_near_slots_distinct(p, q);
                } else {
                    lemma_near_slots_distinct(q, p);
                }
            }
            assert(flags.bits == FLAG_R | FLAG_W | if self.is_user { FLAG_U } else { 0 });
        }
        let writes = match self.inner.memory_set.add_segment(allocator, segment, None) {
            Ok(w) => w,
            Err(msg) => {
                return Err(msg);
            },
        };
        self.inner.run_stack_pointer = new_pointer;
        Ok((range, writes))
    }

    /// `exec` in this process. `program` is the file found under the name
    /// asked for, if any. Without one, or when it is not a program that can
    /// be loaded, the call returns -1 and neither the process nor `context`
    /// changes. Otherwise the program's address space (`MemorySet::from_elf`)
    /// takes the place of the process's, with a new run stack from
    /// `USER_STACK_TOP` down, and the caller restarts at the program's entry
    /// point on that stack (`sys_exec`); when the stack cannot be had, the
    /// process is killed. The result also gives the new stack and the bytes
    /// to store: the program's, page after page, then the stack's zeros.
    pub fn exec(
        &mut self,
        allocator: &mut FrameAllocator,
        layout: KernelLayout,
        program: Option<&[u8]>,
        context: &mut Context,
    ) -> (r: (SyscallResult, Option<Range<VirtualAddress>>, Vec<MemoryWrite>))
        requires
            old(allocator).wf(),
            layout.valid(),
        ensures
            final(allocator).wf(),
            final(allocator).managed() == old(allocator).managed(),
            final(self).pid == old(self).pid,
            final(self).parent == old(self).parent,
            final(self).is_user == old(self).is_user,
            final(self).inner.child@ == old(self).inner.child@,
            final(self).inner.exited == old(self).inner.exited,
            final(self).inner.killed == old(self).inner.killed,
            final(self).inner.xstate == old(self).inner.xstate,
            r.0 == SyscallResult::Proceed(-1i64) || r.0 == SyscallResult::Exec || r.0 == SyscallResult::Kill,
            program is None ==> r.0 == SyscallResult::Proceed(-1i64),
            program is Some && (program.unwrap()@.len() < 64 || !elf_header_valid(program.unwrap()@))
                ==> r.0 == SyscallResult::Proceed(-1i64),
            r.0 == SyscallResult::Proceed(-1i64) ==> *final(self) == *old(self) && *final(context) == *old(context)
                && r.1 is None && r.2@.len() == 0,
            r.0 == SyscallResult::Kill ==> *final(context) == *old(context) && r.1 is None && program is Some
                && final(self).inner.run_stack_pointer == USER_STACK_TOP
                && exists|little: bool| #[trigger] loadable(program.unwrap()@, little)
                    && final(self).inner.memory_set.segments@ == kernel_segments(layout) + view_segments(
                    loaded(program.unwrap()@, little, ph_count_reading(program.unwrap()@, little), old(self).is_user),
                ),
            r.0 == SyscallResult::Exec ==> program is Some && {
                let d = program.unwrap()@;
                let ms = final(self).inner.memory_set;
                &&& r.1 == Some(run_stack_range(USER_STACK_TOP))
                &&& final(self).inner.run_stack_pointer == USER_STACK_TOP - STACK_SIZE - PAGE_SIZE
                &&& ms.mapping.owned_by(final(allocator))
                &&& exists|little: bool| (final(context).sepc as nat) == #[trigger] entry_reading(d, little)
                &&& final(context).x@[REG_SP as int] == USER_STACK_TOP
                &&& forall|i: int| 0 <= i < 32 && i != REG_SP ==> #[trigger] final(context).x@[i] == 0
                &&& final(context).sstatus == old(context).sstatus
                &&& exists|little: bool| #[trigger] loadable(d, little) && exec_image(ms, d, little, layout, old(self).is_user, r.2@)
            },
    {
        let data = match program {
            Some(d) => d,
            None => {
                return (SyscallResult::Proceed(-1), None, Vec::new());
            },
        };
        let entry = match load_entry_point(data) {
            Some(e) => e,
            None => {
                return (SyscallResult::Proceed(-1), None, Vec::new());
            },
        };
        let (ms, mut writes) = match MemorySet::from_elf(allocator, layout, data, self.is_user) {
            Ok(m) => m,
            Err(_) => {
                return (SyscallResult::Proceed(-1), None, Vec::new());
            },
        };
        let ghost m1 = ms.mapping;
        let ghost w_load = writes@;
        let ghost little = choose|little: bool| #[trigger] loadable(data@, little) && {
            let sv = loaded(data@, little, ph_count_reading(data@, little), self.is_user);
            &&& ms.segments@ == kernel_segments(layout) + view_segments(sv)
            &&& pages_written(ms.mapping, sv, 0, sv.len() as int, writes@)
            &&& ms.mapping.mapped().len() == total_pages(view_segments(sv), sv.len() as int)
        };
        let ghost sv = loaded(data@, little, ph_count_reading(data@, little), self.is_user);
        let ghost n = total_pages(view_segments(sv), sv.len() as int);
        self.inner.memory_set = ms;
        self.inner.run_stack_pointer = USER_STACK_TOP;
        if !self.run_stack_ready(allocator) {
            return (SyscallResult::Kill, None, writes);
        }
        let ghost before_stack = *self;
        let (stack, mut stack_writes) = match self.alloc_run_stack(allocator) {
            Ok(x) => x,
            Err(_) => {
                return (SyscallResult::Kill, None, writes);
            },
        };
        let ghost w_stack = stack_writes@;
        writes.append(&mut stack_writes);
        let r = sys_exec(context, entry, stack.end.0);
        proof {
            let m2 = self.inner.memory_set.mapping;
            let s0 = ((USER_STACK_TOP - STACK_SIZE) as u64 / PAGE_SIZE) as u64;
            let e0 = (USER_STACK_TOP / PAGE_SIZE) as u64;
            assert(m1.mapped().len() == n);
            assert(writes@ == w_load + w_stack);
            assert(writes@.subrange(0, n) =~= w_load);
            assert(writes@.subrange(n, writes@.len() as int) =~= w_stack);
            assert(stack == run_stack_range(USER_STACK_TOP));
            let segs = view_segments(sv);
            assert forall|j: int, i: int|
                0 <= j < sv.len() && 0 <= i < page_count(segs[j].pages().0, segs[j].pages().1)
                    implies #[trigger] page_written(m2, sv, 0, j, i, w_load) by {
                assert(page_written(m1, sv, 0, j, i, w_load));
                let k = total_pages(segs, j) + i;
                lemma_page_index_bounds(segs, j, i, sv.len() as int);
                assert(m2.mapped()[k] == m2.mapped().subrange(0, n)[k]);
                let vpn = m1.mapped()[k].0.0;
                lemma_mapped_page_present(m1, k, segs[j].flags);
                assert forall|q: u64| s0 <= q < e0 implies !#[trigger] same_slot(vpn, q) by {
                    if same_slot(vpn, q) {
                        lemma_same_slot_translate(m1, vpn, q);
                        assert(m1.translate(q).0 == 0);
                    }
                }
            }
            let ms2 = self.inner.memory_set;
            assert(pages_written(m2, sv, 0, sv.len() as int, writes@.subrange(0, n)));
            assert(clears_stack_frames(m2, n, writes@.subrange(n, writes@.len() as int), stack_page_count(USER_STACK_TOP)));
            assert(ms2.segments@ == kernel_segments(layout) + view_segments(sv) + seq![run_stack_segment(USER_STACK_TOP, self.is_user)]);
            assert(exec_image(ms2, data@, little, layout, self.is_user, writes@));
            assert(loadable(data@, little));
            assert(exists|little: bool| (context.sepc as nat) == #[trigger] entry_reading(data@, little));
            assert(ms2.mapping.owned_by(allocator));
        }
        (r, Some(stack), writes)
    }

    /// What the process's parent sees of it when it waits.
    pub fn status(&self) -> (c: ChildStatus)
        ensures
            c == child_status(*self),
    {
        ChildStatus { pid: self.pid, exited: self.inner.exited, xstate: self.inner.xstate }
    }

    /// Records `pid` as the process's newest child.
    pub fn add_child(&mut self, pid: u64)
        ensures
            final(self).inner.child@ == old(self).inner.child@.push(pid),
            final(self).pid == old(self).pid,
            final(self).parent == old(self).parent,
            final(self).is_user == old(self).is_user,
            final(self).inner.exited == old(self).inner.exited,
            final(self).inner.killed == old(self).inner.killed,
            final(self).inner.xstate == old(self).inner.xstate,
            final(self).inner.memory_set == old(self).inner.memory_set,
            final(self).inner.wait == old(self).inner.wait,
            final(self).inner.run_stack_pointer == old(self).inner.run_stack_pointer,
    {
        self.inner.child.push(pid);
    }

    /// Drops the child at `index` of the child list, which `wait` reaped;
    /// the others stay in their order.
    pub fn reap_child(&mut self, index: usize)
        requires
            index < old(self).inner.child@.len(),
        ensures
            final(self).inner.child@ == old(self).inner.child@.remove(index as int),
            final(self).pid == old(self).pid,
            final(self).parent == old(self).parent,
            final(self).is_user == old(self).is_user,
            final(self).inner.exited == old(self).inner.exited,
            final(self).inner.killed == old(self).inner.killed,
            final(self).inner.xstate == old(self).inner.xstate,
            final(self).inner.memory_set == old(self).inner.memory_set,
            final(self).inner.wait == old(self).inner.wait,
            final(self).inner.run_stack_pointer == old(self).inner.run_stack_pointer,
    {
        self.inner.child.remove(index);
    }

    /// Unmaps the process's user memory: every framed segment goes, its
    /// frames back to `allocator`; the kernel's linear segments stay.
    pub fn unmap_user(&mut self, allocator: &mut FrameAllocator)
        requires
            old(self).inner.memory_set.mapping.owned_by(old(allocator)),
        ensures
            user_unmapped(*old(self), *final(self), *old(allocator), *final(allocator)),
            final(self).pid == old(self).pid,
            final(self).parent == old(self).parent,
            final(self).is_user == old(self).is_user,
            final(self).inner.xstate == old(self).inner.xstate,
            final(self).inner.exited == old(self).inner.exited,
            final(self).inner.killed == old(self).inner.killed,
            final(self).inner.child@ == old(self).inner.child@,
            final(self).inner.wait == old(self).inner.wait,
    {
        self.inner.memory_set.remove_framed_segments(allocator);
    }

    /// Records that the process exited with `code` and unmaps its user
    /// memory, whose frames go back to `allocator`.
    pub fn exit(&mut self, code: i32, allocator: &mut FrameAllocator)
        requires
            old(self).inner.memory_set.mapping.owned_by(old(allocator)),
        ensures
            final(self).inner.xstate == code,
            final(self).inner.exited,
            final(self).pid == old(self).pid,
            final(self).parent == old(self).parent,
            final(self).inner.killed == old(self).inner.killed,
            final(self).inner.child@ == old(self).inner.child@,
            final(self).inner.wait == old(self).inner.wait,
            user_unmapped(*old(self), *final(self), *old(allocator), *final(allocator)),
    {
        self.inner.xstate = code;
        self.inner.exited = true;
        self.unmap_user(allocator);
    }

    /// Records that the process exited with `code` and wakes the thread of
    /// its parent `parent` that has waited longest for a child to end, if
    /// any; that thread is the result.
    pub fn exit_to_parent(
        &mut self,
        parent: &mut Process,
        code: i32,
        allocator: &mut FrameAllocator,
        pool: &mut ThreadPool,
    ) -> (r: Option<ThreadID>)
        requires
            old(self).parent == Some(old(parent).pid),
            old(self).inner.memory_set.mapping.owned_by(old(allocator)),
        ensures
            user_unmapped(*old(self), *final(self), *old(allocator), *final(allocator)),
            final(self).inner.xstate == code,
            final(self).inner.exited,
            final(self).pid == old(self).pid,
            final(self).parent == old(self).parent,
            final(self).inner.killed == old(self).inner.killed,
            final(self).inner.child@ == old(self).inner.child@,
            final(parent).pid == old(parent).pid,
            final(parent).parent == old(parent).parent,
            final(parent).inner.child@ == old(parent).inner.child@,
            final(parent).inner.exited == old(parent).inner.exited,
            old(parent).inner.wait.watchers@.len() == 0 ==> r is None && final(parent).inner.wait.watchers@
                == old(parent).inner.wait.watchers@ && final(pool).ready() == old(pool).ready()
                && final(pool).sleeping() == old(pool).sleeping(),
            old(parent).inner.wait.watchers@.len() > 0 ==> {
                let t = old(parent).inner.wait.watchers@[0];
                &&& r == Some(t)
                &&& final(parent).inner.wait.watchers@ == old(parent).inner.wait.watchers@.drop_first()
                &&& final(pool).ready() == old(pool).ready().push(t)
                &&& final(pool).sleeping() == old(pool).sleeping().remove(t)
            },
    {
        self.exit(code, allocator);
        parent.inner.wait.notify_one(pool)
    }

    /// The segments to unmap when the process's user memory goes: its framed ones, in order.
    pub fn framed_segments(&self) -> (r: Vec<Segment>)
        ensures
            r@ == self.inner.memory_set.segments@.filter(|s: Segment| s.map_type == MapType::Framed),
    {
        let segs = &self.inner.memory_set.segments;
        let mut r: Vec<Segment> = Vec::new();
        let mut i: usize = 0;
        while i < segs.len()
            invariant
                i <= segs@.len(),
                r@ == segs@.subrange(0, i as int).filter(|s: Segment| s.map_type == MapType::Framed),
            decreases segs@.len() - i,
        {
            proof {
                reveal(Seq::filter);
                assert(segs@.subrange(0, i as int + 1).drop_last() =~= segs@.subrange(0, i as int));
            }
            if segs[i].map_type == MapType::Framed {
                r.push(segs[i]);
            }
            i = i + 1;
        }
        proof {
            assert(segs@.subrange(0, i as int) =~= segs@);
        }
        r
    }
}


/// `fork` answers in two processes: when the child's id came from the
/// allocator (`new_id`) while the caller's id was in use, and no id 0 was
/// given back, the caller gets the child's id, which is positive and not
/// its own, and the child resumes after the `ecall` with 0 in a0. Once the
/// caller records the child (`add_child`), the child is in its list, so a
/// wait for that id finds it.
pub proof fn law_fork_answers(
    before: PidAllocator,
    after: PidAllocator,
    caller: u64,
    child: u64,
    context: Context,
    r: (SyscallResult, Context),
    children_before: Seq<u64>,
    children_after: Seq<u64>,
)
    requires
        before.wf(),
        caller <= usize::MAX,
        before.in_use().contains(caller as usize),
        !before.free().contains(0usize),
        new_id(before, after, child),
        child <= i64::MAX,
        r.0 == SyscallResult::Proceed(child as i64),
        r.1.x@ == context.x@.update(REG_A0 as int, 0),
        r.1.sepc == context.sepc + 4,
        children_after == children_before.push(child),
    ensures
        children_after.contains(child),
        child != caller,
        r.0 matches SyscallResult::Proceed(v) && v > 0 && v as u64 == child,
        r.1.x@[REG_A0 as int] == 0,
        r.1.sepc == context.sepc + 4,
{
    if before.free().len() > 0 {
        assert(before.free().contains(before.free().last()));
    }
    assert(children_after[children_before.len() as int] == child);
}

/// From `exit` to `wait`: once `child` has exited with `code` (`after` is
/// it after `exit(code, ..)`), a parent whose child list holds it once,
/// at position `k`, with what `status` reports of it, and which waits for
/// its pid with no place for the code or a writable one, reaps it: `wait`
/// returns the pid and gives back `code`. Once the parent drops it from its
/// list (`reap_child(k)`), a second wait for that pid returns -1.
pub proof fn law_exit_then_wait(
    before: Process,
    after: Process,
    code: i32,
    children: Seq<ChildStatus>,
    k: int,
    xstate: u64,
    flags: Option<u8>,
    r: WaitAction,
    again: WaitAction,
)
    requires
        after.pid == before.pid,
        after.inner.xstate == code,
        after.inner.exited,
        before.pid != 0,
        before.pid <= i64::MAX,
        xstate == 0 || (flags matches Some(f) && f & 0x15 == 0x15),
        0 <= k < children.len(),
        children[k] == child_status(after),
        forall|j: int| 0 <= j < children.len() && j != k ==> #[trigger] children[j].pid != before.pid,
        wait_outcome(before.pid, xstate, flags, children, r),
        wait_outcome(before.pid, xstate, flags, children.remove(k), again),
    ensures
        r == (WaitAction::Reap { index: k as usize, pid: before.pid, xstate: code }),
        wait_answer_spec(r) == SyscallResult::Proceed(before.pid as i64),
        wait_answer_spec(again) == SyscallResult::Proceed(-1i64),
{
    law_wait_reaps_exited_child(before.pid, xstate, flags, children, k, code, r, again);
}

} // verus!
