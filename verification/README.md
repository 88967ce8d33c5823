# rcore_kernel

The logic of a small multicore RISC-V teaching kernel, verified with Verus.

- `src/` is the verified library: the FIFO schedulers, Sv39 page-table
  entries, page tables and address spaces (built from a program's ELF
  file, and unmapped again when a process exits), the frame and process-id
  allocators, thread and process bookkeeping, sleep timers and condition
  variables, the decisions of the trap and system-call handlers, and the
  register values that set up the K210's system controller, UART and PLIC.
  Register addresses and values are computed here; nothing in it touches
  hardware.
- `app/` is the kernel binary around it: memory-mapped and control
  registers, the console, spin locks and the global kernel state.
- `tests/` exercises the library on concrete values.
