# kernel

The decision logic of a small x86_64 hobby kernel, written in Verus and proved
against its contracts.

- `src/` is the verified library: the in-memory block device and file system
  (`storage`), physical frame ownership, the process registry and event log,
  the round-robin scheduler and its runtime settings, the program loader with its
  manifest format, the syscall dispatcher, load plans and their mapping into an
  address space, user-memory copies and page-table checks, relocation
  bookkeeping, the keyboard line editor and console command parser, timers,
  the executor's bookkeeping and the profiler's counters. Laws that relate
  several operations stand as public proof functions beside the code they speak
  of.
- `tests/` runs the library on concrete values.
- `app/` is the bootable kernel around the library: the bootloader entry point,
  VGA output, GDT/IDT and PIC setup, interrupt handlers, the heap allocator,
  context switching, the async executor and the console. It hands the library
  plain values and acts on what comes back.
