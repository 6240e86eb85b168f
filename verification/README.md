# daedalus_caps

The verified core of `Daedalus`, a micro-bootloader that runs a graph of
boot programs before handing off to the kernel.

- `src/` is the library, checked by Verus: the capabilities offered to the
  boot programs (IRQ binding, memory grants, phase advance), the scheduler
  state and program inboxes, the migration of values between program heaps,
  the GICv2 register encodings, the `AArch64` memory operations over a byte
  model of memory, the pending-interrupt tracker, and the text `Daedalus`
  reports (debug banners, error messages, crash reports).
- `tests/` exercises the library on concrete values.
- `app/` is the bootloader around it: volatile register and memory access,
  system registers and barriers, the heap allocator, UART output and the run
  loop that drives the interpreter of the boot programs.
