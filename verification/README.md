# ones

Platform-independent building blocks of a small kernel, verified with Verus.

- `src/` is the verified library: the identifier allocator (`lib.rs`), page
  numbering and page-table frames (`memory`), a block cache with pluggable
  mapping, replacement and fetch policies (`memory::cache`), address-space
  layout from ELF images (`runtime`, reading ELF through `xmas_elf`),
  schedulers, processes, threads and coroutines (`concurrency`), the
  decisions of intervene servicing (`intervene`), file flags, bitmaps and
  file offsets (`file_system`), and register models of the PLIC and the
  NS16550A UART (`peripheral`).
- `app/` is the unverified shell around it: the global, lock-protected
  instances, logging, raw memory access and the loops that call into a
  platform.
- `tests/` runs the library on concrete values.
