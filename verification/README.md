# rv6

The core of a small RISC-V (Sv48) kernel, written in Verus: each function carries a
`requires`/`ensures` contract that the verifier proves.

## Layout

- `src/` — the verified library (crate `rv6`):
  - `riscv` — physical and virtual addresses, page-table entries and tables, the
    per-level steps of mapping and translating an address, and the decoding of the
    supervisor control registers;
  - `kmm`, `mm`, `page_bitmap`, `align` — page-frame allocators (bitmap and bump),
    kernel address types, MMIO windows, DMA buffer descriptors;
  - `proc` — the generational process table, fork/exit/wait bookkeeping, the ELF64
    loader and the creation of user processes;
  - `sched` — the round-robin scheduler and the park/wake decisions;
  - `tty` — the terminal line discipline (canonical editing, echo, EOF, output
    processing);
  - `fb` — rectangles, drawing targets, the framebuffer and glyph rendering;
  - `drivers` — virtqueues and the virtio block driver, the virtio-mmio probe, QEMU
    fw_cfg and ramfb, the PLIC, the 16550 UART, the system controller, and the
    matching of device-tree nodes to drivers;
  - `initrd`, `ksyms`, `irq`, `syscall`, `vfs` — initrd location, symbol lookup,
    interrupt dispatch, error numbers and user pointers, file descriptor tables.
- `app/` — the parts that touch hardware or hart-shared state: locks, volatile register
  access, DMA transfers, page-table walks through physical memory, the global kernel
  state, device-tree parsing, boot and the system-call entry points. They perform the accesses; the decisions are the library's.
- `tests/` — executable tests of the library.
