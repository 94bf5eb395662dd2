# EndorOS

A conceptual operating system in hexagonal style (ports and adapters), with
its logic verified by Verus.

- `src/` is the verified library:
  - `domain/`: processes, packages, files, users and sessions, security
    policies; names are kept in fixed, zero-terminated byte buffers.
  - `ports/`: the port traits (file system, authentication, processes,
    packages, encryption), each with a functional specification over the
    adapter's abstract state.
  - `infrastructure/`: the adapters: an in-memory ramdisk kept sorted by
    path, a local user table, a round-robin scheduler, a local package
    catalogue and a repeating-key XOR cipher.
  - `use_cases/`: the application use cases driving the ports.
  - `ui/`: the shell interpreter, the window manager with its snap layouts,
    and the state and actions of the desktop panels.
  - `kernel/`: the bump allocator and the boot sequence.
  - `text.rs`, `fmt.rs`: text helpers (name buffers, number formatting,
    splitting and parsing) shared by the above.
- `app/` holds the front ends: the boot sequence with the shell's
  read-print loop (default) and the egui desktop (`--desktop`).
- `tests/` exercises the library on concrete values.
