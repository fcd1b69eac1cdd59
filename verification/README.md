# patina_mm

A management mode (MM) environment in Verus: a supervisor that owns the memory, the page tables
and the security policy, and a user core that dispatches interrupts to drivers. What the two
decide is proved against the contracts in `src/`; `app/` is the ordinary Rust that reads and
writes registers, memory and page tables on their behalf.

## Layout

- `src/policy/` reads, checks, compares and dumps security policies, and decides accesses.
- `src/supervisor/` holds the processors, the page, pool and paging allocators, the tracker of
  unblocked memory, requests and their handlers, privilege changes, the save state, and the core
  that ties them together.
- `src/user_core/` holds MMI handlers, protocols and handles, the system table, and the core.
- `src/mm_alloc.rs`, `src/mm_common.rs`, `src/mm_cpu.rs`, `src/save_state.rs`,
  `src/mm_supervisor/`, `src/protocol/` and `src/sdk/` are shared between the two.
- `src/bytes.rs` reads and writes little-endian numbers through the `zerocopy` crate. Its
  wrappers are the only code whose contracts are not proved.
- `tests/` runs the library. `app/` is the environment around it.

## Conventions

Addresses, handles and function pointers are `u64`, with 0 for null; GUIDs are `u128`, in the
byte order of memory; statuses are the `u64` values of UEFI. A function that needs outside work
returns an action, and another function goes on when the work is done. Public functions whose
names begin with `law_` state what holds of several operations together.
