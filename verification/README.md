# drm_tyr

The decision logic of the Tyr GPU driver and of the kernel services that it leans
on, written in Rust and verified with Verus.

The library under `src/` touches no hardware, blocks no thread and calls no
platform service. Where such a step is due, a function describes it (a sequence of
register accesses, a request for an object, the next step of the bring-up), and
another function takes what the step came to. Each function carries a contract, and
the proof functions named `law_*` state what holds of several of them together.

| Module | What it decides |
| --- | --- |
| `tyr::slot` | which hardware slot a seat gets, keeps and loses |
| `tyr::mmu` | how address spaces are enabled, disabled, locked and flushed |
| `tyr::reset` | when the GPU is reset, and who may access it meanwhile |
| `tyr::driver` | in which order a device is brought up and torn down |
| `tyr::gem` | which buffer objects are created, mapped and unmapped |
| `tyr::regs` | where registers are, and what their bits mean |
| `sync::ww_mutex` | who gets a wound-wait mutex, and how deadlocks are rolled back |
| `workqueue` | which work items are pending, running or cancelled, and which starts next |
| `iosys_map` | where mappings are, and which accesses they take |

State that threads share stands in tables (`LockTable`, `WorkTable`) that are passed
to each operation. No type has a destructor: a guard is given back with `unlock`,
and a work item is stopped with `cancel`.

`app/` surrounds the library with threads, register accesses and the platform.
`tests/` runs the library on concrete values.
