# Opal

A small AArch64 kernel for QEMU's `virt` machine and Apple silicon, written to
be read. What it decides and computes is a library verified with Verus; what
touches the hardware is a thin program around it.

## Layout

- `src/` is the verified library.
  - `sched` holds the task table, the ready queue, the context switch, message
    passing, sleeping and waiting. `laws` states what these promise together.
  - `arch/aarch64` holds the devicetree reader, page tables and their software
    walk, the kernel's memory map, user address spaces and demo programs, the
    timer, the system calls and the exception dispatcher.
  - `hal` holds the interrupt controllers and UARTs, `board` the two machines,
    `boot` the checks made while coming up.
  - `console`, `sync`, `monitor` and `text` hold the console's choice and its
    lock, the interactive monitor's parser and line editor, and byte strings.
- `tests/` runs the library on concrete values.
- `app/` is the kernel image: the boot stub, system registers, device access,
  the statics, and the text that is printed.

## How hardware appears in the library

The library holds no registers and no statics. A driver returns the device
accesses to make, in order, and takes the values read as arguments. A handler
takes the kernel's state and the trapped registers, changes them, and says what
the caller has to do: print, copy, stop, return to the monitor. Every contract
is therefore a statement about values.

## What is trusted

`text::from_utf8` wraps `core::str::from_utf8`. It is the only function whose
contract is taken on faith.
