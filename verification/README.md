# whp_vmm

The core of a virtual machine monitor backend for the Windows Hypervisor Platform, verified with
Verus, and the thin layer of system calls around it.

* `src/gdt.rs` - segment descriptors and the segment registers that they give.
* `src/guest_mem.rs` - a model of guest memory, and the accesses that are made to it.
* `src/boot.rs`, `src/registers.rs` - the tables in guest memory and the registers in which a
  processor starts; `src/paging.rs` shows that they map the first GiB to itself.
* `src/vstate.rs`, `src/emulation.rs` - virtual machines, virtual processors, and what a processor
  does when the guest stops running.
* `src/eventfd.rs`, `src/epoll.rs`, `src/whpioapic.rs` - events, event queues and interrupts, with
  a model of event objects that says what a read gives back of a write.
* `src/channel.rs` - the channels to the thread of a processor.
* `src/errno.rs`, `src/os.rs` - errors of the system.
* `src/link_args.rs` - what the library is linked with.

But for asking for the last error number, the core makes no system calls. Where one is due, a
function says which, and another one takes its outcome. `app/` makes the calls; `app/whp.rs`, which
makes them on Windows, is left out elsewhere.
