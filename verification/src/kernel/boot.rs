use vstd::prelude::*;

verus! {

/// Perform all kernel initialisation steps in the correct order: memory,
/// interrupts, CPU features, adapters, scheduler, root filesystem, and the
/// initial session. Each step is a placeholder for hardware work that a
/// platform driver would do.
pub fn init() {
    init_memory();
    init_interrupts();
    init_cpu();
    register_adapters();
    start_scheduler();
    mount_root_filesystem();
    start_init_process();
}

/// Hand the free regions of the bootloader's memory map to the allocator.
fn init_memory() {
}

/// Load the interrupt descriptor table and route exceptions and IRQs.
fn init_interrupts() {
}

/// Enable the CPU features and segment tables that the kernel relies on.
fn init_cpu() {
}

/// Create the concrete adapters that the port traits are served by.
fn register_adapters() {
}

/// Initialise the run-queue and the timer that preempts it.
fn start_scheduler() {
}

/// Attach the ramdisk at the root of the virtual filesystem.
fn mount_root_filesystem() {
}

/// Start the first user-space process (the shell).
fn start_init_process() {
}

} // verus!
