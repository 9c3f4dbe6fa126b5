# chalybs

A deterministic VFIO/KVM VM orchestrator: hugepage provisioning on the
VM's NUMA node, CPU planning and vCPU pinning, VFIO isolation checks and
driver rebinding, MSI/MSI-X IRQ pinning, a deterministic QEMU command
line, peripheral hooks (Tasmota relay, DDC/CI monitor input, Looking
Glass, SPICE), a control daemon and a terminal UI.

Layout:

- `src/` is the library, verified with Verus: the VM state machine and
  its laws (including what a failed step leaves), the planners, the
  parsers of sysfs and configuration text, the VFIO staging and restore
  decisions, the IRQ worker's progress, the QEMU argument builder, the
  daemon's shell and snapshot logic, and the terminal UI's application
  model and row indicators. Functions that need the host take what was
  read from it, or the outcome of a write, as arguments and return what
  to do next.
- `app/` is the `chalybs` program: command line, sysfs/procfs I/O, the
  QEMU process, ioctl and MQTT calls, the Unix-socket daemon and the
  ratatui front end. It performs what the library decides; what is left
  to it is mostly the order of I/O calls, logging, polling delays and
  drawing (colours, layout, the sparkline and scanline effects).
- `tests/` runs the library on concrete values.
