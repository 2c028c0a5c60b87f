# devices

Device models of a virtual machine monitor: a GPU, sound, a balloon, an I2C battery, sockets, a
network card and consoles, as a virtio guest sees them.

- `src/` is the library. What each device decides and computes is stated in contracts and proved
  with Verus. Work that has to be done outside (rendering, showing a frame, playing a sample,
  releasing a page) is asked for in a value and answered in another, so that a device is a machine
  from states and answers to states and requests.
- `tests/` runs the library on concrete values.
- `app/` wires the devices to guest memory, event descriptors, threads and the host's services.

Times are nanoseconds that the caller reads from a clock. Proof functions whose names begin with
`law_` state what holds of several calls, or of every state.

`src/guest_memory.rs` is the boundary to the `vm-memory` crate: what is taken on trust of it stands
in the contracts of the functions there that call it.
