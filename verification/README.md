# vmm

Two parts of a virtual machine monitor, with their decisions verified by Verus:

- **vmshm**: memory windows that a machine shares through a broker. The handshake with the
  broker, the checks on its reply and on where the window lies, and the order in which windows
  are attached.
- **GPU passthrough**: the wiring of the GPU's physical interrupts into guest interrupt lines
  through the pmthor device, and how a failed wiring is undone.

`src/` holds the library. It performs no I/O: `attach_vmshm_regions` and `GpuSession::advance`
say what to do next, and are told how it went.

| module | content |
| --- | --- |
| `vmm_config` | configuration of a window |
| `number` | numbers in configuration files |
| `little_endian` | the integers of the wire format |
| `vmshm::handshake` | request, reply and control messages |
| `vmshm::guest_memory` | guest RAM as `vm-memory` maps it |
| `vmshm::region` | where a window may lie |
| `vmshm::attach` | the attachment of windows, step by step |
| `vmshm::laws` | what holds of every attachment |
| `pmthor` | requests to the pmthor device |
| `gpu_passthrough` | the operations of a GPU session, step by step |
| `gpu_bindings` | what a GPU session leaves bound |

`app/` performs the steps with sockets, mappings and ioctls, and reads and writes configuration
files. `tests/` runs the library.
