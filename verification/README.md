# kvm_manager

The verified core of a desktop manager for KVM/QEMU virtual machines driven through
libvirt. `src/` is a Verus library: the validation, parsing and document-building logic
behind each host service (VM definitions and devices, storage, networks and filters,
snapshots, schedules and backups, connections and confirmations, host readiness and
repair), each function with a contract proved by Verus, and the laws the services keep
(for example that tags written into a definition are read back, that a CPU set read
back from its text is the sorted set, or that a cloned definition keeps one fresh QEMU
MAC address per interface) as public proof functions.

`app/` is the ordinary Rust around it: the libvirt handles (`virt`), `virsh` and sysfs
reads, the metrics database (`rusqlite`), serial consoles (`portable-pty`) and the display
proxies (`tokio`, `tokio-tungstenite`). It hands the library plain values and performs the
calls the library decides on.

`tests/` runs the library on concrete values.

Layout of `src/`: one module per service area (`vm`, `domain`, `devices`, `tuning`,
`storage`, `network`, `nwfilter`, `snapshot`, `scheduler`, `backup`, `clone`, `clone_xml`, `connection`,
`confirmation`, `host_readiness`, ...), with shared text and XML helpers in `text` and
`xml`. Calls into outside crates stand behind small trusted wrappers whose doc comments
say what is assumed of them.
