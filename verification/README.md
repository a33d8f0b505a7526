# suspend_storage

Suspends a single-vCPU KVM guest to a file and wakes it up again.

* `src/` — the verified library:
  * `regs` — the vCPU register files as plain values and their
    little-endian encoding (the byte image of `kvm_regs` / `kvm_sregs`),
    with proofs that encodings have fixed sizes and are injective;
  * `state` — `VmSnapshot` and its flat encoding
    `[ regs | sregs | guest memory ]`, with proofs that decoding what was
    encoded gives the snapshot back and vice versa;
  * `vmm` — guest memory layout, payload loading and the boot registers;
  * `storage` — the io_uring requests of a flush (one write of the whole
    buffer, split only when it is longer than one completion can report,
    then one fsync) and of a read (the whole file), and how completions
    drive them; a short transfer is a failure, so a flush is done only when
    every byte was written and synced;
  * `restore` — copying a snapshot back into guest memory and the integrity
    checks, with the proof that a suspend/restore round trip is the identity;
  * `run` — when the host suspends the running guest.
* `app/` — the program: KVM ioctls, `mmap`, file and io_uring I/O, logging.
* `tests/` — tests of the library, including that the encoding equals the
  kernel structures' byte images.
