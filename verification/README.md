# redbear_drivers

Verified logic of a set of Red Bear OS drivers and filesystem tools,
written in Verus.

- `src/` is the library. Every function in it is checked by Verus against
  its `requires` / `ensures` contract:
  - FAT: boot-sector checks, FAT entries, scans and repairs, volume labels,
    formatting parameters, and the rules of the `fatd` scheme;
  - ext4: disk sizing and formatting arguments, and the scheme rules shared
    with `fatd` (`fs_scheme`);
  - Bluetooth over USB: HCI command, event and ACL encoding, ATT/GATT,
    controller bring-up, adapter probing and the HCI scheme;
  - EHCI: register values, control transfers, port handling and
    controller start-up;
  - Intel Wi-Fi: candidate selection, firmware choice and status reports;
  - the Linux kernel interface: ID allocation, interrupt vectors, socket
    buffers, PCI matching, locks and counters, timers, wireless
    registration and stations, and device-managed memory.
- `tests/` runs the library on concrete values.
- `app/` holds the programs around the library: argument handling, disk
  and device I/O, the Redox scheme loops, and the C entry points of the
  kernel interface. Verus does not read it.
