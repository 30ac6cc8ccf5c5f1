# afterburn_kubevirt

What the KubeVirt provider of a metadata agent computes from a config-drive, written in Rust and
verified with Verus.

- `src/` is the verified library. `networkdata` converts network data of both cloud-init versions
  to interfaces, `kargs` writes the dracut kernel arguments for them, `document` detects the format
  and the version of a document, `metadata` holds attributes, hostname and SSH keys, `cloudconfig`
  and `provider` put these together. `properties` states what holds of the library as a whole.
- `tests/` runs the library, with the parsers of the outside crates linked.
- `app/` finds, mounts and reads the config-drive and hands its contents to the library.

IP addresses, networks, MAC addresses, SSH keys, JSON and YAML are read by the crates that define
them. Each such call is wrapped in one function whose contract is trusted; the documentation of the
wrapper says what it claims.
