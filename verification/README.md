# muak_stub

Verified core of the Muak UEFI boot stub. The stub loads a Unified Kernel Image, measures its
sections into TPM2 PCR 11, serves the initrd through the EFI `LoadFile2` protocol, maps the
kernel PE image into memory and starts it.

- `src/` is the library, verified with Verus: kernel PE header validation (`pe::kernel`),
  section placement (`pe::loader::mapping`), W^X planning (`pe::loader::protection`),
  command-line encoding (`pe::loader::cmdline`), entry-point computation (`pe::loader`),
  `LoadFile2` replies (`loadfile2`), LUKS key injection (`luks`), the command-line policy
  (`policy`), EFI variable interpretation (`security`), TPM measurement payloads (`tpm2`),
  and a builder of small PE files used by the tests (`pe::fixtures`).
- `app/` is the firmware side: it talks to UEFI boot and runtime services, allocates memory,
  installs protocols, and performs what the library decides.
- `tests/` exercises the library on concrete inputs.
