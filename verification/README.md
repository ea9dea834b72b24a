# Linux Practice Lab

Linux Practice Lab teaches Linux administration in a local virtual machine: lessons hand the
learner tasks, a guest agent checks the machine's state against each task's validators, and
the desktop side keeps progress, hints and mastery.

This crate holds the logic of the lab, written in Verus and proved against its contracts:

- `catalog`, `lesson`, `registry`, `progression`, `hints`, `feedback`, `dto`, `commands`,
  `state`, `store`, `progress`: the lesson catalogue, what unlocks what, how a check result
  becomes feedback, what the webview is sent (never a solution or an answer key), and how
  progress is recorded (mastery never goes down).
- `validators`, `sys`, `handlers`, `pattern`, `token`: the guest agent's decisions: each
  validator's verdict from what was observed of the machine, the parsers for `/proc`,
  `/etc/passwd` and tool output, and the confinement of lesson paths.
- `qemu`, `qemu_confinement`, `vm`, `vm_manager`, `overlay`, `accel`, `console`, `redact`:
  the virtual machine command line (one serial port, sockets on loopback only, no host
  sharing or port forwarding, the control token never shown, the base image never named),
  sessions and overlays, console summaries, and transcript redaction (ordinary output left
  exactly as it was; redacting twice changes nothing).
- `layout`, `integrity`, `install`, `health`: where the runtime lives, how its files are
  verified (SHA-256 digests from `sha2`), and the installation steps, which make a runtime
  live only after its packaged files and its expanded image have both been verified.

`app/` is the program around the library: the guest agent's control channel and the tools
it runs, and the runtime installer's file work. It reads and writes; the library decides.

Outside crates: `regex` (validator patterns), `rand` (the control token), `sha2` (digests)
and `zstd` (the compressed base image) are called from the library through small trusted
wrappers whose contracts are written beside them; `serde`/`serde_json` parse the JSON forms
in `app/`; `hex` and `anyhow` appear in the tests.
