# finupdate

The logic of a system update frontend for image-based Linux systems (Bluefin,
Universal Blue), written in Verus: executable Rust whose behaviour is stated in
`requires` / `ensures` contracts and proved.

## What is proved

- `version_compare`, `sbom_diff`: the RPM order of versions is a total preorder,
  and a comparison of two images tells of every package in exactly one list.
- `registry_client`: how tags carry dates and streams, which builds of a stream
  are offered, which family an image belongs to, and how the booted image is
  found out.
- `orchestrator`, `bootc_progress`, `app`: the protocol of the update runner, the
  progress of a switch, and the state machine of the updates panel.
- `rebase_target`, `rebase_dialog`, `calendar`: where the switches of the dialog
  lead, and which builds its calendar offers.
- `uupd_compat`, `preferences`, `history_list`, `changelog`, `cli`, `args`, `ffi`:
  what is shown, asked and run, down to the text.

Properties that span functions are public proof functions whose names begin with
`law_`.

## What is believed

The contracts of the calls into `chrono`, `serde_json`, `oci_client` and two
functions of the standard library. They stand in `date.rs`, `json.rs`,
`sbom_source.rs`, `bootc_progress.rs` and `text.rs`, each with a comment that
says what it claims.

## Layout

- `src/` — the library.
- `tests/` — its tests.
- `app/` — ordinary Rust around it: `main.rs` is the command line program and the
  C interface, `gui.rs` the desktop program with the widgets for C, which needs
  relm4 with libadwaita.
