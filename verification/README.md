# MAC Privacy Protection (MPP) Dissector

Wireshark dissector plugin for the MAC Privacy Protection (MPP) protocol
(802.1AEdk), with its logic verified by Verus.

- `src/` is the library. It splits a packet into its MPPDU components and works
  out what the analyser is to show for each: a plan, which is a list of actions
  in the order in which they are to be performed. Frame fragments are numbered
  and keyed there for the analyser's reassembly table.
- `tests/` holds the tests of the library.
- `app/` is the plugin. It registers the protocol with Wireshark, performs the
  plans, and keeps the reassembly table. Building it takes Wireshark 4.6.

`src/component.rs` states what an MPPDU component is, `src/model.rs` what each
component contributes to a plan, and `src/run.rs` what holds of the dissection of
a whole packet.
