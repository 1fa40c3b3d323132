//! Dissection of MAC Privacy protection Protocol Data Units (MPPDUs), the
//! protocol of IEEE 802.1AEdk.
//!
//! The crate decides everything a packet analyser shows for such a packet: how
//! the octets split into components, which tree items and texts each component
//! gets, what goes to the packet list columns, and how frame fragments are
//! handed to a reassembly table. It touches no analyser itself. Each step
//! yields a [`plan::Plan`], a list of actions in the order in which the host is
//! to perform them.

pub mod appearance;
pub mod component;
pub mod dissector;
pub mod encoding;
pub mod error;
pub mod fragment;
pub mod guarantees;
pub mod mac_addr;
pub mod model;
pub mod mppdu;
pub mod naming;
pub mod plan;
pub mod protocol;
pub mod run;
pub mod steps;
pub mod text;
pub mod tvb;
