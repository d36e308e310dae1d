//! Verified core of the Pax compiler.

pub mod cartridge;
pub mod cartridge_laws;
pub mod command_laws;
pub mod commands;
pub mod component;
pub mod component_laws;
pub mod coproduct;
pub mod coproduct_laws;
pub mod event_laws;
pub mod events;
pub mod factory;
pub mod factory_laws;
pub mod host;
pub mod host_laws;
pub mod indentation_laws;
pub mod layout;
pub mod layout_laws;
pub mod literal_laws;
pub mod literals;
pub mod manifest;
pub mod manifest_laws;
pub mod namespace;
pub mod namespace_laws;
pub mod nesting;
pub mod node_order;
pub mod order;
pub mod prefix_laws;
pub mod prefixes;
pub mod readiness;
pub mod readiness_laws;
pub mod reexport_laws;
pub mod reexports;
pub mod render;
pub mod render_laws;
pub mod step_laws;
pub mod steps;
pub mod table;
pub mod table_laws;
pub mod target;
pub mod target_laws;
pub mod text;
pub mod text_laws;
pub mod visit_laws;
pub mod visits;
