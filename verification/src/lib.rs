//! Active-content auditing and chart-XML topology logic for XLSX packages.
use vstd::prelude::*;

pub mod errors;
pub mod text;
pub mod kinds;
pub mod parts;
pub mod package;
pub mod removal;
pub mod name_set;
pub mod sort;
pub mod chart_types;
pub mod xml;
pub mod package_xml;
pub mod inventory;
pub mod relationships;
pub mod strip;
pub mod apply_steps;
pub mod roots;
pub mod plan;
pub mod audit;
pub mod chart_model;
pub mod chart_edits;
pub mod chart_sequence;
pub mod chart_topology;
pub mod chart_xml;
pub mod chart_source;
pub mod chart_patch;
pub mod chart_series;
pub mod chart_series_topology;
pub mod chart_axis_topology;
pub mod chart_loaded;
pub mod chart_serialize;
pub mod chart_document;

verus! {

} // verus!
