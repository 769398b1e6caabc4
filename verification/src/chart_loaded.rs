//! The topology phase of patching a loaded chart: the checks and the
//! structural rewrites that run, as the model asks, before its properties are
//! written into the XML.
use vstd::prelude::*;
use crate::chart_axis_topology::{axes_agree_with_xml, axis_topology, lemma_axis_topology_unchanged, rewrite_loaded_chart_axis_additions};
use crate::chart_model::{validate_volume_stock_chart, volume_stock_failure, ChartGroupModel, ChartModel, SeriesModel};
use crate::chart_patch::{group_properties_patch, lemma_clean_groups_leave_xml_unchanged, patch_loaded_chart_group_properties};
use crate::chart_series_topology::{rewrite_loaded_chart_series_topology, series_topology};
use crate::chart_topology::{
    bytes_error_result, group_additions, group_removals, rewrite_loaded_chart_group_additions,
    rewrite_loaded_chart_group_removals,
};
use crate::errors::{OmError, OmErrorCode};
use crate::package_xml::ErrorView;

verus! {

/// Whether some group of the model was not loaded from the XML.
pub open spec fn has_new_group(chart: ChartModel) -> bool {
    exists|g: int| 0 <= g < chart.groups@.len() && (#[trigger] chart.groups@[g]).loaded_index is None
}

/// Whether the model's series were moved, added, removed or refiltered.
pub open spec fn series_changed(chart: ChartModel) -> bool {
    chart.series_topology_dirty || exists|s: int| 0 <= s < chart.series@.len() && (#[trigger] chart.series@[s]).filter_dirty
}

/// Whether some group of the model has changed properties.
pub open spec fn has_dirty_group(chart: ChartModel) -> bool {
    exists|g: int| 0 <= g < chart.groups@.len() && (#[trigger] chart.groups@[g]).dirty
}

/// Runs `f` on the bytes of a success when `run` holds; passes failures and
/// skipped steps on unchanged.
pub open spec fn then_if(
    r: Result<Seq<u8>, ErrorView>,
    run: bool,
    f: spec_fn(Seq<u8>) -> Result<Seq<u8>, ErrorView>,
) -> Result<Seq<u8>, ErrorView> {
    match r {
        Err(e) => Err(e),
        Ok(x) => if run {
            f(x)
        } else {
            Ok(x)
        },
    }
}

/// The topology phase of patching a loaded chart's XML: the volume-stock
/// check, then new groups, series topology, group removals, axes and group
/// properties in turn, each step only where the model asks for it and each
/// on the output of the one before.
pub open spec fn loaded_chart_topology(xml: Seq<u8>, chart: ChartModel) -> Result<Seq<u8>, ErrorView> {
    match volume_stock_failure(chart) {
        Some(m) => Err((OmErrorCode::InvalidState, m)),
        None => {
            let a = then_if(Ok(xml), has_new_group(chart), |x: Seq<u8>| group_additions(x, chart));
            let b = then_if(a, series_changed(chart), |x: Seq<u8>| series_topology(x, chart));
            let c = then_if(
                b,
                chart.series_topology_dirty && chart.groups@.len() > 0,
                |x: Seq<u8>| group_removals(x, chart),
            );
            let d = then_if(c, chart.axes@.len() > 0, |x: Seq<u8>| axis_topology(x, chart));
            then_if(d, has_dirty_group(chart), |x: Seq<u8>| group_properties_patch(x, chart))
        },
    }
}

fn any_new_group(groups: &Vec<ChartGroupModel>) -> (r: bool)
    ensures
        r == exists|g: int| 0 <= g < groups@.len() && (#[trigger] groups@[g]).loaded_index is None,
{
    let mut i: usize = 0;
    while i < groups.len()
        invariant
            i <= groups@.len(),
            forall|g: int| 0 <= g < i ==> (#[trigger] groups@[g]).loaded_index is Some,
        decreases groups@.len() - i,
    {
        if groups[i].loaded_index.is_none() {
            return true;
        }
        i += 1;
    }
    false
}

fn any_dirty_group(groups: &Vec<ChartGroupModel>) -> (r: bool)
    ensures
        r == exists|g: int| 0 <= g < groups@.len() && (#[trigger] groups@[g]).dirty,
{
    let mut i: usize = 0;
    while i < groups.len()
        invariant
            i <= groups@.len(),
            forall|g: int| 0 <= g < i ==> !(#[trigger] groups@[g]).dirty,
        decreases groups@.len() - i,
    {
        if groups[i].dirty {
            return true;
        }
        i += 1;
    }
    false
}

fn any_filter_dirty(series: &Vec<SeriesModel>) -> (r: bool)
    ensures
        r == exists|s: int| 0 <= s < series@.len() && (#[trigger] series@[s]).filter_dirty,
{
    let mut i: usize = 0;
    while i < series.len()
        invariant
            i <= series@.len(),
            forall|s: int| 0 <= s < i ==> !(#[trigger] series@[s]).filter_dirty,
        decreases series@.len() - i,
    {
        if series[i].filter_dirty {
            return true;
        }
        i += 1;
    }
    false
}

/// Runs the topology phase of patching a loaded chart's XML: fails on a
/// volume-stock chart whose series do not fit, then adds the model's new
/// groups, rewrites the series topology, removes the groups left without
/// series, brings the axes in line with the model and writes the changed
/// group properties, each step only where the model asks for it.
pub fn rewrite_loaded_chart_topology(existing_chart_xml: &[u8], chart: &ChartModel) -> (r: Result<Vec<u8>, OmError>)
    ensures
        bytes_error_result(r) == loaded_chart_topology(existing_chart_xml@, *chart),
{
    match validate_volume_stock_chart(chart) {
        Ok(()) => {},
        Err(e) => {
            return Err(e);
        },
    }
    let mut xml: Vec<u8> = Vec::new();
    let mut k: usize = 0;
    while k < existing_chart_xml.len()
        invariant
            k <= existing_chart_xml@.len(),
            xml@ == existing_chart_xml@.subrange(0, k as int),
        decreases existing_chart_xml@.len() - k,
    {
        xml.push(existing_chart_xml[k]);
        assert(existing_chart_xml@.subrange(0, k + 1) =~= existing_chart_xml@.subrange(0, k as int).push(existing_chart_xml@[k as int]));
        k += 1;
    }
    assert(existing_chart_xml@.subrange(0, existing_chart_xml@.len() as int) =~= existing_chart_xml@);
    let ghost input = existing_chart_xml@;
    let ghost a = then_if(Ok(input), has_new_group(*chart), |x: Seq<u8>| group_additions(x, *chart));
    if any_new_group(&chart.groups) {
        xml = match rewrite_loaded_chart_group_additions(xml.as_slice(), chart) {
            Ok(x) => x,
            Err(e) => {
                return Err(e);
            },
        };
    }
    assert(a == Ok::<Seq<u8>, ErrorView>(xml@));
    let ghost b = then_if(a, series_changed(*chart), |x: Seq<u8>| series_topology(x, *chart));
    if chart.series_topology_dirty || any_filter_dirty(&chart.series) {
        xml = match rewrite_loaded_chart_series_topology(xml.as_slice(), chart) {
            Ok(x) => x,
            Err(e) => {
                return Err(e);
            },
        };
    }
    assert(b == Ok::<Seq<u8>, ErrorView>(xml@));
    let ghost c = then_if(
        b,
        chart.series_topology_dirty && chart.groups@.len() > 0,
        |x: Seq<u8>| group_removals(x, *chart),
    );
    if chart.series_topology_dirty && chart.groups.len() > 0 {
        xml = match rewrite_loaded_chart_group_removals(xml.as_slice(), chart) {
            Ok(x) => x,
            Err(e) => {
                return Err(e);
            },
        };
    }
    assert(c == Ok::<Seq<u8>, ErrorView>(xml@));
    let ghost d = then_if(c, chart.axes@.len() > 0, |x: Seq<u8>| axis_topology(x, *chart));
    if chart.axes.len() > 0 {
        xml = match rewrite_loaded_chart_axis_additions(xml.as_slice(), chart) {
            Ok(x) => x,
            Err(e) => {
                return Err(e);
            },
        };
    }
    assert(d == Ok::<Seq<u8>, ErrorView>(xml@));
    if any_dirty_group(&chart.groups) {
        xml = match patch_loaded_chart_group_properties(xml.as_slice(), chart) {
            Ok(x) => x,
            Err(e) => {
                return Err(e);
            },
        };
    }
    Ok(xml)
}

/// A loaded chart whose model adds no group, leaves its series as they were
/// loaded, changes no group property, and has the axes of the XML (or none)
/// comes through the topology phase unchanged: the XML is given back as it
/// was read.
pub proof fn lemma_unchanged_model_keeps_xml(input: Seq<u8>, chart: ChartModel)
    requires
        volume_stock_failure(chart) is None,
        !has_new_group(chart),
        !series_changed(chart),
        chart.axes@.len() > 0 ==> axes_agree_with_xml(input, chart),
        !has_dirty_group(chart),
    ensures
        loaded_chart_topology(input, chart) == Ok::<Seq<u8>, ErrorView>(input),
{
    if chart.axes@.len() > 0 {
        lemma_axis_topology_unchanged(input, chart);
    }
}

} // verus!
