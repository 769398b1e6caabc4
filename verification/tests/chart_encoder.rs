use excel_xlsx::chart_axis_topology::rewrite_loaded_chart_axis_additions;
use excel_xlsx::chart_edits::apply_loaded_chart_xml_edits;
use excel_xlsx::chart_loaded::rewrite_loaded_chart_topology;
use excel_xlsx::chart_serialize::chart_series_xml_for_axis_group;
use excel_xlsx::chart_document::{check_chart_xml_converges, serialize_chart_model_xml};
use excel_xlsx::chart_model::{
    chart_axis_display_unit_label_text, chart_explosion_xml_value, ChartAxisDisplayUnit,
    chart_axis_cross_target_id, chart_group_direct_property_value,
    chart_group_index_for_series_raw_index, chart_group_line_flag, chart_group_overlay_is_stable,
    validate_volume_stock_chart, AxisModel, ChartDataLabelsModel, ChartDataTableModel,
    ChartGroupModel, ChartLegendModel, ChartModel, ChartProtectionModel, ChartView3DModel, SeriesModel,
};
use excel_xlsx::chart_source::{
    chart_source_container_xml_string, chart_source_literal_values, find_cell_value_text, om_value_text, CellValue,
    ChartSourceExpr, ChartSourceXmlSlot, OmValue, ReferenceTarget,
};
use excel_xlsx::chart_sequence::{loaded_chart_group_sequence, LoadedChartGroupSequenceToken};
use excel_xlsx::chart_topology::{
    rewrite_loaded_chart_group_additions, rewrite_loaded_chart_group_removals,
    scan_loaded_chart_group_xml_topology,
};
use excel_xlsx::chart_types::{
    chart_axis_between_categories_xml_value, chart_axis_orientation_xml_value,
    chart_group_child_precedes_series, chart_group_direct_property_name, chart_group_xml_name,
    chart_type_from_group_name, is_chart_filtered_series_wrapper_name, ChartAxisGroup,
    ChartAxisKind, ChartBarShape, ChartBuiltInDisplayUnit, ChartDataLabelPosition, ChartMarkerStyle,
    ChartLegendPosition, ChartSplitType, ChartType,
};
use excel_xlsx::chart_xml::{
    chart_series_data_labels_xml_string, write_chart_data_table_element,
    write_chart_protection_element, write_chart_view_3d_element,
    chart_data_labels_xml_string, chart_data_table_xml_string, chart_protection_xml,
    chart_view_3d_xml_string, serialize_loaded_chart_axis_shell,
    serialize_loaded_chart_group_shell,
};
use excel_xlsx::chart_patch::{
    copy_chart_xml_subtree, element_val_attribute, patch_loaded_chart_group_properties,
    rewrite_chart_group_val_element,
};
use excel_xlsx::chart_series::{chart_extension_without_full_reference, rewrite_chart_series_outer_name};
use excel_xlsx::chart_series_topology::{parse_u32_text, rewrite_loaded_chart_series_topology};
use excel_xlsx::errors::OmErrorCode;
use excel_xlsx::xml::{XmlEventKind, XmlReader};
use excel_xlsx::text::{decimal_text, signed_decimal_text};

const CHART_NS: &str = "http://schemas.openxmlformats.org/drawingml/2006/chart";

fn group(raw_name: &str, loaded_index: Option<usize>) -> ChartGroupModel {
    ChartGroupModel {
        raw_name: raw_name.to_string(),
        loaded_index,
        axis_group: ChartAxisGroup::Primary,
        series_raw_indices: Vec::new(),
        axis_ids: Vec::new(),
        bar_direction: None,
        chart_grouping: None,
        scatter_style: None,
        radar_style: None,
        of_pie_type: None,
        surface_wireframe: None,
        vary_by_categories: None,
        line_has_markers: None,
        gap_width: None,
        gap_depth: None,
        overlap: None,
        first_slice_angle: None,
        bubble_scale: None,
        show_negative_bubbles: None,
        has_3d_shading: None,
        doughnut_hole_size: None,
        second_plot_size: None,
        size_represents: None,
        split_type: None,
        split_value_text: None,
        bar_shape: None,
        has_series_lines: None,
        has_drop_lines: None,
        has_hi_lo_lines: None,
        has_up_down_bars: None,
        data_labels: None,
        dirty: false,
    }
}

fn labels() -> ChartDataLabelsModel {
    ChartDataLabelsModel {
        number_format: None,
        number_format_linked: None,
        position: None,
        show_legend_key: None,
        has_leader_lines: None,
        show_series_name: None,
        show_category_name: None,
        show_value: None,
        show_percentage: None,
        show_bubble_size: None,
        separator: None,
        dirty: false,
    }
}

fn axis(kind: ChartAxisKind, axis_group: ChartAxisGroup, raw_id: Option<&str>) -> AxisModel {
    AxisModel {
        kind,
        axis_group,
        raw_id: raw_id.map(|s| s.to_string()),
        cross_axis_raw_id: None,
        deleted: None,
        display_unit: None,
        display_unit_label: None,
        has_display_unit_label: None,
        logarithmic_scale: false,
        log_base_text: None,
        minimum_scale_text: None,
        maximum_scale_text: None,
        reverse_plot_order: None,
        title_text: None,
        has_major_gridlines: None,
        has_minor_gridlines: None,
        major_tick_mark: None,
        minor_tick_mark: None,
        tick_label_position: None,
        tick_label_number_format: None,
        tick_label_number_format_linked: None,
        tick_label_spacing: None,
        tick_mark_spacing: None,
        major_unit_text: None,
        minor_unit_text: None,
        crosses_at_text: None,
        crosses: None,
        axis_between_categories: None,
        category_type_auto: None,
        base_unit: None,
        major_unit_scale: None,
        minor_unit_scale: None,
    }
}

fn chart(chart_type: ChartType, groups: Vec<ChartGroupModel>) -> ChartModel {
    ChartModel {
        chart_type,
        groups,
        axes: Vec::new(),
        series: Vec::new(),
        explosion: None,
        series_topology_dirty: false,
        vary_by_categories: None,
        bar_shape: None,
        gap_width: None,
        gap_depth: None,
        overlap: None,
        has_series_lines: None,
        has_drop_lines: None,
        has_hi_lo_lines: None,
        has_up_down_bars: None,
        first_slice_angle: None,
        bubble_scale: None,
        show_negative_bubbles: None,
        has_3d_shading: None,
        doughnut_hole_size: None,
        second_plot_size: None,
        size_represents: None,
        split_type: None,
        split_value_text: None,
        data_labels: None,
        title_text: None,
        legend: None,
        plot_visible_only: None,
        display_blanks_as: None,
        show_data_labels_over_maximum: None,
        view_3d: None,
        rounded_corners: None,
        style: None,
        protection: None,
        data_table: None,
        plot_area_layout: None,
    }
}

fn series(raw_index: Option<u32>, axis_group: ChartAxisGroup, order: Option<u32>) -> SeriesModel {
    SeriesModel {
        raw_index,
        axis_group,
        order,
        is_filtered: false,
        filter_dirty: false,
        data_labels: None,
        point_data_labels: Vec::new(),
        point_explosions: Vec::new(),
        marker_style: None,
        marker_size: None,
        name: None,
        x_values: None,
        values: None,
        bubble_size: None,
        invert_if_negative: None,
        bar_shape: None,
        smooth: None,
    }
}

fn chars(s: &str) -> Vec<char> {
    s.chars().collect()
}

const LOADED_XML: &str = r#"<c:chartSpace xmlns:c="http://schemas.openxmlformats.org/drawingml/2006/chart"><c:chart><c:plotArea><c:layout/><c:barChart><c:barDir val="col"/><c:axId val="1"/><c:axId val="2"/></c:barChart><c:lineChart><c:axId val="1"/><c:axId val="2"/></c:lineChart><c:catAx><c:axId val="1"/></c:catAx><c:valAx><c:axId val="2"/></c:valAx></c:plotArea></c:chart></c:chartSpace>"#;

fn span(xml: &str, open: &str, close: &str) -> (usize, usize) {
    let start = xml.find(open).expect("open tag");
    let end = xml.find(close).expect("close tag") + close.len();
    (start, end)
}

#[test]
fn topology_scan_finds_group_spans_first_axis_and_plot_area_end() {
    let topology = scan_loaded_chart_group_xml_topology(LOADED_XML.as_bytes()).expect("topology");
    assert_eq!(topology.groups.len(), 2);
    let (bar_start, bar_end) = span(LOADED_XML, "<c:barChart>", "</c:barChart>");
    let (line_start, line_end) = span(LOADED_XML, "<c:lineChart>", "</c:lineChart>");
    assert_eq!(topology.groups[0].raw_name, b"barChart".to_vec());
    assert_eq!((topology.groups[0].start, topology.groups[0].end), (bar_start, bar_end));
    assert_eq!(topology.groups[1].raw_name, b"lineChart".to_vec());
    assert_eq!((topology.groups[1].start, topology.groups[1].end), (line_start, line_end));
    assert_eq!(topology.first_axis_start, LOADED_XML.find("<c:catAx>"));
    assert_eq!(topology.plot_area_end, LOADED_XML.find("</c:plotArea>"));
}

#[test]
fn topology_scan_rejects_a_group_without_end() {
    let xml = r#"<c:plotArea xmlns:c="urn:c"><c:barChart></c:plotArea>"#;
    let error = scan_loaded_chart_group_xml_topology(xml.as_bytes()).err().expect("unclosed group");
    assert_eq!(error.code, OmErrorCode::Parse);
}

#[test]
fn group_sequence_keeps_loaded_groups_and_places_additions() {
    let names = vec![b"barChart".to_vec(), b"areaChart".to_vec(), b"lineChart".to_vec()];
    let model = chart(
        ChartType::Bar,
        vec![group("barChart", Some(0)), group("areaChart", None), group("lineChart", Some(1))],
    );
    let sequence = loaded_chart_group_sequence(&names, &model).expect("sequence");
    assert_eq!(
        sequence.tokens,
        vec![
            LoadedChartGroupSequenceToken::Original(0),
            LoadedChartGroupSequenceToken::Added(1),
            LoadedChartGroupSequenceToken::Original(1),
        ]
    );
    assert_eq!(sequence.model_to_xml, vec![0, 1, 2]);
    assert_eq!(sequence.surviving_original_groups, vec![true, true]);

    let dropped = chart(ChartType::Line, vec![group("lineChart", Some(1))]);
    let sequence = loaded_chart_group_sequence(&vec![b"barChart".to_vec(), b"lineChart".to_vec()], &dropped)
        .expect("sequence without the bar group");
    assert_eq!(sequence.surviving_original_groups, vec![false, true]);
    assert_eq!(sequence.model_to_xml, vec![1]);
}

#[test]
fn group_sequence_reports_each_failure() {
    let too_many_added = chart(ChartType::Bar, vec![group("barChart", None), group("lineChart", None)]);
    let error = loaded_chart_group_sequence(&vec![b"barChart".to_vec()], &too_many_added)
        .err()
        .expect("fewer groups");
    assert_eq!(error.code, OmErrorCode::InvalidState);
    assert_eq!(error.message, "loaded chart has fewer XML groups than runtime additions");

    let twice = chart(ChartType::Bar, vec![group("barChart", Some(0)), group("barChart", Some(0))]);
    let error = loaded_chart_group_sequence(&vec![b"barChart".to_vec(), b"barChart".to_vec()], &twice)
        .err()
        .expect("identity taken twice");
    assert_eq!(error.code, OmErrorCode::Unsupported);
    assert_eq!(error.message, "loaded chart group identity changed before topology patching");

    let renamed = chart(ChartType::Bar, vec![group("barChart", Some(0))]);
    let error = loaded_chart_group_sequence(&vec![b"lineChart".to_vec()], &renamed)
        .err()
        .expect("renamed group");
    assert_eq!(error.code, OmErrorCode::Unsupported);
    assert_eq!(error.message, "loaded chart group identity changed before topology patching");

    let renamed_addition = chart(ChartType::Bar, vec![group("areaChart", None)]);
    let error = loaded_chart_group_sequence(&vec![b"lineChart".to_vec()], &renamed_addition)
        .err()
        .expect("renamed addition");
    assert_eq!(error.message, "runtime-added chart group identity changed before topology patching");
}

#[test]
fn group_removal_cuts_the_dropped_group_out() {
    let model = chart(ChartType::Line, vec![group("lineChart", Some(1))]);
    let rewritten = rewrite_loaded_chart_group_removals(LOADED_XML.as_bytes(), &model).expect("removal");
    let (bar_start, bar_end) = span(LOADED_XML, "<c:barChart>", "</c:barChart>");
    let expected = format!("{}{}", &LOADED_XML[..bar_start], &LOADED_XML[bar_end..]);
    assert_eq!(String::from_utf8(rewritten).expect("utf8"), expected);

    let unchanged = chart(ChartType::Bar, vec![group("barChart", Some(0)), group("lineChart", Some(1))]);
    assert_eq!(
        rewrite_loaded_chart_group_removals(LOADED_XML.as_bytes(), &unchanged).expect("no removal"),
        LOADED_XML.as_bytes().to_vec()
    );
}

#[test]
fn group_addition_inserts_the_shell_before_the_next_loaded_group() {
    let mut added = group("areaChart", None);
    added.axis_ids = vec!["1".to_string(), "2".to_string()];
    let model = chart(
        ChartType::Bar,
        vec![group("barChart", Some(0)), added, group("lineChart", Some(1))],
    );
    let rewritten = rewrite_loaded_chart_group_additions(LOADED_XML.as_bytes(), &model).expect("addition");
    let position = LOADED_XML.find("<c:lineChart>").expect("line");
    let shell = format!(
        r#"<c:areaChart xmlns:c="{CHART_NS}"><c:axId val="1"/><c:axId val="2"/></c:areaChart>"#
    );
    let expected = format!("{}{}{}", &LOADED_XML[..position], shell, &LOADED_XML[position..]);
    assert_eq!(String::from_utf8(rewritten).expect("utf8"), expected);

    let mut trailing = group("areaChart", None);
    trailing.axis_ids = vec!["1".to_string()];
    let model = chart(
        ChartType::Bar,
        vec![group("barChart", Some(0)), group("lineChart", Some(1)), trailing],
    );
    let rewritten = rewrite_loaded_chart_group_additions(LOADED_XML.as_bytes(), &model).expect("tail addition");
    let position = LOADED_XML.find("<c:catAx>").expect("first axis");
    let shell = format!(r#"<c:areaChart xmlns:c="{CHART_NS}"><c:axId val="1"/></c:areaChart>"#);
    let expected = format!("{}{}{}", &LOADED_XML[..position], shell, &LOADED_XML[position..]);
    assert_eq!(String::from_utf8(rewritten).expect("utf8"), expected);
}

#[test]
fn group_addition_rejects_changed_identities_and_unknown_groups() {
    let model = chart(ChartType::Bar, vec![group("pieChart", Some(0)), group("areaChart", None)]);
    let error = rewrite_loaded_chart_group_additions(LOADED_XML.as_bytes(), &model)
        .err()
        .expect("identity changed");
    assert_eq!(error.code, OmErrorCode::Unsupported);
    assert_eq!(error.message, "loaded chart group identity changed before group insertion");

    let model = chart(ChartType::Bar, vec![group("barChart", Some(0)), group("fancyChart", None)]);
    let error = rewrite_loaded_chart_group_additions(LOADED_XML.as_bytes(), &model)
        .err()
        .expect("unknown group type");
    assert_eq!(error.message, "new loaded chart groups require a recognized chart-group type");

    let model = chart(ChartType::Bar, vec![group("barChart", Some(0)), group("areaChart", None)]);
    let error = rewrite_loaded_chart_group_additions(LOADED_XML.as_bytes(), &model)
        .err()
        .expect("no axes");
    assert_eq!(error.message, "new loaded chart groups require existing target axis identifiers");
}

#[test]
fn edits_splice_ranges_in_order_and_reject_overlaps() {
    let xml = b"0123456789";
    let rewritten = apply_loaded_chart_xml_edits(
        xml,
        vec![(6, 8, b"x".to_vec()), (1, 3, b"AB".to_vec()), (3, 3, b"-".to_vec())],
        "test",
    )
    .expect("edits");
    assert_eq!(rewritten, b"0AB-345x89".to_vec());
    assert_eq!(apply_loaded_chart_xml_edits(xml, Vec::new(), "test").expect("no edits"), xml.to_vec());
    let error = apply_loaded_chart_xml_edits(xml, vec![(1, 5, Vec::new()), (4, 6, Vec::new())], "test")
        .err()
        .expect("overlap");
    assert_eq!(error.code, OmErrorCode::InvalidState);
    assert_eq!(error.message, "loaded chart test XML edits overlap");
    let error = apply_loaded_chart_xml_edits(xml, vec![(8, 11, Vec::new())], "tail")
        .err()
        .expect("past the end");
    assert_eq!(error.message, "loaded chart tail XML edits overlap");
}

#[test]
fn group_shell_writes_properties_in_schema_order() {
    let mut bar = group("bar3DChart", None);
    bar.bar_direction = Some("col".to_string());
    bar.chart_grouping = Some("clustered".to_string());
    bar.vary_by_categories = Some(false);
    bar.gap_width = Some(150);
    bar.overlap = Some(-20);
    bar.split_type = Some(ChartSplitType::Position);
    bar.split_value_text = Some("a&b".to_string());
    bar.bar_shape = Some(ChartBarShape::Box);
    bar.has_series_lines = Some(true);
    bar.has_drop_lines = Some(false);
    let mut data_labels = labels();
    data_labels.show_value = Some(true);
    bar.data_labels = Some(data_labels);
    bar.axis_ids = vec!["10".to_string(), "20".to_string()];
    let shell = serialize_loaded_chart_group_shell(&bar).expect("shell");
    let expected = [
        format!(r#"<c:bar3DChart xmlns:c="{CHART_NS}">"#),
        r#"<c:barDir val="col"/><c:grouping val="clustered"/><c:varyColors val="0"/>"#.to_string(),
        r#"<c:dLbls><c:showVal val="1"/></c:dLbls>"#.to_string(),
        r#"<c:gapWidth val="150"/><c:overlap val="-20"/><c:splitType val="pos"/><c:splitPos val="a&amp;b"/>"#.to_string(),
        r#"<c:shape val="box"/><c:serLines/>"#.to_string(),
        r#"<c:axId val="10"/><c:axId val="20"/></c:bar3DChart>"#.to_string(),
    ]
    .concat();
    assert_eq!(String::from_utf8(shell).expect("utf8"), expected);
}

#[test]
fn axis_shell_names_its_id_and_crossing() {
    let mut model = chart(ChartType::Bar, Vec::new());
    model.axes = vec![
        axis(ChartAxisKind::Category, ChartAxisGroup::Primary, Some("1")),
        axis(ChartAxisKind::Value, ChartAxisGroup::Primary, Some("2")),
    ];
    let mut value = axis(ChartAxisKind::Value, ChartAxisGroup::Primary, Some("2"));
    value.deleted = Some(true);
    let shell = serialize_loaded_chart_axis_shell(&model, &value).expect("axis shell");
    assert_eq!(
        String::from_utf8(shell).expect("utf8"),
        format!(r#"<c:valAx xmlns:c="{CHART_NS}"><c:axId val="2"/><c:delete val="1"/><c:crossAx val="1"/></c:valAx>"#)
    );
    let anonymous = axis(ChartAxisKind::Value, ChartAxisGroup::Primary, None);
    let error = serialize_loaded_chart_axis_shell(&model, &anonymous).err().expect("no id");
    assert_eq!(error.code, OmErrorCode::InvalidState);
    assert_eq!(error.message, "new loaded chart axes require a stable axis identity");
}

#[test]
fn cross_target_prefers_the_loaded_crossing_then_falls_back() {
    let axes = vec![
        axis(ChartAxisKind::Category, ChartAxisGroup::Primary, Some("1")),
        axis(ChartAxisKind::Value, ChartAxisGroup::Primary, Some("2")),
        axis(ChartAxisKind::Value, ChartAxisGroup::Secondary, Some("3")),
    ];
    let mut secondary_category = axis(ChartAxisKind::Category, ChartAxisGroup::Secondary, Some("4"));
    assert_eq!(chart_axis_cross_target_id(&axes, &secondary_category), Some("3".to_string()));
    secondary_category.cross_axis_raw_id = Some("2".to_string());
    assert_eq!(chart_axis_cross_target_id(&axes, &secondary_category), Some("2".to_string()));
    secondary_category.cross_axis_raw_id = Some("99".to_string());
    assert_eq!(chart_axis_cross_target_id(&axes, &secondary_category), Some("3".to_string()));
    let secondary_value = axis(ChartAxisKind::Value, ChartAxisGroup::Secondary, Some("3"));
    assert_eq!(chart_axis_cross_target_id(&axes, &secondary_value), Some("1".to_string()));
    assert_eq!(chart_axis_cross_target_id(&Vec::new(), &secondary_value), None);
}

#[test]
fn overlay_is_stable_only_for_a_consistent_grouping() {
    let mut bar = group("barChart", Some(0));
    bar.series_raw_indices = vec![0, 1];
    let mut line = group("lineChart", Some(1));
    line.axis_group = ChartAxisGroup::Secondary;
    line.series_raw_indices = vec![2];
    let mut model = chart(ChartType::Bar, vec![bar, line]);
    model.series = vec![
        series(Some(0), ChartAxisGroup::Primary, None),
        series(Some(1), ChartAxisGroup::Primary, None),
        series(Some(2), ChartAxisGroup::Secondary, None),
    ];
    assert!(chart_group_overlay_is_stable(&model));
    model.series[2].axis_group = ChartAxisGroup::Primary;
    assert!(!chart_group_overlay_is_stable(&model));
    model.series[2].axis_group = ChartAxisGroup::Secondary;
    model.series.push(series(Some(3), ChartAxisGroup::Primary, None));
    assert!(!chart_group_overlay_is_stable(&model));
    model.series.pop();
    model.series[1].raw_index = None;
    assert!(!chart_group_overlay_is_stable(&model));
    assert!(!chart_group_overlay_is_stable(&chart(ChartType::Bar, Vec::new())));
}

#[test]
fn series_raw_index_has_exactly_one_owning_group() {
    let mut bar = group("barChart", Some(0));
    bar.series_raw_indices = vec![0, 7];
    let mut line = group("lineChart", Some(1));
    line.series_raw_indices = vec![2, 7];
    let model = chart(ChartType::Bar, vec![bar, line]);
    assert_eq!(chart_group_index_for_series_raw_index(&model, 0).expect("bar"), 0);
    assert_eq!(chart_group_index_for_series_raw_index(&model, 2).expect("line"), 1);
    let error = chart_group_index_for_series_raw_index(&model, 5).err().expect("no owner");
    assert_eq!(error.code, OmErrorCode::InvalidState);
    assert_eq!(error.message, "chart series c:idx 5 has no owning chart group");
    let error = chart_group_index_for_series_raw_index(&model, 7).err().expect("two owners");
    assert_eq!(error.message, "chart series c:idx 7 belongs to multiple chart groups");
}

#[test]
fn volume_stock_charts_need_their_series_and_axes() {
    let mut model = chart(ChartType::StockVHLC, Vec::new());
    model.series = vec![
        series(None, ChartAxisGroup::Primary, None),
        series(None, ChartAxisGroup::Secondary, None),
        series(None, ChartAxisGroup::Secondary, None),
    ];
    let error = validate_volume_stock_chart(&model).err().expect("three series");
    assert_eq!(error.code, OmErrorCode::InvalidState);
    assert_eq!(error.message, "volume stock charts require exactly 4 ordered series");

    model.series.insert(0, series(None, ChartAxisGroup::Secondary, Some(9)));
    let error = validate_volume_stock_chart(&model).err().expect("axes missing");
    assert_eq!(
        error.message,
        "volume stock charts require shared category, primary volume, and secondary price axes"
    );
    model.series[1].order = Some(10);
    let error = validate_volume_stock_chart(&model).err().expect("volume series not first");
    assert_eq!(
        error.message,
        "volume stock charts require the volume series on the primary axis and price series on the secondary axis"
    );
    model.series[1].order = None;
    model.axes = vec![
        axis(ChartAxisKind::Date, ChartAxisGroup::Primary, Some("1")),
        axis(ChartAxisKind::Value, ChartAxisGroup::Primary, Some("2")),
        axis(ChartAxisKind::Value, ChartAxisGroup::Secondary, Some("3")),
    ];
    assert!(validate_volume_stock_chart(&model).is_ok());
    assert!(validate_volume_stock_chart(&chart(ChartType::Line, Vec::new())).is_ok());
}

#[test]
fn numbers_are_written_in_decimal() {
    assert_eq!(decimal_text(0), "0");
    assert_eq!(decimal_text(1234567890), "1234567890");
    assert_eq!(decimal_text(u64::MAX), u64::MAX.to_string());
    assert_eq!(signed_decimal_text(-42), "-42");
    assert_eq!(signed_decimal_text(i64::MIN), i64::MIN.to_string());
    assert_eq!(signed_decimal_text(7), "7");
}

#[test]
fn chart_fragments_are_written_exactly() {
    let mut data_labels = labels();
    data_labels.number_format = Some("0.0\"<x>\"".to_string());
    data_labels.position = Some(ChartDataLabelPosition::OutsideEnd);
    data_labels.show_legend_key = Some(false);
    data_labels.separator = Some("; & ".to_string());
    assert_eq!(
        chart_data_labels_xml_string(&data_labels),
        r#"<c:dLbls><c:numFmt formatCode="0.0"&lt;x&gt;"" sourceLinked="1"/><c:dLblPos val="outEnd"/><c:showLegendKey val="0"/><c:separator>; &amp; </c:separator></c:dLbls>"#
    );
    let table = ChartDataTableModel {
        has_border_horizontal: Some(true),
        has_border_vertical: None,
        has_border_outline: Some(false),
        show_legend_key: None,
    };
    assert_eq!(
        chart_data_table_xml_string(&table),
        r#"<c:dTable><c:showHorzBorder val="1"/><c:showOutline val="0"/></c:dTable>"#
    );
    let protection = ChartProtectionModel {
        contents: true,
        data: false,
        formatting: false,
        selection: true,
        user_interface_only: false,
    };
    assert_eq!(
        chart_protection_xml(protection),
        r#"<c:protection><c:chartObject val="1"/><c:selection val="1"/></c:protection>"#
    );
    let none = ChartProtectionModel {
        contents: false,
        data: false,
        formatting: false,
        selection: false,
        user_interface_only: false,
    };
    assert_eq!(chart_protection_xml(none), "");
    let view = ChartView3DModel {
        elevation: Some(-15),
        height_percent: None,
        rotation: Some(20),
        depth_percent: None,
        right_angle_axes: Some(true),
        perspective: Some(30),
    };
    assert_eq!(
        chart_view_3d_xml_string(&view),
        Some(r#"<c:view3D><c:rotX val="-15"/><c:rotY val="20"/><c:rAngAx val="1"/><c:perspective val="30"/></c:view3D>"#.to_string())
    );
    let empty_view = ChartView3DModel {
        elevation: None,
        height_percent: None,
        rotation: None,
        depth_percent: None,
        right_angle_axes: None,
        perspective: None,
    };
    assert_eq!(chart_view_3d_xml_string(&empty_view), None);
}

#[test]
fn group_property_values_and_line_flags() {
    let mut bar = group("barChart", Some(0));
    bar.gap_width = Some(80);
    bar.overlap = Some(100);
    bar.has_drop_lines = Some(false);
    assert_eq!(chart_group_direct_property_value(&bar, &chars("gapWidth")), Some("80".to_string()));
    assert_eq!(chart_group_direct_property_value(&bar, &chars("overlap")), Some("100".to_string()));
    assert_eq!(chart_group_direct_property_value(&bar, &chars("holeSize")), None);
    assert_eq!(chart_group_direct_property_value(&bar, &chars("barDir")), None);
    assert_eq!(chart_group_line_flag(&bar, &chars("dropLines")), Some(false));
    assert_eq!(chart_group_line_flag(&bar, &chars("serLines")), None);
}

#[test]
fn chart_group_names_round_trip() {
    assert_eq!(chart_group_xml_name(&ChartType::ColumnStacked), Some("barChart"));
    assert_eq!(chart_group_xml_name(&ChartType::Unknown), None);
    assert_eq!(chart_type_from_group_name(&chars("doughnutChart")), Some(ChartType::Doughnut));
    assert_eq!(chart_type_from_group_name(&chars("plotArea")), None);
    assert!(is_chart_filtered_series_wrapper_name(&chars("filteredBarSeries")));
    assert!(!is_chart_filtered_series_wrapper_name(&chars("ser")));
    assert!(chart_group_child_precedes_series(&chars("varyColors")));
    assert!(!chart_group_child_precedes_series(&chars("gapWidth")));
    assert!(chart_group_direct_property_name(&chars("upDownBars")));
    assert!(!chart_group_direct_property_name(&chars("ser")));
    assert_eq!(chart_axis_orientation_xml_value(true), "maxMin");
    assert_eq!(chart_axis_between_categories_xml_value(false), "midCat");
}

#[test]
fn series_sources_are_written_as_literals_or_references() {
    let literal = ChartSourceExpr {
        formula: "=Sheet1!$A$1".to_string(),
        full_reference: None,
        resolved: Some(ReferenceTarget::Array(vec![OmValue::Text("a<b".to_string()), OmValue::Number("2".to_string())])),
    };
    assert_eq!(
        chart_source_container_xml_string(&ChartType::Column, ChartSourceXmlSlot::XValues, &literal).expect("source"),
        r#"<c:cat><c:strLit><c:ptCount val="2"/><c:pt idx="0"><c:v>a&lt;b</c:v></c:pt><c:pt idx="1"><c:v>2</c:v></c:pt></c:strLit></c:cat>"#
    );
    assert_eq!(
        chart_source_container_xml_string(&ChartType::Scatter, ChartSourceXmlSlot::XValues, &literal).expect("source"),
        r#"<c:xVal><c:numLit><c:ptCount val="2"/><c:pt idx="0"><c:v>a&lt;b</c:v></c:pt><c:pt idx="1"><c:v>2</c:v></c:pt></c:numLit></c:xVal>"#
    );
    assert_eq!(
        chart_source_container_xml_string(&ChartType::Column, ChartSourceXmlSlot::Name, &literal).expect("source"),
        "<c:tx><c:v>a&lt;b</c:v></c:tx>"
    );
    let reference = ChartSourceExpr {
        formula: "==Sheet1!$B$1:$B$3".to_string(),
        full_reference: Some("=Sheet1!$B$1:$B$9".to_string()),
        resolved: None,
    };
    assert_eq!(
        chart_source_container_xml_string(&ChartType::Column, ChartSourceXmlSlot::Values, &reference).expect("source"),
        [
            r#"<c:val><c:numRef><c:f>Sheet1!$B$1:$B$3</c:f><c:extLst><c:ext uri="{02D57815-91ED-43cb-92C2-25804820EDAC}">"#,
            r#"<c15:fullRef xmlns:c15="http://schemas.microsoft.com/office/drawing/2012/chart"><c15:sqref>Sheet1!$B$1:$B$9</c15:sqref>"#,
            r#"</c15:fullRef></c:ext></c:extLst></c:numRef></c:val>"#,
        ]
        .concat()
    );
    let name_reference = ChartSourceExpr {
        formula: "Sheet1!$C$1".to_string(),
        full_reference: None,
        resolved: None,
    };
    assert_eq!(
        chart_source_container_xml_string(&ChartType::Line, ChartSourceXmlSlot::Name, &name_reference).expect("source"),
        "<c:tx><c:strRef><c:f>Sheet1!$C$1</c:f></c:strRef></c:tx>"
    );
}

const PATCH_XML: &str = r#"<c:chartSpace xmlns:c="u"><c:chart><c:plotArea><c:barChart><c:barDir val="col"/><c:ser><c:idx val="0"/></c:ser><c:gapWidth val="150"/><c:serLines/><c:axId val="1"/><c:axId val="2"/></c:barChart></c:plotArea></c:chart></c:chartSpace>"#;

fn patched_bar_group() -> ChartGroupModel {
    let mut g = group("barChart", Some(0));
    g.dirty = true;
    g.gap_width = Some(300);
    g.overlap = Some(-10);
    g.vary_by_categories = Some(true);
    g.has_series_lines = Some(false);
    g.axis_ids = vec!["7".to_string(), "8".to_string()];
    g
}

#[test]
fn group_property_patch_rewrites_inserts_and_drops() {
    let model = chart(ChartType::Bar, vec![patched_bar_group()]);
    let out = patch_loaded_chart_group_properties(PATCH_XML.as_bytes(), &model).expect("patch");
    let expected = r#"<c:chartSpace xmlns:c="u"><c:chart><c:plotArea><c:barChart><c:barDir val="col"/><c:varyColors val="1"/><c:ser><c:idx val="0"/></c:ser><c:gapWidth val="300"/><c:overlap val="-10"/><c:axId val="7"/><c:axId val="8"/></c:barChart></c:plotArea></c:chart></c:chartSpace>"#;
    assert_eq!(String::from_utf8(out).unwrap(), expected);
}

#[test]
fn group_property_patch_leaves_clean_models_alone() {
    let mut g = patched_bar_group();
    g.dirty = false;
    let model = chart(ChartType::Bar, vec![g]);
    let out = patch_loaded_chart_group_properties(PATCH_XML.as_bytes(), &model).expect("patch");
    assert_eq!(out, PATCH_XML.as_bytes());
    let empty = chart(ChartType::Bar, Vec::new());
    let out = patch_loaded_chart_group_properties(b"not xml <", &empty).expect("patch");
    assert_eq!(out, b"not xml <");
}

#[test]
fn group_property_patch_reports_changed_identities() {
    let mut wrong = patched_bar_group();
    wrong.raw_name = "lineChart".to_string();
    let err = patch_loaded_chart_group_properties(PATCH_XML.as_bytes(), &chart(ChartType::Bar, vec![wrong])).unwrap_err();
    assert_eq!(err.code, OmErrorCode::Unsupported);
    assert_eq!(err.message, "loaded chart group order or type changed before lossless property patch");

    let extra = chart(ChartType::Bar, vec![patched_bar_group(), patched_bar_group()]);
    let err = patch_loaded_chart_group_properties(PATCH_XML.as_bytes(), &extra).unwrap_err();
    assert_eq!(err.message, "loaded chart group count changed before lossless property patch");

    let mut short = patched_bar_group();
    short.axis_ids = vec!["7".to_string()];
    let err = patch_loaded_chart_group_properties(PATCH_XML.as_bytes(), &chart(ChartType::Bar, vec![short])).unwrap_err();
    assert_eq!(err.message, "loaded chart group axis reference count changed before lossless property patch");

    let mut long = patched_bar_group();
    long.axis_ids.push("9".to_string());
    let err = patch_loaded_chart_group_properties(PATCH_XML.as_bytes(), &chart(ChartType::Bar, vec![long])).unwrap_err();
    assert_eq!(err.message, "loaded chart group axis reference count changed before lossless property patch");
}

#[test]
fn group_property_patch_replaces_changed_data_labels() {
    let xml = r#"<c:plotArea><c:pieChart><c:dLbls><c:showVal val="0"/></c:dLbls><c:firstSliceAng val="0"/></c:pieChart></c:plotArea>"#;
    let mut g = group("pieChart", Some(0));
    g.dirty = true;
    let changed = || {
        let mut l = labels();
        l.dirty = true;
        l.show_value = Some(true);
        l
    };
    g.data_labels = Some(changed());
    g.first_slice_angle = Some(90);
    let out = patch_loaded_chart_group_properties(xml.as_bytes(), &chart(ChartType::Pie, vec![g])).expect("patch");
    let expected = format!(
        "<c:plotArea><c:pieChart>{}<c:firstSliceAng val=\"90\"/></c:pieChart></c:plotArea>",
        chart_data_labels_xml_string(&changed())
    );
    assert_eq!(String::from_utf8(out).unwrap(), expected);
}

#[test]
fn val_rewrite_keeps_other_attributes_and_adds_a_missing_val() {
    let xml = br#"<c:gapWidth a="x&amp;y" val="1"/><c:overlap/>"#;
    let mut reader = XmlReader::new(xml, false);
    let first = reader.read_event().expect("event");
    assert_eq!(first.kind, XmlEventKind::Empty);
    let out = rewrite_chart_group_val_element(&first.handle, &first.name, "2<3").expect("rewrite");
    assert_eq!(String::from_utf8(out).unwrap(), r#"c:gapWidth a="x&amp;y" val="2&lt;3""#);
    let second = reader.read_event().expect("event");
    let out = rewrite_chart_group_val_element(&second.handle, &second.name, "5").expect("rewrite");
    assert_eq!(String::from_utf8(out).unwrap(), r#"c:overlap val="5""#);
}

#[test]
fn explosion_defaults_for_exploded_pies_only() {
    assert_eq!(chart_explosion_xml_value(&chart(ChartType::Pie, Vec::new())), None);
    assert_eq!(chart_explosion_xml_value(&chart(ChartType::PieExploded, Vec::new())), Some("25".to_string()));
    assert_eq!(chart_explosion_xml_value(&chart(ChartType::DoughnutExploded, Vec::new())), Some("25".to_string()));
    let mut pie = chart(ChartType::Pie3D, Vec::new());
    pie.explosion = Some(12);
    assert_eq!(chart_explosion_xml_value(&pie), Some("12".to_string()));
    let mut bar = chart(ChartType::Bar, Vec::new());
    bar.explosion = Some(12);
    assert_eq!(chart_explosion_xml_value(&bar), None);
}

#[test]
fn display_unit_labels_prefer_the_label_text() {
    let mut a = axis(ChartAxisKind::Value, ChartAxisGroup::Primary, Some("1"));
    assert_eq!(chart_axis_display_unit_label_text(&a), "");
    a.display_unit = Some(ChartAxisDisplayUnit::BuiltIn(ChartBuiltInDisplayUnit::ThousandMillions));
    assert_eq!(chart_axis_display_unit_label_text(&a), "Billions");
    a.display_unit = Some(ChartAxisDisplayUnit::BuiltIn(ChartBuiltInDisplayUnit::TenThousands));
    assert_eq!(chart_axis_display_unit_label_text(&a), "Ten Thousands");
    a.display_unit = Some(ChartAxisDisplayUnit::Custom("2.5".to_string()));
    assert_eq!(chart_axis_display_unit_label_text(&a), "2.5");
    a.display_unit_label = Some("Units".to_string());
    assert_eq!(chart_axis_display_unit_label_text(&a), "Units");
}

#[test]
fn series_data_labels_list_points_then_series_settings() {
    let mut s = series(Some(0), ChartAxisGroup::Primary, None);
    assert_eq!(chart_series_data_labels_xml_string(&s), "");
    let mut point = labels();
    point.show_value = Some(true);
    s.point_data_labels.push((2, point));
    let mut whole = labels();
    whole.show_legend_key = Some(false);
    s.data_labels = Some(whole);
    assert_eq!(
        chart_series_data_labels_xml_string(&s),
        r#"<c:dLbls><c:dLbl><c:idx val="2"/><c:showVal val="1"/></c:dLbl><c:showLegendKey val="0"/></c:dLbls>"#
    );
}

#[test]
fn fragment_writers_append_the_same_bytes() {
    let mut out = b"<x>".to_vec();
    let table = ChartDataTableModel {
        has_border_horizontal: None,
        has_border_vertical: Some(true),
        has_border_outline: None,
        show_legend_key: Some(false),
    };
    write_chart_data_table_element(&mut out, &table);
    assert_eq!(out, br#"<x><c:dTable><c:showVertBorder val="1"/><c:showKeys val="0"/></c:dTable>"#.to_vec());
    let mut out = Vec::new();
    let none = ChartProtectionModel { contents: false, data: false, formatting: false, selection: false, user_interface_only: false };
    assert!(!write_chart_protection_element(&mut out, none));
    assert!(out.is_empty());
    let some = ChartProtectionModel { contents: false, data: true, formatting: false, selection: false, user_interface_only: true };
    assert!(write_chart_protection_element(&mut out, some));
    assert_eq!(out, br#"<c:protection><c:data val="1"/><c:userInterface val="1"/></c:protection>"#.to_vec());
    let mut out = Vec::new();
    let view = ChartView3DModel { elevation: None, height_percent: Some(100), rotation: None, depth_percent: None, right_angle_axes: None, perspective: None };
    assert!(write_chart_view_3d_element(&mut out, &view));
    assert_eq!(out, br#"<c:view3D><c:hPercent val="100"/></c:view3D>"#.to_vec());
    let empty = ChartView3DModel { elevation: None, height_percent: None, rotation: None, depth_percent: None, right_angle_axes: None, perspective: None };
    let mut out = Vec::new();
    assert!(!write_chart_view_3d_element(&mut out, &empty));
    assert!(out.is_empty());
}

#[test]
fn val_attribute_is_decoded_or_absent() {
    let xml = br#"<c:a val="x&amp;y"/><c:b other="1"/>"#;
    let mut reader = XmlReader::new(xml, false);
    let first = reader.read_event().expect("event");
    assert_eq!(element_val_attribute(&first.handle).expect("ok"), Some("x&y".to_string()));
    let second = reader.read_event().expect("event");
    assert_eq!(element_val_attribute(&second.handle).expect("ok"), None);
}

#[test]
fn extension_drops_full_references() {
    let xml = br#"<c:ext uri="u"><c15:fullRef><c15:sqref>A1</c15:sqref></c15:fullRef><c15:other/></c:ext>"#;
    let out = chart_extension_without_full_reference(xml).expect("ok").expect("kept");
    assert_eq!(out, br#"<c:ext uri="u"><c15:other/></c:ext>"#.to_vec());
    let only = br#"<c:ext uri="u"><c15:fullRef><c15:sqref>A1</c15:sqref></c15:fullRef></c:ext>"#;
    assert_eq!(chart_extension_without_full_reference(only).expect("ok"), None);
    let empty_ref = br#"<c:ext><c15:fullRef/></c:ext>"#;
    assert_eq!(chart_extension_without_full_reference(empty_ref).expect("ok"), None);
}

#[test]
fn series_outer_name_is_replaced() {
    let xml = br#"<c15:ser xmlns:c15="n"><c:idx val="1"/><c:tx><c:ser/></c:tx></c15:ser>"#;
    let out = rewrite_chart_series_outer_name(xml, "c:ser").expect("ok");
    assert_eq!(
        String::from_utf8(out).unwrap(),
        r#"<c:ser xmlns:c15="n" xmlns:c="http://schemas.openxmlformats.org/drawingml/2006/chart"><c:idx val="1"/><c:tx><c:ser/></c:tx></c:ser>"#
    );
    let plain = br#"<c:ser xmlns:c="n"><c:idx val="1"/></c:ser>"#;
    let out = rewrite_chart_series_outer_name(plain, "c15:ser").expect("ok");
    assert_eq!(String::from_utf8(out).unwrap(), r#"<c15:ser xmlns:c="n"><c:idx val="1"/></c15:ser>"#);
    let out = rewrite_chart_series_outer_name(plain, "c:ser").expect("ok");
    assert_eq!(String::from_utf8(out).unwrap(), r#"<c:ser xmlns:c="n"><c:idx val="1"/></c:ser>"#);
}

const TOPOLOGY_XML: &str = r#"<c:chartSpace xmlns:c="C"><c:chart><c:plotArea><c:barChart><c:barDir val="col"/><c:ser><c:idx val="0"/><c:order val="0"/></c:ser><c:ser><c:idx val="1"/><c:order val="1"/></c:ser><c:axId val="1"/></c:barChart><c:lineChart><c:ser><c:idx val="2"/></c:ser><c:axId val="1"/></c:lineChart></c:plotArea></c:chart></c:chartSpace>"#;

fn topology_model(bar_indices: Vec<u32>, line_indices: Vec<u32>, raws: Vec<u32>) -> ChartModel {
    let mut bar = group("barChart", Some(0));
    bar.series_raw_indices = bar_indices;
    let mut line = group("lineChart", Some(1));
    line.series_raw_indices = line_indices;
    let mut model = chart(ChartType::Bar, vec![bar, line]);
    model.series = raws.into_iter().map(|r| series(Some(r), ChartAxisGroup::Primary, None)).collect();
    model
}

#[test]
fn series_topology_moves_and_adds_series() {
    let model = topology_model(vec![0, 5], vec![2, 1], vec![0, 1, 2, 5]);
    let out = rewrite_loaded_chart_series_topology(TOPOLOGY_XML.as_bytes(), &model).expect("rewrite");
    let expected = r#"<c:chartSpace xmlns:c="C"><c:chart><c:plotArea><c:barChart><c:barDir val="col"/><c:ser><c:idx val="0"/><c:order val="0"/></c:ser><c:ser xmlns:c="http://schemas.openxmlformats.org/drawingml/2006/chart"><c:idx val="5"/><c:order val="3"/></c:ser><c:axId val="1"/></c:barChart><c:lineChart><c:ser><c:idx val="2"/></c:ser><c:ser xmlns:c="http://schemas.openxmlformats.org/drawingml/2006/chart"><c:idx val="1"/><c:order val="1"/></c:ser><c:axId val="1"/></c:lineChart></c:plotArea></c:chart></c:chartSpace>"#;
    assert_eq!(String::from_utf8(out).unwrap(), expected);
}

#[test]
fn series_topology_keeps_unchanged_series() {
    let model = topology_model(vec![0, 1], vec![2], vec![0, 1, 2]);
    let out = rewrite_loaded_chart_series_topology(TOPOLOGY_XML.as_bytes(), &model).expect("rewrite");
    assert_eq!(String::from_utf8(out).unwrap(), TOPOLOGY_XML);
}

#[test]
fn series_topology_filters_into_a_new_extension_list() {
    let mut model = topology_model(vec![0, 1], vec![2], vec![0, 1, 2]);
    model.series[2].is_filtered = true;
    let out = rewrite_loaded_chart_series_topology(TOPOLOGY_XML.as_bytes(), &model).expect("rewrite");
    let expected = r#"<c:chartSpace xmlns:c="C"><c:chart><c:plotArea><c:barChart><c:barDir val="col"/><c:ser><c:idx val="0"/><c:order val="0"/></c:ser><c:ser><c:idx val="1"/><c:order val="1"/></c:ser><c:axId val="1"/></c:barChart><c:lineChart><c:axId val="1"/><c:extLst xmlns:c="http://schemas.openxmlformats.org/drawingml/2006/chart"><c:ext xmlns:c="http://schemas.openxmlformats.org/drawingml/2006/chart" uri="{02D57815-91ED-43cb-92C2-25804820EDAC}"><c15:filteredLineSeries xmlns:c15="http://schemas.microsoft.com/office/drawing/2012/chart"><c15:ser><c:idx val="2"/></c15:ser></c15:filteredLineSeries></c:ext></c:extLst></c:lineChart></c:plotArea></c:chart></c:chartSpace>"#;
    assert_eq!(String::from_utf8(out).unwrap(), expected);
}

#[test]
fn series_topology_unfilters_and_drops_the_empty_extension_list() {
    let xml = r#"<c:plotArea><c:lineChart><c:axId val="1"/><c:extLst><c:ext uri="u"><c15:filteredLineSeries><c15:ser><c:idx val="2"/></c15:ser></c15:filteredLineSeries></c:ext></c:extLst></c:lineChart></c:plotArea>"#;
    let mut line = group("lineChart", Some(0));
    line.series_raw_indices = vec![2];
    let mut model = chart(ChartType::Line, vec![line]);
    model.series = vec![series(Some(2), ChartAxisGroup::Primary, None)];
    let out = rewrite_loaded_chart_series_topology(xml.as_bytes(), &model).expect("rewrite");
    let expected = r#"<c:plotArea><c:lineChart><c:ser xmlns:c="http://schemas.openxmlformats.org/drawingml/2006/chart"><c:idx val="2"/></c:ser><c:axId val="1"/></c:lineChart></c:plotArea>"#;
    assert_eq!(String::from_utf8(out).unwrap(), expected);
}

#[test]
fn series_topology_reports_each_failure() {
    let model = topology_model(vec![0, 1], vec![2], vec![0, 1, 2]);
    let err = rewrite_loaded_chart_series_topology(b"<c:chartSpace/>", &model).unwrap_err();
    assert_eq!(err.code, OmErrorCode::Unsupported);
    assert_eq!(err.message, "loaded series topology patching requires at least one chart group");

    let dup = TOPOLOGY_XML.replace(r#"<c:idx val="1"/>"#, r#"<c:idx val="0"/>"#);
    let err = rewrite_loaded_chart_series_topology(dup.as_bytes(), &model).unwrap_err();
    assert_eq!(err.message, "loaded chart contains duplicate series c:idx identities");

    let mut no_idx = topology_model(vec![0, 1], vec![2], vec![0, 1, 2]);
    no_idx.groups.clear();
    no_idx.series[1].raw_index = None;
    let err = rewrite_loaded_chart_series_topology(TOPOLOGY_XML.as_bytes(), &no_idx).unwrap_err();
    assert_eq!(err.code, OmErrorCode::Unsupported);
    assert_eq!(err.message, "loaded chart topology changes require stable series c:idx identities");

    let mut twice = topology_model(vec![0, 1], vec![2], vec![0, 1, 2]);
    twice.groups.clear();
    twice.series[2].raw_index = Some(0);
    let err = rewrite_loaded_chart_series_topology(TOPOLOGY_XML.as_bytes(), &twice).unwrap_err();
    assert_eq!(err.code, OmErrorCode::InvalidState);
    assert_eq!(err.message, "chart model contains duplicate series c:idx 0");

    let unstable = topology_model(vec![0], vec![2], vec![0, 1, 2]);
    let err = rewrite_loaded_chart_series_topology(TOPOLOGY_XML.as_bytes(), &unstable).unwrap_err();
    assert_eq!(err.code, OmErrorCode::InvalidState);
    assert_eq!(err.message, "loaded chart series-to-group partition is inconsistent");

    let outside = r#"<c:plotArea><c:barChart/><c:ser/></c:plotArea>"#;
    let err = rewrite_loaded_chart_series_topology(outside.replace("<c:ser/>", "<c:ser></c:ser>").as_bytes(), &model).unwrap_err();
    assert_eq!(err.message, "Series.IsFiltered requires a series inside a chart group");

    let mut orphan = topology_model(vec![0, 1], vec![2], vec![0, 1, 2]);
    orphan.groups.clear();
    orphan.series.push(series(Some(9), ChartAxisGroup::Primary, None));
    let err = rewrite_loaded_chart_series_topology(TOPOLOGY_XML.as_bytes(), &orphan).unwrap_err();
    assert_eq!(err.code, OmErrorCode::Unsupported);
    assert_eq!(err.message, "chart series could not be assigned to a loaded chart group");
}

#[test]
fn series_idx_values_parse_as_std_does() {
    assert_eq!(parse_u32_text("7"), Some(7));
    assert_eq!(parse_u32_text("+7"), Some(7));
    assert_eq!(parse_u32_text("4294967295"), Some(u32::MAX));
    assert_eq!(parse_u32_text("4294967296"), None);
    assert_eq!(parse_u32_text("-1"), None);
    assert_eq!(parse_u32_text("+"), None);
    assert_eq!(parse_u32_text(""), None);
    assert_eq!(parse_u32_text("1a"), None);
    assert_eq!(parse_u32_text("007"), Some(7));
}

const AXES_XML: &str = r#"<c:chartSpace xmlns:c="http://schemas.openxmlformats.org/drawingml/2006/chart"><c:chart><c:plotArea><c:barChart><c:axId val="1"/><c:axId val="2"/></c:barChart><c:catAx><c:axId val="1"/><c:scaling/><c:crossAx val="2"/></c:catAx><c:valAx><c:axId val="2"/><c:delete val="0"/><c:crossAx val="1"/></c:valAx><c:spPr/></c:plotArea></c:chart></c:chartSpace>"#;

fn crossing(kind: ChartAxisKind, group: ChartAxisGroup, id: &str, cross: Option<&str>) -> AxisModel {
    let mut a = axis(kind, group, Some(id));
    a.cross_axis_raw_id = cross.map(|c| c.to_string());
    a
}

fn axes_model(axes: Vec<AxisModel>) -> ChartModel {
    let mut model = chart(ChartType::Bar, Vec::new());
    model.axes = axes;
    model
}

#[test]
fn axis_rewrite_leaves_matching_axes_alone() {
    let model = axes_model(vec![
        crossing(ChartAxisKind::Category, ChartAxisGroup::Primary, "1", Some("2")),
        crossing(ChartAxisKind::Value, ChartAxisGroup::Primary, "2", Some("1")),
    ]);
    let out = rewrite_loaded_chart_axis_additions(AXES_XML.as_bytes(), &model).expect("rewrite");
    assert_eq!(String::from_utf8(out).unwrap(), AXES_XML);
}

#[test]
fn axis_rewrite_sets_delete_flags() {
    let mut cat = crossing(ChartAxisKind::Category, ChartAxisGroup::Primary, "1", Some("2"));
    cat.deleted = Some(false);
    let mut val = crossing(ChartAxisKind::Value, ChartAxisGroup::Primary, "2", Some("1"));
    val.deleted = Some(true);
    let model = axes_model(vec![cat, val]);
    let out = rewrite_loaded_chart_axis_additions(AXES_XML.as_bytes(), &model).expect("rewrite");
    let expected = AXES_XML
        .replace(r#"<c:scaling/><c:crossAx val="2"/>"#, r#"<c:scaling/><c:delete val="0"/><c:crossAx val="2"/>"#)
        .replace(r#"<c:delete val="0"/><c:crossAx val="1"/>"#, r#"<c:delete val="1"/><c:crossAx val="1"/>"#);
    assert_eq!(String::from_utf8(out).unwrap(), expected);
}

#[test]
fn axis_rewrite_adds_axes_and_repoints_crossings() {
    let model = axes_model(vec![
        crossing(ChartAxisKind::Category, ChartAxisGroup::Primary, "1", Some("3")),
        crossing(ChartAxisKind::Value, ChartAxisGroup::Primary, "2", Some("1")),
        crossing(ChartAxisKind::Value, ChartAxisGroup::Secondary, "3", Some("1")),
    ]);
    let out = rewrite_loaded_chart_axis_additions(AXES_XML.as_bytes(), &model).expect("rewrite");
    let shell = String::from_utf8(serialize_loaded_chart_axis_shell(&model, &model.axes[2]).unwrap()).unwrap();
    assert_eq!(
        shell,
        format!(r#"<c:valAx xmlns:c="{CHART_NS}"><c:axId val="3"/><c:crossAx val="1"/></c:valAx>"#)
    );
    let expected = AXES_XML
        .replace(r#"<c:scaling/><c:crossAx val="2"/>"#, r#"<c:scaling/><c:crossAx val="3"/>"#)
        .replace("<c:spPr/>", &format!("{shell}<c:spPr/>"));
    assert_eq!(String::from_utf8(out).unwrap(), expected);
}

#[test]
fn axis_rewrite_removes_dropped_axes_and_their_crossings() {
    let model = axes_model(vec![crossing(ChartAxisKind::Category, ChartAxisGroup::Primary, "1", Some("2"))]);
    let out = rewrite_loaded_chart_axis_additions(AXES_XML.as_bytes(), &model).expect("rewrite");
    let expected = r#"<c:chartSpace xmlns:c="http://schemas.openxmlformats.org/drawingml/2006/chart"><c:chart><c:plotArea><c:barChart><c:axId val="1"/><c:axId val="2"/></c:barChart><c:catAx><c:axId val="1"/><c:scaling/></c:catAx><c:spPr/></c:plotArea></c:chart></c:chartSpace>"#;
    assert_eq!(String::from_utf8(out).unwrap(), expected);
}

#[test]
fn axis_rewrite_reports_each_failure() {
    let ns = r#"xmlns:c="http://schemas.openxmlformats.org/drawingml/2006/chart""#;
    let model = axes_model(vec![crossing(ChartAxisKind::Category, ChartAxisGroup::Primary, "1", None)]);
    let unclosed = format!(r#"<c:chartSpace {ns}><c:plotArea><c:catAx><c:axId val="1"/>"#);
    let err = rewrite_loaded_chart_axis_additions(unclosed.as_bytes(), &model).unwrap_err();
    assert_eq!(err.code, OmErrorCode::Parse);
    assert_eq!(err.message, "loaded chart axis or crossAx has no closing XML boundary");

    let anonymous = format!(r#"<c:chartSpace {ns}><c:plotArea><c:catAx></c:catAx></c:plotArea></c:chartSpace>"#);
    let err = rewrite_loaded_chart_axis_additions(anonymous.as_bytes(), &model).unwrap_err();
    assert_eq!(err.message, "loaded chart axis is missing a stable axId");

    let twice = format!(r#"<c:chartSpace {ns}><c:plotArea><c:catAx><c:axId val="1"/></c:catAx><c:valAx><c:axId val="1"/></c:valAx></c:plotArea></c:chartSpace>"#);
    let err = rewrite_loaded_chart_axis_additions(twice.as_bytes(), &model).unwrap_err();
    assert_eq!(err.message, "loaded chart axis identity is duplicated in XML");

    let two_ids = format!(r#"<c:chartSpace {ns}><c:plotArea><c:catAx><c:axId val="1"/><c:axId val="1"/></c:catAx></c:plotArea></c:chartSpace>"#);
    let err = rewrite_loaded_chart_axis_additions(two_ids.as_bytes(), &model).unwrap_err();
    assert_eq!(err.message, "loaded chart axis has duplicate axId elements");

    let bad_delete = format!(r#"<c:chartSpace {ns}><c:plotArea><c:catAx><c:axId val="1"/><c:delete val="maybe"/></c:catAx></c:plotArea></c:chartSpace>"#);
    let err = rewrite_loaded_chart_axis_additions(bad_delete.as_bytes(), &model).unwrap_err();
    assert_eq!(err.message, "invalid chart axis delete value: maybe");

    let upper = format!(r#"<c:chartSpace {ns}><c:plotArea><c:catAx><c:axId val="1"/><c:delete val="TRUE"/></c:catAx></c:plotArea></c:chartSpace>"#);
    let mut keep = crossing(ChartAxisKind::Category, ChartAxisGroup::Primary, "1", None);
    keep.deleted = Some(true);
    let out = rewrite_loaded_chart_axis_additions(upper.as_bytes(), &axes_model(vec![keep])).expect("rewrite");
    assert_eq!(String::from_utf8(out).unwrap(), upper);

    let doubled = axes_model(vec![
        crossing(ChartAxisKind::Category, ChartAxisGroup::Primary, "1", Some("2")),
        crossing(ChartAxisKind::Category, ChartAxisGroup::Primary, "1", Some("2")),
        crossing(ChartAxisKind::Value, ChartAxisGroup::Primary, "2", Some("1")),
    ]);
    let err = rewrite_loaded_chart_axis_additions(AXES_XML.as_bytes(), &doubled).unwrap_err();
    assert_eq!(err.code, OmErrorCode::Unsupported);
    assert_eq!(err.message, "loaded chart axis identity is duplicated in the model");

    let mut used = axes_model(vec![crossing(ChartAxisKind::Category, ChartAxisGroup::Primary, "1", None)]);
    let mut bar = group("barChart", Some(0));
    bar.axis_ids = vec!["1".to_string(), "2".to_string()];
    used.groups = vec![bar];
    let err = rewrite_loaded_chart_axis_additions(AXES_XML.as_bytes(), &used).unwrap_err();
    assert_eq!(err.code, OmErrorCode::Unsupported);
    assert_eq!(err.message, "removing a chart axis that is still referenced by a group is not supported");

    let open_plot = format!(r#"<c:chartSpace {ns}><c:plotArea><c:catAx><c:axId val="1"/></c:catAx>"#);
    let more = axes_model(vec![
        crossing(ChartAxisKind::Category, ChartAxisGroup::Primary, "1", None),
        crossing(ChartAxisKind::Value, ChartAxisGroup::Primary, "2", None),
    ]);
    let err = rewrite_loaded_chart_axis_additions(open_plot.as_bytes(), &more).unwrap_err();
    assert_eq!(err.code, OmErrorCode::Parse);
    assert_eq!(err.message, "loaded chart plot area has no axis insertion position");

    let foreign = r#"<c:chartSpace xmlns:c="urn:other"><c:plotArea><c:catAx/></c:plotArea></c:chartSpace>"#;
    let out = rewrite_loaded_chart_axis_additions(foreign.as_bytes(), &axes_model(Vec::new())).expect("rewrite");
    assert_eq!(String::from_utf8(out).unwrap(), foreign);
}

#[test]
fn subtree_copy_stops_after_the_element() {
    let xml = br#"<a x="1"><b><c/></b>text<!--x--></a><d/>"#;
    let mut reader = XmlReader::new(xml, false);
    let start = reader.read_event().expect("start");
    let mut out = Vec::new();
    copy_chart_xml_subtree(&mut reader, &mut out, &start).expect("copy");
    assert_eq!(String::from_utf8(out).unwrap(), r#"<a x="1"><b><c/></b>text<!--x--></a>"#);
    let next = reader.read_event().expect("next");
    assert_eq!(next.kind, XmlEventKind::Empty);
    assert_eq!(next.name, b"d".to_vec());

    let open = br#"<a><b>"#;
    let mut reader = XmlReader::new(open, false);
    let start = reader.read_event().expect("start");
    let mut out = Vec::new();
    let err = copy_chart_xml_subtree(&mut reader, &mut out, &start).unwrap_err();
    assert_eq!(err.code, OmErrorCode::Parse);
    assert_eq!(err.message, "unexpected EOF while preserving chart group property subtree");
}

#[test]
fn clean_models_and_matching_models_leave_xml_alone() {
    let mut g = group("barChart", Some(0));
    g.gap_width = Some(5);
    let model = chart(ChartType::Bar, vec![g]);
    let out = patch_loaded_chart_group_properties(b"<anything/>", &model).expect("patch");
    assert_eq!(out, b"<anything/>".to_vec());
}

#[test]
fn loaded_topology_phase_runs_only_the_asked_steps() {
    let unchanged = topology_model(vec![0, 5], vec![2, 1], vec![0, 1, 2, 5]);
    let out = rewrite_loaded_chart_topology(TOPOLOGY_XML.as_bytes(), &unchanged).expect("nothing asked");
    assert_eq!(String::from_utf8(out).unwrap(), TOPOLOGY_XML);

    let mut moved = topology_model(vec![0, 5], vec![2, 1], vec![0, 1, 2, 5]);
    moved.series_topology_dirty = true;
    let out = rewrite_loaded_chart_topology(TOPOLOGY_XML.as_bytes(), &moved).expect("series moved");
    let direct = rewrite_loaded_chart_series_topology(TOPOLOGY_XML.as_bytes(), &moved).expect("series moved");
    let removals = rewrite_loaded_chart_group_removals(&direct, &moved).expect("no group dropped");
    assert_eq!(out, removals);
    assert_ne!(String::from_utf8(out).unwrap(), TOPOLOGY_XML);

    let mut refiltered = topology_model(vec![0, 1], vec![2], vec![0, 1, 2]);
    refiltered.series[0].filter_dirty = true;
    let out = rewrite_loaded_chart_topology(TOPOLOGY_XML.as_bytes(), &refiltered).expect("filter unchanged");
    assert_eq!(String::from_utf8(out).unwrap(), TOPOLOGY_XML);
}

#[test]
fn loaded_topology_phase_patches_dirty_groups_and_checks_volume_stock() {
    let model = chart(ChartType::Bar, vec![patched_bar_group()]);
    let out = rewrite_loaded_chart_topology(PATCH_XML.as_bytes(), &model).expect("patch");
    let expected = r#"<c:chartSpace xmlns:c="u"><c:chart><c:plotArea><c:barChart><c:barDir val="col"/><c:varyColors val="1"/><c:ser><c:idx val="0"/></c:ser><c:gapWidth val="300"/><c:overlap val="-10"/><c:axId val="7"/><c:axId val="8"/></c:barChart></c:plotArea></c:chart></c:chartSpace>"#;
    assert_eq!(String::from_utf8(out).unwrap(), expected);

    let mut stock = chart(ChartType::StockVHLC, Vec::new());
    stock.series = vec![series(None, ChartAxisGroup::Primary, None)];
    let error = rewrite_loaded_chart_topology(PATCH_XML.as_bytes(), &stock).err().expect("too few series");
    assert_eq!(error.code, OmErrorCode::InvalidState);
    assert_eq!(error.message, "volume stock charts require exactly 4 ordered series");
}

#[test]
fn series_are_written_in_order_with_filtered_series_in_extensions() {
    let mut model = chart(ChartType::Bar, Vec::new());
    let mut first = series(None, ChartAxisGroup::Primary, Some(1));
    first.invert_if_negative = Some(true);
    first.smooth = Some(true);
    let second = series(Some(7), ChartAxisGroup::Primary, Some(0));
    let other = series(None, ChartAxisGroup::Secondary, None);
    let mut hidden = series(None, ChartAxisGroup::Primary, None);
    hidden.is_filtered = true;
    model.series = vec![first, second, other, hidden];
    let (series_xml, extensions_xml) =
        chart_series_xml_for_axis_group(&model, ChartAxisGroup::Primary).expect("primary");
    assert_eq!(
        series_xml,
        r#"<c:ser><c:idx val="7"/><c:order val="0"/></c:ser><c:ser><c:idx val="0"/><c:order val="1"/><c:invertIfNegative val="1"/></c:ser>"#
    );
    assert_eq!(
        extensions_xml,
        r#"<c:ext uri="{02D57815-91ED-43cb-92C2-25804820EDAC}"><c15:filteredBarSeries xmlns:c15="http://schemas.microsoft.com/office/drawing/2012/chart"><c15:ser><c:idx val="3"/><c:order val="3"/></c15:ser></c15:filteredBarSeries></c:ext>"#
    );
    let (secondary, none) =
        chart_series_xml_for_axis_group(&model, ChartAxisGroup::Secondary).expect("secondary");
    assert_eq!(secondary, r#"<c:ser><c:idx val="2"/><c:order val="2"/></c:ser>"#);
    assert_eq!(none, "");
}

#[test]
fn series_write_explosions_markers_and_sources() {
    let mut pie = chart(ChartType::PieExploded, Vec::new());
    let mut slice = series(None, ChartAxisGroup::Primary, None);
    slice.point_explosions = vec![(1, 10)];
    slice.values = Some(ChartSourceExpr {
        formula: "Sheet1!$B$1:$B$3".to_string(),
        full_reference: None,
        resolved: None,
    });
    pie.series = vec![slice];
    let (series_xml, _) = chart_series_xml_for_axis_group(&pie, ChartAxisGroup::Primary).expect("pie");
    assert_eq!(
        series_xml,
        r#"<c:ser><c:idx val="0"/><c:order val="0"/><c:explosion val="25"/><c:dPt><c:idx val="1"/><c:explosion val="10"/></c:dPt><c:val><c:numRef><c:f>Sheet1!$B$1:$B$3</c:f></c:numRef></c:val></c:ser>"#
    );

    let mut line = chart(ChartType::Line, Vec::new());
    let mut marked = series(None, ChartAxisGroup::Primary, None);
    marked.marker_style = Some(ChartMarkerStyle::Circle);
    marked.marker_size = Some(7);
    marked.smooth = Some(false);
    marked.point_explosions = vec![(0, 5)];
    line.series = vec![marked];
    let (series_xml, _) = chart_series_xml_for_axis_group(&line, ChartAxisGroup::Primary).expect("line");
    assert_eq!(
        series_xml,
        r#"<c:ser><c:idx val="0"/><c:order val="0"/><c:marker><c:symbol val="circle"/><c:size val="7"/></c:marker><c:smooth val="0"/></c:ser>"#
    );

    let mut stock = chart(ChartType::StockHLC, Vec::new());
    let mut hidden = series(None, ChartAxisGroup::Primary, None);
    hidden.is_filtered = true;
    stock.series = vec![hidden];
    let error = chart_series_xml_for_axis_group(&stock, ChartAxisGroup::Primary).err().expect("no wrapper");
    assert_eq!(error.code, OmErrorCode::Unsupported);
    assert_eq!(error.message, "saving filtered series requires a supported chart type");
}

const DOCUMENT_HEAD: &str = "<?xml version=\"1.0\" encoding=\"UTF-8\"?>\n<c:chartSpace xmlns:c=\"http://schemas.openxmlformats.org/drawingml/2006/chart\" xmlns:a=\"http://schemas.openxmlformats.org/drawingml/2006/main\">\n  ";

#[test]
fn serialize_writes_pie_chart_document() {
    let mut model = chart(ChartType::Pie, Vec::new());
    model.series = vec![series(Some(3), ChartAxisGroup::Primary, None)];
    model.vary_by_categories = Some(true);
    model.first_slice_angle = Some(90);
    model.title_text = Some("Sales & Co".to_string());
    model.legend = Some(ChartLegendModel {
        visible: true,
        position: Some(ChartLegendPosition::Bottom),
        include_in_layout: Some(true),
    });
    let out = serialize_chart_model_xml(&model).expect("serialize");
    let expected = format!(
        "{DOCUMENT_HEAD}<c:chart><c:title><c:tx><c:rich><a:p><a:r><a:t>Sales &amp; Co</a:t></a:r></a:p></c:rich></c:tx></c:title><c:plotArea><c:pieChart><c:varyColors val=\"1\"/><c:ser><c:idx val=\"3\"/><c:order val=\"0\"/></c:ser><c:firstSliceAng val=\"90\"/></c:pieChart></c:plotArea><c:legend><c:legendPos val=\"b\"/><c:overlay val=\"0\"/></c:legend></c:chart>\n</c:chartSpace>"
    );
    assert_eq!(String::from_utf8(out).unwrap(), expected);
}

#[test]
fn serialize_numbers_axes_without_ids_by_position() {
    let mut model = chart(ChartType::Column, Vec::new());
    model.series = vec![series(Some(0), ChartAxisGroup::Primary, None)];
    model.axes = vec![
        axis(ChartAxisKind::Category, ChartAxisGroup::Primary, Some("7")),
        axis(ChartAxisKind::Value, ChartAxisGroup::Primary, None),
    ];
    model.gap_width = Some(150);
    model.overlap = Some(-20);
    let text = String::from_utf8(serialize_chart_model_xml(&model).expect("serialize")).unwrap();
    assert!(text.starts_with(DOCUMENT_HEAD));
    assert!(text.contains("<c:barChart><c:barDir val=\"col\"/><c:grouping val=\"clustered\"/><c:ser><c:idx val=\"0\"/><c:order val=\"0\"/></c:ser><c:gapWidth val=\"150\"/><c:overlap val=\"-20\"/><c:axId val=\"7\"/><c:axId val=\"20\"/></c:barChart>"));
    assert!(text.contains("</c:barChart><c:catAx><c:axId val=\"7\"/>"));
    assert!(text.contains("<c:valAx><c:axId val=\"20\"/>"));
}

#[test]
fn serialize_splits_secondary_series_into_second_group() {
    let mut model = chart(ChartType::Line, Vec::new());
    model.series = vec![
        series(Some(0), ChartAxisGroup::Primary, None),
        series(Some(1), ChartAxisGroup::Secondary, None),
    ];
    model.axes = vec![
        axis(ChartAxisKind::Category, ChartAxisGroup::Primary, Some("1")),
        axis(ChartAxisKind::Value, ChartAxisGroup::Primary, Some("2")),
        axis(ChartAxisKind::Value, ChartAxisGroup::Secondary, Some("3")),
    ];
    let text = String::from_utf8(serialize_chart_model_xml(&model).expect("serialize")).unwrap();
    assert!(text.contains("<c:lineChart><c:grouping val=\"standard\"/><c:marker val=\"0\"/><c:ser><c:idx val=\"0\"/><c:order val=\"0\"/></c:ser><c:axId val=\"1\"/><c:axId val=\"2\"/></c:lineChart><c:lineChart>"));
    assert!(text.contains("<c:ser><c:idx val=\"1\"/><c:order val=\"1\"/></c:ser><c:axId val=\"1\"/><c:axId val=\"3\"/></c:lineChart><c:catAx>"));
}

#[test]
fn serialize_rejects_volume_stock_chart_without_its_series() {
    let model = chart(ChartType::StockVHLC, Vec::new());
    let error = serialize_chart_model_xml(&model).expect_err("invalid volume stock chart");
    assert_eq!(error.code, OmErrorCode::InvalidState);
}

#[test]
fn converging_candidate_is_handed_out_unchanged() {
    let mut model = chart(ChartType::Pie, Vec::new());
    model.series = vec![series(Some(0), ChartAxisGroup::Primary, None)];
    let candidate = serialize_chart_model_xml(&model).expect("serialize");
    let out = check_chart_xml_converges(candidate.clone(), &model).expect("converges");
    assert_eq!(out, candidate);
}

#[test]
fn malformed_candidate_is_a_parse_error() {
    let model = chart(ChartType::Pie, Vec::new());
    let error = check_chart_xml_converges(b"<c:chartSpace></c:chart>".to_vec(), &model).expect_err("malformed");
    assert_eq!(error.code, OmErrorCode::Parse);
}

#[test]
fn candidate_changed_by_axis_rewrite_does_not_converge() {
    let mut cat = crossing(ChartAxisKind::Category, ChartAxisGroup::Primary, "1", Some("2"));
    cat.deleted = Some(false);
    let val = crossing(ChartAxisKind::Value, ChartAxisGroup::Primary, "2", Some("1"));
    let model = axes_model(vec![cat, val]);
    let error = check_chart_xml_converges(AXES_XML.as_bytes().to_vec(), &model).expect_err("diverges");
    assert_eq!(error.code, OmErrorCode::InvalidState);
    let converged = AXES_XML.replace(r#"<c:scaling/><c:crossAx val="2"/>"#, r#"<c:scaling/><c:delete val="0"/><c:crossAx val="2"/>"#);
    let d = AXES_XML.find(r#"<c:crossAx val="2"/>"#).unwrap() + 3;
    let candidate_context = &AXES_XML[d - 80..(d + 160).min(AXES_XML.len())];
    let converged_context = &converged[d - 80..(d + 160).min(converged.len())];
    let expected = format!(
        "chart XML encoder did not converge at byte {d}: candidate={:?}, converged={:?}",
        candidate_context, converged_context
    );
    assert_eq!(error.message, expected);
}

#[test]
fn literal_arrays_reject_objects_and_nested_arrays() {
    let source = ChartSourceExpr {
        formula: "={1,2}".to_string(),
        full_reference: None,
        resolved: Some(ReferenceTarget::Array(vec![OmValue::Number("1".to_string()), OmValue::Object])),
    };
    let error = chart_source_literal_values(&source).expect_err("object");
    assert_eq!(error.code, OmErrorCode::TypeMismatch);
    assert_eq!(error.message, "chart literal arrays cannot contain object or nested array values");
    let error = chart_source_container_xml_string(&ChartType::Column, ChartSourceXmlSlot::Values, &source)
        .expect_err("container");
    assert_eq!(error.code, OmErrorCode::TypeMismatch);
    let mut model = chart(ChartType::Column, Vec::new());
    let mut s = series(Some(0), ChartAxisGroup::Primary, None);
    s.values = Some(source);
    model.series = vec![s];
    let error = chart_series_xml_for_axis_group(&model, ChartAxisGroup::Primary).expect_err("series");
    assert_eq!(error.code, OmErrorCode::TypeMismatch);
}

#[test]
fn literal_values_give_the_texts_of_values() {
    assert_eq!(om_value_text(&OmValue::Missing), Some(String::new()));
    assert_eq!(om_value_text(&OmValue::Bool(false)), Some("FALSE".to_string()));
    assert_eq!(om_value_text(&OmValue::Array), None);
    assert_eq!(find_cell_value_text(&CellValue::Blank), "");
    assert_eq!(find_cell_value_text(&CellValue::Bool(true)), "TRUE");
    let name = ChartSourceExpr {
        formula: "=Sheet1!$A$1".to_string(),
        full_reference: None,
        resolved: Some(ReferenceTarget::Value(CellValue::Text("Q1 & Q2".to_string()))),
    };
    assert_eq!(
        chart_source_literal_values(&name).expect("values"),
        Some(vec!["Q1 & Q2".to_string()])
    );
    assert_eq!(
        chart_source_container_xml_string(&ChartType::Line, ChartSourceXmlSlot::Name, &name).expect("name"),
        "<c:tx><c:v>Q1 &amp; Q2</c:v></c:tx>"
    );
    let other = ChartSourceExpr { formula: "Sheet1!$A$1:$A$3".to_string(), full_reference: None, resolved: Some(ReferenceTarget::Other) };
    assert_eq!(chart_source_literal_values(&other).expect("other"), None);
}
