//! Chart vocabulary: chart types, axis kinds and the other enumerations of
//! the chart model, and the DrawingML names and values that encode them.
use vstd::prelude::*;
use crate::text::chars_eq_str;

verus! {

/// The chart type of a chart or of a chart group.
#[derive(Clone, Debug, PartialEq, Eq)]
pub enum ChartType {
    Area,
    AreaStacked,
    AreaStacked100,
    Area3D,
    Area3DStacked,
    Area3DStacked100,
    Bar,
    BarStacked,
    BarStacked100,
    Column,
    ColumnStacked,
    ColumnStacked100,
    Bar3DClustered,
    Bar3DStacked,
    Bar3DStacked100,
    Column3D,
    Column3DClustered,
    Column3DStacked,
    Column3DStacked100,
    CylinderColumn,
    CylinderColumnClustered,
    CylinderColumnStacked,
    CylinderColumnStacked100,
    CylinderBarClustered,
    CylinderBarStacked,
    CylinderBarStacked100,
    ConeColumn,
    ConeColumnClustered,
    ConeColumnStacked,
    ConeColumnStacked100,
    ConeBarClustered,
    ConeBarStacked,
    ConeBarStacked100,
    PyramidColumn,
    PyramidColumnClustered,
    PyramidColumnStacked,
    PyramidColumnStacked100,
    PyramidBarClustered,
    PyramidBarStacked,
    PyramidBarStacked100,
    Line,
    LineMarkers,
    LineMarkersStacked,
    LineMarkersStacked100,
    LineStacked,
    LineStacked100,
    Line3D,
    Scatter,
    ScatterLines,
    ScatterLinesNoMarkers,
    ScatterSmooth,
    ScatterSmoothNoMarkers,
    Bubble,
    Bubble3DEffect,
    Doughnut,
    DoughnutExploded,
    Pie,
    PieExploded,
    Pie3D,
    Pie3DExploded,
    PieOfPie,
    BarOfPie,
    Radar,
    RadarMarkers,
    RadarFilled,
    StockHLC,
    StockOHLC,
    StockVHLC,
    StockVOHLC,
    Surface,
    SurfaceWireframe,
    SurfaceTopView,
    SurfaceTopViewWireframe,
    Unknown,
    Unsupported(String),
}

/// The DrawingML chart-group element that holds a chart type's series.
#[derive(Clone, Copy, Debug, PartialEq, Eq, Structural)]
pub enum ChartGroupKind {
    Area2D,
    Area3D,
    Bar2D,
    Bar3D,
    Line2D,
    Line3D,
    Scatter,
    Bubble,
    Doughnut,
    Pie2D,
    Pie3D,
    OfPie,
    Radar,
    Stock,
    Surface3D,
    Surface2D,
}

/// The chart-group element of a chart type, if it has one.
pub open spec fn group_kind_of(t: ChartType) -> Option<ChartGroupKind> {
    match t {
        ChartType::Area
        | ChartType::AreaStacked
        | ChartType::AreaStacked100 => Some(ChartGroupKind::Area2D),
        ChartType::Area3D
        | ChartType::Area3DStacked
        | ChartType::Area3DStacked100 => Some(ChartGroupKind::Area3D),
        ChartType::Bar
        | ChartType::BarStacked
        | ChartType::BarStacked100
        | ChartType::Column
        | ChartType::ColumnStacked
        | ChartType::ColumnStacked100 => Some(ChartGroupKind::Bar2D),
        ChartType::Bar3DClustered
        | ChartType::Bar3DStacked
        | ChartType::Bar3DStacked100
        | ChartType::Column3D
        | ChartType::Column3DClustered
        | ChartType::Column3DStacked
        | ChartType::Column3DStacked100
        | ChartType::CylinderColumn
        | ChartType::CylinderColumnClustered
        | ChartType::CylinderColumnStacked
        | ChartType::CylinderColumnStacked100
        | ChartType::CylinderBarClustered
        | ChartType::CylinderBarStacked
        | ChartType::CylinderBarStacked100
        | ChartType::ConeColumn
        | ChartType::ConeColumnClustered
        | ChartType::ConeColumnStacked
        | ChartType::ConeColumnStacked100
        | ChartType::ConeBarClustered
        | ChartType::ConeBarStacked
        | ChartType::ConeBarStacked100
        | ChartType::PyramidColumn
        | ChartType::PyramidColumnClustered
        | ChartType::PyramidColumnStacked
        | ChartType::PyramidColumnStacked100
        | ChartType::PyramidBarClustered
        | ChartType::PyramidBarStacked
        | ChartType::PyramidBarStacked100 => Some(ChartGroupKind::Bar3D),
        ChartType::Line
        | ChartType::LineMarkers
        | ChartType::LineMarkersStacked
        | ChartType::LineMarkersStacked100
        | ChartType::LineStacked
        | ChartType::LineStacked100 => Some(ChartGroupKind::Line2D),
        ChartType::Line3D => Some(ChartGroupKind::Line3D),
        ChartType::Scatter
        | ChartType::ScatterLines
        | ChartType::ScatterLinesNoMarkers
        | ChartType::ScatterSmooth
        | ChartType::ScatterSmoothNoMarkers => Some(ChartGroupKind::Scatter),
        ChartType::Bubble
        | ChartType::Bubble3DEffect => Some(ChartGroupKind::Bubble),
        ChartType::Doughnut
        | ChartType::DoughnutExploded => Some(ChartGroupKind::Doughnut),
        ChartType::Pie
        | ChartType::PieExploded => Some(ChartGroupKind::Pie2D),
        ChartType::Pie3D
        | ChartType::Pie3DExploded => Some(ChartGroupKind::Pie3D),
        ChartType::PieOfPie
        | ChartType::BarOfPie => Some(ChartGroupKind::OfPie),
        ChartType::Radar
        | ChartType::RadarMarkers
        | ChartType::RadarFilled => Some(ChartGroupKind::Radar),
        ChartType::StockHLC
        | ChartType::StockOHLC
        | ChartType::StockVHLC
        | ChartType::StockVOHLC => Some(ChartGroupKind::Stock),
        ChartType::Surface
        | ChartType::SurfaceWireframe => Some(ChartGroupKind::Surface3D),
        ChartType::SurfaceTopView
        | ChartType::SurfaceTopViewWireframe => Some(ChartGroupKind::Surface2D),
        ChartType::Unknown | ChartType::Unsupported(_) => None,
    }
}

/// The chart-group element of a chart type, if it has one.
pub fn chart_group_kind(t: &ChartType) -> (r: Option<ChartGroupKind>)
    ensures
        r == group_kind_of(*t),
{
    match t {
        ChartType::Area
        | ChartType::AreaStacked
        | ChartType::AreaStacked100 => Some(ChartGroupKind::Area2D),
        ChartType::Area3D
        | ChartType::Area3DStacked
        | ChartType::Area3DStacked100 => Some(ChartGroupKind::Area3D),
        ChartType::Bar
        | ChartType::BarStacked
        | ChartType::BarStacked100
        | ChartType::Column
        | ChartType::ColumnStacked
        | ChartType::ColumnStacked100 => Some(ChartGroupKind::Bar2D),
        ChartType::Bar3DClustered
        | ChartType::Bar3DStacked
        | ChartType::Bar3DStacked100
        | ChartType::Column3D
        | ChartType::Column3DClustered
        | ChartType::Column3DStacked
        | ChartType::Column3DStacked100
        | ChartType::CylinderColumn
        | ChartType::CylinderColumnClustered
        | ChartType::CylinderColumnStacked
        | ChartType::CylinderColumnStacked100
        | ChartType::CylinderBarClustered
        | ChartType::CylinderBarStacked
        | ChartType::CylinderBarStacked100
        | ChartType::ConeColumn
        | ChartType::ConeColumnClustered
        | ChartType::ConeColumnStacked
        | ChartType::ConeColumnStacked100
        | ChartType::ConeBarClustered
        | ChartType::ConeBarStacked
        | ChartType::ConeBarStacked100
        | ChartType::PyramidColumn
        | ChartType::PyramidColumnClustered
        | ChartType::PyramidColumnStacked
        | ChartType::PyramidColumnStacked100
        | ChartType::PyramidBarClustered
        | ChartType::PyramidBarStacked
        | ChartType::PyramidBarStacked100 => Some(ChartGroupKind::Bar3D),
        ChartType::Line
        | ChartType::LineMarkers
        | ChartType::LineMarkersStacked
        | ChartType::LineMarkersStacked100
        | ChartType::LineStacked
        | ChartType::LineStacked100 => Some(ChartGroupKind::Line2D),
        ChartType::Line3D => Some(ChartGroupKind::Line3D),
        ChartType::Scatter
        | ChartType::ScatterLines
        | ChartType::ScatterLinesNoMarkers
        | ChartType::ScatterSmooth
        | ChartType::ScatterSmoothNoMarkers => Some(ChartGroupKind::Scatter),
        ChartType::Bubble
        | ChartType::Bubble3DEffect => Some(ChartGroupKind::Bubble),
        ChartType::Doughnut
        | ChartType::DoughnutExploded => Some(ChartGroupKind::Doughnut),
        ChartType::Pie
        | ChartType::PieExploded => Some(ChartGroupKind::Pie2D),
        ChartType::Pie3D
        | ChartType::Pie3DExploded => Some(ChartGroupKind::Pie3D),
        ChartType::PieOfPie
        | ChartType::BarOfPie => Some(ChartGroupKind::OfPie),
        ChartType::Radar
        | ChartType::RadarMarkers
        | ChartType::RadarFilled => Some(ChartGroupKind::Radar),
        ChartType::StockHLC
        | ChartType::StockOHLC
        | ChartType::StockVHLC
        | ChartType::StockVOHLC => Some(ChartGroupKind::Stock),
        ChartType::Surface
        | ChartType::SurfaceWireframe => Some(ChartGroupKind::Surface3D),
        ChartType::SurfaceTopView
        | ChartType::SurfaceTopViewWireframe => Some(ChartGroupKind::Surface2D),
        ChartType::Unknown | ChartType::Unsupported(_) => None,
    }
}

/// The local name of a chart-group element.
pub open spec fn group_kind_name(g: ChartGroupKind) -> &'static str {
    match g {
        ChartGroupKind::Area2D => "areaChart",
        ChartGroupKind::Area3D => "area3DChart",
        ChartGroupKind::Bar2D => "barChart",
        ChartGroupKind::Bar3D => "bar3DChart",
        ChartGroupKind::Line2D => "lineChart",
        ChartGroupKind::Line3D => "line3DChart",
        ChartGroupKind::Scatter => "scatterChart",
        ChartGroupKind::Bubble => "bubbleChart",
        ChartGroupKind::Doughnut => "doughnutChart",
        ChartGroupKind::Pie2D => "pieChart",
        ChartGroupKind::Pie3D => "pie3DChart",
        ChartGroupKind::OfPie => "ofPieChart",
        ChartGroupKind::Radar => "radarChart",
        ChartGroupKind::Stock => "stockChart",
        ChartGroupKind::Surface3D => "surface3DChart",
        ChartGroupKind::Surface2D => "surfaceChart",
    }
}

/// The local name of a chart-group element.
pub fn chart_group_kind_name(g: ChartGroupKind) -> (r: &'static str)
    ensures
        r == group_kind_name(g),
{
    match g {
        ChartGroupKind::Area2D => "areaChart",
        ChartGroupKind::Area3D => "area3DChart",
        ChartGroupKind::Bar2D => "barChart",
        ChartGroupKind::Bar3D => "bar3DChart",
        ChartGroupKind::Line2D => "lineChart",
        ChartGroupKind::Line3D => "line3DChart",
        ChartGroupKind::Scatter => "scatterChart",
        ChartGroupKind::Bubble => "bubbleChart",
        ChartGroupKind::Doughnut => "doughnutChart",
        ChartGroupKind::Pie2D => "pieChart",
        ChartGroupKind::Pie3D => "pie3DChart",
        ChartGroupKind::OfPie => "ofPieChart",
        ChartGroupKind::Radar => "radarChart",
        ChartGroupKind::Stock => "stockChart",
        ChartGroupKind::Surface3D => "surface3DChart",
        ChartGroupKind::Surface2D => "surfaceChart",
    }
}

/// The chart-group element name that encodes a chart type.
pub open spec fn group_xml_name(t: ChartType) -> Option<&'static str> {
    match group_kind_of(t) {
        Some(g) => Some(group_kind_name(g)),
        None => None,
    }
}

/// The chart-group element name that encodes a chart type.
pub fn chart_group_xml_name(t: &ChartType) -> (r: Option<&'static str>)
    ensures
        r == group_xml_name(*t),
{
    match chart_group_kind(t) {
        Some(g) => Some(chart_group_kind_name(g)),
        None => None,
    }
}

/// The chart type that a chart-group element name denotes when read.
pub open spec fn type_of_group_name(n: Seq<char>) -> Option<ChartType> {
    if n == "areaChart"@ {
        Some(ChartType::Area)
    }     else if n == "area3DChart"@ {
        Some(ChartType::Area3D)
    }     else if n == "barChart"@ {
        Some(ChartType::Bar)
    }     else if n == "bar3DChart"@ {
        Some(ChartType::Bar3DClustered)
    }     else if n == "lineChart"@ {
        Some(ChartType::Line)
    }     else if n == "line3DChart"@ {
        Some(ChartType::Line3D)
    }     else if n == "scatterChart"@ {
        Some(ChartType::Scatter)
    }     else if n == "bubbleChart"@ {
        Some(ChartType::Bubble)
    }     else if n == "doughnutChart"@ {
        Some(ChartType::Doughnut)
    }     else if n == "ofPieChart"@ {
        Some(ChartType::PieOfPie)
    }     else if n == "pieChart"@ {
        Some(ChartType::Pie)
    }     else if n == "pie3DChart"@ {
        Some(ChartType::Pie3D)
    }     else if n == "radarChart"@ {
        Some(ChartType::Radar)
    }     else if n == "stockChart"@ {
        Some(ChartType::StockHLC)
    }     else if n == "surfaceChart"@ {
        Some(ChartType::SurfaceTopView)
    }     else if n == "surface3DChart"@ {
        Some(ChartType::Surface)
    } else {
        None
    }
}

/// The chart type that a chart-group element name denotes when read.
pub fn chart_type_from_group_name(local_name: &[char]) -> (r: Option<ChartType>)
    ensures
        r == type_of_group_name(local_name@),
{
    if chars_eq_str(local_name, "areaChart") {
        Some(ChartType::Area)
    }     else if chars_eq_str(local_name, "area3DChart") {
        Some(ChartType::Area3D)
    }     else if chars_eq_str(local_name, "barChart") {
        Some(ChartType::Bar)
    }     else if chars_eq_str(local_name, "bar3DChart") {
        Some(ChartType::Bar3DClustered)
    }     else if chars_eq_str(local_name, "lineChart") {
        Some(ChartType::Line)
    }     else if chars_eq_str(local_name, "line3DChart") {
        Some(ChartType::Line3D)
    }     else if chars_eq_str(local_name, "scatterChart") {
        Some(ChartType::Scatter)
    }     else if chars_eq_str(local_name, "bubbleChart") {
        Some(ChartType::Bubble)
    }     else if chars_eq_str(local_name, "doughnutChart") {
        Some(ChartType::Doughnut)
    }     else if chars_eq_str(local_name, "ofPieChart") {
        Some(ChartType::PieOfPie)
    }     else if chars_eq_str(local_name, "pieChart") {
        Some(ChartType::Pie)
    }     else if chars_eq_str(local_name, "pie3DChart") {
        Some(ChartType::Pie3D)
    }     else if chars_eq_str(local_name, "radarChart") {
        Some(ChartType::Radar)
    }     else if chars_eq_str(local_name, "stockChart") {
        Some(ChartType::StockHLC)
    }     else if chars_eq_str(local_name, "surfaceChart") {
        Some(ChartType::SurfaceTopView)
    }     else if chars_eq_str(local_name, "surface3DChart") {
        Some(ChartType::Surface)
    } else {
        None
    }
}

/// The axis group that a series or axis belongs to.
#[derive(Clone, Copy, Debug, PartialEq, Eq, Structural)]
pub enum ChartAxisGroup {
    Primary,
    Secondary,
}

/// The kind of a chart axis.
#[derive(Clone, Copy, Debug, PartialEq, Eq, Structural)]
pub enum ChartAxisKind {
    Category,
    Value,
    Date,
    Series,
}

/// The shape of 3-D bars.
#[derive(Clone, Copy, Debug, PartialEq, Eq, Structural)]
pub enum ChartBarShape {
    Box,
    PyramidToPoint,
    PyramidToMax,
    Cylinder,
    ConeToPoint,
    ConeToMax,
}

/// The marker style of a series.
#[derive(Clone, Copy, Debug, PartialEq, Eq, Structural)]
pub enum ChartMarkerStyle {
    Automatic,
    Circle,
    Dash,
    Diamond,
    Dot,
    NoMarker,
    Picture,
    Plus,
    Square,
    Star,
    Triangle,
    X,
}

/// The tick-mark style of an axis.
#[derive(Clone, Copy, Debug, PartialEq, Eq, Structural)]
pub enum ChartTickMark {
    Cross,
    Inside,
    NoMark,
    Outside,
}

/// The position of axis tick labels.
#[derive(Clone, Copy, Debug, PartialEq, Eq, Structural)]
pub enum ChartTickLabelPosition {
    High,
    Low,
    NextToAxis,
    NoLabels,
}

/// The position of data labels.
#[derive(Clone, Copy, Debug, PartialEq, Eq, Structural)]
pub enum ChartDataLabelPosition {
    Above,
    Below,
    BestFit,
    Center,
    InsideBase,
    InsideEnd,
    Left,
    OutsideEnd,
    Right,
}

/// What bubble sizes represent.
#[derive(Clone, Copy, Debug, PartialEq, Eq, Structural)]
pub enum ChartSizeRepresents {
    Area,
    Width,
}

/// How a pie-of-pie chart splits its points.
#[derive(Clone, Copy, Debug, PartialEq, Eq, Structural)]
pub enum ChartSplitType {
    Custom,
    PercentValue,
    Position,
    Value,
}

/// The position of the legend.
#[derive(Clone, Copy, Debug, PartialEq, Eq, Structural)]
pub enum ChartLegendPosition {
    Bottom,
    Corner,
    Custom,
    Left,
    Right,
    Top,
}

/// How blank cells are plotted.
#[derive(Clone, Copy, Debug, PartialEq, Eq, Structural)]
pub enum ChartDisplayBlanksAs {
    Gap,
    Span,
    Zero,
}

/// The base unit of a date axis.
#[derive(Clone, Copy, Debug, PartialEq, Eq, Structural)]
pub enum ChartAxisTimeUnit {
    Days,
    Months,
    Years,
}

/// A built-in display unit of a value axis.
#[derive(Clone, Copy, Debug, PartialEq, Eq, Structural)]
pub enum ChartBuiltInDisplayUnit {
    Hundreds,
    Thousands,
    TenThousands,
    HundredThousands,
    Millions,
    TenMillions,
    HundredMillions,
    ThousandMillions,
    MillionMillions,
}

/// Where an axis crosses its cross axis.
#[derive(Clone, Copy, Debug, PartialEq, Eq, Structural)]
pub enum ChartAxisCrosses {
    Automatic,
    Custom,
    Maximum,
    Minimum,
}

/// Which plot-area box a manual layout positions.
#[derive(Clone, Copy, Debug, PartialEq, Eq, Structural)]
pub enum ChartLayoutTarget {
    Inner,
    Outer,
}

/// How a manual-layout coordinate is interpreted.
#[derive(Clone, Copy, Debug, PartialEq, Eq, Structural)]
pub enum ChartLayoutMode {
    Edge,
    Factor,
}

/// The `c:shape` value of a bar shape.
pub open spec fn bar_shape_name(value: ChartBarShape) -> &'static str {
    match value {
        ChartBarShape::Box => "box",
        ChartBarShape::PyramidToPoint => "pyramid",
        ChartBarShape::PyramidToMax => "pyramidToMax",
        ChartBarShape::Cylinder => "cylinder",
        ChartBarShape::ConeToPoint => "cone",
        ChartBarShape::ConeToMax => "coneToMax",
    }
}

/// The `c:shape` value of a bar shape.
pub fn chart_bar_shape_xml_value(value: ChartBarShape) -> (r: &'static str)
    ensures
        r == bar_shape_name(value),
{
    match value {
        ChartBarShape::Box => "box",
        ChartBarShape::PyramidToPoint => "pyramid",
        ChartBarShape::PyramidToMax => "pyramidToMax",
        ChartBarShape::Cylinder => "cylinder",
        ChartBarShape::ConeToPoint => "cone",
        ChartBarShape::ConeToMax => "coneToMax",
    }
}

/// The `c:symbol` value of a marker style.
pub open spec fn marker_style_name(value: ChartMarkerStyle) -> &'static str {
    match value {
        ChartMarkerStyle::Automatic => "auto",
        ChartMarkerStyle::Circle => "circle",
        ChartMarkerStyle::Dash => "dash",
        ChartMarkerStyle::Diamond => "diamond",
        ChartMarkerStyle::Dot => "dot",
        ChartMarkerStyle::NoMarker => "none",
        ChartMarkerStyle::Picture => "picture",
        ChartMarkerStyle::Plus => "plus",
        ChartMarkerStyle::Square => "square",
        ChartMarkerStyle::Star => "star",
        ChartMarkerStyle::Triangle => "triangle",
        ChartMarkerStyle::X => "x",
    }
}

/// The `c:symbol` value of a marker style.
pub fn chart_marker_style_xml_value(value: ChartMarkerStyle) -> (r: &'static str)
    ensures
        r == marker_style_name(value),
{
    match value {
        ChartMarkerStyle::Automatic => "auto",
        ChartMarkerStyle::Circle => "circle",
        ChartMarkerStyle::Dash => "dash",
        ChartMarkerStyle::Diamond => "diamond",
        ChartMarkerStyle::Dot => "dot",
        ChartMarkerStyle::NoMarker => "none",
        ChartMarkerStyle::Picture => "picture",
        ChartMarkerStyle::Plus => "plus",
        ChartMarkerStyle::Square => "square",
        ChartMarkerStyle::Star => "star",
        ChartMarkerStyle::Triangle => "triangle",
        ChartMarkerStyle::X => "x",
    }
}

/// The element name of an axis kind.
pub open spec fn axis_kind_name(value: ChartAxisKind) -> &'static str {
    match value {
        ChartAxisKind::Category => "catAx",
        ChartAxisKind::Value => "valAx",
        ChartAxisKind::Date => "dateAx",
        ChartAxisKind::Series => "serAx",
    }
}

/// The element name of an axis kind.
pub fn chart_axis_xml_name(value: ChartAxisKind) -> (r: &'static str)
    ensures
        r == axis_kind_name(value),
{
    match value {
        ChartAxisKind::Category => "catAx",
        ChartAxisKind::Value => "valAx",
        ChartAxisKind::Date => "dateAx",
        ChartAxisKind::Series => "serAx",
    }
}

/// The value of a date-axis time unit.
pub open spec fn time_unit_name(value: ChartAxisTimeUnit) -> &'static str {
    match value {
        ChartAxisTimeUnit::Days => "days",
        ChartAxisTimeUnit::Months => "months",
        ChartAxisTimeUnit::Years => "years",
    }
}

/// The value of a date-axis time unit.
pub fn chart_axis_time_unit_xml_value(value: ChartAxisTimeUnit) -> (r: &'static str)
    ensures
        r == time_unit_name(value),
{
    match value {
        ChartAxisTimeUnit::Days => "days",
        ChartAxisTimeUnit::Months => "months",
        ChartAxisTimeUnit::Years => "years",
    }
}

/// The `c:builtInUnit` value of a display unit.
pub open spec fn built_in_unit_name(value: ChartBuiltInDisplayUnit) -> &'static str {
    match value {
        ChartBuiltInDisplayUnit::Hundreds => "hundreds",
        ChartBuiltInDisplayUnit::Thousands => "thousands",
        ChartBuiltInDisplayUnit::TenThousands => "tenThousands",
        ChartBuiltInDisplayUnit::HundredThousands => "hundredThousands",
        ChartBuiltInDisplayUnit::Millions => "millions",
        ChartBuiltInDisplayUnit::TenMillions => "tenMillions",
        ChartBuiltInDisplayUnit::HundredMillions => "hundredMillions",
        ChartBuiltInDisplayUnit::ThousandMillions => "billions",
        ChartBuiltInDisplayUnit::MillionMillions => "trillions",
    }
}

/// The `c:builtInUnit` value of a display unit.
pub fn chart_built_in_display_unit_xml_value(value: ChartBuiltInDisplayUnit) -> (r: &'static str)
    ensures
        r == built_in_unit_name(value),
{
    match value {
        ChartBuiltInDisplayUnit::Hundreds => "hundreds",
        ChartBuiltInDisplayUnit::Thousands => "thousands",
        ChartBuiltInDisplayUnit::TenThousands => "tenThousands",
        ChartBuiltInDisplayUnit::HundredThousands => "hundredThousands",
        ChartBuiltInDisplayUnit::Millions => "millions",
        ChartBuiltInDisplayUnit::TenMillions => "tenMillions",
        ChartBuiltInDisplayUnit::HundredMillions => "hundredMillions",
        ChartBuiltInDisplayUnit::ThousandMillions => "billions",
        ChartBuiltInDisplayUnit::MillionMillions => "trillions",
    }
}

/// The default label text of a built-in display unit.
pub open spec fn built_in_unit_label(value: ChartBuiltInDisplayUnit) -> &'static str {
    match value {
        ChartBuiltInDisplayUnit::Hundreds => "Hundreds",
        ChartBuiltInDisplayUnit::Thousands => "Thousands",
        ChartBuiltInDisplayUnit::TenThousands => "Ten Thousands",
        ChartBuiltInDisplayUnit::HundredThousands => "Hundred Thousands",
        ChartBuiltInDisplayUnit::Millions => "Millions",
        ChartBuiltInDisplayUnit::TenMillions => "Ten Millions",
        ChartBuiltInDisplayUnit::HundredMillions => "Hundred Millions",
        ChartBuiltInDisplayUnit::ThousandMillions => "Billions",
        ChartBuiltInDisplayUnit::MillionMillions => "Trillions",
    }
}

/// The default label text of a built-in display unit.
pub fn chart_built_in_display_unit_label_text(value: ChartBuiltInDisplayUnit) -> (r: &'static str)
    ensures
        r == built_in_unit_label(value),
{
    match value {
        ChartBuiltInDisplayUnit::Hundreds => "Hundreds",
        ChartBuiltInDisplayUnit::Thousands => "Thousands",
        ChartBuiltInDisplayUnit::TenThousands => "Ten Thousands",
        ChartBuiltInDisplayUnit::HundredThousands => "Hundred Thousands",
        ChartBuiltInDisplayUnit::Millions => "Millions",
        ChartBuiltInDisplayUnit::TenMillions => "Ten Millions",
        ChartBuiltInDisplayUnit::HundredMillions => "Hundred Millions",
        ChartBuiltInDisplayUnit::ThousandMillions => "Billions",
        ChartBuiltInDisplayUnit::MillionMillions => "Trillions",
    }
}

/// The `c:legendPos` value of a legend position.
pub open spec fn legend_position_name(value: ChartLegendPosition) -> &'static str {
    match value {
        ChartLegendPosition::Bottom => "b",
        ChartLegendPosition::Corner => "tr",
        ChartLegendPosition::Custom => "cust",
        ChartLegendPosition::Left => "l",
        ChartLegendPosition::Right => "r",
        ChartLegendPosition::Top => "t",
    }
}

/// The `c:legendPos` value of a legend position.
pub fn chart_legend_position_xml_value(value: ChartLegendPosition) -> (r: &'static str)
    ensures
        r == legend_position_name(value),
{
    match value {
        ChartLegendPosition::Bottom => "b",
        ChartLegendPosition::Corner => "tr",
        ChartLegendPosition::Custom => "cust",
        ChartLegendPosition::Left => "l",
        ChartLegendPosition::Right => "r",
        ChartLegendPosition::Top => "t",
    }
}

/// The `c:dispBlanksAs` value.
pub open spec fn display_blanks_name(value: ChartDisplayBlanksAs) -> &'static str {
    match value {
        ChartDisplayBlanksAs::Gap => "gap",
        ChartDisplayBlanksAs::Span => "span",
        ChartDisplayBlanksAs::Zero => "zero",
    }
}

/// The `c:dispBlanksAs` value.
pub fn chart_display_blanks_as_xml_value(value: ChartDisplayBlanksAs) -> (r: &'static str)
    ensures
        r == display_blanks_name(value),
{
    match value {
        ChartDisplayBlanksAs::Gap => "gap",
        ChartDisplayBlanksAs::Span => "span",
        ChartDisplayBlanksAs::Zero => "zero",
    }
}

/// The tick-mark value.
pub open spec fn tick_mark_name(value: ChartTickMark) -> &'static str {
    match value {
        ChartTickMark::Cross => "cross",
        ChartTickMark::Inside => "in",
        ChartTickMark::NoMark => "none",
        ChartTickMark::Outside => "out",
    }
}

/// The tick-mark value.
pub fn chart_tick_mark_xml_value(value: ChartTickMark) -> (r: &'static str)
    ensures
        r == tick_mark_name(value),
{
    match value {
        ChartTickMark::Cross => "cross",
        ChartTickMark::Inside => "in",
        ChartTickMark::NoMark => "none",
        ChartTickMark::Outside => "out",
    }
}

/// The `c:tickLblPos` value.
pub open spec fn tick_label_position_name(value: ChartTickLabelPosition) -> &'static str {
    match value {
        ChartTickLabelPosition::High => "high",
        ChartTickLabelPosition::Low => "low",
        ChartTickLabelPosition::NextToAxis => "nextTo",
        ChartTickLabelPosition::NoLabels => "none",
    }
}

/// The `c:tickLblPos` value.
pub fn chart_tick_label_position_xml_value(value: ChartTickLabelPosition) -> (r: &'static str)
    ensures
        r == tick_label_position_name(value),
{
    match value {
        ChartTickLabelPosition::High => "high",
        ChartTickLabelPosition::Low => "low",
        ChartTickLabelPosition::NextToAxis => "nextTo",
        ChartTickLabelPosition::NoLabels => "none",
    }
}

/// The `c:dLblPos` value.
pub open spec fn data_label_position_name(value: ChartDataLabelPosition) -> &'static str {
    match value {
        ChartDataLabelPosition::Above => "t",
        ChartDataLabelPosition::Below => "b",
        ChartDataLabelPosition::BestFit => "bestFit",
        ChartDataLabelPosition::Center => "ctr",
        ChartDataLabelPosition::InsideBase => "inBase",
        ChartDataLabelPosition::InsideEnd => "inEnd",
        ChartDataLabelPosition::Left => "l",
        ChartDataLabelPosition::OutsideEnd => "outEnd",
        ChartDataLabelPosition::Right => "r",
    }
}

/// The `c:dLblPos` value.
pub fn chart_data_label_position_xml_value(value: ChartDataLabelPosition) -> (r: &'static str)
    ensures
        r == data_label_position_name(value),
{
    match value {
        ChartDataLabelPosition::Above => "t",
        ChartDataLabelPosition::Below => "b",
        ChartDataLabelPosition::BestFit => "bestFit",
        ChartDataLabelPosition::Center => "ctr",
        ChartDataLabelPosition::InsideBase => "inBase",
        ChartDataLabelPosition::InsideEnd => "inEnd",
        ChartDataLabelPosition::Left => "l",
        ChartDataLabelPosition::OutsideEnd => "outEnd",
        ChartDataLabelPosition::Right => "r",
    }
}

/// The `c:sizeRepresents` value.
pub open spec fn size_represents_name(value: ChartSizeRepresents) -> &'static str {
    match value {
        ChartSizeRepresents::Area => "area",
        ChartSizeRepresents::Width => "w",
    }
}

/// The `c:sizeRepresents` value.
pub fn chart_size_represents_xml_value(value: ChartSizeRepresents) -> (r: &'static str)
    ensures
        r == size_represents_name(value),
{
    match value {
        ChartSizeRepresents::Area => "area",
        ChartSizeRepresents::Width => "w",
    }
}

/// The `c:splitType` value.
pub open spec fn split_type_name(value: ChartSplitType) -> &'static str {
    match value {
        ChartSplitType::Custom => "cust",
        ChartSplitType::PercentValue => "percent",
        ChartSplitType::Position => "pos",
        ChartSplitType::Value => "val",
    }
}

/// The `c:splitType` value.
pub fn chart_split_type_xml_value(value: ChartSplitType) -> (r: &'static str)
    ensures
        r == split_type_name(value),
{
    match value {
        ChartSplitType::Custom => "cust",
        ChartSplitType::PercentValue => "percent",
        ChartSplitType::Position => "pos",
        ChartSplitType::Value => "val",
    }
}

/// The `c:layoutTarget` value.
pub open spec fn layout_target_name(value: ChartLayoutTarget) -> &'static str {
    match value {
        ChartLayoutTarget::Inner => "inner",
        ChartLayoutTarget::Outer => "outer",
    }
}

/// The `c:layoutTarget` value.
pub fn chart_layout_target_xml_value(value: ChartLayoutTarget) -> (r: &'static str)
    ensures
        r == layout_target_name(value),
{
    match value {
        ChartLayoutTarget::Inner => "inner",
        ChartLayoutTarget::Outer => "outer",
    }
}

/// The value of a manual-layout mode.
pub open spec fn layout_mode_name(value: ChartLayoutMode) -> &'static str {
    match value {
        ChartLayoutMode::Edge => "edge",
        ChartLayoutMode::Factor => "factor",
    }
}

/// The value of a manual-layout mode.
pub fn chart_layout_mode_xml_value(value: ChartLayoutMode) -> (r: &'static str)
    ensures
        r == layout_mode_name(value),
{
    match value {
        ChartLayoutMode::Edge => "edge",
        ChartLayoutMode::Factor => "factor",
    }
}

/// The `c:crosses` value; a custom crossing is written as `c:crossesAt` instead.
pub open spec fn axis_crosses_name(value: ChartAxisCrosses) -> Option<&'static str> {
    match value {
        ChartAxisCrosses::Automatic => Some("autoZero"),
        ChartAxisCrosses::Custom => None,
        ChartAxisCrosses::Maximum => Some("max"),
        ChartAxisCrosses::Minimum => Some("min"),
    }
}

/// The `c:crosses` value; a custom crossing is written as `c:crossesAt` instead.
pub fn chart_axis_crosses_xml_value(value: ChartAxisCrosses) -> (r: Option<&'static str>)
    ensures
        r == axis_crosses_name(value),
{
    match value {
        ChartAxisCrosses::Automatic => Some("autoZero"),
        ChartAxisCrosses::Custom => None,
        ChartAxisCrosses::Maximum => Some("max"),
        ChartAxisCrosses::Minimum => Some("min"),
    }
}

/// The `c:orientation` value for an axis plotted in reverse order or not.
pub open spec fn orientation_name(reverse_plot_order: bool) -> &'static str {
    if reverse_plot_order { "maxMin" } else { "minMax" }
}

/// The `c:orientation` value for an axis plotted in reverse order or not.
pub fn chart_axis_orientation_xml_value(reverse_plot_order: bool) -> (r: &'static str)
    ensures
        r == orientation_name(reverse_plot_order),
{
    if reverse_plot_order { "maxMin" } else { "minMax" }
}

/// The `c:crossBetween` value.
pub open spec fn between_categories_name(value: bool) -> &'static str {
    if value { "between" } else { "midCat" }
}

/// The `c:crossBetween` value.
pub fn chart_axis_between_categories_xml_value(value: bool) -> (r: &'static str)
    ensures
        r == between_categories_name(value),
{
    if value { "between" } else { "midCat" }
}

/// The axis kind that an axis element name denotes.
pub open spec fn axis_kind_of_name(n: Seq<char>) -> Option<ChartAxisKind> {
    if n == "catAx"@ {
        Some(ChartAxisKind::Category)
    } else if n == "valAx"@ {
        Some(ChartAxisKind::Value)
    } else if n == "dateAx"@ {
        Some(ChartAxisKind::Date)
    } else if n == "serAx"@ {
        Some(ChartAxisKind::Series)
    } else {
        None
    }
}

/// The axis kind that an axis element name denotes.
pub fn chart_axis_kind_from_xml_name(local_name: &[char]) -> (r: Option<ChartAxisKind>)
    ensures
        r == axis_kind_of_name(local_name@),
{
    if chars_eq_str(local_name, "catAx") {
        Some(ChartAxisKind::Category)
    } else if chars_eq_str(local_name, "valAx") {
        Some(ChartAxisKind::Value)
    } else if chars_eq_str(local_name, "dateAx") {
        Some(ChartAxisKind::Date)
    } else if chars_eq_str(local_name, "serAx") {
        Some(ChartAxisKind::Series)
    } else {
        None
    }
}

/// The `c:barDir` value of a bar or column chart type.
pub open spec fn bar_direction_name(t: ChartType) -> Option<&'static str> {
    match t {
        ChartType::Bar | ChartType::BarStacked | ChartType::BarStacked100 | ChartType::Bar3DClustered | ChartType::Bar3DStacked | ChartType::Bar3DStacked100 | ChartType::CylinderBarClustered | ChartType::CylinderBarStacked | ChartType::CylinderBarStacked100 | ChartType::ConeBarClustered | ChartType::ConeBarStacked | ChartType::ConeBarStacked100 | ChartType::PyramidBarClustered | ChartType::PyramidBarStacked | ChartType::PyramidBarStacked100 => Some("bar"),
        ChartType::Column | ChartType::ColumnStacked | ChartType::ColumnStacked100 | ChartType::Column3D | ChartType::Column3DClustered | ChartType::Column3DStacked | ChartType::Column3DStacked100 | ChartType::CylinderColumn | ChartType::CylinderColumnClustered | ChartType::CylinderColumnStacked | ChartType::CylinderColumnStacked100 | ChartType::ConeColumn | ChartType::ConeColumnClustered | ChartType::ConeColumnStacked | ChartType::ConeColumnStacked100 | ChartType::PyramidColumn | ChartType::PyramidColumnClustered | ChartType::PyramidColumnStacked | ChartType::PyramidColumnStacked100 => Some("col"),
        _ => None,
    }
}

/// The `c:barDir` value of a bar or column chart type.
pub fn chart_type_bar_direction_xml_value(t: &ChartType) -> (r: Option<&'static str>)
    ensures
        r == bar_direction_name(*t),
{
    match t {
        ChartType::Bar | ChartType::BarStacked | ChartType::BarStacked100 | ChartType::Bar3DClustered | ChartType::Bar3DStacked | ChartType::Bar3DStacked100 | ChartType::CylinderBarClustered | ChartType::CylinderBarStacked | ChartType::CylinderBarStacked100 | ChartType::ConeBarClustered | ChartType::ConeBarStacked | ChartType::ConeBarStacked100 | ChartType::PyramidBarClustered | ChartType::PyramidBarStacked | ChartType::PyramidBarStacked100 => Some("bar"),
        ChartType::Column | ChartType::ColumnStacked | ChartType::ColumnStacked100 | ChartType::Column3D | ChartType::Column3DClustered | ChartType::Column3DStacked | ChartType::Column3DStacked100 | ChartType::CylinderColumn | ChartType::CylinderColumnClustered | ChartType::CylinderColumnStacked | ChartType::CylinderColumnStacked100 | ChartType::ConeColumn | ChartType::ConeColumnClustered | ChartType::ConeColumnStacked | ChartType::ConeColumnStacked100 | ChartType::PyramidColumn | ChartType::PyramidColumnClustered | ChartType::PyramidColumnStacked | ChartType::PyramidColumnStacked100 => Some("col"),
        _ => None,
    }
}

/// The `c:grouping` value of a chart type.
pub open spec fn grouping_name(t: ChartType) -> Option<&'static str> {
    match t {
        ChartType::Area | ChartType::Area3D => Some("standard"),
        ChartType::AreaStacked | ChartType::Area3DStacked => Some("stacked"),
        ChartType::AreaStacked100 | ChartType::Area3DStacked100 => Some("percentStacked"),
        ChartType::Bar | ChartType::Column | ChartType::Bar3DClustered | ChartType::Column3DClustered | ChartType::CylinderColumnClustered | ChartType::CylinderBarClustered | ChartType::ConeColumnClustered | ChartType::ConeBarClustered | ChartType::PyramidColumnClustered | ChartType::PyramidBarClustered => Some("clustered"),
        ChartType::Column3D | ChartType::CylinderColumn | ChartType::ConeColumn | ChartType::PyramidColumn => Some("standard"),
        ChartType::BarStacked | ChartType::ColumnStacked | ChartType::Bar3DStacked | ChartType::Column3DStacked | ChartType::CylinderColumnStacked | ChartType::CylinderBarStacked | ChartType::ConeColumnStacked | ChartType::ConeBarStacked | ChartType::PyramidColumnStacked | ChartType::PyramidBarStacked => Some("stacked"),
        ChartType::BarStacked100 | ChartType::ColumnStacked100 | ChartType::Bar3DStacked100 | ChartType::Column3DStacked100 | ChartType::CylinderColumnStacked100 | ChartType::CylinderBarStacked100 | ChartType::ConeColumnStacked100 | ChartType::ConeBarStacked100 | ChartType::PyramidColumnStacked100 | ChartType::PyramidBarStacked100 => Some("percentStacked"),
        ChartType::Line | ChartType::LineMarkers => Some("standard"),
        ChartType::LineStacked | ChartType::LineMarkersStacked => Some("stacked"),
        ChartType::LineStacked100 | ChartType::LineMarkersStacked100 => Some("percentStacked"),
        _ => None,
    }
}

/// The `c:grouping` value of a chart type.
pub fn chart_type_grouping_xml_value(t: &ChartType) -> (r: Option<&'static str>)
    ensures
        r == grouping_name(*t),
{
    match t {
        ChartType::Area | ChartType::Area3D => Some("standard"),
        ChartType::AreaStacked | ChartType::Area3DStacked => Some("stacked"),
        ChartType::AreaStacked100 | ChartType::Area3DStacked100 => Some("percentStacked"),
        ChartType::Bar | ChartType::Column | ChartType::Bar3DClustered | ChartType::Column3DClustered | ChartType::CylinderColumnClustered | ChartType::CylinderBarClustered | ChartType::ConeColumnClustered | ChartType::ConeBarClustered | ChartType::PyramidColumnClustered | ChartType::PyramidBarClustered => Some("clustered"),
        ChartType::Column3D | ChartType::CylinderColumn | ChartType::ConeColumn | ChartType::PyramidColumn => Some("standard"),
        ChartType::BarStacked | ChartType::ColumnStacked | ChartType::Bar3DStacked | ChartType::Column3DStacked | ChartType::CylinderColumnStacked | ChartType::CylinderBarStacked | ChartType::ConeColumnStacked | ChartType::ConeBarStacked | ChartType::PyramidColumnStacked | ChartType::PyramidBarStacked => Some("stacked"),
        ChartType::BarStacked100 | ChartType::ColumnStacked100 | ChartType::Bar3DStacked100 | ChartType::Column3DStacked100 | ChartType::CylinderColumnStacked100 | ChartType::CylinderBarStacked100 | ChartType::ConeColumnStacked100 | ChartType::ConeBarStacked100 | ChartType::PyramidColumnStacked100 | ChartType::PyramidBarStacked100 => Some("percentStacked"),
        ChartType::Line | ChartType::LineMarkers => Some("standard"),
        ChartType::LineStacked | ChartType::LineMarkersStacked => Some("stacked"),
        ChartType::LineStacked100 | ChartType::LineMarkersStacked100 => Some("percentStacked"),
        _ => None,
    }
}

/// The bar shape that a 3-D bar chart type implies.
pub open spec fn bar_shape_of_type(t: ChartType) -> Option<ChartBarShape> {
    match t {
        ChartType::Bar3DClustered | ChartType::Bar3DStacked | ChartType::Bar3DStacked100 | ChartType::Column3D | ChartType::Column3DClustered | ChartType::Column3DStacked | ChartType::Column3DStacked100 => Some(ChartBarShape::Box),
        ChartType::CylinderColumn | ChartType::CylinderColumnClustered | ChartType::CylinderColumnStacked | ChartType::CylinderColumnStacked100 | ChartType::CylinderBarClustered | ChartType::CylinderBarStacked | ChartType::CylinderBarStacked100 => Some(ChartBarShape::Cylinder),
        ChartType::ConeColumn | ChartType::ConeColumnClustered | ChartType::ConeColumnStacked | ChartType::ConeColumnStacked100 | ChartType::ConeBarClustered | ChartType::ConeBarStacked | ChartType::ConeBarStacked100 => Some(ChartBarShape::ConeToPoint),
        ChartType::PyramidColumn | ChartType::PyramidColumnClustered | ChartType::PyramidColumnStacked | ChartType::PyramidColumnStacked100 | ChartType::PyramidBarClustered | ChartType::PyramidBarStacked | ChartType::PyramidBarStacked100 => Some(ChartBarShape::PyramidToPoint),
        _ => None,
    }
}

/// The bar shape that a 3-D bar chart type implies.
pub fn chart_bar_shape_from_chart_type(t: &ChartType) -> (r: Option<ChartBarShape>)
    ensures
        r == bar_shape_of_type(*t),
{
    match t {
        ChartType::Bar3DClustered | ChartType::Bar3DStacked | ChartType::Bar3DStacked100 | ChartType::Column3D | ChartType::Column3DClustered | ChartType::Column3DStacked | ChartType::Column3DStacked100 => Some(ChartBarShape::Box),
        ChartType::CylinderColumn | ChartType::CylinderColumnClustered | ChartType::CylinderColumnStacked | ChartType::CylinderColumnStacked100 | ChartType::CylinderBarClustered | ChartType::CylinderBarStacked | ChartType::CylinderBarStacked100 => Some(ChartBarShape::Cylinder),
        ChartType::ConeColumn | ChartType::ConeColumnClustered | ChartType::ConeColumnStacked | ChartType::ConeColumnStacked100 | ChartType::ConeBarClustered | ChartType::ConeBarStacked | ChartType::ConeBarStacked100 => Some(ChartBarShape::ConeToPoint),
        ChartType::PyramidColumn | ChartType::PyramidColumnClustered | ChartType::PyramidColumnStacked | ChartType::PyramidColumnStacked100 | ChartType::PyramidBarClustered | ChartType::PyramidBarStacked | ChartType::PyramidBarStacked100 => Some(ChartBarShape::PyramidToPoint),
        _ => None,
    }
}

/// The `c:marker` value of a line chart type.
pub open spec fn line_marker_name(t: ChartType) -> Option<&'static str> {
    match t {
        ChartType::Line | ChartType::LineStacked | ChartType::LineStacked100 => Some("0"),
        ChartType::LineMarkers | ChartType::LineMarkersStacked | ChartType::LineMarkersStacked100 => Some("1"),
        _ => None,
    }
}

/// The `c:marker` value of a line chart type.
pub fn chart_type_line_marker_xml_value(t: &ChartType) -> (r: Option<&'static str>)
    ensures
        r == line_marker_name(*t),
{
    match t {
        ChartType::Line | ChartType::LineStacked | ChartType::LineStacked100 => Some("0"),
        ChartType::LineMarkers | ChartType::LineMarkersStacked | ChartType::LineMarkersStacked100 => Some("1"),
        _ => None,
    }
}

/// The `c:scatterStyle` value of a scatter chart type.
pub open spec fn scatter_style_name(t: ChartType) -> Option<&'static str> {
    match t {
        ChartType::Scatter => Some("marker"),
        ChartType::ScatterLines => Some("lineMarker"),
        ChartType::ScatterLinesNoMarkers => Some("line"),
        ChartType::ScatterSmooth => Some("smoothMarker"),
        ChartType::ScatterSmoothNoMarkers => Some("smooth"),
        _ => None,
    }
}

/// The `c:scatterStyle` value of a scatter chart type.
pub fn chart_type_scatter_style_xml_value(t: &ChartType) -> (r: Option<&'static str>)
    ensures
        r == scatter_style_name(*t),
{
    match t {
        ChartType::Scatter => Some("marker"),
        ChartType::ScatterLines => Some("lineMarker"),
        ChartType::ScatterLinesNoMarkers => Some("line"),
        ChartType::ScatterSmooth => Some("smoothMarker"),
        ChartType::ScatterSmoothNoMarkers => Some("smooth"),
        _ => None,
    }
}

/// The `c:radarStyle` value of a radar chart type.
pub open spec fn radar_style_name(t: ChartType) -> Option<&'static str> {
    match t {
        ChartType::Radar => Some("standard"),
        ChartType::RadarMarkers => Some("marker"),
        ChartType::RadarFilled => Some("filled"),
        _ => None,
    }
}

/// The `c:radarStyle` value of a radar chart type.
pub fn chart_type_radar_style_xml_value(t: &ChartType) -> (r: Option<&'static str>)
    ensures
        r == radar_style_name(*t),
{
    match t {
        ChartType::Radar => Some("standard"),
        ChartType::RadarMarkers => Some("marker"),
        ChartType::RadarFilled => Some("filled"),
        _ => None,
    }
}

/// The `c:ofPieType` value of a pie-of-pie chart type.
pub open spec fn of_pie_name(t: ChartType) -> Option<&'static str> {
    match t {
        ChartType::PieOfPie => Some("pie"),
        ChartType::BarOfPie => Some("bar"),
        _ => None,
    }
}

/// The `c:ofPieType` value of a pie-of-pie chart type.
pub fn chart_type_of_pie_xml_value(t: &ChartType) -> (r: Option<&'static str>)
    ensures
        r == of_pie_name(*t),
{
    match t {
        ChartType::PieOfPie => Some("pie"),
        ChartType::BarOfPie => Some("bar"),
        _ => None,
    }
}

/// The `c:wireframe` value of a surface chart type.
pub open spec fn wireframe_name(t: ChartType) -> Option<&'static str> {
    match t {
        ChartType::Surface | ChartType::SurfaceTopView => Some("0"),
        ChartType::SurfaceWireframe | ChartType::SurfaceTopViewWireframe => Some("1"),
        _ => None,
    }
}

/// The `c:wireframe` value of a surface chart type.
pub fn chart_type_surface_wireframe_xml_value(t: &ChartType) -> (r: Option<&'static str>)
    ensures
        r == wireframe_name(*t),
{
    match t {
        ChartType::Surface | ChartType::SurfaceTopView => Some("0"),
        ChartType::SurfaceWireframe | ChartType::SurfaceTopViewWireframe => Some("1"),
        _ => None,
    }
}

/// Whether a chart type plots x/y value pairs.
pub open spec fn uses_xy_values(t: ChartType) -> bool {
    match t {
        ChartType::Scatter | ChartType::ScatterLines | ChartType::ScatterLinesNoMarkers | ChartType::ScatterSmooth | ChartType::ScatterSmoothNoMarkers | ChartType::Bubble | ChartType::Bubble3DEffect => true,
        _ => false,
    }
}

/// Whether a chart type plots x/y value pairs.
pub fn chart_type_uses_xy_values(t: &ChartType) -> (r: bool)
    ensures
        r == uses_xy_values(*t),
{
    match t {
        ChartType::Scatter | ChartType::ScatterLines | ChartType::ScatterLinesNoMarkers | ChartType::ScatterSmooth | ChartType::ScatterSmoothNoMarkers | ChartType::Bubble | ChartType::Bubble3DEffect => true,
        _ => false,
    }
}

/// Whether a chart type plots bubble sizes.
pub open spec fn uses_bubble_size(t: ChartType) -> bool {
    match t {
        ChartType::Bubble | ChartType::Bubble3DEffect => true,
        _ => false,
    }
}

/// Whether a chart type plots bubble sizes.
pub fn chart_type_uses_bubble_size(t: &ChartType) -> (r: bool)
    ensures
        r == uses_bubble_size(*t),
{
    match t {
        ChartType::Bubble | ChartType::Bubble3DEffect => true,
        _ => false,
    }
}

/// Whether a chart type is a volume stock chart.
pub open spec fn is_volume_stock(t: ChartType) -> bool {
    match t {
        ChartType::StockVHLC | ChartType::StockVOHLC => true,
        _ => false,
    }
}

/// Whether a chart type is a volume stock chart.
pub fn chart_type_is_volume_stock(t: &ChartType) -> (r: bool)
    ensures
        r == is_volume_stock(*t),
{
    match t {
        ChartType::StockVHLC | ChartType::StockVOHLC => true,
        _ => false,
    }
}

/// The fixed number of series of a volume stock chart type.
pub open spec fn volume_stock_count(t: ChartType) -> Option<usize> {
    match t {
        ChartType::StockVHLC => Some(4usize),
        ChartType::StockVOHLC => Some(5usize),
        _ => None,
    }
}

/// The fixed number of series of a volume stock chart type.
pub fn volume_stock_series_count(t: &ChartType) -> (r: Option<usize>)
    ensures
        r == volume_stock_count(*t),
{
    match t {
        ChartType::StockVHLC => Some(4usize),
        ChartType::StockVOHLC => Some(5usize),
        _ => None,
    }
}

/// Whether a chart type has axes (pie and doughnut types have none).
pub open spec fn has_axes(t: ChartType) -> bool {
    match t {
        ChartType::Doughnut | ChartType::DoughnutExploded | ChartType::Pie | ChartType::Pie3D | ChartType::PieExploded | ChartType::Pie3DExploded | ChartType::PieOfPie | ChartType::BarOfPie => false,
        _ => true,
    }
}

/// Whether a chart type has axes (pie and doughnut types have none).
pub fn chart_type_has_axes(t: &ChartType) -> (r: bool)
    ensures
        r == has_axes(*t),
{
    match t {
        ChartType::Doughnut | ChartType::DoughnutExploded | ChartType::Pie | ChartType::Pie3D | ChartType::PieExploded | ChartType::Pie3DExploded | ChartType::PieOfPie | ChartType::BarOfPie => false,
        _ => true,
    }
}

/// Whether a chart type supports exploded points.
pub open spec fn supports_explosion(t: ChartType) -> bool {
    match t {
        ChartType::Doughnut | ChartType::DoughnutExploded | ChartType::Pie | ChartType::Pie3D | ChartType::PieExploded | ChartType::Pie3DExploded => true,
        _ => false,
    }
}

/// Whether a chart type supports exploded points.
pub fn chart_type_supports_explosion(t: &ChartType) -> (r: bool)
    ensures
        r == supports_explosion(*t),
{
    match t {
        ChartType::Doughnut | ChartType::DoughnutExploded | ChartType::Pie | ChartType::Pie3D | ChartType::PieExploded | ChartType::Pie3DExploded => true,
        _ => false,
    }
}

/// The explosion that an exploded pie or doughnut type implies.
pub open spec fn default_explosion(t: ChartType) -> Option<u32> {
    match t {
        ChartType::PieExploded | ChartType::Pie3DExploded | ChartType::DoughnutExploded => Some(25u32),
        _ => None,
    }
}

/// The explosion that an exploded pie or doughnut type implies.
pub fn chart_type_default_explosion(t: &ChartType) -> (r: Option<u32>)
    ensures
        r == default_explosion(*t),
{
    match t {
        ChartType::PieExploded | ChartType::Pie3DExploded | ChartType::DoughnutExploded => Some(25u32),
        _ => None,
    }
}

/// The wrapper element of filtered series in a chart group.
pub open spec fn filtered_wrapper_of_kind(g: ChartGroupKind) -> Option<&'static str> {
    match g {
        ChartGroupKind::Area2D | ChartGroupKind::Area3D => Some("filteredAreaSeries"),
        ChartGroupKind::Bar2D | ChartGroupKind::Bar3D => Some("filteredBarSeries"),
        ChartGroupKind::Line2D | ChartGroupKind::Line3D => Some("filteredLineSeries"),
        ChartGroupKind::Scatter => Some("filteredScatterSeries"),
        ChartGroupKind::Bubble => Some("filteredBubbleSeries"),
        ChartGroupKind::Doughnut | ChartGroupKind::Pie2D | ChartGroupKind::Pie3D
        | ChartGroupKind::OfPie => Some("filteredPieSeries"),
        ChartGroupKind::Radar => Some("filteredRadarSeries"),
        ChartGroupKind::Surface3D | ChartGroupKind::Surface2D => Some("filteredSurfaceSeries"),
        ChartGroupKind::Stock => None,
    }
}

/// The wrapper element that holds a chart type's filtered series.
pub open spec fn filtered_wrapper_name(t: ChartType) -> Option<&'static str> {
    match group_kind_of(t) {
        Some(g) => filtered_wrapper_of_kind(g),
        None => None,
    }
}

/// The wrapper element that holds a chart type's filtered series.
pub fn chart_filtered_series_wrapper_name(t: &ChartType) -> (r: Option<&'static str>)
    ensures
        r == filtered_wrapper_name(*t),
{
    match chart_group_kind(t) {
        Some(g) => match g {
            ChartGroupKind::Area2D | ChartGroupKind::Area3D => Some("filteredAreaSeries"),
            ChartGroupKind::Bar2D | ChartGroupKind::Bar3D => Some("filteredBarSeries"),
            ChartGroupKind::Line2D | ChartGroupKind::Line3D => Some("filteredLineSeries"),
            ChartGroupKind::Scatter => Some("filteredScatterSeries"),
            ChartGroupKind::Bubble => Some("filteredBubbleSeries"),
            ChartGroupKind::Doughnut | ChartGroupKind::Pie2D | ChartGroupKind::Pie3D
            | ChartGroupKind::OfPie => Some("filteredPieSeries"),
            ChartGroupKind::Radar => Some("filteredRadarSeries"),
            ChartGroupKind::Surface3D | ChartGroupKind::Surface2D => Some(
                "filteredSurfaceSeries",
            ),
            ChartGroupKind::Stock => None,
        },
        None => None,
    }
}

/// Whether a local name is one of the filtered-series wrapper elements.
pub open spec fn is_filtered_wrapper_name(n: Seq<char>) -> bool {
    n == "filteredAreaSeries"@ || n == "filteredBarSeries"@ || n == "filteredLineSeries"@
        || n == "filteredScatterSeries"@ || n == "filteredBubbleSeries"@ || n
        == "filteredPieSeries"@ || n == "filteredRadarSeries"@ || n == "filteredSurfaceSeries"@
}

/// Whether a local name is one of the filtered-series wrapper elements.
pub fn is_chart_filtered_series_wrapper_name(local_name: &[char]) -> (r: bool)
    ensures
        r == is_filtered_wrapper_name(local_name@),
{
    chars_eq_str(local_name, "filteredAreaSeries") || chars_eq_str(local_name, "filteredBarSeries")
        || chars_eq_str(local_name, "filteredLineSeries") || chars_eq_str(
        local_name,
        "filteredScatterSeries",
    ) || chars_eq_str(local_name, "filteredBubbleSeries") || chars_eq_str(
        local_name,
        "filteredPieSeries",
    ) || chars_eq_str(local_name, "filteredRadarSeries") || chars_eq_str(
        local_name,
        "filteredSurfaceSeries",
    )
}

/// Whether a chart-group child element comes before the group's series.
pub open spec fn precedes_series(n: Seq<char>) -> bool {
    n == "barDir"@ || n == "grouping"@ || n == "varyColors"@ || n == "scatterStyle"@ || n
        == "radarStyle"@ || n == "ofPieType"@ || n == "wireframe"@
}

/// Whether a chart-group child element comes before the group's series.
pub fn chart_group_child_precedes_series(local_name: &[char]) -> (r: bool)
    ensures
        r == precedes_series(local_name@),
{
    chars_eq_str(local_name, "barDir") || chars_eq_str(local_name, "grouping") || chars_eq_str(
        local_name,
        "varyColors",
    ) || chars_eq_str(local_name, "scatterStyle") || chars_eq_str(local_name, "radarStyle")
        || chars_eq_str(local_name, "ofPieType") || chars_eq_str(local_name, "wireframe")
}

/// Whether a local name is a direct property element of a chart group.
pub open spec fn is_group_direct_property(n: Seq<char>) -> bool {
    n == "barDir"@ || n == "grouping"@ || n == "shape"@ || n == "marker"@ || n == "scatterStyle"@
        || n == "radarStyle"@ || n == "ofPieType"@ || n == "wireframe"@ || n == "varyColors"@
        || n == "gapWidth"@ || n == "gapDepth"@ || n == "overlap"@ || n == "firstSliceAng"@ || n
        == "bubbleScale"@ || n == "showNegBubbles"@ || n == "bubble3D"@ || n == "holeSize"@ || n
        == "secondPieSize"@ || n == "sizeRepresents"@ || n == "splitType"@ || n == "splitPos"@
        || n == "dLbls"@ || n == "serLines"@ || n == "dropLines"@ || n == "hiLowLines"@ || n
        == "upDownBars"@
}

/// Whether a local name is a direct property element of a chart group.
pub fn chart_group_direct_property_name(local_name: &[char]) -> (r: bool)
    ensures
        r == is_group_direct_property(local_name@),
{
    let n = local_name;
    chars_eq_str(n, "barDir") || chars_eq_str(n, "grouping") || chars_eq_str(n, "shape")
        || chars_eq_str(n, "marker") || chars_eq_str(n, "scatterStyle") || chars_eq_str(
        n,
        "radarStyle",
    ) || chars_eq_str(n, "ofPieType") || chars_eq_str(n, "wireframe") || chars_eq_str(
        n,
        "varyColors",
    ) || chars_eq_str(n, "gapWidth") || chars_eq_str(n, "gapDepth") || chars_eq_str(n, "overlap")
        || chars_eq_str(n, "firstSliceAng") || chars_eq_str(n, "bubbleScale") || chars_eq_str(
        n,
        "showNegBubbles",
    ) || chars_eq_str(n, "bubble3D") || chars_eq_str(n, "holeSize") || chars_eq_str(
        n,
        "secondPieSize",
    ) || chars_eq_str(n, "sizeRepresents") || chars_eq_str(n, "splitType") || chars_eq_str(
        n,
        "splitPos",
    ) || chars_eq_str(n, "dLbls") || chars_eq_str(n, "serLines") || chars_eq_str(n, "dropLines")
        || chars_eq_str(n, "hiLowLines") || chars_eq_str(n, "upDownBars")
}

/// Whether a chart type's group supports a bar shape (3-D bar groups only).
pub open spec fn supports_bar_shape(t: ChartType) -> bool {
    group_kind_of(t) == Some(ChartGroupKind::Bar3D)
}

/// Whether a chart type's group supports a bar shape (3-D bar groups only).
pub fn chart_type_supports_bar_shape(t: &ChartType) -> (r: bool)
    ensures
        r == supports_bar_shape(*t),
{
    matches!(chart_group_kind(t), Some(ChartGroupKind::Bar3D))
}

/// Whether a chart type's series support smoothing (line and scatter groups).
pub open spec fn supports_series_smooth(t: ChartType) -> bool {
    group_kind_of(t) == Some(ChartGroupKind::Line2D) || group_kind_of(t) == Some(
        ChartGroupKind::Scatter,
    )
}

/// Whether a chart type's series support smoothing (line and scatter groups).
pub fn chart_type_supports_series_smooth(t: &ChartType) -> (r: bool)
    ensures
        r == supports_series_smooth(*t),
{
    matches!(chart_group_kind(t), Some(ChartGroupKind::Line2D) | Some(ChartGroupKind::Scatter))
}

/// Whether a chart type's series support markers (line, scatter and radar groups).
pub open spec fn supports_series_marker(t: ChartType) -> bool {
    group_kind_of(t) == Some(ChartGroupKind::Line2D) || group_kind_of(t) == Some(
        ChartGroupKind::Scatter,
    ) || group_kind_of(t) == Some(ChartGroupKind::Radar)
}

/// Whether a chart type's series support markers (line, scatter and radar groups).
pub fn chart_type_supports_series_marker(t: &ChartType) -> (r: bool)
    ensures
        r == supports_series_marker(*t),
{
    matches!(
        chart_group_kind(t),
        Some(ChartGroupKind::Line2D) | Some(ChartGroupKind::Scatter) | Some(ChartGroupKind::Radar)
    )
}

/// Whether a chart type's group supports a gap depth (3-D area, bar and line groups).
pub open spec fn supports_gap_depth(t: ChartType) -> bool {
    group_kind_of(t) == Some(ChartGroupKind::Area3D) || group_kind_of(t) == Some(
        ChartGroupKind::Bar3D,
    ) || group_kind_of(t) == Some(ChartGroupKind::Line3D)
}

/// Whether a chart type's group supports a gap depth (3-D area, bar and line groups).
pub fn chart_type_supports_gap_depth(t: &ChartType) -> (r: bool)
    ensures
        r == supports_gap_depth(*t),
{
    matches!(
        chart_group_kind(t),
        Some(ChartGroupKind::Area3D) | Some(ChartGroupKind::Bar3D) | Some(ChartGroupKind::Line3D)
    )
}

/// The chart type that a series of a chart plotted on an axis group uses:
/// volume stock charts plot volume as columns on the primary axis group and
/// prices as a plain stock chart on the secondary one.
pub open spec fn type_for_axis_group(t: ChartType, axis_group: ChartAxisGroup) -> ChartType {
    match (t, axis_group) {
        (ChartType::StockVHLC, ChartAxisGroup::Primary) => ChartType::Column,
        (ChartType::StockVOHLC, ChartAxisGroup::Primary) => ChartType::Column,
        (ChartType::StockVHLC, ChartAxisGroup::Secondary) => ChartType::StockHLC,
        (ChartType::StockVOHLC, ChartAxisGroup::Secondary) => ChartType::StockOHLC,
        (other, _) => other,
    }
}

/// The chart type used for the series on an axis group.
pub fn chart_type_for_axis_group(t: &ChartType, axis_group: ChartAxisGroup) -> (r: ChartType)
    ensures
        r == type_for_axis_group(*t, axis_group),
{
    match (t, axis_group) {
        (ChartType::StockVHLC, ChartAxisGroup::Primary) => ChartType::Column,
        (ChartType::StockVOHLC, ChartAxisGroup::Primary) => ChartType::Column,
        (ChartType::StockVHLC, ChartAxisGroup::Secondary) => ChartType::StockHLC,
        (ChartType::StockVOHLC, ChartAxisGroup::Secondary) => ChartType::StockOHLC,
        (other, _) => clone_chart_type(other),
    }
}

/// A copy of a chart type.
pub fn clone_chart_type(t: &ChartType) -> (r: ChartType)
    ensures
        r == *t,
{
    match t {
        ChartType::Unsupported(name) => ChartType::Unsupported(name.clone()),
        ChartType::Area => ChartType::Area,
        ChartType::AreaStacked => ChartType::AreaStacked,
        ChartType::AreaStacked100 => ChartType::AreaStacked100,
        ChartType::Area3D => ChartType::Area3D,
        ChartType::Area3DStacked => ChartType::Area3DStacked,
        ChartType::Area3DStacked100 => ChartType::Area3DStacked100,
        ChartType::Bar => ChartType::Bar,
        ChartType::BarStacked => ChartType::BarStacked,
        ChartType::BarStacked100 => ChartType::BarStacked100,
        ChartType::Column => ChartType::Column,
        ChartType::ColumnStacked => ChartType::ColumnStacked,
        ChartType::ColumnStacked100 => ChartType::ColumnStacked100,
        ChartType::Bar3DClustered => ChartType::Bar3DClustered,
        ChartType::Bar3DStacked => ChartType::Bar3DStacked,
        ChartType::Bar3DStacked100 => ChartType::Bar3DStacked100,
        ChartType::Column3D => ChartType::Column3D,
        ChartType::Column3DClustered => ChartType::Column3DClustered,
        ChartType::Column3DStacked => ChartType::Column3DStacked,
        ChartType::Column3DStacked100 => ChartType::Column3DStacked100,
        ChartType::CylinderColumn => ChartType::CylinderColumn,
        ChartType::CylinderColumnClustered => ChartType::CylinderColumnClustered,
        ChartType::CylinderColumnStacked => ChartType::CylinderColumnStacked,
        ChartType::CylinderColumnStacked100 => ChartType::CylinderColumnStacked100,
        ChartType::CylinderBarClustered => ChartType::CylinderBarClustered,
        ChartType::CylinderBarStacked => ChartType::CylinderBarStacked,
        ChartType::CylinderBarStacked100 => ChartType::CylinderBarStacked100,
        ChartType::ConeColumn => ChartType::ConeColumn,
        ChartType::ConeColumnClustered => ChartType::ConeColumnClustered,
        ChartType::ConeColumnStacked => ChartType::ConeColumnStacked,
        ChartType::ConeColumnStacked100 => ChartType::ConeColumnStacked100,
        ChartType::ConeBarClustered => ChartType::ConeBarClustered,
        ChartType::ConeBarStacked => ChartType::ConeBarStacked,
        ChartType::ConeBarStacked100 => ChartType::ConeBarStacked100,
        ChartType::PyramidColumn => ChartType::PyramidColumn,
        ChartType::PyramidColumnClustered => ChartType::PyramidColumnClustered,
        ChartType::PyramidColumnStacked => ChartType::PyramidColumnStacked,
        ChartType::PyramidColumnStacked100 => ChartType::PyramidColumnStacked100,
        ChartType::PyramidBarClustered => ChartType::PyramidBarClustered,
        ChartType::PyramidBarStacked => ChartType::PyramidBarStacked,
        ChartType::PyramidBarStacked100 => ChartType::PyramidBarStacked100,
        ChartType::Line => ChartType::Line,
        ChartType::LineMarkers => ChartType::LineMarkers,
        ChartType::LineMarkersStacked => ChartType::LineMarkersStacked,
        ChartType::LineMarkersStacked100 => ChartType::LineMarkersStacked100,
        ChartType::LineStacked => ChartType::LineStacked,
        ChartType::LineStacked100 => ChartType::LineStacked100,
        ChartType::Line3D => ChartType::Line3D,
        ChartType::Scatter => ChartType::Scatter,
        ChartType::ScatterLines => ChartType::ScatterLines,
        ChartType::ScatterLinesNoMarkers => ChartType::ScatterLinesNoMarkers,
        ChartType::ScatterSmooth => ChartType::ScatterSmooth,
        ChartType::ScatterSmoothNoMarkers => ChartType::ScatterSmoothNoMarkers,
        ChartType::Bubble => ChartType::Bubble,
        ChartType::Bubble3DEffect => ChartType::Bubble3DEffect,
        ChartType::Doughnut => ChartType::Doughnut,
        ChartType::DoughnutExploded => ChartType::DoughnutExploded,
        ChartType::Pie => ChartType::Pie,
        ChartType::PieExploded => ChartType::PieExploded,
        ChartType::Pie3D => ChartType::Pie3D,
        ChartType::Pie3DExploded => ChartType::Pie3DExploded,
        ChartType::PieOfPie => ChartType::PieOfPie,
        ChartType::BarOfPie => ChartType::BarOfPie,
        ChartType::Radar => ChartType::Radar,
        ChartType::RadarMarkers => ChartType::RadarMarkers,
        ChartType::RadarFilled => ChartType::RadarFilled,
        ChartType::StockHLC => ChartType::StockHLC,
        ChartType::StockOHLC => ChartType::StockOHLC,
        ChartType::StockVHLC => ChartType::StockVHLC,
        ChartType::StockVOHLC => ChartType::StockVOHLC,
        ChartType::Surface => ChartType::Surface,
        ChartType::SurfaceWireframe => ChartType::SurfaceWireframe,
        ChartType::SurfaceTopView => ChartType::SurfaceTopView,
        ChartType::SurfaceTopViewWireframe => ChartType::SurfaceTopViewWireframe,
        ChartType::Unknown => ChartType::Unknown,
    }
}

/// The bar shape written for a chart: the chart's own shape, else the one its
/// type implies, for 3-D bar types only.
pub open spec fn effective_bar_shape(t: ChartType, bar_shape: Option<ChartBarShape>) -> Option<ChartBarShape> {
    if supports_bar_shape(t) {
        match bar_shape {
            Some(s) => Some(s),
            None => bar_shape_of_type(t),
        }
    } else {
        None
    }
}

/// The bar shape written for a chart type and an optional explicit shape.
pub fn chart_effective_bar_shape(t: &ChartType, bar_shape: Option<ChartBarShape>) -> (r: Option<ChartBarShape>)
    ensures
        r == effective_bar_shape(*t, bar_shape),
{
    if chart_type_supports_bar_shape(t) {
        match bar_shape {
            Some(s) => Some(s),
            None => chart_bar_shape_from_chart_type(t),
        }
    } else {
        None
    }
}

/// The explosion written for a chart: its own, else 25 for the exploded pie and
/// doughnut types, and none for types without explosion.
pub open spec fn explosion_value(t: ChartType, explosion: Option<u32>) -> Option<u32> {
    if !supports_explosion(t) {
        None
    } else {
        match explosion {
            Some(v) => Some(v),
            None => default_explosion(t),
        }
    }
}

/// The explosion written for a chart type and an optional explicit explosion.
pub fn chart_explosion_value(t: &ChartType, explosion: Option<u32>) -> (r: Option<u32>)
    ensures
        r == explosion_value(*t, explosion),
{
    if !chart_type_supports_explosion(t) {
        None
    } else {
        match explosion {
            Some(v) => Some(v),
            None => chart_type_default_explosion(t),
        }
    }
}

/// Reading a chart-group element name and writing the chart type back gives
/// the same element name.
pub proof fn lemma_group_name_roundtrip(n: Seq<char>)
    ensures
        type_of_group_name(n) matches Some(t) ==> (group_xml_name(t) matches Some(name) && name@
            == n),
{
}

/// Writing a chart type's group element name and reading it back gives a
/// chart type of the same chart group.
pub proof fn lemma_group_type_roundtrip(t: ChartType)
    ensures
        group_xml_name(t) matches Some(name) ==> (type_of_group_name(name@) matches Some(u)
            && group_kind_of(u) == group_kind_of(t)),
{
    reveal_strlit("areaChart");
    reveal_strlit("area3DChart");
    reveal_strlit("barChart");
    reveal_strlit("bar3DChart");
    reveal_strlit("lineChart");
    reveal_strlit("line3DChart");
    reveal_strlit("scatterChart");
    reveal_strlit("bubbleChart");
    reveal_strlit("doughnutChart");
    reveal_strlit("ofPieChart");
    reveal_strlit("pieChart");
    reveal_strlit("pie3DChart");
    reveal_strlit("radarChart");
    reveal_strlit("stockChart");
    reveal_strlit("surfaceChart");
    reveal_strlit("surface3DChart");
    assert("area3DChart"@.len() != "areaChart"@.len());
    assert("barChart"@.len() != "areaChart"@.len());
    assert("barChart"@.len() != "area3DChart"@.len());
    assert("bar3DChart"@.len() != "areaChart"@.len());
    assert("bar3DChart"@.len() != "area3DChart"@.len());
    assert("bar3DChart"@.len() != "barChart"@.len());
    assert("lineChart"@[0] != "areaChart"@[0]);
    assert("lineChart"@.len() != "area3DChart"@.len());
    assert("lineChart"@.len() != "barChart"@.len());
    assert("lineChart"@.len() != "bar3DChart"@.len());
    assert("line3DChart"@.len() != "areaChart"@.len());
    assert("line3DChart"@[0] != "area3DChart"@[0]);
    assert("line3DChart"@.len() != "barChart"@.len());
    assert("line3DChart"@.len() != "bar3DChart"@.len());
    assert("line3DChart"@.len() != "lineChart"@.len());
    assert("scatterChart"@.len() != "areaChart"@.len());
    assert("scatterChart"@.len() != "area3DChart"@.len());
    assert("scatterChart"@.len() != "barChart"@.len());
    assert("scatterChart"@.len() != "bar3DChart"@.len());
    assert("scatterChart"@.len() != "lineChart"@.len());
    assert("scatterChart"@.len() != "line3DChart"@.len());
    assert("bubbleChart"@.len() != "areaChart"@.len());
    assert("bubbleChart"@[0] != "area3DChart"@[0]);
    assert("bubbleChart"@.len() != "barChart"@.len());
    assert("bubbleChart"@.len() != "bar3DChart"@.len());
    assert("bubbleChart"@.len() != "lineChart"@.len());
    assert("bubbleChart"@[0] != "line3DChart"@[0]);
    assert("bubbleChart"@.len() != "scatterChart"@.len());
    assert("doughnutChart"@.len() != "areaChart"@.len());
    assert("doughnutChart"@.len() != "area3DChart"@.len());
    assert("doughnutChart"@.len() != "barChart"@.len());
    assert("doughnutChart"@.len() != "bar3DChart"@.len());
    assert("doughnutChart"@.len() != "lineChart"@.len());
    assert("doughnutChart"@.len() != "line3DChart"@.len());
    assert("doughnutChart"@.len() != "scatterChart"@.len());
    assert("doughnutChart"@.len() != "bubbleChart"@.len());
    assert("ofPieChart"@.len() != "areaChart"@.len());
    assert("ofPieChart"@.len() != "area3DChart"@.len());
    assert("ofPieChart"@.len() != "barChart"@.len());
    assert("ofPieChart"@[0] != "bar3DChart"@[0]);
    assert("ofPieChart"@.len() != "lineChart"@.len());
    assert("ofPieChart"@.len() != "line3DChart"@.len());
    assert("ofPieChart"@.len() != "scatterChart"@.len());
    assert("ofPieChart"@.len() != "bubbleChart"@.len());
    assert("ofPieChart"@.len() != "doughnutChart"@.len());
    assert("pieChart"@.len() != "areaChart"@.len());
    assert("pieChart"@.len() != "area3DChart"@.len());
    assert("pieChart"@[0] != "barChart"@[0]);
    assert("pieChart"@.len() != "bar3DChart"@.len());
    assert("pieChart"@.len() != "lineChart"@.len());
    assert("pieChart"@.len() != "line3DChart"@.len());
    assert("pieChart"@.len() != "scatterChart"@.len());
    assert("pieChart"@.len() != "bubbleChart"@.len());
    assert("pieChart"@.len() != "doughnutChart"@.len());
    assert("pieChart"@.len() != "ofPieChart"@.len());
    assert("pie3DChart"@.len() != "areaChart"@.len());
    assert("pie3DChart"@.len() != "area3DChart"@.len());
    assert("pie3DChart"@.len() != "barChart"@.len());
    assert("pie3DChart"@[0] != "bar3DChart"@[0]);
    assert("pie3DChart"@.len() != "lineChart"@.len());
    assert("pie3DChart"@.len() != "line3DChart"@.len());
    assert("pie3DChart"@.len() != "scatterChart"@.len());
    assert("pie3DChart"@.len() != "bubbleChart"@.len());
    assert("pie3DChart"@.len() != "doughnutChart"@.len());
    assert("pie3DChart"@[0] != "ofPieChart"@[0]);
    assert("pie3DChart"@.len() != "pieChart"@.len());
    assert("radarChart"@.len() != "areaChart"@.len());
    assert("radarChart"@.len() != "area3DChart"@.len());
    assert("radarChart"@.len() != "barChart"@.len());
    assert("radarChart"@[0] != "bar3DChart"@[0]);
    assert("radarChart"@.len() != "lineChart"@.len());
    assert("radarChart"@.len() != "line3DChart"@.len());
    assert("radarChart"@.len() != "scatterChart"@.len());
    assert("radarChart"@.len() != "bubbleChart"@.len());
    assert("radarChart"@.len() != "doughnutChart"@.len());
    assert("radarChart"@[0] != "ofPieChart"@[0]);
    assert("radarChart"@.len() != "pieChart"@.len());
    assert("radarChart"@[0] != "pie3DChart"@[0]);
    assert("stockChart"@.len() != "areaChart"@.len());
    assert("stockChart"@.len() != "area3DChart"@.len());
    assert("stockChart"@.len() != "barChart"@.len());
    assert("stockChart"@[0] != "bar3DChart"@[0]);
    assert("stockChart"@.len() != "lineChart"@.len());
    assert("stockChart"@.len() != "line3DChart"@.len());
    assert("stockChart"@.len() != "scatterChart"@.len());
    assert("stockChart"@.len() != "bubbleChart"@.len());
    assert("stockChart"@.len() != "doughnutChart"@.len());
    assert("stockChart"@[0] != "ofPieChart"@[0]);
    assert("stockChart"@.len() != "pieChart"@.len());
    assert("stockChart"@[0] != "pie3DChart"@[0]);
    assert("stockChart"@[0] != "radarChart"@[0]);
    assert("surfaceChart"@.len() != "areaChart"@.len());
    assert("surfaceChart"@.len() != "area3DChart"@.len());
    assert("surfaceChart"@.len() != "barChart"@.len());
    assert("surfaceChart"@.len() != "bar3DChart"@.len());
    assert("surfaceChart"@.len() != "lineChart"@.len());
    assert("surfaceChart"@.len() != "line3DChart"@.len());
    assert("surfaceChart"@[1] != "scatterChart"@[1]);
    assert("surfaceChart"@.len() != "bubbleChart"@.len());
    assert("surfaceChart"@.len() != "doughnutChart"@.len());
    assert("surfaceChart"@.len() != "ofPieChart"@.len());
    assert("surfaceChart"@.len() != "pieChart"@.len());
    assert("surfaceChart"@.len() != "pie3DChart"@.len());
    assert("surfaceChart"@.len() != "radarChart"@.len());
    assert("surfaceChart"@.len() != "stockChart"@.len());
    assert("surface3DChart"@.len() != "areaChart"@.len());
    assert("surface3DChart"@.len() != "area3DChart"@.len());
    assert("surface3DChart"@.len() != "barChart"@.len());
    assert("surface3DChart"@.len() != "bar3DChart"@.len());
    assert("surface3DChart"@.len() != "lineChart"@.len());
    assert("surface3DChart"@.len() != "line3DChart"@.len());
    assert("surface3DChart"@.len() != "scatterChart"@.len());
    assert("surface3DChart"@.len() != "bubbleChart"@.len());
    assert("surface3DChart"@.len() != "doughnutChart"@.len());
    assert("surface3DChart"@.len() != "ofPieChart"@.len());
    assert("surface3DChart"@.len() != "pieChart"@.len());
    assert("surface3DChart"@.len() != "pie3DChart"@.len());
    assert("surface3DChart"@.len() != "radarChart"@.len());
    assert("surface3DChart"@.len() != "stockChart"@.len());
    assert("surface3DChart"@.len() != "surfaceChart"@.len());
}

/// Axis element names and axis kinds correspond one to one.
pub proof fn lemma_axis_kind_names(k: ChartAxisKind, n: Seq<char>)
    ensures
        axis_kind_of_name(axis_kind_name(k)@) == Some(k),
        axis_kind_of_name(n) == Some(k) ==> axis_kind_name(k)@ == n,
{
    reveal_strlit("catAx");
    reveal_strlit("valAx");
    reveal_strlit("dateAx");
    reveal_strlit("serAx");
    assert("valAx"@[0] != "catAx"@[0]);
    assert("dateAx"@.len() != "catAx"@.len());
    assert("dateAx"@.len() != "valAx"@.len());
    assert("serAx"@[0] != "catAx"@[0]);
    assert("serAx"@[0] != "valAx"@[0]);
    assert("serAx"@.len() != "dateAx"@.len());
}

/// A chart type implies a bar shape exactly when its group supports one.
pub proof fn lemma_bar_shape_support(t: ChartType)
    ensures
        bar_shape_of_type(t) is Some <==> supports_bar_shape(t),
{
}

/// A chart type has a fixed series count exactly when it is a volume stock type.
pub proof fn lemma_volume_stock_count(t: ChartType)
    ensures
        volume_stock_count(t) is Some <==> is_volume_stock(t),
{
}

/// The chart types without axes are exactly those of the pie and doughnut groups.
pub proof fn lemma_axes_by_group(t: ChartType)
    ensures
        !has_axes(t) <==> (group_kind_of(t) == Some(ChartGroupKind::Doughnut) || group_kind_of(t)
            == Some(ChartGroupKind::Pie2D) || group_kind_of(t) == Some(ChartGroupKind::Pie3D)
            || group_kind_of(t) == Some(ChartGroupKind::OfPie)),
{
}

/// Every filtered-series wrapper written for a chart type is recognised as one when read.
pub proof fn lemma_filtered_wrapper_recognised(t: ChartType)
    ensures
        filtered_wrapper_name(t) matches Some(w) ==> is_filtered_wrapper_name(w@),
{
}


/// The plain stacked type of a 100%-stacked chart type (none for other types).
pub open spec fn stacked_counterpart(t: ChartType) -> Option<ChartType> {
    match t {
        ChartType::AreaStacked100 => Some(ChartType::AreaStacked),
        ChartType::Area3DStacked100 => Some(ChartType::Area3DStacked),
        ChartType::BarStacked100 => Some(ChartType::BarStacked),
        ChartType::ColumnStacked100 => Some(ChartType::ColumnStacked),
        ChartType::Bar3DStacked100 => Some(ChartType::Bar3DStacked),
        ChartType::Column3DStacked100 => Some(ChartType::Column3DStacked),
        ChartType::CylinderColumnStacked100 => Some(ChartType::CylinderColumnStacked),
        ChartType::CylinderBarStacked100 => Some(ChartType::CylinderBarStacked),
        ChartType::ConeColumnStacked100 => Some(ChartType::ConeColumnStacked),
        ChartType::ConeBarStacked100 => Some(ChartType::ConeBarStacked),
        ChartType::PyramidColumnStacked100 => Some(ChartType::PyramidColumnStacked),
        ChartType::PyramidBarStacked100 => Some(ChartType::PyramidBarStacked),
        ChartType::LineMarkersStacked100 => Some(ChartType::LineMarkersStacked),
        ChartType::LineStacked100 => Some(ChartType::LineStacked),
        _ => None,
    }
}

/// A 100%-stacked chart type is grouped as percent-stacked, and its plain
/// stacked counterpart as stacked: the two never share a grouping.
pub proof fn lemma_percent_stacked_grouping(t: ChartType)
    ensures
        stacked_counterpart(t) matches Some(p) ==> grouping_name(t) == Some("percentStacked") && grouping_name(p)
            == Some("stacked") && grouping_name(t) != grouping_name(p),
{
    reveal_strlit("percentStacked");
    reveal_strlit("stacked");
}


/// A 100%-stacked chart type and its plain stacked counterpart are written
/// in the same chart-group element, with the same bar direction and line
/// marker setting: only their grouping tells them apart.
pub proof fn lemma_percent_stacked_shares_the_rest(t: ChartType)
    ensures
        stacked_counterpart(t) matches Some(p) ==> group_xml_name(p) == group_xml_name(t) && bar_direction_name(p)
            == bar_direction_name(t) && line_marker_name(p) == line_marker_name(t) && group_xml_name(t) is Some,
{
}

} // verus!
