# excel_xlsx

Verified logic for two jobs on XLSX packages, written in Verus:

- **Active content.** Taking stock of the macros, ActiveX controls and other
  active content in a workbook package, and stripping it: which parts,
  relationships and manifest entries go, which anchors in the kept parts are
  cut, and the audit of what was removed, rewritten or kept because something
  else still uses it.
- **Chart XML.** The structural rewrites of a loaded chart's XML as its model
  asks: adding and removing chart groups, moving, adding and filtering series,
  bringing the axes in line with the model, and patching group properties,
  together with the fragments and values that the chart XML is written from;
  writing a whole new chart part from a model; and the final check that a
  candidate chart part reads as XML and is left unchanged by the axis rewrite.

What is not here: the pass that patches chart-wide and series properties
into loaded chart XML (only its first phase, the volume-stock check and the
group-topology rewrite, is in `chart_loaded`), and therefore the encoder
entry point that chooses between patching a loaded part and writing a new
one. Number values of a chart are held as the texts the XML writes.

## Layout

- `src/` — the verified library. Packages and parts (`package`, `parts`),
  the content-types manifest and relationships (`package_xml`,
  `relationships`, `roots`), the inventory (`inventory`, `kinds`), the strip
  (`plan`, `removal`, `strip`, `audit`), and the chart modules
  (`chart_model`, `chart_types`, `chart_xml`, `chart_topology`,
  `chart_sequence`, `chart_series`, `chart_series_topology`,
  `chart_axis_topology`, `chart_patch`, `chart_loaded`, `chart_source`,
  `chart_serialize`, `chart_document`).
  XML is read through `quick-xml`, behind the trusted items of `xml`.
- `tests/` — tests of the library on concrete packages and chart XML.
- `app/` — the floating-point chart values (number texts and manual layouts),
  which the library does not hold.
