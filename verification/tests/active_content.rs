use std::collections::BTreeSet;

use excel_xlsx::audit::{kinds_message_text, ActiveContentPolicy};
use excel_xlsx::errors::OmErrorCode;
use excel_xlsx::inventory::collect_active_content_inventory;
use excel_xlsx::kinds::{
    active_content_kind_from_content_type, active_content_kind_from_relationship_type,
    ActiveContentKind,
};
use excel_xlsx::package::OpcPackage;
use excel_xlsx::package_xml::{
    element_has_removed_relationship_anchor, relationship_element_id,
    should_strip_content_type_entry, strip_active_content_type_entries,
    strip_empty_active_content_containers, strip_relationship_anchors_from_owner_xml,
    strip_relationship_entries_by_id, workbook_sheet_counts, ActiveContentContentTypeEntryKind,
    ActiveContentRemovedContentTypeEntry,
};
use excel_xlsx::parts::{
    part_is_xml, relationship_is_external, relationship_owner_and_base, OpcPart,
    RelationshipEntry,
};
use excel_xlsx::plan::relationships_part_uri_for_part;
use excel_xlsx::removal::{prune_shared_parts, removal_candidates, PartLink};
use excel_xlsx::roots::active_content_part_uris_from_manifest;
use excel_xlsx::strip::{collect_package_relationship_entries, strip_active_content_from_package};
use excel_xlsx::xml::{NsXmlReader, XmlEventKind, XmlReader};

const RELS: &str = "application/vnd.openxmlformats-package.relationships+xml";

fn part(name: &str, content_type: Option<&str>, bytes: &[u8]) -> OpcPart {
    OpcPart {
        name: name.to_string(),
        content_type: content_type.map(|c| c.to_string()),
        bytes: bytes.to_vec(),
    }
}

fn names(v: &[String]) -> BTreeSet<String> {
    v.iter().cloned().collect()
}

fn fixture_package() -> OpcPackage {
    OpcPackage::try_new(vec![
        part(
            "[Content_Types].xml",
            None,
            br#"<Types xmlns="http://schemas.openxmlformats.org/package/2006/content-types"><Default Extension="rels" ContentType="application/vnd.openxmlformats-package.relationships+xml"/><Override PartName="/xl/workbook.xml" ContentType="application/vnd.openxmlformats-officedocument.spreadsheetml.sheet.main+xml"/><Override PartName="/xl/worksheets/sheet1.xml" ContentType="application/vnd.openxmlformats-officedocument.spreadsheetml.worksheet+xml"/><Override PartName="/custom/payload.bin" ContentType="application/vnd.ms-office.activeX"/></Types>"#,
        ),
        part(
            "_rels/.rels",
            Some(RELS),
            br#"<Relationships xmlns="http://schemas.openxmlformats.org/package/2006/relationships"><Relationship Id="rIdWorkbook" Type="http://schemas.openxmlformats.org/officeDocument/2006/relationships/officeDocument" Target="xl/workbook.xml"/></Relationships>"#,
        ),
        part(
            "xl/workbook.xml",
            Some("application/vnd.openxmlformats-officedocument.spreadsheetml.sheet.main+xml"),
            br#"<workbook xmlns="http://schemas.openxmlformats.org/spreadsheetml/2006/main" xmlns:r="http://schemas.openxmlformats.org/officeDocument/2006/relationships"><sheets><sheet name="Sheet1" sheetId="1" r:id="rId1"/></sheets></workbook>"#,
        ),
        part(
            "xl/_rels/workbook.xml.rels",
            Some(RELS),
            br#"<Relationships xmlns="http://schemas.openxmlformats.org/package/2006/relationships"><Relationship Id="rId1" Type="http://schemas.openxmlformats.org/officeDocument/2006/relationships/worksheet" Target="worksheets/sheet1.xml"/></Relationships>"#,
        ),
        part(
            "xl/worksheets/sheet1.xml",
            Some("application/vnd.openxmlformats-officedocument.spreadsheetml.worksheet+xml"),
            br#"<worksheet xmlns="http://schemas.openxmlformats.org/spreadsheetml/2006/main"><sheetData/></worksheet>"#,
        ),
        part("custom/payload.bin", None, &[1, 2, 3]),
    ])
    .expect("active-content test package should have valid part identities")
}

#[test]
fn strip_helpers_cover_raw_manifest_relationship_and_owner_xml_boundaries() {
    let package = fixture_package();

    assert_eq!(
        names(&active_content_part_uris_from_manifest(&package).expect("manifest roots")),
        BTreeSet::from(["custom/payload.bin".to_string()])
    );
    let relationships =
        collect_package_relationship_entries(&package).expect("package relationships");
    assert_eq!(relationships.len(), 2);
    assert_eq!(
        relationship_owner_and_base("xl/activeX/_rels/activeX1.xml.rels"),
        Some((
            Some("xl/activeX/activeX1.xml".to_string()),
            vec!["xl".to_string(), "activeX".to_string()]
        ))
    );

    let external = RelationshipEntry {
        id: "rIdExternal".to_string(),
        relationship_type: "urn:fixture".to_string(),
        target: "https://example.invalid".to_string(),
        target_mode: Some("External".to_string()),
    };
    assert!(relationship_is_external(&external));

    let relationship_xml = br#"<Relationships xmlns="http://schemas.openxmlformats.org/package/2006/relationships"><Relationship Id="rIdRemove" Type="urn:remove" Target="remove.bin"/><Relationship Id="rIdKeep" Type="urn:keep" Target="keep.bin"/></Relationships>"#;
    let stripped_relationships =
        strip_relationship_entries_by_id(relationship_xml, &vec!["rIdRemove".to_string()])
            .expect("strip relationship by id");
    let stripped_relationships =
        std::str::from_utf8(&stripped_relationships).expect("relationships utf8");
    assert!(!stripped_relationships.contains("rIdRemove"));
    assert!(stripped_relationships.contains("rIdKeep"));

    let mut relationship_reader = XmlReader::new(relationship_xml, false);
    loop {
        let event = relationship_reader.read_event().expect("relationship event");
        match event.kind {
            XmlEventKind::Empty => {
                assert_eq!(
                    relationship_element_id(&event.handle).expect("relationship id"),
                    Some("rIdRemove".to_string())
                );
                break;
            }
            XmlEventKind::Eof => panic!("relationship element was not found"),
            _ => {}
        }
    }

    let owner_xml = br#"<worksheet xmlns="urn:sheet" xmlns:linked="http://schemas.openxmlformats.org/officeDocument/2006/relationships"><controls><control linked:id="rIdRemove"/></controls><keep linked:id="rIdKeep"/></worksheet>"#;
    let rewritten_owner =
        strip_relationship_anchors_from_owner_xml(owner_xml, &vec!["rIdRemove".to_string()])
            .expect("strip owner anchor");
    let rewritten_owner = std::str::from_utf8(&rewritten_owner).expect("owner utf8");
    assert!(!rewritten_owner.contains("controls"));
    assert!(!rewritten_owner.contains("rIdRemove"));
    assert!(rewritten_owner.contains("rIdKeep"));
    assert_eq!(
        strip_empty_active_content_containers(
            br#"<worksheet><controls>  </controls><sheetData/></worksheet>"#
        )
        .expect("strip empty container"),
        b"<worksheet><sheetData/></worksheet>"
    );

    let mut owner_reader = NsXmlReader::new(owner_xml, false);
    loop {
        let event = owner_reader.read_event().expect("owner event");
        match event.kind {
            XmlEventKind::Empty if event.name.as_slice() == b"control" => {
                assert!(element_has_removed_relationship_anchor(
                    &owner_reader,
                    &event.handle,
                    &vec!["rIdRemove".to_string()],
                )
                .expect("removed relationship anchor"));
                break;
            }
            XmlEventKind::Eof => panic!("control element was not found"),
            _ => {}
        }
    }

    assert!(part_is_xml(package.part("xl/workbook.xml").expect("workbook")));
    assert_eq!(
        workbook_sheet_counts(&package.part("xl/workbook.xml").expect("workbook").bytes)
            .expect("sheet counts"),
        (1, 1)
    );
    let removed_entry = ActiveContentRemovedContentTypeEntry {
        entry_kind: ActiveContentContentTypeEntryKind::Override,
        selector: "/custom/payload.bin".to_string(),
        content_type: "application/octet-stream".to_string(),
    };
    assert!(should_strip_content_type_entry(
        &removed_entry,
        &vec!["custom/payload.bin".to_string()]
    )
    .expect("canonical content type Override comparison"));
    let (stripped_content_types, stripped_entries) = strip_active_content_type_entries(
        &package
            .part("[Content_Types].xml")
            .expect("content types")
            .bytes,
        &vec!["custom/payload.bin".to_string()],
    )
    .expect("strip content types");
    assert_eq!(stripped_entries.len(), 1);
    assert!(!std::str::from_utf8(&stripped_content_types)
        .expect("content types utf8")
        .contains("payload.bin"));

    let (stripped_package, audit) = strip_active_content_from_package(package, "xl/workbook.xml")
        .expect("strip raw manifest package");
    assert!(!stripped_package.contains("custom/payload.bin"));
    assert_eq!(audit.removed_parts.len(), 1);
}

#[test]
fn content_type_classifier_covers_binary_and_international_macro_variants() {
    for (content_type, expected) in [
        ("application/vnd.ms-office.activeX", ActiveContentKind::ActiveXControl),
        ("application/vnd.ms-office.activeX+xml", ActiveContentKind::ActiveXControl),
        ("application/vnd.ms-excel.intlmacrosheet", ActiveContentKind::XlmMacroSheet),
        (
            "application/vnd.ms-excel.intlmacrosheet+xml; charset=binary",
            ActiveContentKind::XlmMacroSheet,
        ),
    ] {
        assert_eq!(
            active_content_kind_from_content_type(content_type),
            Some(expected),
            "{content_type}"
        );
    }
}

#[test]
fn relationship_classifier_accepts_known_transitional_strict_and_office_markers_only() {
    for (relationship_type, expected) in [
        (
            "http://schemas.microsoft.com/office/2006/relationships/vbaProject",
            ActiveContentKind::VbaProject,
        ),
        (
            "http://schemas.microsoft.com/office/2006/relationships/vbaProjectSignatureAgile",
            ActiveContentKind::VbaProjectSignature,
        ),
        (
            "http://schemas.microsoft.com/office/2006/relationships/xlMacrosheet",
            ActiveContentKind::XlmMacroSheet,
        ),
        (
            "http://schemas.microsoft.com/office/2006/relationships/xlIntlMacrosheet",
            ActiveContentKind::XlmMacroSheet,
        ),
        (
            "http://purl.oclc.org/ooxml/officeDocument/relationships/dialogsheet",
            ActiveContentKind::DialogSheet,
        ),
        (
            "http://schemas.microsoft.com/office/2006/relationships/activeXControlBinary",
            ActiveContentKind::ActiveXControl,
        ),
        (
            "http://schemas.openxmlformats.org/officeDocument/2006/relationships/oleObject",
            ActiveContentKind::EmbeddedObject,
        ),
        (
            "http://schemas.microsoft.com/office/2007/relationships/ui/extensibility",
            ActiveContentKind::CustomUi,
        ),
    ] {
        assert_eq!(
            active_content_kind_from_relationship_type(relationship_type),
            Some(expected),
            "{relationship_type}"
        );
    }

    for relationship_type in [
        "http://example.com/relationships/vbaProject",
        "http://schemas.microsoft.com/office/2006/relationships/vbaProject/extra",
        "activeXControlBinary",
    ] {
        assert_eq!(
            active_content_kind_from_relationship_type(relationship_type),
            None,
            "{relationship_type}"
        );
    }
}

fn macro_package(workbook_marked_active: bool) -> OpcPackage {
    let manifest = if workbook_marked_active {
        r#"<Types xmlns="http://schemas.openxmlformats.org/package/2006/content-types"><Default Extension="rels" ContentType="application/vnd.openxmlformats-package.relationships+xml"/><Default Extension="bin" ContentType="application/vnd.ms-office.vbaProject"/><Override PartName="/xl/workbook.xml" ContentType="application/vnd.ms-excel.macrosheet+xml"/><Override PartName="/xl/worksheets/sheet1.xml" ContentType="application/vnd.openxmlformats-officedocument.spreadsheetml.worksheet+xml"/></Types>"#
    } else {
        r#"<Types xmlns="http://schemas.openxmlformats.org/package/2006/content-types"><Default Extension="rels" ContentType="application/vnd.openxmlformats-package.relationships+xml"/><Default Extension="bin" ContentType="application/vnd.ms-office.vbaProject"/><Override PartName="/xl/workbook.xml" ContentType="application/vnd.openxmlformats-officedocument.spreadsheetml.sheet.main+xml"/><Override PartName="/xl/worksheets/sheet1.xml" ContentType="application/vnd.openxmlformats-officedocument.spreadsheetml.worksheet+xml"/></Types>"#
    };
    OpcPackage::try_new(vec![
        part("[Content_Types].xml", None, manifest.as_bytes()),
        part(
            "_rels/.rels",
            Some(RELS),
            br#"<Relationships xmlns="http://schemas.openxmlformats.org/package/2006/relationships"><Relationship Id="rIdWorkbook" Type="http://schemas.openxmlformats.org/officeDocument/2006/relationships/officeDocument" Target="xl/workbook.xml"/></Relationships>"#,
        ),
        part(
            "xl/workbook.xml",
            Some("application/vnd.openxmlformats-officedocument.spreadsheetml.sheet.main+xml"),
            br#"<workbook xmlns="http://schemas.openxmlformats.org/spreadsheetml/2006/main" xmlns:r="http://schemas.openxmlformats.org/officeDocument/2006/relationships"><sheets><sheet name="Sheet1" sheetId="1" r:id="rId1"/></sheets></workbook>"#,
        ),
        part(
            "xl/_rels/workbook.xml.rels",
            Some(RELS),
            br#"<Relationships xmlns="http://schemas.openxmlformats.org/package/2006/relationships"><Relationship Id="rId1" Type="http://schemas.openxmlformats.org/officeDocument/2006/relationships/worksheet" Target="worksheets/sheet1.xml"/><Relationship Id="rIdVba" Type="http://schemas.microsoft.com/office/2006/relationships/vbaProject" Target="vbaProject.bin"/></Relationships>"#,
        ),
        part(
            "xl/worksheets/sheet1.xml",
            Some("application/vnd.openxmlformats-officedocument.spreadsheetml.worksheet+xml"),
            br#"<worksheet xmlns="http://schemas.openxmlformats.org/spreadsheetml/2006/main"><sheetData/></worksheet>"#,
        ),
        part("xl/vbaProject.bin", Some("application/vnd.ms-office.vbaProject"), &[9, 9, 9, 9]),
    ])
    .expect("macro package")
}

#[test]
fn strip_removes_vba_project_relationship_and_manifest_entry() {
    let package = macro_package(false);
    let before = collect_active_content_inventory(&package).expect("inventory");
    assert!(before.has_artifacts());
    assert_eq!(before.kinds(), &[ActiveContentKind::VbaProject]);
    let (stripped, audit) =
        strip_active_content_from_package(package, "xl/workbook.xml").expect("strip");
    assert!(!stripped.contains("xl/vbaProject.bin"));
    assert!(stripped.contains("xl/worksheets/sheet1.xml"));
    assert_eq!(audit.policy, ActiveContentPolicy::Strip);
    assert_eq!(audit.observed_kinds, vec![ActiveContentKind::VbaProject]);
    assert_eq!(audit.removed_parts.len(), 1);
    assert_eq!(audit.removed_parts[0].part_uri, "xl/vbaProject.bin");
    assert_eq!(audit.removed_parts[0].byte_len, 4);
    assert_eq!(audit.removed_relationships.len(), 1);
    assert_eq!(audit.removed_relationships[0].id, "rIdVba");
    assert_eq!(audit.removed_relationships[0].relationship_part_uri, "xl/_rels/workbook.xml.rels");
    assert_eq!(audit.removed_content_type_entries.len(), 1);
    assert_eq!(audit.removed_content_type_entries[0].selector, "bin");
    let relationships = std::str::from_utf8(
        &stripped.part("xl/_rels/workbook.xml.rels").expect("workbook rels").bytes,
    )
    .expect("utf8")
    .to_string();
    assert!(!relationships.contains("rIdVba"));
    assert!(relationships.contains("rId1"));
    let manifest = std::str::from_utf8(&stripped.part("[Content_Types].xml").expect("manifest").bytes)
        .expect("utf8")
        .to_string();
    assert!(!manifest.contains("vbaProject"));
    let after = collect_active_content_inventory(&stripped).expect("inventory after");
    assert!(!after.has_artifacts());
}

#[test]
fn strip_leaves_a_package_without_active_content_unchanged() {
    let package = OpcPackage::try_new(vec![part("xl/workbook.xml", None, b"<workbook/>")])
        .expect("package");
    let (kept, audit) = strip_active_content_from_package(package, "xl/workbook.xml").expect("strip");
    assert_eq!(kept.parts.len(), 1);
    assert_eq!(kept.parts[0].bytes, b"<workbook/>".to_vec());
    assert!(audit.observed_kinds.is_empty());
    assert!(audit.removed_parts.is_empty());
    assert!(audit.removed_relationships.is_empty());
}

#[test]
fn strip_refuses_to_remove_the_workbook_part() {
    let package = macro_package(true);
    let error = strip_active_content_from_package(package, "xl/workbook.xml")
        .err()
        .expect("the workbook part is an active-content root");
    assert_eq!(error.code, OmErrorCode::InvalidState);
    assert_eq!(
        error.message,
        "active-content strip cannot remove required package part xl/workbook.xml"
    );
}

#[test]
fn strip_fails_on_a_relationships_part_without_owner() {
    let package = OpcPackage::try_new(vec![
        part("[Content_Types].xml", None, b"<Types/>"),
        part(
            "xl/_rels/.rels",
            Some(RELS),
            br#"<Relationships><Relationship Id="r1" Type="http://schemas.microsoft.com/office/2006/relationships/vbaProject" Target="vbaProject.bin"/></Relationships>"#,
        ),
    ])
    .expect("package");
    let error = strip_active_content_from_package(package, "xl/workbook.xml")
        .err()
        .expect("owner cannot be resolved");
    assert_eq!(error.code, OmErrorCode::InvalidState);
    assert_eq!(
        error.message,
        "active-content strip cannot resolve relationship owner for xl/_rels/.rels"
    );
}

#[test]
fn removal_keeps_parts_that_something_else_still_uses() {
    let links = vec![
        PartLink {
            owner: Some("xl/activeX/activeX1.xml".to_string()),
            owner_part: Some("xl/activeX/activeX1.xml".to_string()),
            target: "xl/activeX/activeX1.bin".to_string(),
        },
        PartLink {
            owner: Some("xl/activeX/activeX1.xml".to_string()),
            owner_part: Some("xl/activeX/activeX1.xml".to_string()),
            target: "xl/media/image1.png".to_string(),
        },
        PartLink {
            owner: Some("xl/drawings/drawing1.xml".to_string()),
            owner_part: Some("xl/drawings/drawing1.xml".to_string()),
            target: "xl/media/image1.png".to_string(),
        },
    ];
    let roots = vec!["xl/activeX/activeX1.xml".to_string()];
    let candidates = removal_candidates(&roots, &links);
    assert_eq!(
        names(&candidates),
        BTreeSet::from([
            "xl/activeX/activeX1.xml".to_string(),
            "xl/activeX/activeX1.bin".to_string(),
            "xl/media/image1.png".to_string(),
        ])
    );
    let removed = prune_shared_parts(&roots, &candidates, &links);
    assert_eq!(
        names(&removed),
        BTreeSet::from([
            "xl/activeX/activeX1.xml".to_string(),
            "xl/activeX/activeX1.bin".to_string(),
        ])
    );
}

#[test]
fn relationships_part_names_follow_the_part_folder() {
    assert_eq!(
        relationships_part_uri_for_part("xl/worksheets/sheet1.xml"),
        Some("xl/worksheets/_rels/sheet1.xml.rels".to_string())
    );
    assert_eq!(
        relationships_part_uri_for_part("/workbook.xml"),
        Some("_rels/workbook.xml.rels".to_string())
    );
    assert_eq!(relationships_part_uri_for_part("xl/"), None);
    assert_eq!(relationships_part_uri_for_part(""), None);
}

#[test]
fn package_identity_lookup_ignores_case_and_leading_slash() {
    let package = fixture_package();
    assert!(package.contains("/XL/Workbook.xml"));
    assert!(!package.contains("xl//workbook.xml"));
    let duplicate = OpcPackage::try_new(vec![
        part("a.xml", None, b""),
        part("/A.XML", None, b""),
    ]);
    assert!(duplicate.is_err());
}

#[test]
fn inventory_reports_kinds_parts_and_manifest_markers() {
    let package = fixture_package();
    let inventory = collect_active_content_inventory(&package).expect("inventory");
    assert_eq!(inventory.kinds(), &[ActiveContentKind::ActiveXControl]);
    assert!(inventory.has_content_type_markers());
    assert!(inventory.part_uris().is_empty());
    assert!(inventory.relationship_part_uris().is_empty());
    assert_eq!(
        kinds_message_text(&[ActiveContentKind::VbaProject, ActiveContentKind::CustomUi]),
        "[VbaProject, CustomUi]"
    );
}

#[test]
fn strip_keeps_untouched_parts_byte_for_byte_and_is_idempotent() {
    let package = macro_package(false);
    let original: Vec<(String, Vec<u8>)> =
        package.parts.iter().map(|p| (p.name.clone(), p.bytes.clone())).collect();
    let (stripped, audit) =
        strip_active_content_from_package(package, "xl/workbook.xml").expect("strip");
    let kept: Vec<&str> = stripped.parts.iter().map(|p| p.name.as_str()).collect();
    assert_eq!(
        kept,
        vec![
            "[Content_Types].xml",
            "_rels/.rels",
            "xl/workbook.xml",
            "xl/_rels/workbook.xml.rels",
            "xl/worksheets/sheet1.xml",
        ]
    );
    for part in &stripped.parts {
        let before = &original.iter().find(|(name, _)| *name == part.name).expect("original part").1;
        if part.name == "[Content_Types].xml" || part.name == "xl/_rels/workbook.xml.rels" {
            assert_ne!(&part.bytes, before);
        } else {
            assert_eq!(&part.bytes, before);
        }
    }
    assert!(audit.rewritten_owner_part_uris.is_empty());
    assert!(audit.retained_shared_part_uris.is_empty());

    let snapshot: Vec<(String, Vec<u8>)> =
        stripped.parts.iter().map(|p| (p.name.clone(), p.bytes.clone())).collect();
    let (again, second) =
        strip_active_content_from_package(stripped, "xl/workbook.xml").expect("second strip");
    let after: Vec<(String, Vec<u8>)> =
        again.parts.iter().map(|p| (p.name.clone(), p.bytes.clone())).collect();
    assert_eq!(after, snapshot);
    assert!(second.observed_kinds.is_empty());
    assert!(second.removed_parts.is_empty());
}

#[test]
fn plain_reads_accept_a_rebound_reserved_prefix() {
    let workbook = br#"<workbook xmlns:xml="urn:x"><sheets><sheet name="A"/><sheet name="B" state="hidden"/></sheets></workbook>"#;
    assert_eq!(workbook_sheet_counts(workbook).expect("counts"), (2, 1));
}

#[test]
fn namespace_aware_reads_reject_a_rebound_reserved_prefix() {
    let owner = br#"<root xmlns:xml="urn:x"><a/></root>"#;
    let mut reader = NsXmlReader::new(owner, false);
    assert!(reader.read_event().is_err());
    let mut plain = XmlReader::new(owner, false);
    assert!(plain.read_event().is_ok());
}

#[test]
fn strip_refuses_to_leave_the_workbook_without_a_visible_sheet() {
    let mut parts = macro_package(false).parts;
    for p in parts.iter_mut() {
        if p.name == "xl/workbook.xml" {
            p.bytes = br#"<workbook xmlns="http://schemas.openxmlformats.org/spreadsheetml/2006/main" xmlns:r="http://schemas.openxmlformats.org/officeDocument/2006/relationships"><sheets><sheet name="Sheet1" sheetId="1" state="hidden" r:id="rId1"/></sheets></workbook>"#.to_vec();
        }
    }
    let package = OpcPackage::try_new(parts).expect("package");
    let error = match strip_active_content_from_package(package, "xl/workbook.xml") {
        Ok(_) => panic!("strip left no visible sheet"),
        Err(e) => e,
    };
    assert_eq!(error.code, OmErrorCode::InvalidState);
    assert_eq!(error.message, "active-content strip would leave the workbook without a visible sheet");
}

#[test]
fn relationship_names_without_an_owner_file_have_no_owner() {
    assert!(relationship_owner_and_base("xl/_rels/.rels").is_none());
    assert!(relationship_owner_and_base("xl/workbook.xml.rels").is_none());
    assert!(relationship_owner_and_base("_rels/x.rels").is_none());
    let (owner, base) = relationship_owner_and_base("_RELS/.RELS").expect("package relationships");
    assert!(owner.is_none());
    assert!(base.is_empty());
}
