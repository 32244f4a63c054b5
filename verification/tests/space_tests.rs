use kroma::document::{
    check_schema_version, document_version, migrate, ColorSettings, Document, DocumentError, Source,
    SCHEMA_VERSION,
};
use kroma::space::{by_name, Pipeline, SpaceId, WorkingSpace};

#[test]
fn every_named_space_is_findable() {
    for cs in SpaceId::ALL {
        assert_eq!(by_name(cs.name()).map(|c| c.name()), Some(cs.name()));
    }
}

#[test]
fn lookup_is_case_insensitive() {
    assert_eq!(by_name("srgb").map(|c| c.name()), Some("sRGB"));
    assert_eq!(by_name("ACEScg").map(|c| c.name()), Some("ACEScg"));
}

#[test]
fn unknown_names_return_none() {
    assert!(by_name("Definitely Not A Colour Space").is_none());
}

#[test]
fn an_unknown_colour_space_falls_back_to_srgb() {
    let cs = ColorSettings { input: "Imaginary Space".into(), output: "sRGB".into() };
    assert_eq!(cs.pipeline().input.name(), "sRGB");
}

#[test]
fn colour_settings_resolve_to_a_pipeline() {
    let doc: Document<(), ()> = Document::from_path("DSCF1234.JPG");
    let p = doc.color.pipeline();
    assert_eq!(p.input.name(), "sRGB");
    assert_eq!(p.output.name(), "sRGB");
}

#[test]
fn a_named_output_space_is_honoured() {
    let cs = ColorSettings { input: "display p3".into(), output: "ACEScct".into() };
    assert_eq!(cs.pipeline(), Pipeline::new(SpaceId::DisplayP3, SpaceId::AcesCct));
}

#[test]
fn the_working_spaces_are_acescg_and_acescct() {
    assert_eq!(WorkingSpace::Linear.color_space(), SpaceId::AcesCg);
    assert_eq!(WorkingSpace::Log.color_space(), SpaceId::AcesCct);
    assert_eq!(WorkingSpace::Linear.as_str(), "linear");
    assert_eq!(WorkingSpace::Log.as_str(), "log");
}

#[test]
fn a_fresh_document_reads_its_path_in_srgb() {
    let doc: Document<(), ()> = Document::from_path("a.jpg");
    assert_eq!(doc.schema_version, SCHEMA_VERSION);
    assert_eq!(doc.source, Source::Path { path: "a.jpg".into() });
    assert_eq!(doc.color.input, "sRGB");
    assert!(doc.stack.is_empty());
}

#[test]
fn a_newer_schema_is_refused_rather_than_misread() {
    let json = r#"{"schema_version": 99, "source": {"kind":"path","path":"a.jpg"}}"#;
    assert!(matches!(
        document_version(json),
        Err(DocumentError::FromTheFuture { found: 99, .. })
    ));
}

#[test]
fn a_missing_schema_version_is_an_error() {
    let json = r#"{"source": {"kind":"path","path":"a.jpg"}}"#;
    assert!(matches!(document_version(json), Err(DocumentError::MissingSchemaVersion)));
}

#[test]
fn a_current_document_is_accepted() {
    let json = r#"{"schema_version":1,"source":{"kind":"path","path":"a.jpg"}}"#;
    assert!(matches!(document_version(json), Ok(1)));
}

#[test]
fn text_that_is_not_json_is_refused_as_such() {
    assert!(matches!(document_version("{not json"), Err(DocumentError::Json(_))));
}

#[test]
fn version_zero_cannot_be_migrated() {
    assert!(matches!(check_schema_version(Some(0)), Err(DocumentError::UnsupportedVersion(0))));
    assert!(matches!(migrate(0), Err(DocumentError::UnsupportedVersion(0))));
    assert!(migrate(1).is_ok());
    assert!(matches!(
        check_schema_version(Some(2)),
        Err(DocumentError::FromTheFuture { found: 2, supported: 1 })
    ));
}
