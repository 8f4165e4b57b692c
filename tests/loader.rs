use scout_audit::detectors_info::{
    get_detectors_info, LintInfo, LoaderErrorKind, PluginProbe, ProbeOutcome, RawLintInfo,
};

fn raw(id: &str) -> RawLintInfo {
    RawLintInfo {
        id: id.as_bytes().to_vec(),
        name: b"Name".to_vec(),
        short_message: b"short".to_vec(),
        long_message: b"long".to_vec(),
        severity: b"medium".to_vec(),
        help: b"https://help".to_vec(),
        vulnerability_class: b"class".to_vec(),
    }
}

fn loaded(path: &str, id: &str, entry: bool) -> PluginProbe {
    PluginProbe {
        path: path.to_string(),
        outcome: ProbeOutcome::Loaded { raw: raw(id), has_entry_point: entry },
    }
}

#[test]
fn missing_export_is_reported_and_others_load() {
    let probes = vec![
        loaded("/lib/liba.so", "detector-a", false),
        PluginProbe {
            path: "/lib/libbad.so".to_string(),
            outcome: ProbeOutcome::MissingMetadataExport { cause: "undefined symbol".to_string() },
        },
        loaded("/lib/libc.so", "detector-c", true),
    ];
    let info = get_detectors_info(&probes);
    assert_eq!(info.errors.len(), 1);
    assert_eq!(info.errors[0].kind, LoaderErrorKind::MissingMetadataExport);
    assert_eq!(info.errors[0].path, "/lib/libbad.so");
    assert_eq!(info.errors[0].detail, "undefined symbol");
    let ids: Vec<&str> = info.lints.iter().map(|l| l.id.as_str()).collect();
    assert_eq!(ids, vec!["detector-a", "detector-c"]);
    assert_eq!(info.custom_detectors.len(), 1);
    assert_eq!(info.custom_detectors[0].id, "detector-c");
    assert_eq!(info.custom_detectors[0].index, 2);
}

#[test]
fn keys_are_declared_ids_not_file_names() {
    let probes = vec![loaded("/x/libfoo.so", "unsafe-unwrap", false)];
    let info = get_detectors_info(&probes);
    assert_eq!(info.lints.len(), 1);
    assert_eq!(info.lints[0].id, "unsafe-unwrap");
    assert_eq!(info.lints[0].severity, "medium");
}

#[test]
fn open_failure_does_not_stop_the_batch() {
    let probes = vec![
        PluginProbe {
            path: "/missing.so".to_string(),
            outcome: ProbeOutcome::OpenFailed { cause: "no such file".to_string() },
        },
        loaded("/ok.so", "ok", false),
    ];
    let info = get_detectors_info(&probes);
    assert_eq!(info.errors[0].kind, LoaderErrorKind::OpenFailed);
    assert_eq!(info.errors[0].path, "/missing.so");
    assert_eq!(info.lints.len(), 1);
}

#[test]
fn duplicate_identifier_is_surfaced() {
    let probes = vec![loaded("/a.so", "same", false), loaded("/b.so", "same", true)];
    let info = get_detectors_info(&probes);
    assert_eq!(info.lints.len(), 1);
    assert_eq!(info.custom_detectors.len(), 0);
    assert_eq!(info.errors.len(), 1);
    assert_eq!(info.errors[0].kind, LoaderErrorKind::DuplicateId);
    assert_eq!(info.errors[0].path, "/b.so");
    assert_eq!(info.errors[0].detail, "same");
}

#[test]
fn invalid_utf8_is_an_encoding_error() {
    let mut r = raw("x");
    r.help = vec![0xff, 0xfe];
    let probes = vec![PluginProbe {
        path: "/bad.so".to_string(),
        outcome: ProbeOutcome::Loaded { raw: r.clone(), has_entry_point: true },
    }];
    let info = get_detectors_info(&probes);
    assert!(info.lints.is_empty());
    assert_eq!(info.errors[0].kind, LoaderErrorKind::InvalidEncoding);
    assert_eq!(info.errors[0].path, "/bad.so");
    assert!(LintInfo::try_from_raw(&r).is_none());
}

#[test]
fn raw_record_is_transcoded() {
    let mut r = raw("é-detector");
    r.name = "Nombre ñ".as_bytes().to_vec();
    let l = LintInfo::try_from_raw(&r).unwrap();
    assert_eq!(l.id, "é-detector");
    assert_eq!(l.name, "Nombre ñ");
    assert_eq!(l.vulnerability_class, "class");
}
