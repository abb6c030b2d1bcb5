use lightseek::extensions::{ExtensionManifest, ExtensionRegistry, ExtensionSettingDef, StartPlan};

fn manifest(id: &str, name: &str) -> ExtensionManifest {
    ExtensionManifest {
        id: id.to_string(),
        name: name.to_string(),
        binary: format!("{}-bin", id),
        description: format!("about {}", id),
        version: "1.0".to_string(),
        settings: vec![ExtensionSettingDef {
            key: "token".to_string(),
            setting_type: "string".to_string(),
            label: "Token".to_string(),
            default: String::new(),
        }],
    }
}

#[test]
fn insert_and_list() {
    let mut r = ExtensionRegistry::new();
    assert!(r.list().is_empty());
    r.insert_manifest(manifest("yt", "YouTube"));
    r.insert_manifest(manifest("sc", "SoundCloud"));
    let l = r.list();
    assert_eq!(l.len(), 2);
    assert_eq!(l[0].id, "yt");
    assert_eq!(l[0].name, "YouTube");
    assert_eq!(l[0].description, "about yt");
    assert_eq!(l[0].version, "1.0");
    assert_eq!(l[0].settings.len(), 1);
    assert_eq!(l[0].settings[0].key, "token");
    assert!(!l[0].running);
    assert_eq!(r.manifest("sc").map(|m| m.binary.clone()), Some("sc-bin".to_string()));
    assert!(r.manifest("nope").is_none());
}

#[test]
fn insert_replaces_same_id() {
    let mut r = ExtensionRegistry::new();
    r.insert_manifest(manifest("yt", "Old"));
    r.insert_manifest(manifest("yt", "New"));
    let l = r.list();
    assert_eq!(l.len(), 1);
    assert_eq!(l[0].name, "New");
}

#[test]
fn start_and_stop() {
    let mut r = ExtensionRegistry::new();
    r.insert_manifest(manifest("yt", "YouTube"));
    assert!(matches!(r.start_plan("missing"), StartPlan::NotFound));
    match r.start_plan("yt") {
        StartPlan::Launch { id, binary } => {
            assert_eq!(id, "yt");
            assert_eq!(binary, "yt-bin");
        }
        other => panic!("unexpected plan {:?}", other),
    }
    assert!(r.needs_start("yt"));
    r.mark_running("yt");
    assert!(r.is_running("yt"));
    assert!(!r.needs_start("yt"));
    assert!(matches!(r.start_plan("yt"), StartPlan::AlreadyRunning));
    assert!(r.list()[0].running);
    assert_eq!(r.running_list(), vec!["yt".to_string()]);
    assert!(r.stop("yt"));
    assert!(!r.is_running("yt"));
    assert!(!r.stop("yt"));
}

#[test]
fn uninstall_forgets_and_stops() {
    let mut r = ExtensionRegistry::new();
    r.insert_manifest(manifest("yt", "YouTube"));
    r.insert_manifest(manifest("sc", "SoundCloud"));
    r.mark_running("yt");
    r.mark_running("sc");
    assert!(r.uninstall("yt"));
    assert!(r.manifest("yt").is_none());
    assert!(!r.is_running("yt"));
    assert!(r.is_running("sc"));
    assert_eq!(r.list().len(), 1);
    assert!(!r.uninstall("nothing"));
    r.clear_manifests();
    assert!(r.list().is_empty());
    assert!(r.is_running("sc"));
    assert!(r.needs_start("sc"));
}
