use std::io::Write;

use mcmodfilelocaliztion::identity::get_mod_info;
use mcmodfilelocaliztion::mcmoddb::{localized_name_of, ModTranslation};
use mcmodfilelocaliztion::modrinthapi::{project_url, ModrinthProject, RegistryCache};
use mcmodfilelocaliztion::rename::target_file_name;
use mcmodfilelocaliztion::resolver::{resolve_label, TranslationMap};

#[test]
fn cache_distinguishes_unqueried_from_negative() {
    let mut cache = RegistryCache::new();
    let id = "examplemod".to_string();
    // never queried
    assert!(cache.lookup(&id).is_none());
    // queried, registry had no record
    cache.store(&id, None);
    assert_eq!(cache.lookup(&id).map(|v| v.is_none()), Some(true));
}

#[test]
fn cache_returns_the_stored_record() {
    let mut cache = RegistryCache::new();
    let id = "m".to_string();
    let record = ModrinthProject {
        client_side: "required".to_string(),
        server_side: "optional".to_string(),
        categories: vec!["technology".to_string()],
    };
    cache.store(&id, Some(record));
    let cached = cache.lookup(&id).unwrap().unwrap();
    assert_eq!(cached.client_side, "required");
    assert_eq!(cached.server_side, "optional");
    assert_eq!(cached.categories, vec!["technology".to_string()]);
    // an unrelated key stays unqueried
    assert!(cache.lookup(&"other".to_string()).is_none());
}

#[test]
fn project_url_joins_endpoint_and_identifier() {
    assert_eq!(
        project_url("https://api.modrinth.com/v2", "examplemod"),
        "https://api.modrinth.com/v2/project/examplemod"
    );
}

#[test]
fn localized_name_collapses_an_absent_row() {
    assert_eq!(localized_name_of(None), None);
    let row = ModTranslation { ChineseName: "示例".to_string() };
    assert_eq!(localized_name_of(Some(row)), Some("示例".to_string()));
}

fn example_archive() -> Vec<u8> {
    let cursor = std::io::Cursor::new(Vec::new());
    let mut zw = zip::ZipWriter::new(cursor);
    let opts = zip::write::SimpleFileOptions::default();
    zw.start_file("META-INF/neoforge.mods.toml", opts).unwrap();
    zw.write_all(b"[[mods]]\nmodId=\"examplemod\"\nversion=\"1.0\"\n").unwrap();
    zw.finish().unwrap().into_inner()
}

#[test]
fn full_pipeline_with_registry_record() {
    let info = get_mod_info(&example_archive()).unwrap();
    let record = Some(ModrinthProject {
        client_side: "required".to_string(),
        server_side: "optional".to_string(),
        categories: vec!["technology".to_string()],
    });
    let mut map = TranslationMap::new();
    map.insert("technology".to_string(), "科技".to_string());
    let label = resolve_label(&info, &None, &record, &map);
    assert_eq!(target_file_name(&label), "[C][科技]examplemod-1.0.jar");
}

#[test]
fn full_pipeline_without_registry_record() {
    let info = get_mod_info(&example_archive()).unwrap();
    let map = TranslationMap::new();
    let label = resolve_label(&info, &None, &None, &map);
    assert_eq!(target_file_name(&label), "examplemod-1.0.jar");
}
