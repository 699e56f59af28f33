use std::io::Write;

use mcmodfilelocaliztion::identity::{get_mod_info, manifest_version, resolve_version, ExtractError};

fn chars_of(s: &str) -> Vec<char> {
    s.chars().collect()
}

fn archive_with(entries: &[(&str, &str)]) -> Vec<u8> {
    let cursor = std::io::Cursor::new(Vec::new());
    let mut zw = zip::ZipWriter::new(cursor);
    let opts = zip::write::SimpleFileOptions::default();
    for (name, content) in entries {
        zw.start_file(*name, opts).unwrap();
        zw.write_all(content.as_bytes()).unwrap();
    }
    zw.finish().unwrap().into_inner()
}

const MODS_TOML: &str = "[[mods]]\nmodId=\"examplemod\"\nversion=\"1.0\"\n";

#[test]
fn manifest_version_takes_trimmed_remainder() {
    let text = chars_of("Manifest-Version: 1.0\nImplementation-Version:  1.2.3  \nOther: x\n");
    assert_eq!(manifest_version(&text), Some(chars_of("1.2.3")));
}

#[test]
fn manifest_version_handles_crlf_lines() {
    let text = chars_of("A: b\r\nImplementation-Version: 4.5\r\nC: d\r\n");
    assert_eq!(manifest_version(&text), Some(chars_of("4.5")));
}

#[test]
fn manifest_version_absent_key_is_none() {
    let text = chars_of("Manifest-Version: 1.0\nBuilt-By: someone\n");
    assert_eq!(manifest_version(&text), None);
    assert_eq!(manifest_version(&chars_of("")), None);
}

#[test]
fn manifest_version_takes_the_first_matching_line() {
    let text = chars_of("Implementation-Version: first\nImplementation-Version: second\n");
    assert_eq!(manifest_version(&text), Some(chars_of("first")));
}

#[test]
fn resolve_version_placeholder_reads_the_manifest() {
    let manifest = "Implementation-Version: 1.2.3\n".to_string();
    let resolved = resolve_version("${file.jarVersion}".to_string(), Some(&manifest));
    assert_eq!(resolved, "1.2.3");
}

#[test]
fn resolve_version_placeholder_without_manifest_is_unknown() {
    let resolved = resolve_version("${file.jarVersion}".to_string(), None);
    assert_eq!(resolved, "unknown");
    let empty = String::new();
    let resolved = resolve_version("${file.jarVersion}".to_string(), Some(&empty));
    assert_eq!(resolved, "unknown");
}

#[test]
fn resolve_version_passes_other_versions_through() {
    let manifest = "Implementation-Version: 9.9\n".to_string();
    assert_eq!(resolve_version("1.0".to_string(), Some(&manifest)), "1.0");
    assert_eq!(resolve_version("".to_string(), None), "");
}

#[test]
fn get_mod_info_reads_the_first_mod_entry() {
    let toml = "[[mods]]\nmodId=\"alpha\"\ndisplayName=\"Alpha\"\nversion=\"0.1\"\n[[mods]]\nmodId=\"beta\"\nversion=\"0.2\"\n";
    let bytes = archive_with(&[("META-INF/neoforge.mods.toml", toml)]);
    let info = get_mod_info(&bytes).unwrap();
    assert_eq!(info.mod_id, "alpha");
    assert_eq!(info.display_name, Some("Alpha".to_string()));
    assert_eq!(info.version, "0.1");
}

#[test]
fn get_mod_info_resolves_the_version_placeholder() {
    let toml = "[[mods]]\nmodId=\"m\"\nversion=\"${file.jarVersion}\"\n";
    let manifest = "Manifest-Version: 1.0\nImplementation-Version: 7.8.9-β\n";
    let bytes = archive_with(&[
        ("META-INF/neoforge.mods.toml", toml),
        ("META-INF/MANIFEST.MF", manifest),
    ]);
    let info = get_mod_info(&bytes).unwrap();
    assert_eq!(info.version, "7.8.9-β");
    assert_eq!(info.display_name, None);
}

#[test]
fn get_mod_info_placeholder_without_manifest_entry_is_unknown() {
    let toml = "[[mods]]\nmodId=\"m\"\nversion=\"${file.jarVersion}\"\n";
    let bytes = archive_with(&[("META-INF/neoforge.mods.toml", toml)]);
    let info = get_mod_info(&bytes).unwrap();
    assert_eq!(info.version, "unknown");
}

#[test]
fn get_mod_info_missing_metadata_entry() {
    let bytes = archive_with(&[("something/else.txt", "hello")]);
    assert_eq!(get_mod_info(&bytes).unwrap_err(), ExtractError::ManifestMissing);
}

#[test]
fn get_mod_info_unreadable_container() {
    let bytes = vec![1u8, 2, 3, 4, 5];
    assert_eq!(get_mod_info(&bytes).unwrap_err(), ExtractError::ArchiveCorrupt);
}

#[test]
fn get_mod_info_malformed_metadata() {
    let bytes = archive_with(&[("META-INF/neoforge.mods.toml", "not [ valid toml")]);
    assert_eq!(get_mod_info(&bytes).unwrap_err(), ExtractError::ManifestMalformed);
    let bytes = archive_with(&[("META-INF/neoforge.mods.toml", "[[mods]]\nversion=\"1\"\n")]);
    assert_eq!(get_mod_info(&bytes).unwrap_err(), ExtractError::ManifestMalformed);
    let bytes = archive_with(&[("META-INF/neoforge.mods.toml", "[[mods]]\nmodId=\"\"\nversion=\"1\"\n")]);
    assert_eq!(get_mod_info(&bytes).unwrap_err(), ExtractError::ManifestMalformed);
}

#[test]
fn get_mod_info_plain_version_ignores_manifest() {
    let bytes = archive_with(&[
        ("META-INF/neoforge.mods.toml", MODS_TOML),
        ("META-INF/MANIFEST.MF", "Implementation-Version: 9.9\n"),
    ]);
    let info = get_mod_info(&bytes).unwrap();
    assert_eq!(info.mod_id, "examplemod");
    assert_eq!(info.version, "1.0");
}
