use mcmodfilelocaliztion::identity::ModInfo;
use mcmodfilelocaliztion::modrinthapi::ModrinthProject;
use mcmodfilelocaliztion::resolver::{
    category_tag, resolve_label, resolve_name, side_code, side_tag, TranslationMap,
};

fn owned(v: &[&str]) -> Vec<String> {
    v.iter().map(|s| s.to_string()).collect()
}

#[test]
fn side_codes_map_to_integers() {
    assert_eq!(side_code("unsupported"), -1);
    assert_eq!(side_code("optional"), 0);
    assert_eq!(side_code("required"), 1);
    assert_eq!(side_code("unknown"), -99);
    assert_eq!(side_code(""), -99);
    assert_eq!(side_code("Required"), -99);
}

#[test]
fn side_tag_covers_the_seven_listed_pairs() {
    assert_eq!(side_tag(1, 1), "[C&S]");
    assert_eq!(side_tag(0, 0), "[C|S]");
    assert_eq!(side_tag(-1, -1), "[Toxic]");
    assert_eq!(side_tag(1, 0), "[C]");
    assert_eq!(side_tag(0, 1), "[S]");
    assert_eq!(side_tag(1, -1), "[!S]");
    assert_eq!(side_tag(-1, 1), "[!C]");
}

#[test]
fn side_tag_is_empty_for_unlisted_pairs() {
    assert_eq!(side_tag(-99, -99), "");
    assert_eq!(side_tag(-99, 1), "");
    assert_eq!(side_tag(1, -99), "");
    assert_eq!(side_tag(-99, 0), "");
    assert_eq!(side_tag(0, -99), "");
    assert_eq!(side_tag(-1, 0), "");
    assert_eq!(side_tag(0, -1), "");
}

#[test]
fn category_tag_brackets_each_entry_in_order() {
    let mut map = TranslationMap::new();
    map.insert("technology".to_string(), "科技".to_string());
    let cats = owned(&["technology", "magic"]);
    assert_eq!(category_tag(&cats, &map), "[科技][magic]");
}

#[test]
fn category_tag_of_empty_sequence_is_empty() {
    let map = TranslationMap::new();
    assert_eq!(category_tag(&Vec::new(), &map), "");
}

#[test]
fn category_tag_has_one_bracket_pair_per_category() {
    let mut map = TranslationMap::new();
    map.insert("a".to_string(), "x".to_string());
    let cats = owned(&["a", "b", "c"]);
    let tag = category_tag(&cats, &map);
    assert_eq!(tag, "[x][b][c]");
    assert_eq!(tag.chars().filter(|c| *c == '[').count(), 3);
    assert_eq!(tag.chars().filter(|c| *c == ']').count(), 3);
}

#[test]
fn translation_map_lookup_and_override() {
    let mut map = TranslationMap::new();
    assert_eq!(map.get(&"k".to_string()), None);
    map.insert("k".to_string(), "v1".to_string());
    assert_eq!(map.get(&"k".to_string()), Some(&"v1".to_string()));
    map.insert("k".to_string(), "v2".to_string());
    assert_eq!(map.get(&"k".to_string()), Some(&"v2".to_string()));
    assert_eq!(map.get(&"other".to_string()), None);
}

#[test]
fn name_precedence_all_four_combinations() {
    let id = "modid".to_string();
    let loc = Some("本地化".to_string());
    let disp = Some("Display".to_string());
    // localized present and non-empty wins over everything
    assert_eq!(resolve_name(&loc, &disp, &id), "本地化");
    assert_eq!(resolve_name(&loc, &None, &id), "本地化");
    // absent or empty localized falls back to a non-empty display name
    assert_eq!(resolve_name(&None, &disp, &id), "Display");
    assert_eq!(resolve_name(&Some(String::new()), &disp, &id), "Display");
    // both absent or empty fall back to the mod id
    assert_eq!(resolve_name(&None, &None, &id), "modid");
    assert_eq!(resolve_name(&Some(String::new()), &Some(String::new()), &id), "modid");
    assert_eq!(resolve_name(&None, &Some(String::new()), &id), "modid");
    assert_eq!(resolve_name(&Some(String::new()), &None, &id), "modid");
}

#[test]
fn resolve_label_composes_tags_name_and_version() {
    let info = ModInfo {
        mod_id: "examplemod".to_string(),
        display_name: Some("Example Mod".to_string()),
        version: "2.3".to_string(),
    };
    let record = Some(ModrinthProject {
        client_side: "required".to_string(),
        server_side: "required".to_string(),
        categories: owned(&["storage"]),
    });
    let mut map = TranslationMap::new();
    map.insert("storage".to_string(), "storage-x".to_string());
    let label = resolve_label(&info, &Some("named".to_string()), &record, &map);
    assert_eq!(label.side_tag, "[C&S]");
    assert_eq!(label.category_tag, "[storage-x]");
    assert_eq!(label.version, "2.3");
    assert_eq!(label.final_name, "[C&S][storage-x]named-2.3.jar");
}

#[test]
fn resolve_label_without_record_has_no_tags() {
    let info = ModInfo {
        mod_id: "m".to_string(),
        display_name: None,
        version: "1.0".to_string(),
    };
    let map = TranslationMap::new();
    let label = resolve_label(&info, &None, &None, &map);
    assert_eq!(label.side_tag, "");
    assert_eq!(label.category_tag, "");
    assert_eq!(label.final_name, "m-1.0.jar");
}
