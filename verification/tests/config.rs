use kitowall_bridge::config::{
    config_path, configured_roots, download_root_from, local_pack_roots_from,
    resolve_download_root, resolve_local_pack_roots, ConfiguredRoot,
};
use kitowall_bridge::json::parse;

fn root(path: &str, pack: Option<&str>) -> ConfiguredRoot {
    ConfiguredRoot { path: path.to_string(), pack: pack.map(|p| p.to_string()) }
}

#[test]
fn config_file_lies_below_the_home_folder() {
    assert_eq!(config_path("/home/u"), "/home/u/.config/kitowall/config.json");
}

#[test]
fn download_root_defaults_to_pictures() {
    assert_eq!(resolve_download_root("/home/u", None), Ok("/home/u/Pictures/Wallpapers".to_string()));
    assert_eq!(
        resolve_download_root("/home/u", Some("{}")),
        Ok("/home/u/Pictures/Wallpapers".to_string())
    );
    assert_eq!(
        resolve_download_root("/home/u", Some("{\"cache\": {\"downloadDir\": 3}}")),
        Ok("/home/u/Pictures/Wallpapers".to_string())
    );
    assert_eq!(
        resolve_download_root("/home/u", Some("[1, 2]")),
        Ok("/home/u/Pictures/Wallpapers".to_string())
    );
}

#[test]
fn download_root_is_read_from_the_configuration() {
    assert_eq!(
        resolve_download_root("/home/u", Some("{\"cache\": {\"downloadDir\": \"~/walls\"}}")),
        Ok("/home/u/walls".to_string())
    );
    assert_eq!(
        resolve_download_root("/home/u", Some("{\"cache\": {\"downloadDir\": \"~\"}}")),
        Ok("/home/u".to_string())
    );
    assert_eq!(
        resolve_download_root("/home/u", Some("{\"cache\": {\"downloadDir\": \"/srv/walls\"}}")),
        Ok("/srv/walls".to_string())
    );
    let doc = parse("{\"cache\": {\"downloadDir\": \"rel/dir\"}}").unwrap();
    assert_eq!(download_root_from("/home/u", &doc), "rel/dir");
}

#[test]
fn broken_configuration_is_an_error() {
    assert_eq!(
        resolve_download_root("/home/u", Some("{")),
        Err("invalid config.json: EOF while parsing an object at line 1 column 1".to_string())
    );
    assert_eq!(
        resolve_local_pack_roots("/home/u", Some("not json")),
        Err("invalid config.json: expected ident at line 1 column 2".to_string())
    );
    assert!(configured_roots("/home/u", Some("")).is_err());
}

#[test]
fn local_packs_name_their_folders() {
    let raw = "{\"packs\": {
        \"zeta\": {\"type\": \"local\", \"paths\": \"~/z\"},
        \"favorites\": {\"type\": \"local\", \"paths\": [\"~/fav\", 7, \"/srv/fav\", \"~\"]},
        \"online\": {\"type\": \"wallhaven\", \"paths\": [\"/ignored\"]},
        \"odd\": {\"type\": \"local\", \"paths\": {\"a\": 1}},
        \"bare\": {\"type\": \"local\"},
        \"untyped\": {\"paths\": [\"/ignored\"]}
    }}";
    assert_eq!(
        resolve_local_pack_roots("/home/u", Some(raw)),
        Ok(vec![
            root("/home/u/fav", Some("favorites")),
            root("/srv/fav", Some("favorites")),
            root("/home/u", Some("favorites")),
            root("/home/u/z", Some("zeta")),
        ])
    );
}

#[test]
fn configuration_without_local_packs_names_no_folders() {
    assert_eq!(resolve_local_pack_roots("/home/u", None), Ok(vec![]));
    assert_eq!(resolve_local_pack_roots("/home/u", Some("{}")), Ok(vec![]));
    assert_eq!(resolve_local_pack_roots("/home/u", Some("{\"packs\": []}")), Ok(vec![]));
    assert_eq!(resolve_local_pack_roots("/home/u", Some("{\"packs\": {}}")), Ok(vec![]));
    let doc = parse("{\"packs\": {\"a\": \"local\"}}").unwrap();
    assert!(local_pack_roots_from("/home/u", &doc).is_empty());
}

#[test]
fn all_roots_begin_with_the_download_folder() {
    let raw = "{\"cache\": {\"downloadDir\": \"/walls\"},
                \"packs\": {\"fav\": {\"type\": \"local\", \"paths\": [\"/walls/fav\"]}}}";
    assert_eq!(
        configured_roots("/home/u", Some(raw)),
        Ok(vec![root("/walls", None), root("/walls/fav", Some("fav"))])
    );
    assert_eq!(
        configured_roots("/home/u", None),
        Ok(vec![root("/home/u/Pictures/Wallpapers", None)])
    );
}
