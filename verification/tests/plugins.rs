use swd::plugins::{
    collect_plugin_manifests, path_within, trim_leading_slashes, PluginCandidate, PluginManifest,
};

fn manifest(id: &str) -> PluginManifest {
    PluginManifest { id: id.to_string(), name: format!("Plugin {id}"), entry: "index.js".to_string() }
}

fn candidate(dir: &str, m: Result<PluginManifest, String>) -> PluginCandidate {
    PluginCandidate { dir_name: dir.to_string(), manifest: m }
}

#[test]
fn matching_manifest_is_offered() {
    let cands = vec![candidate("my-plugin", Ok(manifest("my-plugin")))];
    let out = collect_plugin_manifests(&cands);
    assert_eq!(out.len(), 1);
    assert_eq!(out[0].id, "my-plugin");
    assert_eq!(out[0].name, "Plugin my-plugin");
    assert_eq!(out[0].entry, "index.js");
}

#[test]
fn mismatched_id_is_skipped() {
    let c = candidate("my-plugin", Ok(manifest("other")));
    assert!(!c.is_accepted());
    assert!(collect_plugin_manifests(&vec![c]).is_empty());
}

#[test]
fn broken_manifest_does_not_take_others_down() {
    let cands = vec![
        candidate("a", Ok(manifest("a"))),
        candidate("broken", Err("invalid plugin.json: expected value".to_string())),
        candidate("b", Ok(manifest("x"))),
        candidate("c", Ok(manifest("c"))),
    ];
    let out = collect_plugin_manifests(&cands);
    let ids: Vec<&str> = out.iter().map(|m| m.id.as_str()).collect();
    assert_eq!(ids, vec!["a", "c"]);
}

#[test]
fn no_plugin_directories_give_no_plugins() {
    assert!(collect_plugin_manifests(&Vec::new()).is_empty());
}

#[test]
fn leading_slashes_are_trimmed() {
    assert_eq!(trim_leading_slashes("///index.js"), "index.js");
    assert_eq!(trim_leading_slashes("index.js"), "index.js");
    assert_eq!(trim_leading_slashes("/a/b/c.css"), "a/b/c.css");
    assert_eq!(trim_leading_slashes("///"), "");
    assert_eq!(trim_leading_slashes(""), "");
}

#[test]
fn trimming_twice_changes_nothing() {
    let once = trim_leading_slashes("//x/y");
    assert_eq!(trim_leading_slashes(once), once);
    assert!(!once.starts_with('/'));
}

fn comps(parts: &[&str]) -> Vec<Vec<u8>> {
    parts.iter().map(|p| p.as_bytes().to_vec()).collect()
}

#[test]
fn file_inside_plugin_root_is_within() {
    let root = comps(&["/", "data", "plugins", "clock"]);
    let file = comps(&["/", "data", "plugins", "clock", "index.js"]);
    assert!(path_within(&file, &root));
    assert!(path_within(&root, &root));
}

#[test]
fn escaping_path_is_rejected() {
    let root = comps(&["/", "data", "plugins", "clock"]);
    let sibling = comps(&["/", "data", "plugins", "weather", "index.js"]);
    let outside = comps(&["/", "etc", "passwd"]);
    let parent = comps(&["/", "data", "plugins"]);
    assert!(!path_within(&sibling, &root));
    assert!(!path_within(&outside, &root));
    assert!(!path_within(&parent, &root));
}

#[test]
fn component_prefix_is_whole_components() {
    let root = comps(&["/", "data", "plugins", "clock"]);
    let lookalike = comps(&["/", "data", "plugins", "clock2", "index.js"]);
    assert!(!path_within(&lookalike, &root));
}

#[test]
fn manifest_clone_is_equal() {
    let m = manifest("z");
    let c = m.clone();
    assert_eq!((c.id, c.name, c.entry), (m.id, m.name, m.entry));
}

use swd::plugins::{check_plugin_file, PluginFileError};

#[test]
fn plugin_file_inside_its_directory_is_served() {
    let dir = comps(&["/", "data", "plugins"]);
    let root = comps(&["/", "data", "plugins", "clock"]);
    let file = comps(&["/", "data", "plugins", "clock", "js", "index.js"]);
    assert_eq!(check_plugin_file(&dir, &root, &file), Ok(()));
}

#[test]
fn plugin_id_escaping_plugins_dir_is_refused() {
    let dir = comps(&["/", "data", "plugins"]);
    // an id of ".." canonicalizes to the parent of the plugins directory
    let parent = comps(&["/", "data"]);
    let file = comps(&["/", "data", "settings.json"]);
    assert_eq!(check_plugin_file(&dir, &parent, &file), Err(PluginFileError::NotAPluginDirectory));
    // an id naming a nested directory
    let nested = comps(&["/", "data", "plugins", "a", "b"]);
    let inner = comps(&["/", "data", "plugins", "a", "b", "x.js"]);
    assert_eq!(check_plugin_file(&dir, &nested, &inner), Err(PluginFileError::NotAPluginDirectory));
    // an id resolving elsewhere entirely
    let elsewhere = comps(&["/", "etc", "plugins"]);
    let target = comps(&["/", "etc", "plugins", "passwd"]);
    assert_eq!(check_plugin_file(&dir, &elsewhere, &target), Err(PluginFileError::NotAPluginDirectory));
    // the plugins directory itself, or a "." / ".." component
    assert_eq!(check_plugin_file(&dir, &dir, &file), Err(PluginFileError::NotAPluginDirectory));
    let dotdot = comps(&["/", "data", "plugins", ".."]);
    assert_eq!(check_plugin_file(&dir, &dotdot, &dotdot), Err(PluginFileError::NotAPluginDirectory));
    let dot = comps(&["/", "data", "plugins", "."]);
    assert_eq!(check_plugin_file(&dir, &dot, &dot), Err(PluginFileError::NotAPluginDirectory));
}

#[test]
fn plugin_file_in_another_plugin_is_refused() {
    let dir = comps(&["/", "data", "plugins"]);
    let root = comps(&["/", "data", "plugins", "clock"]);
    let other = comps(&["/", "data", "plugins", "weather", "secret.json"]);
    assert_eq!(check_plugin_file(&dir, &root, &other), Err(PluginFileError::EscapesPluginDirectory));
}

#[test]
fn offered_ids_are_distinct_directory_names() {
    let cands = vec![
        candidate("a", Ok(manifest("a"))),
        candidate("b", Ok(manifest("a"))),
        candidate("c", Ok(manifest("c"))),
    ];
    let out = collect_plugin_manifests(&cands);
    let ids: Vec<&str> = out.iter().map(|m| m.id.as_str()).collect();
    assert_eq!(ids, vec!["a", "c"]);
}
