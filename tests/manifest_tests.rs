use tarmac::cache_map::cache_index_document;
use tarmac::manifest::{asset_list_text, manifest_asset_list, InputManifest, Manifest, ManifestError};

fn input(id: Option<u64>) -> InputManifest {
    InputManifest { uploaded_hash: None, uploaded_id: id, uploaded_slice: None, uploaded_config: None }
}

fn manifest(entries: Vec<(&str, Option<u64>)>) -> Manifest {
    let mut m = Manifest::new();
    for (name, id) in entries {
        m.inputs.push((name.to_string(), input(id)));
    }
    m
}

#[test]
fn uploaded_ids_are_distinct_and_ascending() {
    let m = manifest(vec![("a.png", Some(30)), ("b.png", None), ("c.png", Some(10)), ("d.png", Some(30)), ("e.png", Some(20))]);
    assert_eq!(m.uploaded_ids(), vec![10, 20, 30]);
}

#[test]
fn uploaded_ids_of_empty_manifest() {
    assert_eq!(Manifest::new().uploaded_ids(), Vec::<u64>::new());
}

#[test]
fn uploaded_ids_without_any_upload() {
    let m = manifest(vec![("a.png", None), ("b.png", None)]);
    assert_eq!(m.uploaded_ids(), Vec::<u64>::new());
}

#[test]
fn uploaded_ids_keep_the_largest_id() {
    let m = manifest(vec![("a.png", Some(u64::MAX)), ("b.png", Some(0))]);
    assert_eq!(m.uploaded_ids(), vec![0, u64::MAX]);
}

#[test]
fn asset_list_has_one_id_per_line() {
    assert_eq!(asset_list_text(&vec![7, 42, 1000]), "7\n42\n1000\n");
    assert_eq!(asset_list_text(&vec![]), "");
}

#[test]
fn manifest_asset_list_sorts_and_dedups() {
    let m = manifest(vec![("x", Some(5)), ("y", Some(3)), ("z", Some(5))]);
    assert_eq!(manifest_asset_list(&m), "3\n5\n");
}

#[test]
fn not_found_is_only_the_missing_file() {
    let missing = ManifestError::Io { file_path: "p".to_string(), not_found: true, message: String::new() };
    let denied = ManifestError::Io { file_path: "p".to_string(), not_found: false, message: String::new() };
    let bad = ManifestError::DeserializeToml { file_path: "p".to_string(), message: String::new() };
    let ser = ManifestError::SerializeToml { message: String::new() };
    assert!(missing.is_not_found());
    assert!(!denied.is_not_found());
    assert!(!bad.is_not_found());
    assert!(!ser.is_not_found());
}

#[test]
fn cache_plan_shares_one_fetch_for_a_packed_sheet() {
    let m = manifest(vec![("a.png", Some(9)), ("b.png", Some(9))]);
    let plan = m.cache_plan("cache");
    assert_eq!(plan.len(), 1);
    assert_eq!(plan[0].id, 9);
    assert!(plan[0].fetch);
    assert_eq!(plan[0].path, "cache/9");
}

#[test]
fn cache_plan_maps_a_single_input_to_its_name() {
    let m = manifest(vec![("icons/a.png", Some(4)), ("b.png", Some(9)), ("c.png", Some(9)), ("d.png", None)]);
    let plan = m.cache_plan("out/");
    assert_eq!(plan.len(), 2);
    assert_eq!((plan[0].id, plan[0].fetch, plan[0].path.as_str()), (4, false, "icons/a.png"));
    assert_eq!((plan[1].id, plan[1].fetch, plan[1].path.as_str()), (9, true, "out/9"));
}

#[test]
fn cache_plan_of_empty_cache_dir_uses_the_bare_id() {
    let m = manifest(vec![("a", Some(12)), ("b", Some(12)), ("c", Some(12))]);
    let plan = m.cache_plan("");
    assert_eq!(plan.len(), 1);
    assert_eq!(plan[0].path, "12");
}

#[test]
fn cache_index_is_pretty_json_keyed_by_id() {
    let m = manifest(vec![("a.png", Some(2)), ("b.png", Some(1)), ("c.png", Some(1))]);
    let plan = m.cache_plan("cache");
    let doc = cache_index_document(&plan).unwrap();
    assert_eq!(doc, "{\n  \"1\": \"cache/1\",\n  \"2\": \"a.png\"\n}");
}

#[test]
fn cache_index_of_empty_plan_is_an_empty_object() {
    assert_eq!(cache_index_document(&Vec::new()).unwrap(), "{}");
}
