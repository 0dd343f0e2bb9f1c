use std::cell::RefCell;

use mlxcel_xla::shards::{
    collect_shard_paths, extract_shards_from_index_json, glob_safetensors, parse_shard_index,
    parse_shard_index_with_total_size, plain_name, read_safetensors_header_bytes,
    safetensors_dtype_itemsize, validate_index_shards, weight_footprint_bytes,
    DirEntry, IndexFile, ModelDir,
};
use mlxcel_xla::weight_map::{
    clone_weight, get_weight, get_weight_with_prefix, has_weight, load_safetensors,
    load_safetensors_filtered, load_weights_from_dir, load_weights_from_dir_filtered, WeightMap,
};

fn empty_dir() -> ModelDir {
    ModelDir {
        path: "/model".to_string(),
        index_path: "/model/model.safetensors.index.json".to_string(),
        index: IndexFile::Absent,
        entries: Vec::new(),
        listing_error: None,
    }
}

fn stub_index(shards: &[&str]) -> IndexFile {
    let mut entries = Vec::new();
    for (i, name) in shards.iter().enumerate() {
        entries.push(format!(r#""w{i}.weight": "{name}""#));
    }
    IndexFile::Text(format!(
        r#"{{"metadata": {{"total_size": 0}}, "weight_map": {{{}}}}}"#,
        entries.join(",")
    ))
}

fn index_with_total_size(total_size: u64) -> IndexFile {
    IndexFile::Text(format!(
        r#"{{"metadata": {{"total_size": {total_size}}}, "weight_map": {{"w.weight": "model-00001-of-00001.safetensors"}}}}"#
    ))
}

fn index_without_total_size() -> IndexFile {
    IndexFile::Text(
        r#"{"weight_map": {"w.weight": "model-00001-of-00001.safetensors"}}"#.to_string(),
    )
}

fn raw_header(header_json: &str) -> Vec<u8> {
    let mut bytes = (header_json.len() as u64).to_le_bytes().to_vec();
    bytes.extend_from_slice(header_json.as_bytes());
    bytes
}

fn stub_bytes(dtype: &str, shape: &[u64]) -> Vec<u8> {
    let shape_str = shape.iter().map(|d| d.to_string()).collect::<Vec<_>>().join(",");
    raw_header(&format!(
        r#"{{"test_tensor": {{"dtype": "{dtype}", "shape": [{shape_str}], "data_offsets": [0, 0]}}}}"#
    ))
}

fn file(name: &str, bytes: Vec<u8>) -> DirEntry {
    DirEntry { name: name.to_string(), broken: false, bytes }
}

#[test]
fn test_extract_shards_from_index_json_basic() {
    let json = r#"{
            "metadata": {"total_size": 123456},
            "weight_map": {
                "model.embed_tokens.weight": "model-00001-of-00003.safetensors",
                "model.layers.0.self_attn.q_proj.weight": "model-00001-of-00003.safetensors",
                "model.layers.1.self_attn.q_proj.weight": "model-00002-of-00003.safetensors",
                "model.norm.weight": "model-00003-of-00003.safetensors"
            }
        }"#;

    let shards = extract_shards_from_index_json(json).expect("should parse");
    assert_eq!(shards.len(), 3);
    assert!(shards.contains(&"model-00001-of-00003.safetensors".to_string()));
    assert!(shards.contains(&"model-00002-of-00003.safetensors".to_string()));
    assert!(shards.contains(&"model-00003-of-00003.safetensors".to_string()));
}

#[test]
fn test_extract_shards_deduplicates() {
    let json = r#"{
            "weight_map": {
                "a.weight": "shard-1.safetensors",
                "b.weight": "shard-1.safetensors",
                "c.weight": "shard-2.safetensors"
            }
        }"#;
    let shards = extract_shards_from_index_json(json).expect("should parse");
    assert_eq!(shards.len(), 2);
}

#[test]
fn test_extract_shards_missing_weight_map() {
    let json = r#"{"metadata": {"total_size": 0}}"#;
    let result = extract_shards_from_index_json(json);
    assert!(result.is_err());
    assert!(result.unwrap_err().contains("weight_map"));
}

#[test]
fn test_parse_shard_index_no_file() {
    assert!(parse_shard_index(&empty_dir()).unwrap().is_none());
}

#[test]
fn test_parse_shard_index_valid_file() {
    let mut dir = empty_dir();
    dir.index = IndexFile::Text(
        r#"{"metadata": {}, "weight_map": {"x.weight": "shard-1.safetensors"}}"#.to_string(),
    );
    let result = parse_shard_index(&dir).expect("should succeed");
    assert!(result.is_some());
    assert_eq!(result.unwrap(), vec!["shard-1.safetensors"]);
}

#[test]
fn test_weight_map_operations() {
    let mut weights = WeightMap::new();
    weights.insert("test.weight".to_string(), vec![4, 4]);

    assert!(has_weight(&weights, "test.weight"));
    assert!(!has_weight(&weights, "nonexistent"));

    let w = get_weight(&weights, "test.weight").unwrap();
    assert_eq!(*w, vec![4, 4]);
    assert_eq!(get_weight_with_prefix(&weights, "test", "weight"), Some(&vec![4, 4]));
    assert!(get_weight_with_prefix(&weights, "test", "bias").is_none());

    let copy = |w: &Vec<i32>| w.clone();
    let cloned = clone_weight(&weights, "test.weight", &copy).unwrap();
    assert_eq!(cloned, vec![4, 4]);
    assert!(clone_weight(&weights, "nonexistent", &copy).is_none());

    weights.insert("test.weight".to_string(), vec![2]);
    assert_eq!(get_weight(&weights, "test.weight"), Some(&vec![2]));
}

#[test]
fn test_validate_index_shards_rejects_path_traversal() {
    for name in ["../secret.safetensors", "/etc/passwd", "subdir/model.safetensors"] {
        let result = validate_index_shards("/model", &vec![name.to_string()], &Vec::new());
        assert!(result.is_err());
        assert!(result.unwrap_err().contains("Invalid shard filename"));
    }
}

#[test]
fn test_extract_shards_rejects_path_traversal_in_json() {
    let json = r#"{
            "weight_map": {
                "x.weight": "../../../etc/shadow"
            }
        }"#;
    let shards = extract_shards_from_index_json(json).expect("should parse");
    assert_eq!(shards, vec!["../../../etc/shadow"]);

    let result = validate_index_shards("/model", &shards, &Vec::new());
    assert!(result.is_err());
    assert!(result.unwrap_err().contains("Invalid shard filename"));
}

#[test]
fn test_collect_shard_paths_uses_index_when_valid() {
    let mut dir = empty_dir();
    dir.index =
        stub_index(&["model-00001-of-00002.safetensors", "model-00002-of-00002.safetensors"]);
    dir.entries = vec![
        file("model-00002-of-00002.safetensors", Vec::new()),
        file("model-00001-of-00002.safetensors", Vec::new()),
    ];
    let paths = collect_shard_paths(&dir).expect("should succeed");
    assert_eq!(
        paths,
        vec!["model-00001-of-00002.safetensors", "model-00002-of-00002.safetensors"]
    );
}

#[test]
fn test_collect_shard_paths_falls_back_when_index_stale() {
    let mut dir = empty_dir();
    dir.index =
        stub_index(&["model-00001-of-00050.safetensors", "model-00002-of-00050.safetensors"]);
    dir.entries = vec![file("model.safetensors", Vec::new())];
    let paths = collect_shard_paths(&dir).expect("should fall back to glob");
    assert_eq!(paths, vec!["model.safetensors"]);
}

#[test]
fn test_collect_shard_paths_returns_index_error_when_dir_empty() {
    let mut dir = empty_dir();
    dir.index = stub_index(&["model-00001-of-00002.safetensors"]);
    let err = collect_shard_paths(&dir).expect_err("should surface error");
    assert!(err.contains("Missing shard file"), "expected missing-shard error, got: {err}");
}

#[test]
fn filtered_loader_skips_nonmatching_shard_before_native_load() {
    let bytes = stub_bytes("U32", &[4, 4]);
    let inspected: RefCell<Vec<String>> = RefCell::new(Vec::new());
    let keep = |name: &String| {
        inspected.borrow_mut().push(name.to_string());
        name.starts_with("vision_tower.")
    };
    let load = |_: &str| -> Result<Vec<(String, u32)>, String> { panic!("native load") };
    let weights =
        load_safetensors_filtered("model-00001-of-00002.safetensors", &bytes, &keep, &load)
            .expect("a shard with no retained header names is skipped before native loading");
    assert!(weights.is_empty());
    assert_eq!(*inspected.borrow(), ["test_tensor"]);
}

#[test]
fn test_parse_shard_index_with_total_size_present() {
    let mut dir = empty_dir();
    dir.index = index_with_total_size(12_345_678);
    let result = parse_shard_index_with_total_size(&dir).expect("should succeed");
    assert!(result.is_some());
    let (_shards, total_size) = result.unwrap();
    assert_eq!(total_size, Some(12_345_678));
}

#[test]
fn test_parse_shard_index_with_total_size_absent() {
    let mut dir = empty_dir();
    dir.index = index_without_total_size();
    let result = parse_shard_index_with_total_size(&dir).expect("should succeed");
    assert!(result.is_some());
    let (_shards, total_size) = result.unwrap();
    assert_eq!(total_size, None);
}

#[test]
fn test_parse_shard_index_with_total_size_no_file() {
    let result = parse_shard_index_with_total_size(&empty_dir()).expect("should succeed");
    assert!(result.is_none());
}

#[test]
fn test_weight_footprint_bytes_from_sharded_index() {
    let mut dir = empty_dir();
    dir.index = index_with_total_size(999_000);
    dir.entries = vec![file("model-00001-of-00001.safetensors", Vec::new())];
    assert_eq!(weight_footprint_bytes(&dir), Some(999_000));
}

#[test]
fn test_weight_footprint_bytes_from_single_file_header() {
    let mut dir = empty_dir();
    dir.entries = vec![file("model.safetensors", stub_bytes("F32", &[1024, 256]))];
    assert_eq!(weight_footprint_bytes(&dir), Some(1024 * 256 * 4));
}

#[test]
fn test_weight_footprint_bytes_missing_no_file() {
    assert_eq!(weight_footprint_bytes(&empty_dir()), None);
}

#[test]
fn test_weight_footprint_bytes_index_without_total_size_falls_to_header() {
    let mut dir = empty_dir();
    dir.index = index_without_total_size();
    dir.entries = vec![file("model.safetensors", stub_bytes("BF16", &[512, 128]))];
    assert_eq!(weight_footprint_bytes(&dir), Some(512 * 128 * 2));
}

#[test]
fn test_weight_footprint_bytes_index_without_total_size_sums_valid_shards() {
    let mut dir = empty_dir();
    dir.index = index_without_total_size();
    dir.entries = vec![file("model-00001-of-00001.safetensors", stub_bytes("F16", &[2, 8]))];
    assert_eq!(weight_footprint_bytes(&dir), Some(2 * 8 * 2));
}

#[test]
fn test_weight_footprint_bytes_ignores_stale_index_total_size() {
    let mut dir = empty_dir();
    dir.index = index_with_total_size(999_000);
    dir.entries = vec![file("model.safetensors", stub_bytes("F32", &[4, 4]))];
    assert_eq!(weight_footprint_bytes(&dir), Some(4 * 4 * 4));
}

#[test]
fn test_weight_footprint_bytes_rejects_non_numeric_shape_dim() {
    let mut dir = empty_dir();
    dir.entries = vec![file(
        "model.safetensors",
        raw_header(
            r#"{"bad_tensor": {"dtype": "F32", "shape": [2, "bad"], "data_offsets": [0, 0]}}"#,
        ),
    )];
    assert_eq!(weight_footprint_bytes(&dir), None);
}

#[test]
fn test_safetensors_dtype_itemsize() {
    assert_eq!(safetensors_dtype_itemsize("F32"), Some(4));
    assert_eq!(safetensors_dtype_itemsize("BF16"), Some(2));
    assert_eq!(safetensors_dtype_itemsize("F16"), Some(2));
    assert_eq!(safetensors_dtype_itemsize("I8"), Some(1));
    assert_eq!(safetensors_dtype_itemsize("F64"), Some(8));
    assert_eq!(safetensors_dtype_itemsize("BOOL"), Some(1));
    assert_eq!(safetensors_dtype_itemsize("UNKNOWN_DTYPE"), None);
}

#[test]
fn test_weight_footprint_bytes_scalar_tensor() {
    let mut dir = empty_dir();
    dir.entries = vec![file("model.safetensors", stub_bytes("F32", &[]))];
    assert_eq!(weight_footprint_bytes(&dir), Some(4));
}

#[test]
fn index_file_errors_name_the_file() {
    let mut dir = empty_dir();
    dir.index = IndexFile::Unreadable("denied".to_string());
    assert_eq!(
        parse_shard_index(&dir).unwrap_err(),
        "Failed to read /model/model.safetensors.index.json: denied"
    );
    dir.index = IndexFile::Text(r#"{"weight_map": {}}"#.to_string());
    assert_eq!(
        parse_shard_index(&dir).unwrap_err(),
        "Failed to parse /model/model.safetensors.index.json: No shard filenames found in weight_map"
    );
}

#[test]
fn plain_names_have_no_path() {
    assert!(plain_name("model-00001-of-00002.safetensors"));
    assert!(plain_name("."));
    for name in ["", "..", "a/b", "../a", "/a", "a\0b"] {
        assert!(!plain_name(name), "{name:?}");
    }
}

#[test]
fn broken_links_are_skipped_and_files_sorted() {
    let entries = vec![
        file("b.safetensors", Vec::new()),
        DirEntry { name: "c.safetensors".to_string(), broken: true, bytes: Vec::new() },
        file("a.safetensors", Vec::new()),
        file("config.json", Vec::new()),
    ];
    assert_eq!(
        glob_safetensors(&entries),
        vec!["a.safetensors", "b.safetensors", "c.safetensors"]
    );
    let mut dir = empty_dir();
    dir.entries = entries;
    assert_eq!(collect_shard_paths(&dir).unwrap(), vec!["a.safetensors", "b.safetensors"]);
    dir.entries.remove(2);
    dir.entries.remove(0);
    assert!(collect_shard_paths(&dir).unwrap_err().starts_with("All 1 safetensors file(s) in /model"));
}

#[test]
fn the_directory_itself_is_no_path_out_of_it() {
    let mut dir = empty_dir();
    dir.index = IndexFile::Text(
        r#"{"weight_map": {"a": "-1.safetensors", "b": "."}}"#.to_string(),
    );
    dir.entries = vec![file("-1.safetensors", Vec::new()), file(".", Vec::new())];
    assert_eq!(collect_shard_paths(&dir).unwrap(), vec![".", "-1.safetensors"]);
}

#[test]
fn headers_of_wrong_size_are_no_headers() {
    assert_eq!(read_safetensors_header_bytes(&[1, 2, 3]), None);
    let mut truncated = stub_bytes("F32", &[2]);
    truncated.pop();
    assert_eq!(read_safetensors_header_bytes(&truncated), None);
    assert_eq!(read_safetensors_header_bytes(&stub_bytes("F32", &[3])), Some(12));
    assert_eq!(read_safetensors_header_bytes(&stub_bytes("F32", &[u64::MAX, 2])), Some(u64::MAX));
}

#[test]
fn directories_without_weights_cannot_be_loaded() {
    let load = |_: &str| -> Result<Vec<(String, u32)>, String> { Ok(Vec::new()) };
    assert_eq!(
        load_weights_from_dir(&empty_dir(), &load).unwrap_err(),
        "No safetensors files found in directory: /model"
    );
    assert_eq!(
        collect_shard_paths(&empty_dir()).unwrap_err(),
        "No safetensors files found in directory: /model"
    );
}

#[test]
fn directories_are_loaded_shard_by_shard() {
    let mut dir = empty_dir();
    dir.entries = vec![
        file("b.safetensors", stub_bytes("F32", &[1])),
        file("a.safetensors", stub_bytes("F32", &[1])),
    ];
    let seen: RefCell<Vec<String>> = RefCell::new(Vec::new());
    let load = |path: &str| -> Result<Vec<(String, u32)>, String> {
        seen.borrow_mut().push(path.to_string());
        let n = seen.borrow().len() as u32;
        Ok(vec![("test_tensor".to_string(), n), (format!("only.{n}"), n)])
    };
    let weights = load_weights_from_dir(&dir, &load).unwrap();
    assert_eq!(*seen.borrow(), ["/model/a.safetensors", "/model/b.safetensors"]);
    assert_eq!(get_weight(&weights, "test_tensor"), Some(&2));
    assert_eq!(get_weight(&weights, "only.1"), Some(&1));

    let keep = |name: &String| name == "test_tensor";
    let weights = load_weights_from_dir_filtered(&dir, &keep, &load).unwrap();
    assert!(has_weight(&weights, "test_tensor"));
    assert!(!has_weight(&weights, "only.3"));
    assert!(!weights.is_empty());

    let none = |name: &String| name.starts_with("vision_tower.");
    let refused = |_: &str| -> Result<Vec<(String, u32)>, String> { panic!("native load") };
    assert!(load_weights_from_dir_filtered(&dir, &none, &refused).unwrap().is_empty());
}

#[test]
fn failing_loads_name_the_file() {
    let load = |_: &str| -> Result<Vec<(String, u32)>, String> { Err("bad".to_string()) };
    assert_eq!(
        load_safetensors("/m/a.safetensors", &stub_bytes("F32", &[1]), &load).unwrap_err(),
        "Failed to load /m/a.safetensors: bad"
    );
}
