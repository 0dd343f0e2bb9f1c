use mlxcel_xla::checkpoint::{
    checkpoint_tensor_name, gemma3n_candidate_shards, gemma3n_repackaged_tensor_name,
    language_model_tensor_name, merge_gemma3n_name_scheme, resolve_dense_weight_sources,
    resolve_gemma3n_weight_sources, resolve_molmo2_weight_sources, resolve_weight_shards,
    safetensors_files, CheckpointDir, DenseCheckpointNames, Gemma3nCheckpointNames, ShardFile,
};
use mlxcel_xla::config::{Config, QuantConfig, WeightScheme};
use mlxcel_xla::loader::{LoadContext, WeightBuf};
use mlxcel_xla::problem::Problem;
use mlxcel_xla::runtime::{Gemma3nRuntime, RuntimeConfig};
use mlxcel_xla::weight_loading::{
    load_context, load_weights, name_scheme, weight_search, NameScheme, WeightSearch,
};
use mlxcel_xla::weight_specs::{QuantPart, WeightSpec};

fn mul_add(q: u32, scale: u32, bias: u32) -> u32 {
    (q as f32 * f32::from_bits(scale) + f32::from_bits(bias)).to_bits()
}

fn names(list: &[&str]) -> Vec<String> {
    list.iter().map(|name| name.to_string()).collect()
}

fn split(index: &str) -> CheckpointDir {
    CheckpointDir {
        path: "/m".to_string(),
        index_path: "/m/model.safetensors.index.json".to_string(),
        single: false,
        index: Ok(index.to_string()),
    }
}

fn shard(tensors: &[(&str, &str, &[usize], &[u8])]) -> Vec<u8> {
    let mut header = String::from("{");
    let mut data = Vec::new();
    for (i, (name, dtype, shape, bytes)) in tensors.iter().enumerate() {
        let start = data.len();
        data.extend_from_slice(bytes);
        if i > 0 {
            header.push(',');
        }
        header.push_str(&format!(
            r#""{name}":{{"dtype":"{dtype}","shape":{shape:?},"data_offsets":[{start},{}]}}"#,
            data.len()
        ));
    }
    header.push('}');
    let mut out = (header.len() as u64).to_le_bytes().to_vec();
    out.extend_from_slice(header.as_bytes());
    out.extend_from_slice(&data);
    out
}

fn file<'a>(path: &str, bytes: &'a [u8]) -> ShardFile<'a> {
    ShardFile { path: path.to_string(), bytes: Ok(bytes) }
}

const DENSE: LoadContext =
    LoadContext { gemma3n: false, molmo2: false, quantization: None, resident_f16: false };

#[test]
fn gemma3n_repack_alias_covers_weight_and_quant_companions() {
    assert_eq!(
        gemma3n_repackaged_tensor_name("model.language_model.layers.0.self_attn.q_proj.weight")
            .as_deref(),
        Some("language_model.model.layers.0.self_attn.q_proj.weight")
    );
    assert_eq!(
        gemma3n_repackaged_tensor_name("model.language_model.embed_tokens.scales").as_deref(),
        Some("language_model.model.embed_tokens.scales")
    );
    assert_eq!(
        gemma3n_repackaged_tensor_name("model.language_model.embed_tokens.biases").as_deref(),
        Some("language_model.model.embed_tokens.biases")
    );
}

#[test]
fn gemma3n_name_scheme_rejects_mixed_checkpoints() {
    let scheme = merge_gemma3n_name_scheme(None, Gemma3nCheckpointNames::Canonical).unwrap();
    let error = merge_gemma3n_name_scheme(scheme, Gemma3nCheckpointNames::Repackaged).unwrap_err();
    assert!(error.contains("mixes canonical"));
}

#[test]
fn names_are_spelled_by_the_scheme() {
    let name = "model.language_model.norm.weight";
    assert_eq!(checkpoint_tensor_name(None, name).unwrap(), name);
    assert_eq!(
        checkpoint_tensor_name(Some(Gemma3nCheckpointNames::Repackaged), name).unwrap(),
        "language_model.model.norm.weight"
    );
    assert_eq!(
        checkpoint_tensor_name(Some(Gemma3nCheckpointNames::Repackaged), "x").unwrap_err(),
        "unsupported Gemma3n tensor name: x"
    );
    assert_eq!(language_model_tensor_name("a"), "language_model.a");
}

#[test]
fn an_index_maps_names_to_files() {
    let dir = split(r#"{"weight_map": {"a": "1.safetensors", "b": "2.safetensors"}}"#);
    let files = resolve_weight_shards(&dir, &names(&["b", "a"])).unwrap();
    assert_eq!(files, names(&["/m/2.safetensors", "/m/1.safetensors"]));
    assert!(resolve_weight_shards(&dir, &names(&["c"])).unwrap_err().contains('c'));
    let (_, scheme) = resolve_dense_weight_sources(&dir, &names(&["a"])).unwrap();
    assert_eq!(scheme, Some(DenseCheckpointNames::Canonical));

    let wrapped = split(r#"{"weight_map": {"language_model.a": "1.safetensors"}}"#);
    let (_, scheme) = resolve_dense_weight_sources(&wrapped, &names(&["a"])).unwrap();
    assert_eq!(scheme, Some(DenseCheckpointNames::LanguageModelPrefixed));
    assert!(
        resolve_dense_weight_sources(&wrapped, &names(&["b"]))
            .unwrap_err()
            .starts_with("dense checkpoint has neither")
    );

    let mut single = split("");
    single.single = true;
    let (files, scheme) = resolve_dense_weight_sources(&single, &names(&["a"])).unwrap();
    assert_eq!((files, scheme), (names(&["/m/model.safetensors"]), None));
    let mut unreadable = split("");
    unreadable.index = Err("denied".to_string());
    assert!(resolve_weight_shards(&unreadable, &names(&["a"])).unwrap_err().contains("denied"));
}

#[test]
fn gemma3n_shards_are_those_of_the_index_or_the_directory() {
    let dir = split(r#"{"weight_map": {"model.language_model.a": "1.safetensors"}}"#);
    let listing = Ok(names(&["2.safetensors", "1.safetensors", "x.json"]));
    let wanted = names(&["model.language_model.a"]);
    let both = names(&["/m/1.safetensors", "/m/2.safetensors"]);
    assert_eq!(
        gemma3n_candidate_shards(&dir, &wanted, &both, &listing).unwrap(),
        names(&["/m/1.safetensors"])
    );
    // The index is stale: every safetensors file of the directory is searched.
    let stale = names(&["/m/2.safetensors", "/m/x.json"]);
    assert_eq!(
        gemma3n_candidate_shards(&dir, &wanted, &stale, &listing).unwrap(),
        names(&["/m/2.safetensors"])
    );
    assert_eq!(
        gemma3n_candidate_shards(&dir, &wanted, &names(&[]), &listing).unwrap_err(),
        "no safetensors files found in /m"
    );
    assert_eq!(
        gemma3n_candidate_shards(&dir, &wanted, &names(&[]), &Err("denied".to_string()))
            .unwrap_err(),
        "read /m: denied"
    );
    assert_eq!(
        safetensors_files(&names(&["2.safetensors", "1.safetensors", "x.json"])),
        vec!["1.safetensors", "2.safetensors"]
    );
}

#[test]
fn gemma3n_shards_are_in_the_order_of_their_components() {
    let dir = split(
        r#"{"weight_map": {
            "model.language_model.a": "x.y.safetensors",
            "model.language_model.b": "x/a.safetensors",
            "model.language_model.c": "x/./a.safetensors",
            "model.language_model.d": "/elsewhere/b.safetensors"
        }}"#,
    );
    let wanted = names(&[
        "model.language_model.a",
        "model.language_model.b",
        "model.language_model.c",
        "model.language_model.d",
    ]);
    let present = resolve_weight_shards(&dir, &wanted).unwrap();
    assert_eq!(
        gemma3n_candidate_shards(&dir, &wanted, &present, &Ok(Vec::new())).unwrap(),
        names(&["/elsewhere/b.safetensors", "/m/x/a.safetensors", "/m/x.y.safetensors"])
    );
}

#[test]
fn weights_are_read_in_the_order_of_the_components_of_their_paths() {
    let files = vec![
        ShardFile { path: "/m/x.y.safetensors".to_string(), bytes: Err("second".to_string()) },
        ShardFile { path: "/m/x/a.safetensors".to_string(), bytes: Err("first".to_string()) },
        ShardFile { path: "/m//x/a.safetensors".to_string(), bytes: Err("other".to_string()) },
    ];
    let specs = vec![
        WeightSpec::Whole("a".to_string()),
        WeightSpec::Whole("b".to_string()),
        WeightSpec::Whole("c".to_string()),
    ];
    let load = |paths: &[&str]| {
        load_weights(&files, &names(paths), &specs, NameScheme::Dense(None), &DENSE, &mul_add)
    };
    let [first, second, other] =
        ["/m/x/a.safetensors", "/m/x.y.safetensors", "/m//x/a.safetensors"];
    assert!(matches!(
        load(&[second, first, other]),
        Err(Problem::Refused(message)) if message == "first"
    ));
    // One file under two spellings is read under the first.
    assert!(matches!(
        load(&[second, other, first]),
        Err(Problem::Refused(message)) if message == "other"
    ));
}

#[test]
fn zero_bits_matter_only_to_packed_weights() {
    let one = shard(&[
        ("f.weight", "F32", &[1, 1], &1.5f32.to_le_bytes()),
        ("q.weight", "U32", &[1, 1], &[0x21, 0x43, 0x65, 0x87]),
        ("q.scales", "F16", &[1, 2], &[0x00, 0x40, 0x00, 0x38]),
        ("q.biases", "F16", &[1, 2], &[0x00, 0x49, 0x00, 0xBC]),
    ]);
    let files = vec![file("/m/1", &one)];
    let context =
        LoadContext { quantization: Some(QuantConfig { bits: 0, group_size: 4 }), ..DENSE };
    let load = |name: &str| {
        load_weights(
            &files,
            &names(&["/m/1"]),
            &vec![WeightSpec::Whole(name.to_string())],
            NameScheme::Dense(None),
            &context,
            &mul_add,
        )
    };
    let float = load("f.weight").unwrap();
    assert_eq!(float[0].buf, WeightBuf::F32(vec![1.5f32.to_bits()]));
    assert!(matches!(load("q.weight"), Err(Problem::Overflow)));
}

#[test]
fn configurations_decide_where_weights_are_and_what_they_are_called() {
    let dense = RuntimeConfig::Dense(Config::llama_3_2_1b());
    let molmo2 = RuntimeConfig::Dense(Config {
        weight_scheme: WeightScheme::Molmo2,
        ..Config::llama_3_2_1b()
    });
    let gemma3n = RuntimeConfig::Gemma3n(Gemma3nRuntime {
        context_capacity: 4,
        hidden: 8,
        vocab: 12,
        n_layers: 2,
        quantization: Some(QuantConfig { bits: 4, group_size: 64 }),
        dense_ple_shape: [4, 2, 2],
        weights: Vec::new(),
    });
    assert_eq!(weight_search(&dense), WeightSearch::Dense);
    assert_eq!(weight_search(&molmo2), WeightSearch::Molmo2);
    assert_eq!(weight_search(&gemma3n), WeightSearch::Gemma3n);

    let canonical = Some(DenseCheckpointNames::Canonical);
    assert_eq!(name_scheme(&dense, canonical, None), NameScheme::Dense(canonical));
    assert_eq!(name_scheme(&dense, None, None), NameScheme::Dense(None));
    assert_eq!(
        name_scheme(&molmo2, canonical, None),
        NameScheme::Dense(Some(DenseCheckpointNames::LanguageModelPrefixed))
    );
    assert_eq!(
        name_scheme(&gemma3n, None, Some(Gemma3nCheckpointNames::Repackaged)),
        NameScheme::Gemma3n(Gemma3nCheckpointNames::Repackaged)
    );

    let context = load_context(&molmo2, true);
    assert_eq!(context, LoadContext { molmo2: true, resident_f16: true, ..DENSE });
    let context = load_context(&gemma3n, false);
    assert!(context.gemma3n && !context.molmo2 && context.quantization.is_some());
}

#[test]
fn gemma3n_weights_are_found_in_one_spelling() {
    let one = shard(&[("language_model.model.a", "F32", &[1], &[0, 0, 128, 63])]);
    let files = vec![file("/m/1", &one)];
    let wanted = names(&["model.language_model.a"]);
    let (paths, scheme) = resolve_gemma3n_weight_sources(&files, &wanted).unwrap();
    assert_eq!((paths, scheme), (names(&["/m/1"]), Gemma3nCheckpointNames::Repackaged));
    let missing = names(&["model.language_model.b"]);
    assert!(resolve_gemma3n_weight_sources(&files, &missing).is_err());

    let two = shard(&[("model.language_model.b", "F32", &[1], &[0, 0, 128, 63])]);
    let mixed = vec![file("/m/1", &one), file("/m/2", &two)];
    let wanted = names(&["model.language_model.a", "model.language_model.b"]);
    assert!(
        resolve_gemma3n_weight_sources(&mixed, &wanted).unwrap_err().contains("mixes canonical")
    );
}

#[test]
fn molmo2_weights_are_found_once() {
    let name = "model.wte.embedding";
    let one = shard(&[
        ("language_model.model.wte.embedding", "F32", &[1], &[0, 0, 128, 63]),
        (name, "F32", &[1], &[0, 0, 128, 63]),
    ]);
    let files = vec![file("/m/1", &one)];
    let found = resolve_molmo2_weight_sources(&files, &names(&[name]));
    assert_eq!(found.unwrap(), names(&["/m/1"]));
    assert!(resolve_molmo2_weight_sources(&files, &names(&["lm_head.weight"])).is_err());
}

#[test]
fn molmo2_weights_are_loaded_under_the_names_they_are_found_by() {
    let name = "model.wte.embedding";
    let one = shard(&[
        ("language_model.model.wte.embedding", "F32", &[1], &2.0f32.to_le_bytes()),
        (name, "F32", &[1], &1.0f32.to_le_bytes()),
    ]);
    let files = vec![file("/m/1", &one)];
    let cfg = RuntimeConfig::Dense(Config {
        weight_scheme: WeightScheme::Molmo2,
        ..Config::llama_3_2_1b()
    });
    let paths = resolve_molmo2_weight_sources(&files, &names(&[name])).unwrap();
    let weights = load_weights(
        &files,
        &paths,
        &vec![WeightSpec::Whole(name.to_string())],
        name_scheme(&cfg, None, None),
        &load_context(&cfg, false),
        &mul_add,
    )
    .unwrap();
    assert_eq!(weights[0].buf, WeightBuf::F32(vec![2.0f32.to_bits()]));
}

#[test]
fn weights_are_widened_sliced_and_kept_in_order() {
    let bytes: Vec<u8> =
        [1.0f32, 2.0, 3.0, 4.0].iter().flat_map(|value| value.to_le_bytes()).collect();
    let one = shard(&[("rows", "F32", &[2, 2], &bytes), ("half", "F16", &[1], &[0x00, 0x3c])]);
    let files = vec![file("/m/1", &one)];
    let specs = vec![
        WeightSpec::Rows { name: "rows".to_string(), start: 1, end: 2 },
        WeightSpec::Whole("half".to_string()),
    ];
    let paths = names(&["/m/1", "/m/1"]);
    let weights =
        load_weights(&files, &paths, &specs, NameScheme::Dense(None), &DENSE, &mul_add).unwrap();
    assert_eq!(weights[0].buf, WeightBuf::F32(vec![3.0f32.to_bits(), 4.0f32.to_bits()]));
    assert_eq!((weights[0].rank, weights[0].dims), (2, [1, 2, 0, 0]));
    assert_eq!(weights[1].buf, WeightBuf::F32(vec![1.0f32.to_bits()]));
}

#[test]
fn projections_may_stay_in_half_precision() {
    let one = shard(&[("p.weight", "F32", &[1, 1], &1.5f32.to_le_bytes())]);
    let files = vec![file("/m/1", &one)];
    let specs = vec![WeightSpec::Proj("p.weight".to_string())];
    let context = LoadContext { resident_f16: true, ..DENSE };
    let weights = load_weights(
        &files,
        &names(&["/m/1"]),
        &specs,
        NameScheme::Dense(None),
        &context,
        &mul_add,
    )
    .unwrap();
    assert_eq!(weights[0].buf, WeightBuf::F16(vec![0x3e00]));
}

#[test]
fn packed_weights_are_dequantized_or_kept_raw() {
    let one = shard(&[
        ("q.weight", "U32", &[1, 1], &[0x21, 0x43, 0x65, 0x87]),
        ("q.scales", "F16", &[1, 2], &[0x00, 0x40, 0x00, 0x38]),
        ("q.biases", "F16", &[1, 2], &[0x00, 0x49, 0x00, 0xBC]),
    ]);
    let files = vec![file("/m/1", &one)];
    let context =
        LoadContext { quantization: Some(QuantConfig { bits: 4, group_size: 4 }), ..DENSE };
    let load = |spec: WeightSpec| {
        load_weights(
            &files,
            &names(&["/m/1"]),
            &vec![spec],
            NameScheme::Dense(None),
            &context,
            &mul_add,
        )
    };
    let whole = load(WeightSpec::Whole("q.weight".to_string())).unwrap();
    let expected: Vec<u32> =
        [12.0f32, 14.0, 16.0, 18.0, 1.5, 2.0, 2.5, 3.0].iter().map(|v| v.to_bits()).collect();
    assert_eq!(whole[0].buf, WeightBuf::F32(expected));
    let raw = load(WeightSpec::QuantRaw {
        name: "q.weight".to_string(),
        part: QuantPart::Packed,
    })
    .unwrap();
    assert_eq!(raw[0].buf, WeightBuf::Raw(vec![0x21, 0x43, 0x65, 0x87]));
    assert!(matches!(
        load(WeightSpec::Whole("missing".to_string())),
        Err(Problem::Refused(_))
    ));
}
