//! Decisions of the vision-language loaders: what a `config.json` says of quantization and
//! tokens, how weights are renamed, and which transformation applies to them.
use vstd::prelude::*;

use crate::json::{json_entries, json_error_text, json_of_text, parse_json, Json, JsonView};
use crate::text::{
    contains_text, has_prefix, has_suffix, occurs, occurs_at, strip_prefix, tail, text_eq,
};
use crate::weight_map::{has_entry, has_name_ending, WeightMap};

verus! {

/// Parse a configuration; `label` names it in the error.
pub fn parse_vlm_config(text: &str, label: &str) -> (r: Result<Json, String>)
    ensures
        match json_of_text(text@) {
            Some(value) => r matches Ok(json) && json@ == value,
            None => r matches Err(message) && message@ == "Failed to parse "@ + label@ + ": "@
                + json_error_text(text@),
        },
{
    match parse_json(text) {
        Ok(json) => Ok(json),
        Err(message) => Err(
            "Failed to parse ".to_owned().concat(label).concat(": ").concat(&message),
        ),
    }
}

/// The member of a configuration that has to be there.
pub fn required_vlm_subconfig<'a>(full_config: &'a Json, key: &str) -> (r: Result<&'a Json, String>)
    ensures
        match full_config@.get(key@) {
            Some(value) => r matches Ok(json) && json@ == value,
            None => r matches Err(message) && message@ == "Missing "@ + key@
                + " in config.json"@,
        },
{
    match full_config.get(key) {
        Some(value) => Ok(value),
        None => Err("Missing ".to_owned().concat(key).concat(" in config.json")),
    }
}

/// The entries of a value that has to be an object.
pub fn require_object<'a>(value: &'a Json, label: &str) -> (r: Result<
    &'a Vec<(String, Json)>,
    String,
>)
    ensures
        match r {
            Ok(entries) => value@ == JsonView::Object(json_entries(entries@)),
            Err(message) => !(value@ is Object) && message@ == "Expected "@ + label@
                + " to be a JSON object"@,
        },
{
    match value.as_object() {
        Some(entries) => Ok(entries),
        None => Err("Expected ".to_owned().concat(label).concat(" to be a JSON object")),
    }
}

/// An optional JSON file: nothing where it is absent or no JSON.
pub fn read_optional_model_json(text: Option<&str>) -> (r: Option<Json>)
    ensures
        match text {
            None => r is None,
            Some(text) => match json_of_text(text@) {
                Some(value) => r matches Some(json) && json@ == value,
                None => r is None,
            },
        },
{
    match text {
        None => None,
        Some(text) => match parse_json(text) {
            Ok(json) => Some(json),
            Err(_) => None,
        },
    }
}

/// A configuration states a quantization, of its own or of its text model.
pub open spec fn states_quantization(config: JsonView) -> bool {
    config.get("quantization"@) is Some || (config.get("text_config"@) matches Some(text)
        && text.get("quantization"@) is Some)
}

/// A model is quantized: its weights have scales, or its `config.json` states a
/// quantization.
pub open spec fn quantized<T>(weights: Map<Seq<char>, T>, config: Option<&str>) -> bool {
    (exists|name: Seq<char>| #[trigger]
        weights.contains_key(name) && has_suffix(name, ".scales"@)) || (config matches Some(text)
        && (json_of_text(text@) matches Some(value) && states_quantization(value)))
}

/// Whether a model is quantized, by the names of its weights or by the text of its
/// `config.json`.
pub fn is_model_quantized<T>(weights: &WeightMap<T>, config: Option<&str>) -> (r: bool)
    requires
        weights.wf(),
    ensures
        r == quantized(weights@, config),
{
    if has_name_ending(weights, ".scales") {
        return true;
    }
    match read_optional_model_json(config) {
        None => false,
        Some(config) => {
            if config.get("quantization").is_some() {
                return true;
            }
            match config.get("text_config") {
                Some(text) => text.get("quantization").is_some(),
                None => false,
            }
        },
    }
}

/// A configuration is that of a Gemma3n model.
pub open spec fn names_gemma3n(config: JsonView) -> bool {
    config.get_text("model_type"@) == Some("gemma3n"@) || (config.get("text_config"@)
        matches Some(text) && (text.get_text("model_type"@) == Some("gemma3n"@) || text.get_text(
        "model_type"@,
    ) == Some("gemma3n_text"@)))
}

/// The text of a `config.json` is that of a Gemma3n model.
pub open spec fn of_gemma3n(config: Option<&str>) -> bool {
    config matches Some(text) && (json_of_text(text@) matches Some(value) && names_gemma3n(value))
}

/// Whether the text of a `config.json` is that of a Gemma3n model.
pub fn is_gemma3n_model(config: Option<&str>) -> (r: bool)
    ensures
        r == of_gemma3n(config),
{
    let config = match read_optional_model_json(config) {
        None => return false,
        Some(config) => config,
    };
    if let Some(model_type) = config.get_text("model_type") {
        if text_eq(model_type, "gemma3n") {
            return true;
        }
    }
    match config.get("text_config") {
        Some(text) => match text.get_text("model_type") {
            Some(model_type) => text_eq(model_type, "gemma3n") || text_eq(
                model_type,
                "gemma3n_text",
            ),
            None => false,
        },
        None => false,
    }
}

/// Which BF16 weights become half-precision ones.
#[derive(Debug, Clone, Copy, PartialEq, Eq, Structural)]
pub enum Bf16Conversion {
    Nothing,
    Everything,
    /// Everything but the MLP weights of the Gemma3n language model.
    ExceptLanguageMlp,
}

/// Which BF16 weights a machine converts: on Apple Silicon those of models that are not
/// quantized.
pub open spec fn conversion_of(
    apple_silicon: bool,
    is_quantized: bool,
    gemma3n: bool,
) -> Bf16Conversion {
    if !apple_silicon || is_quantized {
        Bf16Conversion::Nothing
    } else if gemma3n {
        Bf16Conversion::ExceptLanguageMlp
    } else {
        Bf16Conversion::Everything
    }
}

/// Which BF16 weights a machine converts.
pub fn bf16_conversion(apple_silicon: bool, quantized: bool, gemma3n: bool) -> (r: Bf16Conversion)
    ensures
        r == conversion_of(apple_silicon, quantized, gemma3n),
{
    if !apple_silicon || quantized {
        Bf16Conversion::Nothing
    } else if gemma3n {
        Bf16Conversion::ExceptLanguageMlp
    } else {
        Bf16Conversion::Everything
    }
}

/// The configuration that a transformation sees: null where there is none.
pub open spec fn seen_config(config: Option<&str>) -> JsonView {
    match config {
        None => JsonView::Null,
        Some(text) => match json_of_text(text@) {
            Some(value) => value,
            None => JsonView::Null,
        },
    }
}

/// The configuration that a transformation sees.
pub fn transform_config(config: Option<&str>) -> (r: Json)
    ensures
        r@ == seen_config(config),
{
    match read_optional_model_json(config) {
        Some(json) => json,
        None => Json::Null,
    }
}

/// The transformation that applies: an explicit one, else the active pipeline where it is
/// allowed, else none.
pub open spec fn resolved_transform<X>(
    explicit: Option<X>,
    active: Option<X>,
    allow_active: bool,
) -> Option<X> {
    if explicit is Some {
        explicit
    } else if allow_active {
        active
    } else {
        None
    }
}

/// The weights after the conversion that a machine makes.
pub open spec fn is_converted<T, C: Fn(WeightMap<T>, Bf16Conversion) -> WeightMap<T>>(
    convert: C,
    conversion: Bf16Conversion,
    before: WeightMap<T>,
    after: WeightMap<T>,
) -> bool {
    if conversion == Bf16Conversion::Nothing {
        after == before
    } else {
        call_ensures(convert, (before, conversion), after)
    }
}

/// The outcome of a transformation on weights that have their final precision.
pub open spec fn is_transformed<T, X: Fn(WeightMap<T>, &Json) -> Result<WeightMap<T>, String>>(
    transform: Option<X>,
    config: Option<&str>,
    converted: WeightMap<T>,
    r: Result<WeightMap<T>, String>,
) -> bool {
    match transform {
        None => r == Ok::<WeightMap<T>, String>(converted),
        Some(apply) => exists|document: &Json| #[trigger]
            call_ensures(apply, (converted, document), r) && document@ == seen_config(config),
    }
}

/// Finish loaded weights: first the precision of the machine, then the transformation that
/// applies. Without either the weights stay as they are.
pub fn finish_vlm_weights_common<
    T,
    C: Fn(WeightMap<T>, Bf16Conversion) -> WeightMap<T>,
    X: Fn(WeightMap<T>, &Json) -> Result<WeightMap<T>, String>,
>(
    weights: WeightMap<T>,
    config: Option<&str>,
    apple_silicon: bool,
    convert: &C,
    explicit: Option<X>,
    active: Option<X>,
    allow_active: bool,
) -> (r: Result<WeightMap<T>, String>)
    requires
        weights.wf(),
        ({
            let k = conversion_of(apple_silicon, quantized(weights@, config), of_gemma3n(config));
            &&& k != Bf16Conversion::Nothing ==> call_requires(*convert, (weights, k))
            &&& resolved_transform(explicit, active, allow_active) matches Some(apply) ==> forall|
                w: WeightMap<T>,
                j: &Json,
            |
                is_converted(*convert, k, weights, w) && j@ == seen_config(config) ==> #[trigger]
                call_requires(apply, (w, j))
        }),
    ensures
        exists|converted: WeightMap<T>|
            {
                &&& #[trigger] is_converted(
                    *convert,
                    conversion_of(apple_silicon, quantized(weights@, config), of_gemma3n(config)),
                    weights,
                    converted,
                )
                &&& is_transformed(
                    resolved_transform(explicit, active, allow_active),
                    config,
                    converted,
                    r,
                )
            },
{
    let conversion = if apple_silicon {
        let is_quantized = is_model_quantized(&weights, config);
        bf16_conversion(true, is_quantized, is_gemma3n_model(config))
    } else {
        Bf16Conversion::Nothing
    };
    let ghost before = weights;
    let converted = match conversion {
        Bf16Conversion::Nothing => weights,
        _ => convert(weights, conversion),
    };
    assert(is_converted(*convert, conversion, before, converted));
    let transform = match explicit {
        Some(apply) => Some(apply),
        None => if allow_active {
            active
        } else {
            None
        },
    };
    assert(transform == resolved_transform(explicit, active, allow_active));
    match transform {
        None => Ok(converted),
        Some(apply) => {
            let document = transform_config(config);
            apply(converted, &document)
        },
    }
}

/// Quantization of a vision configuration; 0 stands for none.
#[derive(Debug, Clone, Copy, PartialEq, Eq, Structural)]
pub struct VisionQuantization {
    pub group_size: i32,
    pub bits: i32,
}

/// An integer member as 32 bits, or a default.
pub open spec fn int_or(config: JsonView, key: Seq<char>, default: i32) -> i32 {
    match config.get(key) {
        Some(value) => match value.as_i64() {
            Some(n) => n as i32,
            None => default,
        },
        None => default,
    }
}

fn read_int_or(config: &Json, key: &str, default: i32) -> (r: i32)
    ensures
        r == int_or(config@, key@, default),
{
    match config.get(key) {
        Some(value) => match value.as_i64() {
            Some(n) => {
                #[verifier::truncate]
                let short: i32 = n as i32;
                short
            },
            None => default,
        },
        None => default,
    }
}

/// A vision configuration without a quantization takes that of the whole model.
pub fn inherit_qwen_vision_quantization(vision: VisionQuantization, full_config: &Json) -> (r:
    VisionQuantization)
    ensures
        r == (if vision.group_size == 0 || vision.bits == 0 {
            match full_config@.get("quantization"@) {
                Some(q) => VisionQuantization {
                    group_size: int_or(q, "group_size"@, 64),
                    bits: int_or(q, "bits"@, 4),
                },
                None => vision,
            }
        } else {
            vision
        }),
{
    if vision.group_size == 0 || vision.bits == 0 {
        if let Some(q) = full_config.get("quantization") {
            return VisionQuantization {
                group_size: read_int_or(q, "group_size", 64),
                bits: read_int_or(q, "bits", 4),
            };
        }
    }
    vision
}

/// The quantization that a text configuration takes over from the whole model: none where
/// it has its own.
pub fn inherit_qwen_text_quantization<'a>(has_quantization: bool, full_config: &'a Json) -> (r:
    Option<&'a Json>)
    ensures
        match r {
            Some(q) => !has_quantization && full_config@.get("quantization"@) == Some(q@),
            None => has_quantization || full_config@.get("quantization"@) is None,
        },
{
    if has_quantization {
        None
    } else {
        full_config.get("quantization")
    }
}

/// The tokens that stand for images and videos.
#[derive(Debug, Clone, Copy, PartialEq, Eq, Structural)]
pub struct QwenVisionTokenIds {
    pub image_token_id: i32,
    pub video_token_id: i32,
    pub vision_start_token_id: i32,
}

/// The tokens that a configuration states, with defaults for those that it does not.
pub fn qwen_vl_token_ids(full_config: &Json, defaults: QwenVisionTokenIds) -> (r:
    QwenVisionTokenIds)
    ensures
        r.image_token_id == int_or(full_config@, "image_token_id"@, defaults.image_token_id),
        r.video_token_id == int_or(full_config@, "video_token_id"@, defaults.video_token_id),
        r.vision_start_token_id == int_or(
            full_config@,
            "vision_start_token_id"@,
            defaults.vision_start_token_id,
        ),
{
    QwenVisionTokenIds {
        image_token_id: read_int_or(full_config, "image_token_id", defaults.image_token_id),
        video_token_id: read_int_or(full_config, "video_token_id", defaults.video_token_id),
        vision_start_token_id: read_int_or(
            full_config,
            "vision_start_token_id",
            defaults.vision_start_token_id,
        ),
    }
}

/// The default tokens of Qwen 3.5.
pub fn qwen35_vlm_token_defaults() -> (r: QwenVisionTokenIds)
    ensures
        r == (QwenVisionTokenIds {
            image_token_id: 248056,
            video_token_id: 248057,
            vision_start_token_id: 248045,
        }),
{
    QwenVisionTokenIds {
        image_token_id: 248056,
        video_token_id: 248057,
        vision_start_token_id: 248045,
    }
}

/// The text from `from` on with every `needle` replaced, left to right.
pub open spec fn replaced(s: Seq<char>, needle: Seq<char>, by: Seq<char>, from: int) -> Seq<char>
    decreases s.len() - from,
{
    if from < 0 || from >= s.len() || needle.len() == 0 {
        Seq::empty()
    } else if occurs_at(s, needle, from) {
        by + replaced(s, needle, by, from + needle.len())
    } else {
        seq![s[from]] + replaced(s, needle, by, from + 1)
    }
}

fn replace_all(s: &str, needle: &str, by: &str) -> (r: String)
    requires
        needle@.len() > 0,
    ensures
        r@ == replaced(s@, needle@, by@, 0),
{
    let n: usize = s.unicode_len();
    let k: usize = needle.unicode_len();
    let mut out: String = "".to_owned();
    proof {
        reveal_strlit("");
        assert(out@ =~= Seq::<char>::empty());
    }
    let mut i: usize = 0;
    while i < n
        invariant
            n == s@.len(),
            k == needle@.len(),
            k > 0,
            i <= n,
            replaced(s@, needle@, by@, 0) == out@ + replaced(s@, needle@, by@, i as int),
        decreases n - i,
    {
        let ghost before = out@;
        if n - i >= k && text_eq(s.substring_char(i, i + k), needle) {
            assert(occurs_at(s@, needle@, i as int));
            out = out.concat(by);
            assert(out@ + replaced(s@, needle@, by@, i + k) =~= before + replaced(
                s@,
                needle@,
                by@,
                i as int,
            ));
            i += k;
        } else {
            assert(!occurs_at(s@, needle@, i as int));
            let piece = s.substring_char(i, i + 1);
            assert(piece@ =~= seq![s@[i as int]]);
            out = out.concat(piece);
            assert(out@ + replaced(s@, needle@, by@, i + 1) =~= before + replaced(
                s@,
                needle@,
                by@,
                i as int,
            ));
            i += 1;
        }
    }
    assert(out@ + replaced(s@, needle@, by@, i as int) =~= out@);
    out
}

/// The last place of a needle, at or before `at`.
pub open spec fn last_place(s: Seq<char>, needle: Seq<char>, at: int) -> Option<int>
    decreases at + 1,
{
    if at < 0 {
        None
    } else if occurs_at(s, needle, at) {
        Some(at)
    } else {
        last_place(s, needle, at - 1)
    }
}

/// What stands behind the last occurrence of a needle.
pub open spec fn behind_last(s: Seq<char>, needle: Seq<char>) -> Option<Seq<char>> {
    match last_place(s, needle, s.len() as int) {
        Some(at) => Some(s.subrange(at + needle.len(), s.len() as int)),
        None => None,
    }
}

fn text_behind_last<'a>(s: &'a str, needle: &str) -> (r: Option<&'a str>)
    ensures
        match r {
            Some(rest) => behind_last(s@, needle@) == Some(rest@),
            None => behind_last(s@, needle@) is None,
        },
{
    let n: usize = s.unicode_len();
    let k: usize = needle.unicode_len();
    let mut at: usize = n;
    loop
        invariant
            n == s@.len(),
            k == needle@.len(),
            at <= n,
            last_place(s@, needle@, n as int) == last_place(s@, needle@, at as int),
        decreases at,
    {
        if n - at >= k && text_eq(s.substring_char(at, at + k), needle) {
            assert(occurs_at(s@, needle@, at as int));
            return Some(s.substring_char(at + k, n));
        }
        assert(!occurs_at(s@, needle@, at as int));
        if at == 0 {
            return None;
        }
        at -= 1;
    }
}

/// A name of a Qwen3-VL checkpoint under the prefixes of the loader.
pub open spec fn qwen3_base_name(key: Seq<char>) -> Seq<char> {
    if has_prefix(key, "model.language_model."@) {
        "model."@ + tail(key, "model.language_model."@.len())
    } else if has_prefix(key, "model.visual."@) {
        "vision_tower."@ + tail(key, "model.visual."@.len())
    } else if has_prefix(key, "language_model."@) {
        tail(key, "language_model."@.len())
    } else {
        key
    }
}

/// The name of a Qwen3-VL weight in the loader; the expert bank of a mixture of experts is
/// the `switch_mlp`, whose stacked tensors get a `.weight`.
pub open spec fn qwen3_name(key: Seq<char>, moe_experts: bool) -> Seq<char> {
    let base = qwen3_base_name(key);
    if moe_experts {
        match behind_last(base, ".mlp.experts."@) {
            None => base,
            Some(rest) => {
                let renamed = replaced(base, ".mlp.experts."@, ".mlp.switch_mlp."@, 0);
                if occurs(rest, "."@) {
                    renamed
                } else {
                    renamed + ".weight"@
                }
            },
        }
    } else {
        base
    }
}

/// The name of a Qwen3-VL weight in the loader.
pub fn rewrite_qwen3_vl_weight_key(key: &str, moe_experts: bool) -> (r: String)
    ensures
        r@ == qwen3_name(key@, moe_experts),
{
    let base = match strip_prefix(key, "model.language_model.") {
        Some(rest) => "model.".to_owned().concat(rest),
        None => match strip_prefix(key, "model.visual.") {
            Some(rest) => "vision_tower.".to_owned().concat(rest),
            None => match strip_prefix(key, "language_model.") {
                Some(rest) => rest.to_owned(),
                None => key.to_owned(),
            },
        },
    };
    if !moe_experts {
        return base;
    }
    let nested = match text_behind_last(base.as_str(), ".mlp.experts.") {
        Some(rest) => contains_text(rest, "."),
        None => return base,
    };
    proof {
        reveal_strlit(".mlp.experts.");
    }
    let renamed = replace_all(base.as_str(), ".mlp.experts.", ".mlp.switch_mlp.");
    if nested {
        renamed
    } else {
        renamed.concat(".weight")
    }
}

/// How the names of a checkpoint change.
#[derive(Debug, Clone, Copy, PartialEq, Eq, Structural)]
pub enum Renaming {
    /// Without a leading `language_model.`.
    Unwrapped,
    Qwen3Vl { moe_experts: bool },
}

/// A name without a leading `language_model.`.
pub open spec fn unwrapped_name(key: Seq<char>) -> Seq<char> {
    if has_prefix(key, "language_model."@) {
        tail(key, "language_model."@.len())
    } else {
        key
    }
}

/// A name under a renaming.
pub open spec fn renamed(renaming: Renaming, key: Seq<char>) -> Seq<char> {
    match renaming {
        Renaming::Unwrapped => unwrapped_name(key),
        Renaming::Qwen3Vl { moe_experts } => qwen3_name(key, moe_experts),
    }
}

fn rename(renaming: Renaming, key: &str) -> (r: String)
    ensures
        r@ == renamed(renaming, key@),
{
    match renaming {
        Renaming::Unwrapped => match strip_prefix(key, "language_model.") {
            Some(rest) => rest.to_owned(),
            None => key.to_owned(),
        },
        Renaming::Qwen3Vl { moe_experts } => rewrite_qwen3_vl_weight_key(key, moe_experts),
    }
}

/// Every weight has its new name, and a new name has the weight of a name that became it.
pub open spec fn is_renaming<T>(
    renaming: Renaming,
    before: Map<Seq<char>, T>,
    after: Map<Seq<char>, T>,
) -> bool {
    &&& forall|key: Seq<char>| #[trigger]
        before.contains_key(key) ==> after.contains_key(renamed(renaming, key))
    &&& forall|name: Seq<char>| #[trigger]
        after.contains_key(name) ==> exists|key: Seq<char>| #[trigger]
            before.contains_key(key) && renamed(renaming, key) == name && before[key]
                == after[name]
}

fn rename_weights<T>(weights: WeightMap<T>, renaming: Renaming) -> (r: WeightMap<T>)
    requires
        weights.wf(),
    ensures
        r.wf(),
        is_renaming(renaming, weights@, r@),
{
    let ghost before = weights@;
    let entries = weights.into_entries();
    let ghost list = entries@;
    let mut out: WeightMap<T> = WeightMap::new();
    for entry in it: entries
        invariant
            it.seq() == list,
            out.wf(),
            forall|i: int|
                0 <= i < list.len() ==> before.contains_key(#[trigger] list[i].0@)
                    && before[list[i].0@] == list[i].1,
            forall|i: int|
                0 <= i < it.index() ==> out@.contains_key(
                    renamed(renaming, #[trigger] list[i].0@),
                ),
            forall|name: Seq<char>| #[trigger]
                out@.contains_key(name) ==> exists|key: Seq<char>| #[trigger]
                    before.contains_key(key) && renamed(renaming, key) == name && before[key]
                        == out@[name],
    {
        let ghost prior = out@;
        let (key, weight) = entry;
        assert(before.contains_key(key@) && before[key@] == weight);
        let name = rename(renaming, key.as_str());
        let ghost new_name = name@;
        out.insert(name, weight);
        proof {
            assert forall|name: Seq<char>| #[trigger] out@.contains_key(name) implies exists|
                key: Seq<char>,
            | #[trigger]
                before.contains_key(key) && renamed(renaming, key) == name && before[key]
                    == out@[name] by {
                if name == new_name {
                    assert(before.contains_key(key@) && renamed(renaming, key@) == name);
                } else {
                    assert(prior.contains_key(name));
                }
            }
        }
    }
    proof {
        assert forall|key: Seq<char>| #[trigger] before.contains_key(key) implies out@.contains_key(
            renamed(renaming, key),
        ) by {
            let i = choose|i: int| #[trigger] has_entry(list, key, i);
            assert(list[i].0@ == key);
        }
    }
    out
}

/// The weights without a leading `language_model.`; of two names that become one, the weight
/// of either stays.
pub fn strip_language_model_prefix<T>(raw_weights: WeightMap<T>) -> (r: WeightMap<T>)
    requires
        raw_weights.wf(),
    ensures
        r.wf(),
        is_renaming(Renaming::Unwrapped, raw_weights@, r@),
{
    rename_weights(raw_weights, Renaming::Unwrapped)
}

/// The weights of a Qwen3-VL checkpoint under the names of the loader; of two names that
/// become one, the weight of either stays.
pub fn remap_qwen3_vl_weights<T>(raw_weights: WeightMap<T>, moe_experts: bool) -> (r: WeightMap<T>)
    requires
        raw_weights.wf(),
    ensures
        r.wf(),
        is_renaming(Renaming::Qwen3Vl { moe_experts }, raw_weights@, r@),
{
    rename_weights(raw_weights, Renaming::Qwen3Vl { moe_experts })
}

/// Where the renaming joins no two names, every weight is found under its new name.
pub proof fn law_renaming_keeps_weights<T>(
    renaming: Renaming,
    before: Map<Seq<char>, T>,
    after: Map<Seq<char>, T>,
    key: Seq<char>,
)
    requires
        is_renaming(renaming, before, after),
        before.contains_key(key),
        forall|other: Seq<char>| #[trigger]
            before.contains_key(other) && renamed(renaming, other) == renamed(renaming, key)
                ==> other == key,
    ensures
        after.contains_key(renamed(renaming, key)),
        after[renamed(renaming, key)] == before[key],
{
    let name = renamed(renaming, key);
    assert(after.contains_key(name));
    let other = choose|other: Seq<char>| #[trigger]
        before.contains_key(other) && renamed(renaming, other) == name && before[other]
            == after[name];
    assert(other == key);
}

} // verus!
