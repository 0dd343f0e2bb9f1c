//! Verified core of an ahead-of-time XLA inference backend: model configuration,
//! checkpoint layout, weight conversion, multimodal input preparation, and the
//! decisions of the token loop.
// Text, numbers and documents.
pub mod text;
pub mod paths;
pub mod text_laws;
pub mod problem;
pub mod double;
pub mod halves;
pub mod json;
// Model configuration.
pub mod config;
pub mod config_messages;
pub mod config_json;
pub mod config_laws;
pub mod molmo2_config;
pub mod molmo2_laws;
// Checkpoints and weights.
pub mod weight_names;
pub mod weight_specs;
pub mod weight_order;
pub mod affine;
pub mod affine_laws;
pub mod shards;
pub mod shard_laws;
pub mod tensors;
pub mod loader;
pub mod loader_laws;
pub mod checkpoint;
pub mod weight_loading;
pub mod weight_map;
pub mod vlm;
pub mod special_keys;
pub mod rename_laws;
// Tensor programs.
pub mod graph;
pub mod vision_graph;
pub mod graph_text;
pub mod graph_text_laws;
pub mod graph_types;
pub mod graph_values;
pub mod vision_values;
// Engines and the token loop.
pub mod runtime;
pub mod runtime_laws;
pub mod bundle;
pub mod engine;
pub mod ragged;
pub mod session;
pub mod engine_laws;
// Images.
pub mod molmo2;
pub mod vision_input;
pub mod vision_output;
pub mod vision_weights;
pub mod image_laws;
