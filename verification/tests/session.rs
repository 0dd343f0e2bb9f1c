use mlxcel_xla::config::DEFAULT_CONTEXT_CAPACITY;
use mlxcel_xla::session::{
    check_prefill_length, contains_token, default_device, llava_diagnostic_device_memory_note,
    read_eos, validate_request_capacity, CacheCursor, DeepStackPreparedPrefill,
    Gemma3nPreparedPrefill, GreedyAction, GreedyRun, PreparedPrefill, SessionCapabilities,
    XlaInferenceSession, NOT_WIRED,
};

fn session() -> XlaInferenceSession {
    XlaInferenceSession::load("/tmp/xla-model", 16, None).unwrap()
}

fn prepared() -> PreparedPrefill {
    PreparedPrefill { sequence_len: 1 }
}

#[test]
fn capabilities_are_single_sequence() {
    let c = session().capabilities();
    assert!(!c.batched_serving);
    assert!(!c.paged_kv);
    assert!(!c.speculative_decode);
    assert!(!c.multimodal);
}

#[test]
fn load_records_inputs() {
    let s = session();
    assert_eq!(s.num_layers(), 16);
    assert_eq!(s.model_path(), "/tmp/xla-model");
    assert_eq!(s.context_capacity(), DEFAULT_CONTEXT_CAPACITY);
}

#[test]
fn explicit_context_capacity_is_recorded_and_validated() {
    let s = XlaInferenceSession::load_with_context_capacity("/tmp/xla-model", 16, 1024).unwrap();
    assert_eq!(s.context_capacity(), 1024);
    assert!(XlaInferenceSession::load_with_context_capacity("/tmp/xla-model", 16, 0).is_err());
}

#[test]
fn token_primitives_report_not_wired() {
    let mut s = session();
    assert_eq!(s.prefill(&[1, 2, 3]).unwrap_err(), NOT_WIRED);
    assert_eq!(s.prefill_prepared(&prepared()).unwrap_err(), NOT_WIRED);
    assert_eq!(s.decode_step(1).unwrap_err(), NOT_WIRED);
}

#[test]
fn greedy_surfaces_the_stub_error_not_a_panic() {
    let mut s = session();
    assert_eq!(s.generate_greedy(&[1, 2, 3], 8, &[2]).unwrap_err(), NOT_WIRED);
    assert_eq!(s.generate_prepared_greedy(&prepared(), 8, &[2]).unwrap_err(), NOT_WIRED);
}

#[test]
fn greedy_rejects_context_overflow_before_the_unwired_backend() {
    let mut s = XlaInferenceSession::load_with_context_capacity("/tmp/xla-model", 16, 8).unwrap();
    let err = s.generate_greedy(&[1, 2, 3, 4, 5], 4, &[2]).unwrap_err();
    assert!(err.contains("effective_prompt_len=5"));
    assert!(err.contains("max_new_tokens=4"));
    assert!(err.contains("context_capacity=8"));
}

#[test]
fn empty_prompt_is_rejected() {
    let mut s = session();
    assert!(s.generate_greedy(&[], 8, &[2]).is_err());
}

#[test]
fn default_device_is_metal_on_apple_silicon_else_cpu() {
    assert_eq!(default_device(true), "metal");
    assert_eq!(default_device(false), "local-task");
}

#[test]
fn llava_device_memory_note_does_not_label_cpu_as_cuda() {
    assert!(llava_diagnostic_device_memory_note("cuda").contains("GB10"));
    assert!(!llava_diagnostic_device_memory_note("local-sync").contains("CUDA"));
    assert!(!llava_diagnostic_device_memory_note("local-task").contains("GB10"));
}

#[test]
fn eos_tokens_are_read_from_a_number_or_a_list() {
    assert_eq!(read_eos(Some(r#"{"eos_token_id": 7}"#)), vec![7]);
    assert_eq!(read_eos(Some(r#"{"eos_token_id": [7, 128009]}"#)), vec![7, 128009]);
    assert!(read_eos(Some(r#"{"eos_token_id": "x"}"#)).is_empty());
    assert!(read_eos(Some("{")).is_empty());
    assert!(read_eos(None).is_empty());
    assert!(contains_token(&[7, 9], 9));
    assert!(!contains_token(&[7, 9], 8));
}

#[test]
fn requests_fit_when_prompt_and_budget_fit() {
    assert!(validate_request_capacity(5, 3, 8).is_ok());
    assert!(validate_request_capacity(5, 4, 8).is_err());
    assert!(validate_request_capacity(usize::MAX, 1, 8).is_err());
    assert!(check_prefill_length(8, 8).is_ok());
    assert!(check_prefill_length(9, 8).is_err());
}

#[test]
fn a_token_run_seeds_then_decodes_consecutive_positions_until_eos() {
    let mut run = GreedyRun::from_tokens(&[5, 6, 7], 4, &[2], 16).unwrap();
    assert!(matches!(run.action(16), GreedyAction::Seed { len: 2 }));
    run.on_seeded(16);
    assert!(matches!(run.action(16), GreedyAction::Decode { token: 7, position: 2 }));
    run.on_token(9, true, 16);
    assert!(matches!(run.action(16), GreedyAction::Decode { token: 9, position: 3 }));
    run.on_token(2, true, 16);
    assert!(matches!(run.action(16), GreedyAction::Done));
    assert_eq!(run.out, vec![9, 2]);
}

#[test]
fn a_prepared_run_takes_its_first_token_from_the_seed() {
    let mut run = GreedyRun::from_prepared(3, 2, &[2], 16).unwrap();
    assert!(matches!(run.action(16), GreedyAction::SeedPrepared));
    run.on_token(9, true, 16);
    assert!(matches!(run.action(16), GreedyAction::Decode { token: 9, position: 3 }));
    run.on_token(8, true, 16);
    assert!(matches!(run.action(16), GreedyAction::Done));
    assert_eq!(run.out, vec![9, 8]);
}

#[test]
fn a_callback_can_stop_a_run() {
    let mut run = GreedyRun::from_prepared(3, 5, &[2], 16).unwrap();
    run.on_token(9, false, 16);
    assert!(matches!(run.action(16), GreedyAction::Done));
}

#[test]
fn the_cache_cursor_stays_below_the_capacity() {
    let mut cursor = CacheCursor { cache_len: 0, context_capacity: 2 };
    cursor.seed(1, "too long").unwrap();
    assert_eq!(cursor.decode_position(), Ok(1));
    cursor.advance();
    assert!(cursor.decode_position().is_err());
    assert_eq!(cursor.seed(i32::MAX as usize + 1, "too long").unwrap_err(), "too long");
    assert_eq!(cursor.cache_len, 2);
}

#[test]
fn prepared_prompts_of_all_kinds_are_not_wired() {
    let mut s = session();
    let gemma = Gemma3nPreparedPrefill { prepared: prepared() };
    let stack = DeepStackPreparedPrefill { prepared: prepared() };
    assert_eq!(s.prefill_gemma3n_prepared(&gemma).unwrap_err(), NOT_WIRED);
    assert_eq!(s.prefill_deepstack_prepared(&stack).unwrap_err(), NOT_WIRED);
    assert_eq!(s.generate_gemma3n_prepared_greedy(&gemma, 4, &[2]).unwrap_err(), NOT_WIRED);
    assert_eq!(s.generate_deepstack_prepared_greedy(&stack, 4, &[2]).unwrap_err(), NOT_WIRED);
    assert!(SessionCapabilities::single_sequence().with_multimodal().multimodal);
}
