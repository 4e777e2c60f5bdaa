use rakukan::gpu::{choose_backend, has_nvidia_gpu, select_forced, Backend, GpuInfo};
use rakukan::kanji::{
    Backend as ModelBackend,
    beam_texts, build_jinen_prompt, clean_model_output, generation_budget, greedy_candidates,
    trim_output_repetition,
};

#[test]
fn test_backend_display() {
    assert_eq!(Backend::Cuda.to_string(), "CUDA");
    assert_eq!(Backend::Vulkan.to_string(), "Vulkan");
    assert_eq!(Backend::Cpu.to_string(), "CPU");
}

#[test]
fn generation_budget_grows_with_reading_length() {
    assert_eq!(generation_budget("かな", 15), 15);
    assert_eq!(generation_budget("これはながめのへんかんぶんです", 15), 38);
}

#[test]
fn generation_budget_is_capped() {
    let long = "あ".repeat(200);
    assert_eq!(generation_budget(&long, 15), 256);
    assert_eq!(generation_budget("", 300), 256);
}

#[test]
fn forced_backend_names() {
    assert_eq!(select_forced("cuda").backend, Backend::Cuda);
    assert_eq!(select_forced("CUDA").backend, Backend::Cuda);
    assert_eq!(select_forced("Vulkan").backend, Backend::Vulkan);
    assert_eq!(select_forced("cpu").backend, Backend::Cpu);
    assert_eq!(select_forced("unknown_backend").backend, Backend::Cpu);
    assert_eq!(
        select_forced("cuda").reason,
        "環境変数 RAKUKAN_BACKEND='cuda' で指定"
    );
}

#[test]
fn detected_backend_order() {
    let nvidia = vec![GpuInfo { name: "NVIDIA GeForce RTX 4070".into(), vram_mb: None }];
    let amd = vec![GpuInfo { name: "AMD Radeon".into(), vram_mb: None }];
    assert!(has_nvidia_gpu(&nvidia));
    assert!(!has_nvidia_gpu(&amd));
    assert_eq!(choose_backend(nvidia.clone(), true, true, true).backend, Backend::Cuda);
    assert_eq!(choose_backend(nvidia.clone(), true, false, true).backend, Backend::Vulkan);
    assert_eq!(choose_backend(amd.clone(), true, true, false).backend, Backend::Cpu);
    assert_eq!(choose_backend(amd, false, false, true).backend, Backend::Vulkan);
}

#[test]
fn prompt_in_jinen_form() {
    assert_eq!(
        build_jinen_prompt("カナ", "前", ""),
        "\u{EE02}前\u{EE00}カナ\u{EE01}"
    );
}

#[test]
fn furigana_in_kana_brackets_is_dropped() {
    assert_eq!(clean_model_output("  健診(けんしん)や "), "健診や");
    assert_eq!(clean_model_output("検査（ケンサ）"), "検査");
    assert_eq!(clean_model_output("面白い(笑)"), "面白い(笑)");
    assert_eq!(clean_model_output("空()"), "空()");
}

#[test]
fn repeated_tails_are_trimmed() {
    assert_eq!(trim_output_repetition(3, "東京東京東京"), "東京");
    assert_eq!(trim_output_repetition(10, "東京東京"), "東京東京");
    assert_eq!(trim_output_repetition(2, "abc"), "abc");
}

#[test]
fn greedy_output_falls_back_to_reading() {
    assert_eq!(greedy_candidates("にほん", "日本", false), vec!["日本"]);
    assert_eq!(greedy_candidates("にほんごのぶんしょう", "日", false), vec!["にほんごのぶんしょう"]);
    assert_eq!(greedy_candidates("にほんごのぶんしょう", "日", true), vec!["日"]);
    assert_eq!(greedy_candidates("にほん", "  ", false), vec!["にほん"]);
}

#[test]
fn beam_outputs_are_cleaned_and_deduplicated() {
    let decoded = vec!["日本".to_string(), " 日本 ".to_string(), "".to_string(), "二本".to_string()];
    let kept = beam_texts("にほん", &decoded, false);
    assert_eq!(kept, vec![("日本".to_string(), 0), ("二本".to_string(), 3)]);
}

#[test]
fn test_env_override_cuda() {
    let selection = select_forced("cuda");
    assert_eq!(selection.backend, Backend::Cuda);
}

#[test]
fn test_env_override_cpu() {
    let selection = select_forced("cpu");
    assert_eq!(selection.backend, Backend::Cpu);
}

#[test]
fn test_env_override_unknown_falls_back_to_cpu() {
    let selection = select_forced("unknown_backend");
    assert_eq!(selection.backend, Backend::Cpu);
}

#[test]
fn model_backend_builder() {
    let b = ModelBackend::from_variant_files("m.gguf", "tok.json", "jinen-v1-small-q5")
        .with_n_gpu_layers(16)
        .with_main_gpu(1);
    assert_eq!(b.gguf_path(), "m.gguf");
    assert_eq!(b.tokenizer_json_path(), "tok.json");
    assert_eq!(b.display_name(), "jinen-v1-small-q5");
    assert_eq!((b.n_gpu_layers, b.main_gpu), (16, 1));
    let cpu = ModelBackend::from_variant_files("m.gguf", "tok.json", "x");
    assert_eq!((cpu.n_gpu_layers, cpu.main_gpu), (0, 0));
}

#[test]
fn trimming_keeps_a_prefix_without_a_repeated_tail() {
    assert_eq!(trim_output_repetition(2, "漢字字字"), "漢字");
    assert_eq!(trim_output_repetition(1, "abab"), "ab");
}
