use rust_edge_compute::error::EdgeComputeError;
use rust_edge_compute::ml::{
    AudioPreprocessingConfig, AudioPreprocessor, CandleMlExecutor, CandleMlExecutorConfig, DeviceManager,
    DeviceManagerConfig, DeviceType, ImageClassificationParams, ImagePreprocessor, InferenceKind, ModelCacheConfig,
    ModelManager, ModelType, MultimodalParams, Postprocessor, SpeechRecognitionParams, TextGenerationParams,
    TextPreprocessor, model_name_from,
};
use rust_edge_compute::types::HealthStatus;

fn cpu_manager() -> DeviceManager {
    DeviceManager::new(DeviceManagerConfig::default())
}

#[test]
fn test_audio_preprocessing_config() {
    let config = AudioPreprocessingConfig::default();
    assert_eq!(config.target_sample_rate, 16000);
    assert!(config.normalize);
}

#[test]
fn audio_defaults_describe_the_mel_spectrogram() {
    let config = AudioPreprocessingConfig::default();
    assert!(config.convert_to_mel);
    assert_eq!((config.n_mels, config.n_fft, config.hop_length), (80, 400, 160));
}

#[test]
fn test_device_manager_creation() {
    let manager = cpu_manager();
    let devices = manager.list_devices();
    assert!(!devices.is_empty());
    assert_eq!(devices[0].name, "CPU");
    assert!(devices[0].available);
}

#[test]
fn test_device_manager_default_device() {
    let manager = cpu_manager();
    let device = manager.get_default_device().unwrap();
    assert!(matches!(device, candle_core::Device::Cpu));
}

#[test]
fn test_device_manager_select_best() {
    let manager = cpu_manager();
    assert!(manager.select_best_device().is_ok());
}

#[test]
fn gpu_devices_are_refused() {
    match DeviceType::Cuda(0).to_candle_device() {
        Err(EdgeComputeError::Config { message, source }) => {
            assert_eq!(message, "CUDA support not enabled");
            assert_eq!(source, Some("candle-ml".to_string()));
        }
        other => panic!("unexpected {:?}", other.is_ok()),
    }
    match DeviceType::Metal(1).to_candle_device() {
        Err(EdgeComputeError::Config { message, .. }) => assert_eq!(message, "Metal support not enabled"),
        other => panic!("unexpected {:?}", other.is_ok()),
    }
    let config = DeviceManagerConfig { default_device: DeviceType::Cuda(0), ..DeviceManagerConfig::default() };
    assert!(DeviceManager::new(config).select_best_device().is_err());
}

#[test]
fn device_usage_round_trip() {
    let mut manager = cpu_manager();
    assert_eq!(manager.get_device_usage("cpu"), 0);
    manager.increment_device_usage("cpu");
    manager.increment_device_usage("cpu");
    assert_eq!(manager.get_device_usage("cpu"), 2);
    manager.decrement_device_usage("cpu");
    manager.decrement_device_usage("cpu");
    assert_eq!(manager.get_device_usage("cpu"), 0);
    manager.decrement_device_usage("cpu");
    assert_eq!(manager.get_device_usage("cpu"), 0);
    assert!(manager.get_device_info("cpu").is_some());
    assert!(manager.get_device_info("gpu").is_none());
}

#[test]
fn test_model_manager_creation() {
    let manager = ModelManager::new(ModelCacheConfig::default());
    let stats = manager.get_stats();
    assert_eq!(stats.total_models, 0);
    assert_eq!(stats.total_usage, 0);
}

#[test]
fn test_model_manager_load_model() {
    let devices = cpu_manager();
    let mut manager = ModelManager::new(ModelCacheConfig::default());
    manager
        .load_model(&devices, "test-model".to_string(), "./models/test_model.bin".to_string(), ModelType::TextGeneration, true, 10)
        .unwrap();
    let listed = manager.list_models();
    assert_eq!(listed.len(), 1);
    assert_eq!(listed[0].model_name, "test_model.bin");
    assert_eq!(listed[0].device, DeviceType::Cpu);
    assert_eq!(listed[0].usage_count, 0);
}

#[test]
fn missing_model_file_is_an_io_error() {
    let devices = cpu_manager();
    let mut manager = ModelManager::new(ModelCacheConfig::default());
    match manager.load_model(&devices, "m".to_string(), "/nope/m.bin".to_string(), ModelType::Multimodal, false, 0) {
        Err(EdgeComputeError::Io { message, operation, path }) => {
            assert_eq!(message, "Model file not found: \"/nope/m.bin\"");
            assert_eq!(operation, Some("load_model".to_string()));
            assert_eq!(path, Some("/nope/m.bin".to_string()));
        }
        other => panic!("unexpected {:?}", other),
    }
    assert_eq!(manager.get_stats().total_models, 0);
}

#[test]
fn full_cache_drops_the_least_recently_used_model() {
    let devices = cpu_manager();
    let config = ModelCacheConfig { max_cached_models: 2, ..ModelCacheConfig::default() };
    let mut manager = ModelManager::new(config);
    manager.load_model(&devices, "a".to_string(), "a.pt".to_string(), ModelType::TextGeneration, true, 1).unwrap();
    manager.load_model(&devices, "b".to_string(), "b.pt".to_string(), ModelType::TextGeneration, true, 2).unwrap();
    let used = manager.get_model("a", 3).unwrap();
    assert_eq!(used.usage_count, 1);
    assert_eq!(used.last_used_ms, 3);
    manager.load_model(&devices, "c".to_string(), "c.pt".to_string(), ModelType::SpeechRecognition, true, 4).unwrap();
    assert!(manager.get_model("b", 5).is_none());
    assert!(manager.get_model("a", 5).is_some());
    assert!(manager.get_model("c", 5).is_some());
}

#[test]
fn expired_models_are_swept() {
    let devices = cpu_manager();
    let config = ModelCacheConfig { model_ttl_seconds: 10, ..ModelCacheConfig::default() };
    let mut manager = ModelManager::new(config);
    manager.load_model(&devices, "old".to_string(), "old.onnx".to_string(), ModelType::Multimodal, true, 0).unwrap();
    manager.load_model(&devices, "new".to_string(), "new.onnx".to_string(), ModelType::Multimodal, true, 5000).unwrap();
    manager.cleanup_expired_models(10_000);
    assert_eq!(manager.get_stats().total_models, 2);
    manager.cleanup_expired_models(10_001);
    assert_eq!(manager.get_stats().total_models, 1);
    assert!(manager.get_model("new", 10_002).is_some());
}

#[test]
fn stats_count_usage_and_types() {
    let devices = cpu_manager();
    let mut manager = ModelManager::new(ModelCacheConfig::default());
    manager.load_model(&devices, "x".to_string(), "x.pt".to_string(), ModelType::TextGeneration, true, 0).unwrap();
    manager.load_model(&devices, "y".to_string(), "y.pt".to_string(), ModelType::TextGeneration, true, 0).unwrap();
    manager.load_model(&devices, "z".to_string(), "z.pt".to_string(), ModelType::Other("custom".to_string()), true, 0).unwrap();
    manager.get_model("x", 1);
    manager.get_model("x", 2);
    manager.get_model("z", 3);
    let stats = manager.get_stats();
    assert_eq!(stats.total_models, 3);
    assert_eq!(stats.total_usage, 3);
    assert_eq!(stats.models_by_type.get("text_generation"), Some(&2));
    assert_eq!(stats.models_by_type.get("custom"), Some(&1));
    assert_eq!(stats.models_by_type.get("multimodal"), None);
    assert!(manager.unload_model("x").is_ok());
    assert_eq!(manager.get_stats().total_models, 2);
}

#[test]
fn model_names_fall_back_to_unknown() {
    assert_eq!(model_name_from(Some("m.bin".to_string())), "m.bin");
    assert_eq!(model_name_from(None), "unknown");
}

#[test]
fn image_preparation_sizes() {
    let img = ImagePreprocessor::decode_image(&[1, 2, 3], "jpg");
    assert_eq!(img.len(), 224 * 224 * 3);
    assert!(img.iter().all(|&b| b == 0));
    assert_eq!(ImagePreprocessor::resize_image(&img, 2, 3).len(), 18);
    assert_eq!(ImagePreprocessor::convert_to_rgb(&[9, 8, 7]), vec![9, 8, 7]);
}

#[test]
fn pcm_samples_are_little_endian() {
    let samples = AudioPreprocessor::decode_pcm16(&[0x01, 0x00, 0xff, 0xff, 0x00, 0x80, 0x34, 0x12, 0x07]);
    assert_eq!(samples, vec![1, -1, -32768, 0x1234]);
    assert_eq!(AudioPreprocessor::mel_frame_count(16000, 160), 100);
    assert_eq!(AudioPreprocessor::mel_frame_count(16001, 160), 101);
    assert_eq!(AudioPreprocessor::mel_frame_count(0, 160), 0);
}

#[test]
fn text_tokens_are_cut_and_padded() {
    assert_eq!(TextPreprocessor::token_ids("Hi", Some(4)), vec![72, 105, 0, 0]);
    assert_eq!(TextPreprocessor::token_ids("Hello", Some(3)), vec![72, 101, 108]);
    assert_eq!(TextPreprocessor::token_ids("", None).len(), 512);
}

#[test]
fn test_text_preprocessing() {
    let device = candle_core::Device::Cpu;
    let result = TextPreprocessor::preprocess("Hello, world!", Some(10), &device);
    assert!(result.is_ok());
    let t = result.unwrap();
    assert_eq!(t.dims(), &[1, 10]);
}

#[test]
fn tokens_decode_through_the_vocabulary() {
    let vocab = vec!["he".to_string(), "llo".to_string(), " ".to_string()];
    assert_eq!(Postprocessor::decode_tokens(&vec![0, 1, 7, 2], &vocab), "hello ");
    let t = candle_core::Tensor::from_slice(&[1u32, 0], (2,), &candle_core::Device::Cpu).unwrap();
    assert_eq!(Postprocessor::decode_text_generation(&t, &vocab).unwrap(), "llohe");
    let bad = candle_core::Tensor::from_slice(&[1u32, 0], (1, 2), &candle_core::Device::Cpu).unwrap();
    let err = Postprocessor::decode_text_generation(&bad, &vocab).unwrap_err();
    assert!(err.0.starts_with("Candle error: "));
}

#[test]
fn class_labels_fall_back_to_numbers() {
    let names = vec!["cat".to_string(), "dog".to_string()];
    assert_eq!(Postprocessor::class_label(&names, 1), "dog");
    assert_eq!(Postprocessor::class_label(&names, 12), "class_12");
}

#[test]
fn test_candle_ml_executor_creation() {
    let executor = CandleMlExecutor::new().unwrap();
    assert_eq!(executor.name(), "candle-ml");
    assert_eq!(executor.version(), "1.0.0");
    assert_eq!(executor.supported_algorithms(), vec!["llama", "yolo", "whisper", "bert"]);
    let config = CandleMlExecutorConfig::default();
    assert_eq!(config.max_concurrent_inferences, 5);
    assert_eq!(config.inference_timeout_ms, 60000);
}

#[test]
fn test_candle_ml_executor_execute() {
    let executor = CandleMlExecutor::new().unwrap();
    let response = executor.route("unsupported");
    assert!(response.is_err());
    assert_eq!(response.unwrap_err().0, "Unsupported algorithm: unsupported");
    assert_eq!(executor.route("whisper").unwrap(), InferenceKind::SpeechRecognition);
}

#[test]
fn test_candle_ml_executor_health_check() {
    let executor = CandleMlExecutor::new().unwrap();
    assert_eq!(executor.health_check(), HealthStatus::Healthy);
}

#[test]
fn inferences_are_admitted_up_to_the_limit() {
    let config = CandleMlExecutorConfig { max_concurrent_inferences: 1, ..CandleMlExecutorConfig::default() };
    let mut executor = CandleMlExecutor::with_config(config).unwrap();
    assert!(executor.begin_inference().is_ok());
    let refused = executor.begin_inference().unwrap_err();
    assert_eq!(refused.0, "Max concurrent inferences limit: 1");
    executor.finish_inference(false, 12);
    let stats = executor.get_inference_stats();
    assert_eq!(stats.total_inferences, 1);
    assert_eq!(stats.failed_inferences, 1);
    assert_eq!(stats.total_inference_time_ms, 12);
    assert_eq!(executor.get_active_inferences_count(), 0);
    assert_eq!(executor.find_model("default-llama", 0).unwrap_err().0, "Model not found: default-llama");
}

#[test]
fn inference_parameters_have_defaults() {
    let p = TextGenerationParams::from_fields(None, Some("hi".to_string()), Some(7)).unwrap();
    assert_eq!(p.model_id, "default-llama");
    assert_eq!(p.max_tokens, Some(7));
    assert_eq!(TextGenerationParams::from_fields(None, None, None).unwrap_err().0, "Missing 'prompt' parameter");
    let img = ImageClassificationParams::from_fields(None, Some("AQID".to_string()), None).unwrap();
    assert_eq!(img.image_data, vec![1, 2, 3]);
    assert_eq!(img.image_format, "jpg");
    assert_eq!(img.model_id, "default-yolo");
    assert_eq!(
        ImageClassificationParams::from_fields(None, Some("***".to_string()), None).unwrap_err().0,
        "Missing or invalid 'image_data' parameter (base64 encoded)"
    );
    let sp = SpeechRecognitionParams::from_fields(Some("w".to_string()), Some("AA==".to_string()), None).unwrap();
    assert_eq!(sp.sample_rate, 16000);
    assert_eq!(sp.audio_data, vec![0]);
    assert!(SpeechRecognitionParams::from_fields(None, None, Some(8000)).is_err());
    let mm = MultimodalParams::from_fields(None, Some("t".to_string()), Some("bad!".to_string()), Some("AQ==".to_string()));
    assert_eq!(mm.model_id, "default-bert");
    assert_eq!(mm.image_input, None);
    assert_eq!(mm.audio_input, Some(vec![1]));
}
