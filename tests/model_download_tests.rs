use live_transcribe::model_download::{
    download_url, encoder_archive_filename, encoder_dirname, model_filename, wants_coreml_encoder,
    ModelDownloader,
};
use std::path::PathBuf;

#[test]
fn catalogue_lists_eight_models() {
    let models = ModelDownloader::list_available_models();
    assert_eq!(models.len(), 8);
    assert_eq!(models[0], ("tiny.en", "~75MB", "Fastest, good quality"));
    assert_eq!(models[7].0, "medium");
}

#[test]
fn downloader_keeps_its_directory() {
    let d = ModelDownloader::new(PathBuf::from("/tmp/models"));
    assert_eq!(d.models_dir(), &PathBuf::from("/tmp/models"));
}

#[test]
fn file_names_and_urls() {
    assert_eq!(model_filename("base.en"), "ggml-base.en.bin");
    assert_eq!(encoder_dirname("base.en"), "ggml-base.en-encoder.mlmodelc");
    assert_eq!(encoder_archive_filename("tiny.en"), "ggml-tiny.en-encoder.mlmodelc.zip");
    assert_eq!(
        download_url("ggml-small.bin"),
        "https://huggingface.co/ggerganov/whisper.cpp/resolve/main/ggml-small.bin"
    );
}

#[test]
fn english_models_want_an_encoder() {
    assert!(wants_coreml_encoder("small.en"));
    assert!(wants_coreml_encoder(".en"));
    assert!(!wants_coreml_encoder("small"));
    assert!(!wants_coreml_encoder("en"));
}
