//! The catalogue of speech models and the names and addresses of their
//! files. Fetching and unpacking the files happens outside.

use std::path::PathBuf;
use vstd::prelude::*;
use vstd::string::*;
use crate::text::chars_of;

verus! {

#[verifier::external_type_specification]
#[verifier::external_body]
pub struct ExPathBuf(PathBuf);

/// Where the model files are downloaded from.
pub const BASE_URL: &'static str = "https://huggingface.co/ggerganov/whisper.cpp/resolve/main";

/// Knows where the models live.
pub struct ModelDownloader {
    models_dir: PathBuf,
}

impl ModelDownloader {
    /// A downloader that keeps models in `models_dir`.
    pub fn new(models_dir: PathBuf) -> (d: Self)
        ensures
            d.models_dir_spec() == models_dir,
    {
        ModelDownloader { models_dir }
    }

    /// The directory the models live in.
    pub closed spec fn models_dir_spec(&self) -> PathBuf {
        self.models_dir
    }

    /// The directory the models live in.
    pub fn models_dir(&self) -> (r: &PathBuf)
        ensures
            *r == self.models_dir_spec(),
    {
        &self.models_dir
    }

    /// The models on offer: name, download size and description.
    pub fn list_available_models() -> (r: Vec<(&'static str, &'static str, &'static str)>)
        ensures
            r@.len() == 8,
            r@.map_values(|m: (&'static str, &'static str, &'static str)| m.0@) == model_names(),
    {
        let r = vec![
            ("tiny.en", "~75MB", "Fastest, good quality"),
            ("base.en", "~142MB", "Recommended - best balance"),
            ("small.en", "~466MB", "Better quality, slower"),
            ("medium.en", "~1.5GB", "Highest quality, slowest"),
            ("tiny", "~75MB", "Multilingual, fastest"),
            ("base", "~142MB", "Multilingual, balanced"),
            ("small", "~466MB", "Multilingual, better quality"),
            ("medium", "~1.5GB", "Multilingual, high quality"),
        ];
        assert(r@.map_values(|m: (&'static str, &'static str, &'static str)| m.0@) =~= model_names());
        r
    }
}

/// The names of the models on offer, in catalogue order.
pub open spec fn model_names() -> Seq<Seq<char>> {
    seq![
        "tiny.en"@,
        "base.en"@,
        "small.en"@,
        "medium.en"@,
        "tiny"@,
        "base"@,
        "small"@,
        "medium"@,
    ]
}

/// The file that holds model `model_name`: `ggml-<name>.bin`.
pub fn model_filename(model_name: &str) -> (r: String)
    ensures
        r@ == "ggml-"@ + model_name@ + ".bin"@,
{
    String::from_str("ggml-").concat(model_name).concat(".bin")
}

/// The directory of the Core ML encoder of `model_name`:
/// `ggml-<name>-encoder.mlmodelc`.
pub fn encoder_dirname(model_name: &str) -> (r: String)
    ensures
        r@ == "ggml-"@ + model_name@ + "-encoder.mlmodelc"@,
{
    String::from_str("ggml-").concat(model_name).concat("-encoder.mlmodelc")
}

/// The archive of the Core ML encoder of `model_name`:
/// `ggml-<name>-encoder.mlmodelc.zip`.
pub fn encoder_archive_filename(model_name: &str) -> (r: String)
    ensures
        r@ == "ggml-"@ + model_name@ + "-encoder.mlmodelc.zip"@,
{
    String::from_str("ggml-").concat(model_name).concat("-encoder.mlmodelc.zip")
}

/// The address of `filename` on the model server.
pub fn download_url(filename: &str) -> (r: String)
    ensures
        r@ == BASE_URL@ + "/"@ + filename@,
{
    String::from_str(BASE_URL).concat("/").concat(filename)
}

/// English-only models (names ending in `.en`) come with a Core ML encoder.
pub fn wants_coreml_encoder(model_name: &str) -> (r: bool)
    ensures
        r == (model_name@.len() >= 3 && model_name@.skip(model_name@.len() - 3) == ".en"@),
{
    proof {
        reveal_strlit(".en");
    }
    let c = chars_of(model_name);
    let n = c.len();
    if n < 3 {
        return false;
    }
    let r = c[n - 3] == '.' && c[n - 2] == 'e' && c[n - 1] == 'n';
    proof {
        let t = model_name@.skip(n - 3);
        assert(t[0] == c@[n - 3] && t[1] == c@[n - 2] && t[2] == c@[n - 1]);
        if r {
            assert(t =~= ".en"@);
        } else if t == ".en"@ {
            assert(t[0] == '.' && t[1] == 'e' && t[2] == 'n');
        }
    }
    r
}

} // verus!
