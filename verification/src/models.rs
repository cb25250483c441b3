//! Catalog of downloadable whisper.cpp (GGML) models.
//!
//! All URLs point at ggerganov/whisper.cpp's official converted checkpoints
//! on Hugging Face. Sizes are approximate download sizes used for progress UI.

use crate::text::{concat3, ends_with, first_where, lemma_first_where_is, lemma_first_where_none,
    starts_with, str_eq};
use vstd::prelude::*;

verus! {

#[derive(Debug, Clone, PartialEq)]
pub struct ModelInfo {
    /// On-disk filename, e.g. "ggml-base.en.bin". Also the settings key.
    pub file: String,
    pub label: String,
    pub description: String,
    pub size_mb: u64,
    /// English-only models are faster/more accurate for English speech.
    pub english_only: bool,
    pub recommended: bool,
    pub url: String,
}

pub const HF_BASE: &'static str = "https://huggingface.co/ggerganov/whisper.cpp/resolve/main";

/// Number of models in the catalog.
pub open spec fn catalog_len() -> nat {
    9
}

pub open spec fn catalog_file(i: int) -> Seq<char> {
    if i == 0 {
        "ggml-tiny.en.bin"@
    } else if i == 1 {
        "ggml-tiny.bin"@
    } else if i == 2 {
        "ggml-base.en.bin"@
    } else if i == 3 {
        "ggml-base.bin"@
    } else if i == 4 {
        "ggml-small.en.bin"@
    } else if i == 5 {
        "ggml-small.bin"@
    } else if i == 6 {
        "ggml-medium.en.bin"@
    } else if i == 7 {
        "ggml-large-v3-turbo.bin"@
    } else {
        "ggml-large-v3-turbo-q5_0.bin"@
    }
}

pub open spec fn catalog_label(i: int) -> Seq<char> {
    if i == 0 {
        "Tiny (English)"@
    } else if i == 1 {
        "Tiny (Multilingual)"@
    } else if i == 2 {
        "Base (English)"@
    } else if i == 3 {
        "Base (Multilingual)"@
    } else if i == 4 {
        "Small (English)"@
    } else if i == 5 {
        "Small (Multilingual)"@
    } else if i == 6 {
        "Medium (English)"@
    } else if i == 7 {
        "Large v3 Turbo"@
    } else {
        "Large v3 Turbo (Q5 quantized)"@
    }
}

pub open spec fn catalog_description(i: int) -> Seq<char> {
    if i == 0 {
        "Fastest, lowest accuracy. Good for older CPUs or instant partial results."@
    } else if i == 1 {
        "Fastest multilingual option."@
    } else if i == 2 {
        "Great speed/accuracy balance for English dictation on any modern machine."@
    } else if i == 3 {
        "Balanced multilingual model."@
    } else if i == 4 {
        "Noticeably better accuracy; still real-time on Apple Silicon and recent CPUs."@
    } else if i == 5 {
        "Better multilingual accuracy."@
    } else if i == 6 {
        "High accuracy; needs a fast CPU or GPU to stay snappy."@
    } else if i == 7 {
        "Best accuracy, robust to noise and accents. Recommended on Apple Silicon / NVIDIA GPU."@
    } else {
        "Near-turbo accuracy at roughly a third of the size and memory."@
    }
}

pub open spec fn catalog_size_mb(i: int) -> u64 {
    if i == 0 || i == 1 {
        75
    } else if i == 2 || i == 3 {
        142
    } else if i == 4 || i == 5 {
        466
    } else if i == 6 {
        1500
    } else if i == 7 {
        1620
    } else {
        574
    }
}

pub open spec fn catalog_english_only(i: int) -> bool {
    i == 0 || i == 2 || i == 4 || i == 6
}

pub open spec fn catalog_recommended(i: int) -> bool {
    i == 2 || i == 4 || i == 7
}

/// The download URL of a model file.
pub open spec fn model_url(file: Seq<char>) -> Seq<char> {
    HF_BASE@ + "/"@ + file
}

/// `m` is the `i`-th catalog entry.
pub open spec fn is_catalog_entry(m: ModelInfo, i: int) -> bool {
    &&& m.file@ == catalog_file(i)
    &&& m.label@ == catalog_label(i)
    &&& m.description@ == catalog_description(i)
    &&& m.size_mb == catalog_size_mb(i)
    &&& m.english_only == catalog_english_only(i)
    &&& m.recommended == catalog_recommended(i)
    &&& m.url@ == model_url(catalog_file(i))
}

fn model(
    file: &str,
    label: &str,
    description: &str,
    size_mb: u64,
    english_only: bool,
    recommended: bool,
) -> (m: ModelInfo)
    ensures
        m.file@ == file@,
        m.label@ == label@,
        m.description@ == description@,
        m.size_mb == size_mb,
        m.english_only == english_only,
        m.recommended == recommended,
        m.url@ == model_url(file@),
{
    ModelInfo {
        file: file.to_owned(),
        label: label.to_owned(),
        description: description.to_owned(),
        size_mb,
        english_only,
        recommended,
        url: concat3(HF_BASE, "/", file),
    }
}

fn catalog_file_exec(i: usize) -> (f: &'static str)
    requires
        i < catalog_len(),
    ensures
        f@ == catalog_file(i as int),
{
    if i == 0 {
        "ggml-tiny.en.bin"
    } else if i == 1 {
        "ggml-tiny.bin"
    } else if i == 2 {
        "ggml-base.en.bin"
    } else if i == 3 {
        "ggml-base.bin"
    } else if i == 4 {
        "ggml-small.en.bin"
    } else if i == 5 {
        "ggml-small.bin"
    } else if i == 6 {
        "ggml-medium.en.bin"
    } else if i == 7 {
        "ggml-large-v3-turbo.bin"
    } else {
        "ggml-large-v3-turbo-q5_0.bin"
    }
}

fn catalog_entry(i: usize) -> (m: ModelInfo)
    requires
        i < catalog_len(),
    ensures
        is_catalog_entry(m, i as int),
{
    if i == 0 {
        model(
            "ggml-tiny.en.bin",
            "Tiny (English)",
            "Fastest, lowest accuracy. Good for older CPUs or instant partial results.",
            75,
            true,
            false,
        )
    } else if i == 1 {
        model("ggml-tiny.bin", "Tiny (Multilingual)", "Fastest multilingual option.", 75, false, false)
    } else if i == 2 {
        model(
            "ggml-base.en.bin",
            "Base (English)",
            "Great speed/accuracy balance for English dictation on any modern machine.",
            142,
            true,
            true,
        )
    } else if i == 3 {
        model("ggml-base.bin", "Base (Multilingual)", "Balanced multilingual model.", 142, false, false)
    } else if i == 4 {
        model(
            "ggml-small.en.bin",
            "Small (English)",
            "Noticeably better accuracy; still real-time on Apple Silicon and recent CPUs.",
            466,
            true,
            true,
        )
    } else if i == 5 {
        model(
            "ggml-small.bin",
            "Small (Multilingual)",
            "Better multilingual accuracy.",
            466,
            false,
            false,
        )
    } else if i == 6 {
        model(
            "ggml-medium.en.bin",
            "Medium (English)",
            "High accuracy; needs a fast CPU or GPU to stay snappy.",
            1500,
            true,
            false,
        )
    } else if i == 7 {
        model(
            "ggml-large-v3-turbo.bin",
            "Large v3 Turbo",
            "Best accuracy, robust to noise and accents. Recommended on Apple Silicon / NVIDIA GPU.",
            1620,
            false,
            true,
        )
    } else {
        model(
            "ggml-large-v3-turbo-q5_0.bin",
            "Large v3 Turbo (Q5 quantized)",
            "Near-turbo accuracy at roughly a third of the size and memory.",
            574,
            false,
            false,
        )
    }
}

/// Every downloadable model, in display order.
pub fn catalog() -> (res: Vec<ModelInfo>)
    ensures
        res@.len() == catalog_len(),
        forall|i: int| 0 <= i < res@.len() ==> #[trigger] is_catalog_entry(res@[i], i),
{
    let mut v: Vec<ModelInfo> = Vec::new();
    let mut i: usize = 0;
    while i < 9
        invariant
            i <= 9,
            v@.len() == i,
            forall|k: int| 0 <= k < v@.len() ==> #[trigger] is_catalog_entry(v@[k], k),
        decreases 9 - i,
    {
        v.push(catalog_entry(i));
        i += 1;
    }
    v
}

/// The catalog position of the model stored as `file`, if any.
pub open spec fn catalog_index(file: Seq<char>) -> Option<int> {
    first_where(catalog_len(), |i: int| catalog_file(i) == file)
}

/// The catalog entry whose file name is `file`.
pub fn find(file: &str) -> (res: Option<ModelInfo>)
    ensures
        match catalog_index(file@) {
            Some(i) => res matches Some(m) && is_catalog_entry(m, i),
            None => res is None,
        },
{
    let ghost pred = |i: int| catalog_file(i) == file@;
    let mut i: usize = 0;
    while i < 9
        invariant
            i <= 9,
            pred == (|i: int| catalog_file(i) == file@),
            forall|k: int| 0 <= k < i ==> !#[trigger] pred(k),
        decreases 9 - i,
    {
        if str_eq(catalog_file_exec(i), file) {
            proof {
                lemma_first_where_is(catalog_len(), pred, i as int);
            }
            return Some(catalog_entry(i));
        }
        i += 1;
    }
    proof {
        lemma_first_where_none(catalog_len(), pred);
    }
    None
}

/// No two catalog entries share a file name.
pub proof fn lemma_catalog_files_distinct()
    ensures
        forall|i: int, j: int|
            0 <= i < j < catalog_len() ==> catalog_file(i) != catalog_file(j),
{
    reveal_strlit("ggml-tiny.en.bin");
    reveal_strlit("ggml-tiny.bin");
    reveal_strlit("ggml-base.en.bin");
    reveal_strlit("ggml-base.bin");
    reveal_strlit("ggml-small.en.bin");
    reveal_strlit("ggml-small.bin");
    reveal_strlit("ggml-medium.en.bin");
    reveal_strlit("ggml-large-v3-turbo.bin");
    reveal_strlit("ggml-large-v3-turbo-q5_0.bin");
    assert forall|i: int, j: int| 0 <= i < j < catalog_len() implies catalog_file(i)
        != catalog_file(j) by {
        if catalog_file(i).len() == catalog_file(j).len() {
            assert(catalog_file(i)[5] != catalog_file(j)[5]);
        }
    }
}

/// Law: looking up a catalog model by its file name gives back that very
/// catalog entry.
pub proof fn lemma_find_gives_back_catalog_entry(i: int)
    requires
        0 <= i < catalog_len(),
    ensures
        catalog_index(catalog_file(i)) == Some(i),
{
    lemma_catalog_files_distinct();
    let pred = |k: int| catalog_file(k) == catalog_file(i);
    assert forall|k: int| 0 <= k < i implies !#[trigger] pred(k) by {
        assert(catalog_file(k) != catalog_file(i));
    }
    lemma_first_where_is(catalog_len(), pred, i);
}

/// Law: every catalog entry downloads from the official Hugging Face
/// repository, its URL ends with its file name, and its size is positive;
/// at least one entry is recommended.
pub proof fn lemma_catalog_is_sane()
    ensures
        forall|i: int|
            0 <= i < catalog_len() ==> starts_with(
                #[trigger] model_url(catalog_file(i)),
                "https://huggingface.co/"@,
            ) && ends_with(model_url(catalog_file(i)), catalog_file(i)) && catalog_size_mb(i) > 0,
        exists|i: int| 0 <= i < catalog_len() && #[trigger] catalog_recommended(i),
{
    reveal_strlit("https://huggingface.co/ggerganov/whisper.cpp/resolve/main");
    reveal_strlit("https://huggingface.co/");
    let base = HF_BASE@;
    let pre = "https://huggingface.co/"@;
    assert(base.take(pre.len() as int) =~= pre);
    assert forall|i: int| 0 <= i < catalog_len() implies starts_with(
        #[trigger] model_url(catalog_file(i)),
        "https://huggingface.co/"@,
    ) && ends_with(model_url(catalog_file(i)), catalog_file(i)) && catalog_size_mb(i) > 0 by {
        let u = model_url(catalog_file(i));
        assert(u.take(pre.len() as int) =~= base.take(pre.len() as int));
        assert(u.skip(u.len() - catalog_file(i).len()) =~= catalog_file(i));
    }
    assert(catalog_recommended(2));
}

} // verus!
