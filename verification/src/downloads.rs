//! Whisper model downloads: which downloads may start, progress reporting,
//! and which models may be deleted. Streaming the file is the caller's job;
//! it writes to `<file>.part` and renames only on success, so a killed
//! download never leaves a corrupt model behind.

use crate::models::{catalog_index, find, is_catalog_entry, ModelInfo};
use crate::text::{concat2, str_eq, views};
use vstd::prelude::*;

verus! {

#[derive(Debug, Clone, PartialEq)]
pub struct DownloadProgress {
    pub file: String,
    pub downloaded: u64,
    pub total: u64,
}

#[derive(Debug, Clone, PartialEq)]
pub struct DownloadDone {
    pub file: String,
    /// Empty when the download succeeded.
    pub error: String,
}

/// The catalog entry to download, or the error for an unknown file.
pub fn model_to_download(file: &str) -> (res: Result<ModelInfo, String>)
    ensures
        match catalog_index(file@) {
            Some(i) => res matches Ok(m) && is_catalog_entry(m, i),
            None => res matches Err(e) && e@ == "unknown model: "@ + file@,
        },
{
    match find(file) {
        Some(m) => Ok(m),
        None => Err(concat2("unknown model: ", file)),
    }
}

/// Whether `file` is among the files being downloaded.
fn is_downloading(downloading: &Vec<String>, file: &str) -> (b: bool)
    ensures
        b == views(downloading@).contains(file@),
{
    let mut i: usize = 0;
    while i < downloading.len()
        invariant
            i <= downloading@.len(),
            forall|k: int| 0 <= k < i ==> #[trigger] downloading@[k]@ != file@,
        decreases downloading.len() - i,
    {
        if str_eq(downloading[i].as_str(), file) {
            assert(views(downloading@)[i as int] == file@);
            return true;
        }
        i += 1;
    }
    assert forall|k: int| 0 <= k < views(downloading@).len() implies views(downloading@)[k]
        != file@ by {
        assert(views(downloading@)[k] == downloading@[k]@);
    }
    false
}

/// No file appears twice.
pub open spec fn no_duplicates(s: Seq<Seq<char>>) -> bool {
    forall|a: int, b: int| 0 <= a < b < s.len() ==> #[trigger] s[a] != #[trigger] s[b]
}

/// Records that `file` starts downloading; refused while it already is, so
/// a model is never downloaded twice at once.
pub fn begin_download(downloading: &mut Vec<String>, file: &str) -> (res: Result<(), String>)
    requires
        no_duplicates(views(old(downloading)@)),
    ensures
        no_duplicates(views(final(downloading)@)),
        views(old(downloading)@).contains(file@) ==> (res matches Err(e)
            && e@ == "already downloading"@) && final(downloading)@ == old(downloading)@,
        !views(old(downloading)@).contains(file@) ==> res is Ok && views(final(downloading)@)
            == views(old(downloading)@).push(file@),
{
    if is_downloading(downloading, file) {
        return Err("already downloading".to_owned());
    }
    let ghost before = views(downloading@);
    downloading.push(file.to_owned());
    proof {
        let after = views(downloading@);
        assert(after == before.push(file@));
        assert forall|a: int, b: int| 0 <= a < b < after.len() implies #[trigger] after[a]
            != #[trigger] after[b] by {
            if b == after.len() - 1 {
                assert(after[b] == file@);
                assert(after[a] == before[a]);
            } else {
                assert(after[a] == before[a] && after[b] == before[b]);
            }
        }
    }
    Ok(())
}

/// Records that `file` stopped downloading (successfully or not).
pub fn end_download(downloading: &mut Vec<String>, file: &str)
    requires
        no_duplicates(views(old(downloading)@)),
    ensures
        no_duplicates(views(final(downloading)@)),
        !views(final(downloading)@).contains(file@),
        forall|f: Seq<char>|
            f != file@ ==> (views(final(downloading)@).contains(f) <==> views(
                old(downloading)@,
            ).contains(f)),
{
    let ghost old_v = views(downloading@);
    let mut i: usize = 0;
    while i < downloading.len()
        invariant
            i <= downloading@.len(),
            old_v == views(old(downloading)@),
            no_duplicates(views(downloading@)),
            forall|k: int| 0 <= k < i ==> #[trigger] downloading@[k]@ != file@,
            forall|f: Seq<char>|
                f != file@ ==> (views(downloading@).contains(f) <==> old_v.contains(f)),
            old_v.contains(file@) ==> views(downloading@).contains(file@),
            !old_v.contains(file@) ==> !views(downloading@).contains(file@),
        decreases downloading.len() - i,
    {
        if str_eq(downloading[i].as_str(), file) {
            let ghost before = views(downloading@);
            downloading.remove(i);
            proof {
                let after = views(downloading@);
                assert(after == before.remove(i as int));
                assert forall|f: Seq<char>| f != file@ implies (after.contains(f)
                    <==> old_v.contains(f)) by {
                    if after.contains(f) {
                        let k = choose|k: int| 0 <= k < after.len() && after[k] == f;
                        if k < i {
                            assert(before[k] == f);
                        } else {
                            assert(before[k + 1] == f);
                        }
                    }
                    if before.contains(f) {
                        let k = choose|k: int| 0 <= k < before.len() && before[k] == f;
                        assert(k != i);
                        if k < i {
                            assert(after[k] == f);
                        } else {
                            assert(after[k - 1] == f);
                        }
                    }
                }
                assert forall|k: int| 0 <= k < after.len() implies after[k] != file@ by {
                    if k < i {
                        assert(after[k] == before[k]);
                        assert(before[k] == downloading@[k]@);
                    } else {
                        assert(after[k] == before[k + 1]);
                        assert(before[i as int] == file@);
                    }
                }
                assert forall|a: int, b: int| 0 <= a < b < after.len() implies #[trigger] after[a]
                    != #[trigger] after[b] by {
                    let a2 = if a < i {
                        a
                    } else {
                        a + 1
                    };
                    let b2 = if b < i {
                        b
                    } else {
                        b + 1
                    };
                    assert(after[a] == before[a2] && after[b] == before[b2]);
                }
            }
            return;
        }
        i += 1;
    }
    proof {
        let v = views(downloading@);
        assert forall|k: int| 0 <= k < v.len() implies v[k] != file@ by {
            assert(v[k] == downloading@[k]@);
        }
    }
}

/// The expected size of a download: the server's content length, or the
/// catalog's approximate size in MiB.
pub fn expected_total(content_length: Option<u64>, size_mb: u64) -> (total: u64)
    requires
        size_mb * 1024 * 1024 <= u64::MAX,
    ensures
        total == match content_length {
            Some(n) => n,
            None => (size_mb * 1024 * 1024) as u64,
        },
{
    let fallback = size_mb * 1024 * 1024;
    match content_length {
        Some(n) => n,
        None => fallback,
    }
}

/// Progress is reported at most every 150 ms.
pub fn progress_due(ms_since_last: u64) -> (b: bool)
    ensures
        b == (ms_since_last > 150),
{
    ms_since_last > 150
}

/// The completion event of a download.
pub fn download_done(file: String, result: &Result<(), String>) -> (d: DownloadDone)
    ensures
        d.file == file,
        match result {
            Ok(()) => d.error@ == Seq::<char>::empty(),
            Err(e) => d.error == *e,
        },
{
    let error = match result {
        Ok(()) => String::new(),
        Err(e) => e.clone(),
    };
    DownloadDone { file, error }
}

/// The selected model cannot be deleted out from under the speech engine.
pub fn check_deletable(active_model: &str, file: &str) -> (res: Result<(), String>)
    ensures
        active_model@ == file@ ==> (res matches Err(e) && e@
            == "cannot delete the currently selected model"@),
        active_model@ != file@ ==> res is Ok,
{
    if str_eq(active_model, file) {
        Err("cannot delete the currently selected model".to_owned())
    } else {
        Ok(())
    }
}

} // verus!
