//! Speech and language models: what is shown of them, and which one is used.
use vstd::prelude::*;
use vstd::string::*;

use crate::text::{glue, opt_str, same};

verus! {

/// A speech model that can be had.
#[derive(Debug)]
pub struct ModelEntry {
    pub id: String,
    pub display_name: String,
    pub version_label: String,
    pub description: String,
    pub language_label: String,
    pub english_only: bool,
    pub accuracy_bars: u8,
    pub speed_bars: u8,
    pub size_label: String,
    pub size_bytes: u64,
}

/// What is shown of a speech model.
#[derive(Debug)]
pub struct SpeechModelStatus {
    pub id: String,
    pub display_name: String,
    pub version_label: String,
    pub description: String,
    pub language_label: String,
    pub english_only: bool,
    pub accuracy_bars: u8,
    pub speed_bars: u8,
    pub size_label: String,
    pub size_bytes: u64,
    pub downloaded: bool,
    pub active: bool,
    pub supported: bool,
}

/// Whether an id is the active one.
pub open spec fn is_active(active_id: Option<Seq<char>>, id: Seq<char>) -> bool {
    active_id == Some(id)
}

fn active(active_id: Option<&str>, id: &str) -> (r: bool)
    ensures
        r == is_active(opt_str(active_id), id@),
{
    match active_id {
        Some(a) => same(a, id),
        None => false,
    }
}

/// Whether `r` is what is shown of a speech model.
pub open spec fn is_status_of(
    r: SpeechModelStatus,
    entry: ModelEntry,
    active_id: Option<Seq<char>>,
    downloaded: bool,
    supported: bool,
) -> bool {
    &&& r.id@ == entry.id@
    &&& r.display_name@ == entry.display_name@
    &&& r.version_label@ == entry.version_label@
    &&& r.description@ == entry.description@
    &&& r.language_label@ == entry.language_label@
    &&& r.english_only == entry.english_only
    &&& r.accuracy_bars == entry.accuracy_bars
    &&& r.speed_bars == entry.speed_bars
    &&& r.size_label@ == entry.size_label@
    &&& r.size_bytes == entry.size_bytes
    &&& r.downloaded == downloaded
    &&& r.active == is_active(active_id, entry.id@)
    &&& r.supported == supported
}

/// A speech model is shown as it is described, each part in its own place, and as active exactly where
/// it is the one that is used.
pub proof fn law_speech_model_is_shown_as_described(
    r: SpeechModelStatus,
    entry: ModelEntry,
    active_id: Option<Seq<char>>,
    downloaded: bool,
    supported: bool,
)
    requires
        is_status_of(r, entry, active_id, downloaded, supported),
    ensures
        (r.id@, r.display_name@, r.version_label@) == (
            entry.id@,
            entry.display_name@,
            entry.version_label@,
        ),
        (r.description@, r.language_label@, r.size_label@) == (
            entry.description@,
            entry.language_label@,
            entry.size_label@,
        ),
        (r.english_only, r.accuracy_bars, r.speed_bars, r.size_bytes) == (
            entry.english_only,
            entry.accuracy_bars,
            entry.speed_bars,
            entry.size_bytes,
        ),
        (r.downloaded, r.supported) == (downloaded, supported),
        r.active <==> active_id is Some && active_id->0 == r.id@,
{
}

/// What is shown of a speech model.
pub fn model_status_for(
    entry: &ModelEntry,
    active_id: Option<&str>,
    downloaded: bool,
    supported: bool,
) -> (r: SpeechModelStatus)
    ensures
        is_status_of(r, *entry, opt_str(active_id), downloaded, supported),
{
    SpeechModelStatus {
        id: entry.id.clone(),
        display_name: entry.display_name.clone(),
        version_label: entry.version_label.clone(),
        description: entry.description.clone(),
        language_label: entry.language_label.clone(),
        english_only: entry.english_only,
        accuracy_bars: entry.accuracy_bars,
        speed_bars: entry.speed_bars,
        size_label: entry.size_label.clone(),
        size_bytes: entry.size_bytes,
        downloaded,
        active: active(active_id, entry.id.as_str()),
        supported,
    }
}

/// A language model that can be had.
#[derive(Debug)]
pub struct LlmModelEntry {
    pub id: String,
    pub display_name: String,
    pub family: String,
    pub size_label: String,
    pub size_bytes: u64,
    pub context_length: u32,
}

/// What is on disk of a language model.
#[derive(Clone, Copy, PartialEq, Eq, Structural, Debug)]
pub struct LlmDiskState {
    pub downloaded: bool,
    pub supported: bool,
    pub disk_bytes: u64,
    pub incomplete: bool,
}

/// What is shown of a language model.
#[derive(Debug)]
pub struct LlmModelStatus {
    pub id: String,
    pub display_name: String,
    pub family: String,
    pub size_label: String,
    pub size_bytes: u64,
    pub context_length: u32,
    pub downloaded: bool,
    pub active: bool,
    pub supported: bool,
    /// The bytes on disk, those of an interrupted download among them.
    pub disk_bytes: u64,
    /// There are bytes on disk, but not the whole model.
    pub incomplete: bool,
}

/// Whether `r` is what is shown of a language model.
pub open spec fn is_llm_status_of(
    r: LlmModelStatus,
    entry: LlmModelEntry,
    active_id: Option<Seq<char>>,
    disk: LlmDiskState,
) -> bool {
    &&& r.id@ == entry.id@
    &&& r.display_name@ == entry.display_name@
    &&& r.family@ == entry.family@
    &&& r.size_label@ == entry.size_label@
    &&& r.size_bytes == entry.size_bytes
    &&& r.context_length == entry.context_length
    &&& r.downloaded == disk.downloaded
    &&& r.active == is_active(active_id, entry.id@)
    &&& r.supported == disk.supported
    &&& r.disk_bytes == disk.disk_bytes
    &&& r.incomplete == disk.incomplete
}

/// A language model is shown as it is described and as it is found on the disk, each part in its own
/// place, and as active exactly where it is the one that is used.
pub proof fn law_language_model_is_shown_as_described(
    r: LlmModelStatus,
    entry: LlmModelEntry,
    active_id: Option<Seq<char>>,
    disk: LlmDiskState,
)
    requires
        is_llm_status_of(r, entry, active_id, disk),
    ensures
        (r.id@, r.display_name@, r.family@) == (entry.id@, entry.display_name@, entry.family@),
        (r.size_label@, r.size_bytes, r.context_length) == (
            entry.size_label@,
            entry.size_bytes,
            entry.context_length,
        ),
        (r.downloaded, r.supported, r.incomplete, r.disk_bytes) == (
            disk.downloaded,
            disk.supported,
            disk.incomplete,
            disk.disk_bytes,
        ),
        r.active <==> active_id is Some && active_id->0 == r.id@,
{
}

/// What is shown of a language model.
pub fn llm_status_for(entry: &LlmModelEntry, active_id: Option<&str>, disk: LlmDiskState) -> (r:
    LlmModelStatus)
    ensures
        is_llm_status_of(r, *entry, opt_str(active_id), disk),
{
    LlmModelStatus {
        id: entry.id.clone(),
        display_name: entry.display_name.clone(),
        family: entry.family.clone(),
        size_label: entry.size_label.clone(),
        size_bytes: entry.size_bytes,
        context_length: entry.context_length,
        downloaded: disk.downloaded,
        active: active(active_id, entry.id.as_str()),
        supported: disk.supported,
        disk_bytes: disk.disk_bytes,
        incomplete: disk.incomplete,
    }
}

/// The id that is shown as the active one: that of the running engine, else that of the settings,
/// else none.
pub fn shown_active_id(running: Option<String>, setting: Option<String>) -> (r: String)
    ensures
        r@ == (match running {
            Some(x) => x@,
            None => match setting {
                Some(y) => y@,
                None => Seq::empty(),
            },
        }),
        running is Some ==> r@ == running->0@,
        running is None && setting is Some ==> r@ == setting->0@,
{
    match running {
        Some(x) => x,
        None => match setting {
            Some(y) => y,
            None => String::new(),
        },
    }
}

/// Whether an engine has to take a model up again once it is downloaded: only the active one.
pub fn refresh_after_download(running: Option<&str>, id: &str) -> (r: bool)
    ensures
        r == is_active(opt_str(running), id@),
{
    active(running, id)
}

/// The families of models.
#[derive(Clone, Copy, PartialEq, Eq, Structural, Debug)]
pub enum ModelFamily {
    Speech,
    Llm,
}

/// What the user is told of an id that no model has.
pub fn unknown_model(family: ModelFamily, id: &str) -> (r: String)
    ensures
        r@ == (match family {
            ModelFamily::Speech => "unknown speech model id: "@,
            ModelFamily::Llm => "unknown llm model id: "@,
        }) + id@,
{
    match family {
        ModelFamily::Speech => glue("unknown speech model id: ", id),
        ModelFamily::Llm => glue("unknown llm model id: ", id),
    }
}

// ----- which model is taken up at the start -----

/// A model of the registry, as far as the choice goes.
#[derive(Debug)]
pub struct ModelChoice {
    pub id: String,
    pub downloaded: bool,
}

/// The place of the first model with that id.
pub open spec fn is_place_of(models: Seq<ModelChoice>, id: Seq<char>, k: int) -> bool {
    &&& 0 <= k < models.len()
    &&& models[k].id@ == id
    &&& forall|i: int| 0 <= i < k ==> (#[trigger] models[i]).id@ != id
}

/// The place of the first model that is downloaded.
pub open spec fn is_first_downloaded(models: Seq<ModelChoice>, k: int) -> bool {
    &&& 0 <= k < models.len()
    &&& models[k].downloaded
    &&& forall|i: int| 0 <= i < k ==> !(#[trigger] models[i]).downloaded
}

/// Whether the model of that id is there and downloaded.
pub open spec fn is_usable(models: Seq<ModelChoice>, id: Seq<char>) -> bool {
    exists|k: int| is_place_of(models, id, k) && #[trigger] models[k].downloaded
}

fn lookup(models: &Vec<ModelChoice>, id: &str) -> (r: Option<usize>)
    ensures
        match r {
            Some(k) => is_place_of(models@, id@, k as int),
            None => forall|k: int| !is_place_of(models@, id@, k),
        },
{
    let mut i: usize = 0;
    while i < models.len()
        invariant
            i <= models@.len(),
            forall|k: int| 0 <= k < i ==> (#[trigger] models@[k]).id@ != id@,
        decreases models@.len() - i,
    {
        if same(models[i].id.as_str(), id) {
            return Some(i);
        }
        i = i + 1;
    }
    None
}

/// Whether `r` is the place of the model that is taken up.
pub open spec fn is_restored(
    r: Option<int>,
    saved: Option<Seq<char>>,
    default_id: Seq<char>,
    models: Seq<ModelChoice>,
) -> bool {
    let wanted = match saved {
        Some(s) => s,
        None => default_id,
    };
    match r {
        Some(k) => if is_usable(models, wanted) {
            is_place_of(models, wanted, k)
        } else {
            is_first_downloaded(models, k)
        },
        None => forall|k: int| 0 <= k < models.len() ==> !(#[trigger] models[k]).downloaded,
    }
}

/// A model is taken up wherever one is downloaded, and only one that is downloaded. The one that was
/// saved is preferred, or the usual one where none was; where that is not at hand it is the first that
/// is.
pub proof fn law_saved_model_is_preferred(
    r: Option<int>,
    saved: Option<Seq<char>>,
    default_id: Seq<char>,
    models: Seq<ModelChoice>,
    k: int,
)
    requires
        is_restored(r, saved, default_id, models),
        0 <= k < models.len(),
        forall|i: int, j: int|
            0 <= i < j < models.len() ==> (#[trigger] models[i]).id@ != (#[trigger] models[j]).id@,
    ensures
        r matches Some(p) ==> 0 <= p < models.len() && models[p].downloaded,
        models[k].downloaded ==> r is Some,
        models[k].downloaded && saved == Some(models[k].id@) ==> r == Some(k),
        models[k].downloaded && saved is None && models[k].id@ == default_id ==> r == Some(k),
        r matches Some(p) ==> (k < p && models[k].downloaded ==> models[p].id@ == (if saved is Some {
            saved->0
        } else {
            default_id
        })),
{
    let wanted = if saved is Some {
        saved->0
    } else {
        default_id
    };
    if models[k].id@ == wanted && models[k].downloaded {
        assert(is_place_of(models, wanted, k));
        assert(is_usable(models, wanted));
        let p = r->0;
        if p < k {
            assert(models[p].id@ != models[k].id@);
        } else if k < p {
            assert(models[k].id@ != models[p].id@);
        }
    }
    if r is Some && is_usable(models, wanted) {
        let p = r->0;
        let j = choose|j: int| is_place_of(models, wanted, j) && #[trigger] models[j].downloaded;
        if p < j {
            assert(models[p].id@ != models[j].id@);
        } else if j < p {
            assert(models[j].id@ != models[p].id@);
        }
    }
}

/// The model that is taken up at the start: the saved one, or the default where none is saved, if
/// it is downloaded; else the first that is.
pub fn model_to_restore(saved: Option<&str>, default_id: &str, models: &Vec<ModelChoice>) -> (r:
    Option<usize>)
    ensures
        is_restored(
            match r {
                Some(k) => Some(k as int),
                None => None,
            },
            opt_str(saved),
            default_id@,
            models@,
        ),
        r matches Some(k) ==> k < models@.len() && models@[k as int].downloaded,
{
    let wanted: &str = match saved {
        Some(s) => s,
        None => default_id,
    };
    if let Some(k) = lookup(models, wanted) {
        if models[k].downloaded {
            assert(models@[k as int].downloaded);
            return Some(k);
        }
        assert(!is_usable(models@, wanted@)) by {
            if is_usable(models@, wanted@) {
                let j = choose|j: int|
                    is_place_of(models@, wanted@, j) && #[trigger] models@[j].downloaded;
                assert(j == k) by {
                    if j < k {
                        assert(models@[j].id@ != wanted@);
                    } else if k < j {
                        assert(models@[k as int].id@ != wanted@);
                    }
                }
            }
        }
    }
    let mut i: usize = 0;
    while i < models.len()
        invariant
            i <= models@.len(),
            !is_usable(models@, wanted@),
            wanted@ == (match opt_str(saved) {
                Some(s) => s,
                None => default_id@,
            }),
            forall|k: int| 0 <= k < i ==> !(#[trigger] models@[k]).downloaded,
        decreases models@.len() - i,
    {
        if models[i].downloaded {
            return Some(i);
        }
        i = i + 1;
    }
    None
}

/// Wherever some model is downloaded, one is taken up, whatever is saved.
pub proof fn law_a_downloaded_model_is_found(models: Seq<ModelChoice>, k: int)
    requires
        0 <= k < models.len(),
        models[k].downloaded,
    ensures
        exists|j: int| is_first_downloaded(models, j),
    decreases k,
{
    if exists|i: int| 0 <= i < k && (#[trigger] models[i]).downloaded {
        let i = choose|i: int| 0 <= i < k && (#[trigger] models[i]).downloaded;
        law_a_downloaded_model_is_found(models, i);
    } else {
        assert(is_first_downloaded(models, k));
    }
}

} // verus!
