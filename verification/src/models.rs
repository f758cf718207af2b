//! Speech model bookkeeping.
//!
//! Models are not shipped: they are large and carry their own licence. They
//! live in the model directory and are fetched on demand. This module knows
//! the catalogue; which files are present is looked up by the caller.

use crate::text::{join_path, path_join, str_eq};
use vstd::prelude::*;

verus! {

#[derive(Debug, Clone, Copy)]
pub struct ModelSpec {
    pub id: &'static str,
    pub file: &'static str,
    /// Used only to drive the download progress bar.
    pub approx_bytes: u64,
}

#[derive(Debug, Clone)]
pub struct ModelStatus {
    pub id: String,
    pub installed: bool,
    pub approx_bytes: u64,
}

/// The catalogue as (id, file name, approximate size), smallest first.
pub open spec fn catalog_entries() -> Seq<(Seq<char>, Seq<char>, u64)> {
    seq![
        ("base"@, "ggml-base.bin"@, 147_951_465u64),
        ("small"@, "ggml-small.bin"@, 487_601_967u64),
        ("large-v3-turbo"@, "ggml-large-v3-turbo.bin"@, 1_624_555_275u64),
    ]
}

pub open spec fn spec_matches(m: ModelSpec, e: (Seq<char>, Seq<char>, u64)) -> bool {
    m.id@ == e.0 && m.file@ == e.1 && m.approx_bytes == e.2
}

/// The catalogue entry `i`.
pub fn catalog_entry(i: usize) -> (m: ModelSpec)
    requires
        i < 3,
    ensures
        spec_matches(m, catalog_entries()[i as int]),
{
    if i == 0 {
        ModelSpec { id: "base", file: "ggml-base.bin", approx_bytes: 147_951_465 }
    } else if i == 1 {
        ModelSpec { id: "small", file: "ggml-small.bin", approx_bytes: 487_601_967 }
    } else {
        ModelSpec { id: "large-v3-turbo", file: "ggml-large-v3-turbo.bin", approx_bytes: 1_624_555_275 }
    }
}

/// The models offered in the UI, smallest first.
pub fn catalog() -> (r: Vec<ModelSpec>)
    ensures
        r@.len() == 3,
        forall|i: int| 0 <= i < 3 ==> spec_matches(#[trigger] r@[i], catalog_entries()[i]),
{
    let mut r: Vec<ModelSpec> = Vec::new();
    let mut i: usize = 0;
    while i < 3
        invariant
            i <= 3,
            r@.len() == i,
            forall|j: int| 0 <= j < i ==> spec_matches(#[trigger] r@[j], catalog_entries()[j]),
        decreases 3 - i,
    {
        r.push(catalog_entry(i));
        i = i + 1;
    }
    r
}

/// Index of the first catalogue entry with id `id`.
pub open spec fn index_of_id(id: Seq<char>) -> Option<int> {
    if id == catalog_entries()[0].0 {
        Some(0)
    } else if id == catalog_entries()[1].0 {
        Some(1)
    } else if id == catalog_entries()[2].0 {
        Some(2)
    } else {
        None
    }
}

/// The catalogue entry with id `id`.
pub fn spec(id: &str) -> (r: Option<ModelSpec>)
    ensures
        r is None <==> index_of_id(id@) is None,
        r matches Some(m) ==> spec_matches(m, catalog_entries()[index_of_id(id@)->0]),
{
    let mut i: usize = 0;
    while i < 3
        invariant
            i <= 3,
            forall|j: int| 0 <= j < i ==> id@ != #[trigger] catalog_entries()[j].0,
        decreases 3 - i,
    {
        let m = catalog_entry(i);
        if str_eq(id, m.id) {
            return Some(m);
        }
        i = i + 1;
    }
    None
}

/// Whether entry `i` is reported installed: `installed[i]`, and not
/// installed where the list is short.
pub open spec fn is_installed(installed: Seq<bool>, i: int) -> bool {
    0 <= i < installed.len() && installed[i]
}

/// One status per catalogue entry, in catalogue order. `installed[i]` tells
/// whether the file of entry `i` is present in the model directory.
pub fn statuses(installed: &[bool]) -> (r: Vec<ModelStatus>)
    ensures
        r@.len() == 3,
        forall|i: int| 0 <= i < 3 ==> {
            &&& #[trigger] r@[i].id@ == catalog_entries()[i].0
            &&& r@[i].installed == is_installed(installed@, i)
            &&& r@[i].approx_bytes == catalog_entries()[i].2
        },
{
    let mut r: Vec<ModelStatus> = Vec::new();
    let mut i: usize = 0;
    while i < 3
        invariant
            i <= 3,
            r@.len() == i,
            forall|j: int| 0 <= j < i ==> {
                &&& #[trigger] r@[j].id@ == catalog_entries()[j].0
                &&& r@[j].installed == is_installed(installed@, j)
                &&& r@[j].approx_bytes == catalog_entries()[j].2
            },
        decreases 3 - i,
    {
        let m = catalog_entry(i);
        let inst = i < installed.len() && installed[i];
        r.push(ModelStatus { id: String::from_str(m.id), installed: inst, approx_bytes: m.approx_bytes });
        i = i + 1;
    }
    r
}

/// Index of the first installed entry at or after `i`.
pub open spec fn first_installed_from(installed: Seq<bool>, i: int) -> Option<int>
    decreases 3 - i,
{
    if i >= 3 {
        None
    } else if is_installed(installed, i) {
        Some(i)
    } else {
        first_installed_from(installed, i + 1)
    }
}

/// First installed model, smallest first, with the path of its file in
/// `model_dir`. `None` means nothing is set up yet.
pub fn first_installed(model_dir: &str, installed: &[bool]) -> (r: Option<(String, String)>)
    ensures
        r is None <==> first_installed_from(installed@, 0) is None,
        r matches Some((id, path)) ==> {
            let i = first_installed_from(installed@, 0)->0;
            &&& id@ == catalog_entries()[i].0
            &&& path@ == path_join(model_dir@, catalog_entries()[i].1)
        },
{
    let mut i: usize = 0;
    while i < 3
        invariant
            i <= 3,
            first_installed_from(installed@, 0) == first_installed_from(installed@, i as int),
        decreases 3 - i,
    {
        if i < installed.len() && installed[i] {
            let m = catalog_entry(i);
            return Some((String::from_str(m.id), join_path(model_dir, m.file)));
        }
        i = i + 1;
    }
    None
}

/// Where the model files are downloaded from.
pub open spec fn base_url() -> Seq<char> {
    "https://huggingface.co/ggerganov/whisper.cpp/resolve/main"@
}

/// The download address of the model file `file`.
pub fn model_url(file: &str) -> (u: String)
    ensures
        u@ == base_url() + seq!['/'] + file@,
{
    let mut u = String::from_str("https://huggingface.co/ggerganov/whisper.cpp/resolve/main");
    crate::text::push_char(&mut u, '/');
    u.append(file);
    u
}

/// The name a download is written to until it is complete.
pub fn part_file_name(file: &str) -> (n: String)
    ensures
        n@ == file@ + ".part"@,
{
    let mut n = String::from_str(file);
    n.append(".part");
    n
}

/// The model picked is the smallest installed one: no installed entry is
/// smaller than it.
pub proof fn law_first_installed_is_smallest(installed: Seq<bool>, i: int)
    requires
        0 <= i < 3,
        is_installed(installed, i),
    ensures
        first_installed_from(installed, 0) matches Some(c) && c <= i
            && catalog_entries()[c].2 <= catalog_entries()[i].2,
{
    reveal_with_fuel(first_installed_from, 4);
    assert(catalog_entries()[0].2 == 147_951_465u64);
    assert(catalog_entries()[1].2 == 487_601_967u64);
    assert(catalog_entries()[2].2 == 1_624_555_275u64);
}

/// Every catalogue entry is found again by its id.
pub proof fn law_catalog_ids_found(i: int)
    requires
        0 <= i < 3,
    ensures
        index_of_id(catalog_entries()[i].0) == Some(i),
{
    reveal_strlit("base");
    reveal_strlit("small");
    reveal_strlit("large-v3-turbo");
    assert(catalog_entries()[0].0 == "base"@);
    assert(catalog_entries()[1].0 == "small"@);
    assert(catalog_entries()[2].0 == "large-v3-turbo"@);
    assert("base"@.len() == 4 && "small"@.len() == 5 && "large-v3-turbo"@.len() == 14);
    assert(catalog_entries()[0].0 != catalog_entries()[1].0);
    assert(catalog_entries()[0].0 != catalog_entries()[2].0);
    assert(catalog_entries()[1].0 != catalog_entries()[2].0);
}

} // verus!
