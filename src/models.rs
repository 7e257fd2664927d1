//! Recognition of known MLX transcription models by directory name.
//!
//! Only directories whose names contain "whisper" and match an entry of the
//! allow-list are offered; the first matching entry wins.
use vstd::prelude::*;
use vstd::string::*;
use crate::chars::{chars_contain, seq_contains, to_chars};
use crate::types::MlxModelInfo;

verus! {

/// Number of entries in the allow-list.
pub const KNOWN_MODEL_COUNT: usize = 7;

/// Entry `i` of the allow-list: the two name fragments that must occur (an
/// empty second fragment always occurs), the model id, its display name,
/// its size estimate and its description.
pub open spec fn known_model(i: int) -> (&'static str, &'static str, &'static str, &'static str, &'static str, &'static str) {
    if i == 0 {
        ("turbo", "german", "german-turbo", "GERMAN TURBO", "~1.6GB", "Optimiert fuer Deutsch")
    } else if i == 1 {
        ("large-v3", "", "large-v3", "LARGE V3", "~2.9GB", "Hoechste Qualitaet")
    } else if i == 2 {
        ("large-v2", "", "large-v2", "LARGE V2", "~2.9GB", "Large V2 Modell")
    } else if i == 3 {
        ("medium", "", "medium", "MEDIUM", "~1.5GB", "Medium Modell")
    } else if i == 4 {
        ("small", "", "small", "SMALL", "~461MB", "Small Modell")
    } else if i == 5 {
        ("base", "", "base", "BASE", "~138MB", "Base Modell")
    } else {
        ("tiny", "", "tiny", "TINY", "~75MB", "Tiny Modell")
    }
}

fn known_model_entry(i: usize) -> (r: (&'static str, &'static str, &'static str, &'static str, &'static str, &'static str))
    requires
        i < KNOWN_MODEL_COUNT,
    ensures
        r == known_model(i as int),
{
    if i == 0 {
        ("turbo", "german", "german-turbo", "GERMAN TURBO", "~1.6GB", "Optimiert fuer Deutsch")
    } else if i == 1 {
        ("large-v3", "", "large-v3", "LARGE V3", "~2.9GB", "Hoechste Qualitaet")
    } else if i == 2 {
        ("large-v2", "", "large-v2", "LARGE V2", "~2.9GB", "Large V2 Modell")
    } else if i == 3 {
        ("medium", "", "medium", "MEDIUM", "~1.5GB", "Medium Modell")
    } else if i == 4 {
        ("small", "", "small", "SMALL", "~461MB", "Small Modell")
    } else if i == 5 {
        ("base", "", "base", "BASE", "~138MB", "Base Modell")
    } else {
        ("tiny", "", "tiny", "TINY", "~75MB", "Tiny Modell")
    }
}

/// Whether entry `i` of the allow-list matches the directory name.
pub open spec fn entry_matches(dir: Seq<char>, i: int) -> bool {
    seq_contains(dir, known_model(i).0@) && (known_model(i).1@.len() == 0 || seq_contains(
        dir,
        known_model(i).1@,
    ))
}

/// Entry `i` is the first one that matches.
pub open spec fn first_match(dir: Seq<char>, i: int) -> bool {
    0 <= i < KNOWN_MODEL_COUNT && entry_matches(dir, i) && forall|j: int|
        0 <= j < i ==> !#[trigger] entry_matches(dir, j)
}

/// The model info for a directory name, when it names a known model.
pub fn get_known_model_info(dir_name: &str) -> (r: Option<MlxModelInfo>)
    ensures
        r is Some <==> seq_contains(dir_name@, "whisper"@) && exists|i: int|
            0 <= i < KNOWN_MODEL_COUNT && #[trigger] entry_matches(dir_name@, i),
        r matches Some(info) ==> exists|i: int|
            #[trigger] first_match(dir_name@, i) && {
                let e = known_model(i);
                &&& info.id@ == e.2@
                &&& info.display_name@ == e.3@
                &&& info.directory@ == dir_name@
                &&& info.size_estimate matches Some(s) && s@ == e.4@
                &&& info.description matches Some(d) && d@ == e.5@
            },
{
    let dir = to_chars(dir_name);
    proof {
        reveal_strlit("whisper");
    }
    let whisper = to_chars("whisper");
    if !chars_contain(&dir, &whisper) {
        return None;
    }
    assert(seq_contains(dir_name@, "whisper"@));
    let mut i: usize = 0;
    while i < KNOWN_MODEL_COUNT
        invariant
            dir@ == dir_name@,
            seq_contains(dir_name@, "whisper"@),
            i <= KNOWN_MODEL_COUNT,
            forall|j: int| 0 <= j < i ==> !#[trigger] entry_matches(dir_name@, j),
        decreases KNOWN_MODEL_COUNT - i,
    {
        let (p1, p2, id, display, size, description) = known_model_entry(i);
        let c1 = to_chars(p1);
        let c2 = to_chars(p2);
        let matches = chars_contain(&dir, &c1) && (c2.len() == 0 || chars_contain(&dir, &c2));
        if matches {
            let info = MlxModelInfo {
                id: String::from_str(id),
                display_name: String::from_str(display),
                directory: String::from_str(dir_name),
                size_estimate: Some(String::from_str(size)),
                description: Some(String::from_str(description)),
            };
            assert(entry_matches(dir_name@, i as int));
            assert(first_match(dir_name@, i as int));
            return Some(info);
        }
        i = i + 1;
    }
    None
}

} // verus!
