//! Ignore-pattern presets: a flat name-to-patterns dictionary.
//!
//! A fixed set of built-in presets ships with the library; user presets
//! are a list of named pattern sequences with unique names, kept as one
//! dictionary document by the caller. Saving is an upsert; deleting
//! removes the named entry.

use vstd::prelude::*;

use crate::error::CommandError;
use crate::error::ErrorKind;

verus! {

/// A built-in preset: a name and its ignore patterns.
pub struct Preset {
    pub name: String,
    pub ignore_patterns: Vec<String>,
}

/// A user-saved preset: a name and its ignore patterns.
pub struct SavedPreset {
    pub name: String,
    pub ignore_patterns: Vec<String>,
}

/// What a listing of presets returns: the built-in presets and the saved
/// ones.
pub struct PresetResponse {
    pub default: Vec<SavedPreset>,
    pub saved: Vec<SavedPreset>,
}

/// The mathematical shape of a preset.
#[verifier::ext_equal]
pub struct PresetView {
    pub name: Seq<char>,
    pub patterns: Seq<Seq<char>>,
}

impl View for Preset {
    type V = PresetView;

    open spec fn view(&self) -> PresetView {
        PresetView {
            name: self.name@,
            patterns: self.ignore_patterns@.map_values(|p: String| p@),
        }
    }
}

impl View for SavedPreset {
    type V = PresetView;

    open spec fn view(&self) -> PresetView {
        PresetView {
            name: self.name@,
            patterns: self.ignore_patterns@.map_values(|p: String| p@),
        }
    }
}

/// The shapes of a preset list.
pub open spec fn presets_view(s: Seq<SavedPreset>) -> Seq<PresetView> {
    s.map_values(|p: SavedPreset| p@)
}

/// The built-in presets.
pub open spec fn builtin_presets_spec() -> Seq<PresetView> {
    seq![
        PresetView { name: "Test"@, patterns: seq![".git"@, ".gitignore"@, "gut"@, "gap"@] },
        PresetView { name: "Git"@, patterns: seq![".git"@, ".gitignore"@] },
        PresetView { name: "JS"@, patterns: seq!["Git"@, "node_modules"@, "build"@, ".next"@] },
        PresetView { name: "Java"@, patterns: seq!["Git"@, ".maven"@, "target"@, "out"@] },
        PresetView {
            name: "Python"@,
            patterns: seq!["Git"@, "__pycache__"@, "venv"@, ".pytest_cache"@],
        },
        PresetView { name: "Rust"@, patterns: seq!["Git"@, "target"@, "Cargo.lock"@] },
    ]
}

/// One owned pattern list from string literals.
fn patterns_4(a: &str, b: &str, c: &str, d: &str) -> (r: Vec<String>)
    ensures
        r@.map_values(|p: String| p@) =~= seq![a@, b@, c@, d@],
{
    let mut v: Vec<String> = Vec::new();
    v.push(String::from_str(a));
    v.push(String::from_str(b));
    v.push(String::from_str(c));
    v.push(String::from_str(d));
    v
}

/// One owned pattern list from string literals.
fn patterns_3(a: &str, b: &str, c: &str) -> (r: Vec<String>)
    ensures
        r@.map_values(|p: String| p@) =~= seq![a@, b@, c@],
{
    let mut v: Vec<String> = Vec::new();
    v.push(String::from_str(a));
    v.push(String::from_str(b));
    v.push(String::from_str(c));
    v
}

/// One owned pattern list from string literals.
fn patterns_2(a: &str, b: &str) -> (r: Vec<String>)
    ensures
        r@.map_values(|p: String| p@) =~= seq![a@, b@],
{
    let mut v: Vec<String> = Vec::new();
    v.push(String::from_str(a));
    v.push(String::from_str(b));
    v
}

/// The built-in presets, as shipped.
pub fn builtin_presets() -> (r: Vec<Preset>)
    ensures
        r@.map_values(|p: Preset| p@) =~= builtin_presets_spec(),
{
    let mut v: Vec<Preset> = Vec::new();
    v.push(
        Preset {
            name: String::from_str("Test"),
            ignore_patterns: patterns_4(".git", ".gitignore", "gut", "gap"),
        },
    );
    v.push(
        Preset { name: String::from_str("Git"), ignore_patterns: patterns_2(".git", ".gitignore") },
    );
    v.push(
        Preset {
            name: String::from_str("JS"),
            ignore_patterns: patterns_4("Git", "node_modules", "build", ".next"),
        },
    );
    v.push(
        Preset {
            name: String::from_str("Java"),
            ignore_patterns: patterns_4("Git", ".maven", "target", "out"),
        },
    );
    v.push(
        Preset {
            name: String::from_str("Python"),
            ignore_patterns: patterns_4("Git", "__pycache__", "venv", ".pytest_cache"),
        },
    );
    v.push(
        Preset {
            name: String::from_str("Rust"),
            ignore_patterns: patterns_3("Git", "target", "Cargo.lock"),
        },
    );
    v
}

/// The index of the preset with the given name, or `-1`.
pub open spec fn preset_idx(s: Seq<PresetView>, name: Seq<char>) -> int
    decreases s.len(),
{
    if s.len() == 0 {
        -1
    } else if s[0].name == name {
        0
    } else {
        let rest = preset_idx(s.subrange(1, s.len() as int), name);
        if rest == -1 {
            -1
        } else {
            rest + 1
        }
    }
}

/// What `preset_idx` returns: a valid index of the first hit, or `-1`.
pub proof fn lemma_preset_idx_props(s: Seq<PresetView>, name: Seq<char>)
    ensures
        -1 <= preset_idx(s, name) < s.len(),
        preset_idx(s, name) >= 0 ==> s[preset_idx(s, name)].name == name,
        preset_idx(s, name) == -1 ==> forall|k: int| 0 <= k < s.len() ==> s[k].name != name,
    decreases s.len(),
{
    if s.len() == 0 {
    } else if s[0].name == name {
    } else {
        let rest = s.subrange(1, s.len() as int);
        lemma_preset_idx_props(rest, name);
        assert(forall|k: int| 1 <= k < s.len() ==> s[k] == rest[k - 1]);
    }
}

/// `preset_idx` returns the first hit.
proof fn lemma_preset_idx_hit(s: Seq<PresetView>, name: Seq<char>, i: int)
    requires
        0 <= i < s.len(),
        s[i].name == name,
        forall|k: int| 0 <= k < i ==> s[k].name != name,
    ensures
        preset_idx(s, name) == i,
    decreases s.len(),
{
    if i == 0 {
    } else {
        let rest = s.subrange(1, s.len() as int);
        assert(forall|k: int| 1 <= k < s.len() ==> s[k] == rest[k - 1]);
        lemma_preset_idx_hit(rest, name, i - 1);
    }
}

/// The position of the preset with the given name, if any.
fn position_of(list: &Vec<SavedPreset>, name: &String) -> (r: Option<usize>)
    ensures
        match r {
            Some(i) => preset_idx(presets_view(list@), name@) == i && i < list@.len(),
            None => preset_idx(presets_view(list@), name@) == -1,
        },
{
    let mut i: usize = 0;
    while i < list.len()
        invariant
            0 <= i <= list@.len(),
            forall|k: int| 0 <= k < i ==> presets_view(list@)[k].name != name@,
        decreases list@.len() - i,
    {
        if list[i].name == *name {
            proof {
                lemma_preset_idx_hit(presets_view(list@), name@, i as int);
            }
            return Some(i);
        }
        i = i + 1;
    }
    proof {
        lemma_preset_idx_props(presets_view(list@), name@);
        if preset_idx(presets_view(list@), name@) >= 0 {
            assert(presets_view(list@)[preset_idx(presets_view(list@), name@)].name == name@);
        }
    }
    None
}

/// Saves a preset: replaces the entry with the same name, or appends a
/// new one. Names stay unique.
pub fn save_preset(list: &mut Vec<SavedPreset>, name: String, patterns: Vec<String>)
    ensures
        ({
            let i = preset_idx(presets_view(old(list)@), name@);
            let entry = PresetView {
                name: name@,
                patterns: patterns@.map_values(|p: String| p@),
            };
            if i == -1 {
                presets_view(final(list)@) == presets_view(old(list)@).push(entry)
            } else {
                presets_view(final(list)@) == presets_view(old(list)@).update(i, entry)
            }
        }),
{
    let entry = SavedPreset { name, ignore_patterns: patterns };
    let ghost before = presets_view(list@);
    match position_of(list, &entry.name) {
        Some(i) => {
            let _ = list.remove(i);
            list.insert(i, entry);
            proof {
                assert(presets_view(list@) =~= before.update(
                    preset_idx(before, entry.name@),
                    entry@,
                ));
            }
        },
        None => {
            list.push(entry);
            proof {
                assert(presets_view(list@) =~= before.push(entry@));
            }
        },
    }
}

/// Deletes the preset with the given name, or fails with `NotFound`.
pub fn delete_preset(list: &mut Vec<SavedPreset>, name: &String) -> (r: Result<(), CommandError>)
    ensures
        ({
            let i = preset_idx(presets_view(old(list)@), name@);
            if i == -1 {
                r is Err && r->Err_0.kind == ErrorKind::NotFound && final(list)@ == old(list)@
            } else {
                r is Ok && presets_view(final(list)@) == presets_view(old(list)@).remove(i)
            }
        }),
{
    let ghost before = presets_view(list@);
    match position_of(list, name) {
        Some(i) => {
            let _ = list.remove(i);
            proof {
                assert(presets_view(list@) =~= before.remove(preset_idx(before, name@)));
            }
            Ok(())
        },
        None => Err(CommandError::not_found(String::from_str("preset not found"))),
    }
}

/// A copy of a pattern list.
pub fn clone_patterns(v: &Vec<String>) -> (r: Vec<String>)
    ensures
        r@.map_values(|p: String| p@) == v@.map_values(|p: String| p@),
{
    let mut out: Vec<String> = Vec::new();
    let mut i: usize = 0;
    while i < v.len()
        invariant
            0 <= i <= v@.len(),
            out@.len() == i,
            forall|k: int| 0 <= k < i ==> out@[k]@ == v@[k]@,
        decreases v@.len() - i,
    {
        out.push(v[i].clone());
        i = i + 1;
    }
    proof {
        assert(out@.map_values(|p: String| p@) =~= v@.map_values(|p: String| p@));
    }
    out
}

/// Lists the presets: the built-in set and a copy of the saved entries.
pub fn list_presets(saved: &Vec<SavedPreset>) -> (r: PresetResponse)
    ensures
        presets_view(r.default@) == builtin_presets_spec(),
        presets_view(r.saved@) == presets_view(saved@),
{
    let builtins = builtin_presets();
    let mut default: Vec<SavedPreset> = Vec::new();
    let mut i: usize = 0;
    while i < builtins.len()
        invariant
            0 <= i <= builtins@.len(),
            builtins@.map_values(|p: Preset| p@) == builtin_presets_spec(),
            default@.len() == i,
            forall|k: int| 0 <= k < i ==> presets_view(default@)[k] == builtins@[k]@,
        decreases builtins@.len() - i,
    {
        let b = &builtins[i];
        let ghost before = default@;
        default.push(
            SavedPreset { name: b.name.clone(), ignore_patterns: clone_patterns(&b.ignore_patterns) },
        );
        proof {
            assert forall|k: int| 0 <= k < i + 1 implies presets_view(default@)[k]
                == builtins@[k]@ by {
                if k == i {
                    assert(presets_view(default@)[k].name == builtins@[k]@.name);
                    assert(presets_view(default@)[k].patterns =~= builtins@[k]@.patterns);
                    assert(presets_view(default@)[k] =~~= builtins@[k]@);
                } else {
                    assert(default@[k] == before[k]);
                    assert(presets_view(before)[k] == builtins@[k]@);
                }
            }
        }
        i = i + 1;
    }
    let mut out_saved: Vec<SavedPreset> = Vec::new();
    let mut j: usize = 0;
    while j < saved.len()
        invariant
            0 <= j <= saved@.len(),
            out_saved@.len() == j,
            forall|k: int| 0 <= k < j ==> presets_view(out_saved@)[k] == presets_view(saved@)[k],
        decreases saved@.len() - j,
    {
        let b = &saved[j];
        let ghost before = out_saved@;
        out_saved.push(
            SavedPreset { name: b.name.clone(), ignore_patterns: clone_patterns(&b.ignore_patterns) },
        );
        proof {
            assert forall|k: int| 0 <= k < j + 1 implies presets_view(out_saved@)[k]
                == presets_view(saved@)[k] by {
                if k == j {
                    assert(presets_view(out_saved@)[k].name == presets_view(saved@)[k].name);
                    assert(presets_view(out_saved@)[k].patterns =~= presets_view(
                        saved@,
                    )[k].patterns);
                    assert(presets_view(out_saved@)[k] =~~= presets_view(saved@)[k]);
                } else {
                    assert(out_saved@[k] == before[k]);
                    assert(presets_view(before)[k] == presets_view(saved@)[k]);
                }
            }
        }
        j = j + 1;
    }
    proof {
        assert(presets_view(default@) =~= builtin_presets_spec());
        assert(presets_view(out_saved@) =~= presets_view(saved@));
    }
    PresetResponse { default, saved: out_saved }
}

} // verus!
