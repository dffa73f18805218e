//! The CPU power sources: which hwmon drivers report package power, and
//! which of the sources found is taken as the CPU's power draw.
use vstd::prelude::*;
use crate::gpu_names::same_text;

verus! {

/// What a hwmon driver's power reading measures, for the drivers that
/// report CPU power (`amdgpu` only where it has a power file).
pub open spec fn hwmon_source_text(name: Seq<char>, has_power_file: bool) -> Option<Seq<char>> {
    if name == "amdgpu"@ && has_power_file {
        Some("AMD APU Total Power (CPU+iGPU)"@)
    } else if name == "zenpower"@ {
        Some("Zenpower Driver (AMD Ryzen)"@)
    } else if name == "amd_energy"@ {
        Some("AMD Energy Driver"@)
    } else {
        None
    }
}

/// The description of a hwmon power source (see `hwmon_source_text`).
pub fn hwmon_power_source(name: &str, has_power_file: bool) -> (r: Option<String>)
    ensures
        match hwmon_source_text(name@, has_power_file) {
            Some(t) => r is Some && r->0@ == t,
            None => r is None,
        },
{
    proof {
        reveal_strlit("amdgpu");
        reveal_strlit("zenpower");
        reveal_strlit("amd_energy");
        reveal_strlit("AMD APU Total Power (CPU+iGPU)");
        reveal_strlit("Zenpower Driver (AMD Ryzen)");
        reveal_strlit("AMD Energy Driver");
    }
    if same_text(name, "amdgpu") && has_power_file {
        Some("AMD APU Total Power (CPU+iGPU)".to_string())
    } else if same_text(name, "zenpower") {
        Some("Zenpower Driver (AMD Ryzen)".to_string())
    } else if same_text(name, "amd_energy") {
        Some("AMD Energy Driver".to_string())
    } else {
        None
    }
}

/// The first position of `n` among the source names.
pub open spec fn first_named(names: Seq<Seq<char>>, n: Seq<char>) -> Option<int> {
    if exists|i: int| 0 <= i < names.len() && names[i] == n {
        Some(choose|i: int| 0 <= i < names.len() && names[i] == n && forall|j: int| 0 <= j < i ==> names[j] != n)
    } else {
        None
    }
}

pub open spec fn names_of(names: Seq<String>) -> Seq<Seq<char>> {
    names.map_values(|s: String| s@)
}

/// The CPU's power source among those found: on an AMD CPU with no AMD
/// discrete GPU the APU total (`amdgpu`); on an AMD CPU `zenpower`, else
/// `amd_energy`; otherwise, and failing those, RAPL.
pub open spec fn cpu_power_choice(names: Seq<Seq<char>>, is_amd: bool, amd_dgpus: u64) -> Option<int> {
    if is_amd && amd_dgpus == 0 && first_named(names, "amdgpu"@) is Some {
        first_named(names, "amdgpu"@)
    } else if is_amd && first_named(names, "zenpower"@) is Some {
        first_named(names, "zenpower"@)
    } else if is_amd && first_named(names, "amd_energy"@) is Some {
        first_named(names, "amd_energy"@)
    } else {
        first_named(names, "RAPL"@)
    }
}

/// The source reported with the CPU's figures: `amdgpu`, else RAPL.
pub open spec fn reported_choice(names: Seq<Seq<char>>) -> Option<int> {
    if first_named(names, "amdgpu"@) is Some {
        first_named(names, "amdgpu"@)
    } else {
        first_named(names, "RAPL"@)
    }
}

fn find_named(names: &Vec<String>, n: &str) -> (r: Option<usize>)
    ensures
        match r {
            Some(i) => first_named(names_of(names@), n@) == Some(i as int),
            None => first_named(names_of(names@), n@) is None,
        },
{
    let ghost v = names_of(names@);
    let mut i: usize = 0;
    while i < names.len()
        invariant
            i <= names@.len(),
            v == names_of(names@),
            v.len() == names@.len(),
            forall|j: int| 0 <= j < i ==> v[j] != n@,
        decreases names@.len() - i,
    {
        if same_text(names[i].as_str(), n) {
            proof {
                assert(v[i as int] == n@);
                let c = choose|k: int| 0 <= k < v.len() && v[k] == n@ && forall|j: int| 0 <= j < k ==> v[j] != n@;
                assert(0 <= c < v.len() && v[c] == n@ && forall|j: int| 0 <= j < c ==> v[j] != n@) by {
                    assert(0 <= i < v.len() && v[i as int] == n@ && forall|j: int| 0 <= j < i ==> v[j] != n@);
                }
                if c < i {
                } else if c > i {
                    assert(v[i as int] != n@);
                }
            }
            return Some(i);
        }
        proof {
            assert(v[i as int] == names@[i as int]@);
        }
        i = i + 1;
    }
    None
}

/// The position of the CPU's power source among the sources found (see
/// `cpu_power_choice`).
pub fn cpu_power_source(names: &Vec<String>, is_amd: bool, amd_dgpus: u64) -> (r: Option<usize>)
    ensures
        match r {
            Some(i) => cpu_power_choice(names_of(names@), is_amd, amd_dgpus) == Some(i as int),
            None => cpu_power_choice(names_of(names@), is_amd, amd_dgpus) is None,
        },
{
    proof {
        reveal_strlit("amdgpu");
        reveal_strlit("zenpower");
        reveal_strlit("amd_energy");
        reveal_strlit("RAPL");
    }
    if is_amd && amd_dgpus == 0 {
        if let Some(i) = find_named(names, "amdgpu") {
            return Some(i);
        }
    }
    if is_amd {
        if let Some(i) = find_named(names, "zenpower") {
            return Some(i);
        }
        if let Some(i) = find_named(names, "amd_energy") {
            return Some(i);
        }
    }
    find_named(names, "RAPL")
}

/// The position of the source reported with the CPU's figures (see
/// `reported_choice`).
pub fn reported_power_source(names: &Vec<String>) -> (r: Option<usize>)
    ensures
        match r {
            Some(i) => reported_choice(names_of(names@)) == Some(i as int),
            None => reported_choice(names_of(names@)) is None,
        },
{
    proof {
        reveal_strlit("amdgpu");
        reveal_strlit("RAPL");
    }
    match find_named(names, "amdgpu") {
        Some(i) => Some(i),
        None => find_named(names, "RAPL"),
    }
}

} // verus!
