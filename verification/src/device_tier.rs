//! The performance tier of the machine, read once at start, and the GPU
//! acceleration switch that follows it unless the user chose otherwise.
use vstd::prelude::*;
use vstd::utf8::encode_utf8;
use crate::text::{chars_of, eq_str, lower, lower_vec, trim, trim_start, trim_slice, contains, contains_str, push_str};

verus! {

/// How rich the visual effects may be.
#[derive(Debug, Clone, Copy, PartialEq, Eq, Structural)]
pub enum DeviceTier {
    /// A modern fast CPU with a discrete GPU: all effects.
    High,
    /// A fast CPU without a discrete GPU: fewer effects.
    Mid,
    /// Anything slower, or too little memory: flat colours only.
    Low,
}

impl DeviceTier {
    pub open spec fn name(self) -> Seq<char> {
        match self {
            DeviceTier::High => "high"@,
            DeviceTier::Mid => "mid"@,
            DeviceTier::Low => "low"@,
        }
    }

    pub fn as_str(self) -> (r: &'static str)
        ensures
            r@ == self.name(),
    {
        match self {
            DeviceTier::High => "high",
            DeviceTier::Mid => "mid",
            DeviceTier::Low => "low",
        }
    }
}

/// The GPU acceleration switch: `Auto` follows the tier, `On` and `Off` are
/// the user's choice.
#[derive(Debug, Clone, Copy, PartialEq, Eq, Structural)]
pub enum GpuMode {
    Auto,
    On,
    Off,
}

impl GpuMode {
    pub open spec fn name(self) -> Seq<char> {
        match self {
            GpuMode::Auto => "auto"@,
            GpuMode::On => "on"@,
            GpuMode::Off => "off"@,
        }
    }

    pub fn as_str(self) -> (r: &'static str)
        ensures
            r@ == self.name(),
    {
        match self {
            GpuMode::Auto => "auto",
            GpuMode::On => "on",
            GpuMode::Off => "off",
        }
    }
}

/// What a stored switch value means: trimmed and lower-cased, the written
/// words and their usual synonyms; anything else (an empty or garbled file)
/// leaves the choice to the hardware.
pub open spec fn gpu_mode_of(raw: Seq<char>) -> GpuMode {
    let v = lower(trim(raw));
    if v == "on"@ || v == "true"@ || v == "1"@ || v == "yes"@ {
        GpuMode::On
    } else if v == "off"@ || v == "false"@ || v == "0"@ || v == "no"@ {
        GpuMode::Off
    } else {
        GpuMode::Auto
    }
}

pub fn parse_gpu_mode(raw: &str) -> (r: GpuMode)
    ensures
        r == gpu_mode_of(raw@),
{
    let v = chars_of(raw);
    let l = lower_vec(trim_slice(v.as_slice()));
    let l = l.as_slice();
    if eq_str(l, "on") || eq_str(l, "true") || eq_str(l, "1") || eq_str(l, "yes") {
        GpuMode::On
    } else if eq_str(l, "off") || eq_str(l, "false") || eq_str(l, "0") || eq_str(l, "no") {
        GpuMode::Off
    } else {
        GpuMode::Auto
    }
}

/// The switch value that the settings page may store: exactly one of the
/// three written words (trimmed, any case); anything else is an error, so
/// that a wrong value is not stored as "auto".
pub fn parse_gpu_setting(mode: &str) -> (r: Result<GpuMode, String>)
    ensures
        ({
            let v = lower(trim(mode@));
            &&& v == "auto"@ ==> r == Ok::<GpuMode, String>(GpuMode::Auto)
            &&& v == "on"@ ==> r == Ok::<GpuMode, String>(GpuMode::On)
            &&& v == "off"@ ==> r == Ok::<GpuMode, String>(GpuMode::Off)
            &&& (v != "auto"@ && v != "on"@ && v != "off"@) ==> (r matches Err(e) && e@
                == "unknown gpu acceleration mode: "@ + mode@)
        }),
{
    let v = chars_of(mode);
    let l = lower_vec(trim_slice(v.as_slice()));
    let l = l.as_slice();
    proof {
        reveal_strlit("auto");
        reveal_strlit("on");
        reveal_strlit("off");
        assert("on"@ != "auto"@) by {
            assert("on"@.len() != "auto"@.len());
        }
        assert("off"@ != "auto"@) by {
            assert("off"@.len() != "auto"@.len());
        }
        assert("off"@ != "on"@) by {
            assert("off"@.len() != "on"@.len());
        }
    }
    if eq_str(l, "auto") {
        Ok(GpuMode::Auto)
    } else if eq_str(l, "on") {
        Ok(GpuMode::On)
    } else if eq_str(l, "off") {
        Ok(GpuMode::Off)
    } else {
        let mut e = String::new();
        push_str(&mut e, "unknown gpu acceleration mode: ");
        push_str(&mut e, mode);
        assert(e@ =~= "unknown gpu acceleration mode: "@ + mode@);
        Err(e)
    }
}

/// The effect tier that the settings page may store: one of the known tier
/// names, trimmed and lower-cased, which is what gets written.
pub fn parse_effect_tier(tier: &str) -> (r: Result<String, String>)
    ensures
        ({
            let v = lower(trim(tier@));
            let known = v == "auto"@ || v == "ultra"@ || v == "high"@ || v == "mid"@ || v
                == "low"@;
            &&& known ==> (r matches Ok(s) && s@ == v)
            &&& !known ==> (r matches Err(e) && e@ == "unknown effect tier: "@ + tier@)
        }),
{
    let v = chars_of(tier);
    let l = lower_vec(trim_slice(v.as_slice()));
    let ls = l.as_slice();
    if eq_str(ls, "auto") || eq_str(ls, "ultra") || eq_str(ls, "high") || eq_str(ls, "mid")
        || eq_str(ls, "low") {
        Ok(crate::text::string_of(ls))
    } else {
        let mut e = String::new();
        push_str(&mut e, "unknown effect tier: ");
        push_str(&mut e, tier);
        Err(e)
    }
}

/// Whether this run composes with the GPU: the user's choice where there is
/// one, else only on a high tier machine.
pub open spec fn gpu_enabled_spec(mode: GpuMode, tier: DeviceTier) -> bool {
    match mode {
        GpuMode::On => true,
        GpuMode::Off => false,
        GpuMode::Auto => tier == DeviceTier::High,
    }
}

pub fn gpu_enabled(mode: GpuMode, tier: DeviceTier) -> (r: bool)
    ensures
        r == gpu_enabled_spec(mode, tier),
{
    match mode {
        GpuMode::On => true,
        GpuMode::Off => false,
        GpuMode::Auto => tier == DeviceTier::High,
    }
}

/// The tier forced by the `LISTEN1_DEVICE_TIER` variable, any ASCII case.
pub open spec fn forced_tier_spec(value: Seq<char>) -> Option<DeviceTier> {
    let v = lower(value);
    if v == "high"@ {
        Some(DeviceTier::High)
    } else if v == "mid"@ {
        Some(DeviceTier::Mid)
    } else if v == "low"@ {
        Some(DeviceTier::Low)
    } else {
        None
    }
}

pub fn forced_tier(value: &str) -> (r: Option<DeviceTier>)
    ensures
        r == forced_tier_spec(value@),
{
    let v = chars_of(value);
    let l = lower_vec(v.as_slice());
    let l = l.as_slice();
    if eq_str(l, "high") {
        Some(DeviceTier::High)
    } else if eq_str(l, "mid") {
        Some(DeviceTier::Mid)
    } else if eq_str(l, "low") {
        Some(DeviceTier::Low)
    } else {
        None
    }
}

pub open spec fn is_ascii_digit_byte(b: u8) -> bool {
    48 <= b <= 57
}

pub open spec fn is_ascii_alnum_byte(b: u8) -> bool {
    (48 <= b <= 57) || (65 <= b <= 90) || (97 <= b <= 122)
}

/// A `u` (either case) at `i` that ends a model number: a digit before it and
/// no letter or digit after it.
pub open spec fn u_suffix_at(b: Seq<u8>, i: int) -> bool {
    &&& 0 < i < b.len()
    &&& (b[i] == 117 || b[i] == 85)
    &&& is_ascii_digit_byte(b[i - 1])
    &&& (i + 1 == b.len() || !is_ascii_alnum_byte(b[i + 1]))
}

/// A low-voltage CPU: its brand has a model number ending in `u`, as in
/// `i5-8250u` (but not `ultra` or `155h`).
pub open spec fn low_voltage_brand(brand: Seq<char>) -> bool {
    exists|i: int| #[trigger] u_suffix_at(encode_utf8(brand), i)
}

pub fn is_low_voltage_cpu(brand: &str) -> (r: bool)
    ensures
        r == low_voltage_brand(brand@),
{
    let bytes = brand.as_bytes();
    let mut i: usize = 1;
    if bytes.len() == 0 {
        assert forall|j: int| !#[trigger] u_suffix_at(encode_utf8(brand@), j) by {}
        return false;
    }
    while i < bytes.len()
        invariant
            1 <= i <= bytes@.len(),
            bytes@ == encode_utf8(brand@),
            forall|j: int| 0 <= j < i ==> !#[trigger] u_suffix_at(bytes@, j),
        decreases bytes@.len() - i,
    {
        let b = bytes[i];
        if (b == 117 || b == 85) && (48 <= bytes[i - 1] && bytes[i - 1] <= 57) {
            let boundary = if i + 1 == bytes.len() {
                true
            } else {
                let n = bytes[i + 1];
                !((48 <= n && n <= 57) || (65 <= n && n <= 90) || (97 <= n && n <= 122))
            };
            if boundary {
                assert(u_suffix_at(bytes@, i as int));
                return true;
            }
        }
        i += 1;
    }
    assert forall|j: int| !#[trigger] u_suffix_at(encode_utf8(brand@), j) by {
        if 0 <= j < i {
        }
    }
    false
}

/// Brands that are modern and fast whatever the core count and clock that
/// the system reports.
pub open spec fn modern_brand(brand: Seq<char>) -> bool {
    ||| contains(brand, "ultra"@)
    ||| contains(brand, "ryzen 9"@)
    ||| contains(brand, "ryzen 7"@)
    ||| contains(brand, "ryzen ai"@)
    ||| contains(brand, "core i9"@)
    ||| contains(brand, "core i7"@)
}

/// The CPU class: 2 fast, 1 middling, 0 slow.
pub open spec fn cpu_class(logical: nat, physical: nat, clock_mhz: u64, brand: Seq<char>) -> int {
    if modern_brand(brand) || (logical >= 8 && clock_mhz >= 2800) || (physical >= 6 && clock_mhz
        >= 2400) {
        2
    } else if logical >= 4 && clock_mhz >= 1600 {
        1
    } else {
        0
    }
}

/// What the system reports of the machine.
#[derive(Debug, Clone)]
pub struct MachineInfo {
    /// Total memory in bytes.
    pub total_memory: u64,
    /// Logical CPUs listed (0 where the list is empty).
    pub logical_cpus: usize,
    /// Physical cores, where the system can tell.
    pub physical_cores: Option<usize>,
    /// Clock of the first CPU in MHz (0 where there is none).
    pub clock_mhz: u64,
    /// Brand of the first CPU, as reported (empty where there is none).
    pub brand: String,
    /// Whether a discrete GPU was found.
    pub has_discrete_gpu: bool,
}

/// The tier of a desktop machine: under 4 GiB of memory is low; a slow or
/// middling CPU is low; a fast CPU is high with a discrete GPU and mid
/// without, except that a low-voltage CPU without a discrete GPU is low.
pub open spec fn tier_spec(m: MachineInfo) -> DeviceTier {
    let total_gb = m.total_memory / 1073741824;
    let logical: nat = if m.logical_cpus == 0 { 1 } else { m.logical_cpus as nat };
    let physical: nat = match m.physical_cores {
        Some(n) => if n == 0 { 1 } else { n as nat },
        None => logical / 2,
    };
    let brand = lower(m.brand@);
    let class = cpu_class(logical, physical, m.clock_mhz, brand);
    if total_gb < 4 {
        DeviceTier::Low
    } else if class == 0 {
        DeviceTier::Low
    } else if low_voltage_brand(brand) && !m.has_discrete_gpu {
        DeviceTier::Low
    } else if class == 2 && m.has_discrete_gpu {
        DeviceTier::High
    } else if class == 2 {
        DeviceTier::Mid
    } else {
        DeviceTier::Low
    }
}

pub fn classify(m: &MachineInfo) -> (r: DeviceTier)
    ensures
        r == tier_spec(*m),
{
    let total_gb = m.total_memory / 1073741824;
    if total_gb < 4 {
        return DeviceTier::Low;
    }
    let logical: usize = if m.logical_cpus == 0 {
        1
    } else {
        m.logical_cpus
    };
    let physical: usize = match m.physical_cores {
        Some(n) => if n == 0 {
            1
        } else {
            n
        },
        None => logical / 2,
    };
    let bv = chars_of(m.brand.as_str());
    let brand_v = lower_vec(bv.as_slice());
    let brand_v = brand_v.as_slice();
    let modern = contains_str(brand_v, "ultra") || contains_str(brand_v, "ryzen 9")
        || contains_str(brand_v, "ryzen 7") || contains_str(brand_v, "ryzen ai") || contains_str(
        brand_v,
        "core i9",
    ) || contains_str(brand_v, "core i7");
    let class: u8 = if modern || (logical >= 8 && m.clock_mhz >= 2800) || (physical >= 6
        && m.clock_mhz >= 2400) {
        2
    } else if logical >= 4 && m.clock_mhz >= 1600 {
        1
    } else {
        0
    };
    if class == 0 {
        return DeviceTier::Low;
    }
    let brand = crate::text::string_of(brand_v);
    if is_low_voltage_cpu(brand.as_str()) && !m.has_discrete_gpu {
        return DeviceTier::Low;
    }
    if class == 2 && m.has_discrete_gpu {
        DeviceTier::High
    } else if class == 2 {
        DeviceTier::Mid
    } else {
        DeviceTier::Low
    }
}

/// Whether a graphics device's vendor file names the VMware virtual adapter.
pub open spec fn vmware_vendor(text: Seq<char>) -> bool {
    trim(text) == "0x15ad"@
}

/// On Linux the machine counts as having hardware acceleration unless one of
/// its graphics devices is VMware's virtual adapter; `vendors` holds the
/// vendor files that could be read.
pub fn accelerated_from_vendors(vendors: &[String]) -> (r: bool)
    ensures
        r == !(exists|i: int| 0 <= i < vendors@.len() && #[trigger] vmware_vendor(vendors@[i]@)),
{
    let mut i: usize = 0;
    while i < vendors.len()
        invariant
            i <= vendors@.len(),
            forall|j: int| 0 <= j < i ==> !#[trigger] vmware_vendor(vendors@[j]@),
        decreases vendors@.len() - i,
    {
        let v = chars_of(vendors[i].as_str());
        if eq_str(trim_slice(v.as_slice()), "0x15ad") {
            assert(vmware_vendor(vendors@[i as int]@));
            return false;
        }
        i += 1;
    }
    true
}

/// A low-voltage CPU never earns more than the flat tier on its own: without
/// a discrete GPU it is low whatever else the machine has.
pub proof fn lemma_low_voltage_without_gpu_is_low(m: MachineInfo)
    requires
        low_voltage_brand(lower(m.brand@)),
        !m.has_discrete_gpu,
    ensures
        tier_spec(m) == DeviceTier::Low,
{
}

/// The high tier needs a discrete GPU.
pub proof fn lemma_high_needs_gpu(m: MachineInfo)
    requires
        tier_spec(m) == DeviceTier::High,
    ensures
        m.has_discrete_gpu,
{
}

/// What is stored by the settings page reads back as the same switch.
pub proof fn lemma_gpu_setting_round_trip(mode: GpuMode)
    ensures
        gpu_mode_of(mode.name()) == mode,
{
    reveal_strlit("auto");
    reveal_strlit("on");
    reveal_strlit("off");
    reveal_strlit("true");
    reveal_strlit("1");
    reveal_strlit("yes");
    reveal_strlit("false");
    reveal_strlit("0");
    reveal_strlit("no");
    let n = mode.name();
    assert(trim_start(n) == n);
    assert(crate::text::trim_end(n) == n);
    assert(lower(n) =~= n);
}

/// The name of each tier, set in the environment, forces that tier.
pub proof fn lemma_forced_tier_round_trip(t: DeviceTier)
    ensures
        forced_tier_spec(t.name()) == Some(t),
{
    reveal_strlit("high");
    reveal_strlit("mid");
    reveal_strlit("low");
    let n = t.name();
    assert(lower(n) =~= n);
    assert("mid"@.len() != "high"@.len() && "low"@.len() != "high"@.len());
    assert("low"@[0] != "mid"@[0]);
}

/// The usual words for yes and no, in any case and with white space around
/// them, switch the GPU on and off.
pub proof fn lemma_gpu_switch_words(raw: Seq<char>)
    ensures
        lower(trim(raw)) == "true"@ || lower(trim(raw)) == "yes"@ || lower(trim(raw)) == "1"@
            ==> gpu_mode_of(raw) == GpuMode::On,
        lower(trim(raw)) == "false"@ || lower(trim(raw)) == "no"@ || lower(trim(raw)) == "0"@
            ==> gpu_mode_of(raw) == GpuMode::Off,
{
    reveal_strlit("on");
    reveal_strlit("off");
    reveal_strlit("true");
    reveal_strlit("1");
    reveal_strlit("yes");
    reveal_strlit("false");
    reveal_strlit("0");
    reveal_strlit("no");
    let v = lower(trim(raw));
    if v == "false"@ {
        assert(v.len() != "on"@.len() && v.len() != "1"@.len() && v.len() != "yes"@.len());
        assert(v[0] != "true"@[0]);
    }
    if v == "no"@ {
        assert(v.len() != "true"@.len() && v.len() != "1"@.len() && v.len() != "yes"@.len());
        assert(v[0] != "on"@[0]);
    }
    if v == "0"@ {
        assert(v.len() != "true"@.len() && v.len() != "on"@.len() && v.len() != "yes"@.len());
        assert(v[0] != "1"@[0]);
    }
}

} // verus!
