//! Hardware capability detection for adaptive viewport configuration.
//!
//! Uses `ai_hwaccel` to probe the system for GPU/accelerator hardware and maps the
//! results to editor-relevant quality tiers and feature flags.

use ai_hwaccel::AcceleratorRegistry;
use vstd::prelude::*;
use crate::text::{decimal, f64_of_u64, f64_of_u64_exec, one_decimal, push_decimal, push_one_decimal, round_half_even, round_half_even_u128};

verus! {

#[verifier::external_type_specification]
#[verifier::external_body]
pub struct ExAcceleratorRegistry(ai_hwaccel::AcceleratorRegistry);

/// The profiles a registry holds, in order, each as
/// `(available, is CPU, memory in bytes, rank, display name)`; the rank is the
/// registry's internal preference order between device types.
pub uninterp spec fn registry_profiles(r: AcceleratorRegistry) -> Seq<(bool, bool, u64, u32, Seq<char>)>;

/// Memory of the available non-CPU devices among `p`, summed.
pub open spec fn accelerator_memory(p: Seq<(bool, bool, u64, u32, Seq<char>)>) -> nat
    decreases p.len(),
{
    if p.len() == 0 {
        0
    } else {
        accelerator_memory(p.drop_last()) + if p.last().0 && !p.last().1 {
            p.last().2 as nat
        } else {
            0
        }
    }
}

/// Whether an available non-CPU device is among `p`.
pub open spec fn has_accelerator(p: Seq<(bool, bool, u64, u32, Seq<char>)>) -> bool {
    exists|i: int| 0 <= i < p.len() && (#[trigger] p[i]).0 && !p[i].1
}

/// `(is CPU, memory)` of the available devices, in order.
pub open spec fn available_devices(p: Seq<(bool, bool, u64, u32, Seq<char>)>) -> Seq<(bool, u64)> {
    p.filter(|d: (bool, bool, u64, u32, Seq<char>)| d.0).map_values(
        |d: (bool, bool, u64, u32, Seq<char>)| (d.1, d.2),
    )
}

/// Number of non-CPU devices in `s`.
pub open spec fn non_cpu_count(s: Seq<(bool, u64)>) -> nat
    decreases s.len(),
{
    if s.len() == 0 {
        0
    } else {
        non_cpu_count(s.drop_last()) + if s.last().0 { 0nat } else { 1nat }
    }
}

/// `p[i]` is the device `best_available` picks: available, of the highest rank among
/// available devices, and the last of that rank.
pub open spec fn is_best(p: Seq<(bool, bool, u64, u32, Seq<char>)>, i: int) -> bool {
    &&& 0 <= i < p.len()
    &&& p[i].0
    &&& forall|j: int| 0 <= j < p.len() && (#[trigger] p[j]).0 ==> p[j].3 <= p[i].3
    &&& forall|j: int| i < j < p.len() && (#[trigger] p[j]).0 ==> p[j].3 < p[i].3
}

/// `AcceleratorRegistry::has_accelerator`: an available non-CPU device exists.
pub assume_specification[ AcceleratorRegistry::has_accelerator ](r: &AcceleratorRegistry) -> (b: bool)
    ensures
        b == has_accelerator(registry_profiles(*r)),
;

/// `AcceleratorRegistry::total_accelerator_memory`: memory of available non-CPU devices,
/// summed in `u64`; the sum panics on overflow, which is left out.
pub assume_specification[ AcceleratorRegistry::total_accelerator_memory ](r: &AcceleratorRegistry) -> (m: u64)
    requires
        accelerator_memory(registry_profiles(*r)) <= u64::MAX,
    ensures
        m == accelerator_memory(registry_profiles(*r)),
;

/// `AcceleratorRegistry::available`, each device mapped to whether its family is CPU
/// and its memory.
#[verifier::external_body]
fn available_device_list(r: &AcceleratorRegistry) -> (v: Vec<(bool, u64)>)
    ensures
        v@ == available_devices(registry_profiles(*r)),
{
    r.available()
        .iter()
        .map(|p| (matches!(p.accelerator.family(), ai_hwaccel::AcceleratorFamily::Cpu), p.memory_bytes))
        .collect()
}

/// `AcceleratorRegistry::best_available`: the available device of highest rank (the last
/// one among equals), as its display name and whether it is a CPU.
#[verifier::external_body]
fn best_device(r: &AcceleratorRegistry) -> (d: Option<(String, bool)>)
    ensures
        match d {
            Some((name, cpu)) => exists|i: int| {
                &&& is_best(registry_profiles(*r), i)
                &&& name@ == registry_profiles(*r)[i].4
                &&& cpu == registry_profiles(*r)[i].1
            },
            None => forall|j: int| 0 <= j < registry_profiles(*r).len() ==> !(#[trigger] registry_profiles(*r)[j]).0,
        },
{
    r.best_available().map(|p| (format!("{}", p.accelerator), matches!(p.accelerator.family(), ai_hwaccel::AcceleratorFamily::Cpu)))
}

/// `AcceleratorRegistry::detect`: probes the machine; nothing is known of the outcome.
#[verifier::external_body]
fn detect_registry() -> (r: AcceleratorRegistry) {
    AcceleratorRegistry::detect()
}

/// Quality tier for viewport rendering, derived from hardware capabilities.
#[derive(Debug, Clone, Copy, PartialEq, Eq, Hash, Structural)]
pub enum QualityTier {
    /// Software fallback — CPU only, minimal effects.
    Low,
    /// Integrated or low-end discrete GPU.
    Medium,
    /// Discrete GPU with adequate VRAM (4+ GiB).
    High,
    /// High-end discrete GPU (8+ GiB VRAM, high bandwidth).
    Ultra,
}

impl Default for QualityTier {
    fn default() -> (r: Self)
        ensures
            r == QualityTier::Medium,
    {
        QualityTier::Medium
    }
}

/// Display name of a tier.
pub open spec fn tier_name(q: QualityTier) -> Seq<char> {
    match q {
        QualityTier::Low => "Low"@,
        QualityTier::Medium => "Medium"@,
        QualityTier::High => "High"@,
        QualityTier::Ultra => "Ultra"@,
    }
}

impl QualityTier {
    /// The tier's display name.
    pub fn to_string(&self) -> (r: String)
        ensures
            r@ == tier_name(*self),
    {
        match self {
            QualityTier::Low => String::from_str("Low"),
            QualityTier::Medium => String::from_str("Medium"),
            QualityTier::High => String::from_str("High"),
            QualityTier::Ultra => String::from_str("Ultra"),
        }
    }
}

/// The tier for the best device (`None`: no device; `Some(true)`: a CPU) and the total
/// accelerator memory: CPU or nothing is Low; below 4 GiB Medium; below 8 GiB High;
/// otherwise Ultra (whole GiB, rounded down).
pub open spec fn quality_for(best_is_cpu: Option<bool>, total_vram: u64) -> QualityTier {
    match best_is_cpu {
        None => QualityTier::Low,
        Some(true) => QualityTier::Low,
        Some(false) => {
            let gib = total_vram / 0x4000_0000;
            if gib <= 3 {
                QualityTier::Medium
            } else if gib <= 7 {
                QualityTier::High
            } else {
                QualityTier::Ultra
            }
        },
    }
}

/// Map hardware capabilities to a quality tier.
fn classify_quality(best_is_cpu: Option<bool>, total_vram: u64) -> (q: QualityTier)
    ensures
        q == quality_for(best_is_cpu, total_vram),
{
    match best_is_cpu {
        None => QualityTier::Low,
        Some(true) => QualityTier::Low,
        Some(false) => {
            let gib = total_vram / 0x4000_0000;
            if gib <= 3 {
                QualityTier::Medium
            } else if gib <= 7 {
                QualityTier::High
            } else {
                QualityTier::Ultra
            }
        },
    }
}

/// Editor-relevant hardware profile derived from system detection.
#[derive(Debug, Clone)]
pub struct HardwareProfile {
    /// Recommended quality tier for the viewport.
    pub quality: QualityTier,
    /// Whether a discrete GPU (or dedicated accelerator) is available.
    pub has_gpu: bool,
    /// Total GPU/accelerator memory in bytes (0 if CPU-only).
    pub gpu_memory_bytes: u64,
    /// Name of the best available device.
    pub device_name: String,
    /// Number of detected accelerators (excluding CPU).
    pub accelerator_count: usize,
}

impl Default for HardwareProfile {
    fn default() -> (r: Self)
        ensures
            r.quality == QualityTier::Medium,
            !r.has_gpu,
            r.gpu_memory_bytes == 0,
            r.device_name@ == "Unknown"@,
            r.accelerator_count == 0,
    {
        HardwareProfile {
            quality: QualityTier::Medium,
            has_gpu: false,
            gpu_memory_bytes: 0,
            device_name: String::from_str("Unknown"),
            accelerator_count: 0,
        }
    }
}

/// `hp` is the profile built from a registry whose profiles are `p`.
pub open spec fn profile_from(hp: HardwareProfile, p: Seq<(bool, bool, u64, u32, Seq<char>)>) -> bool {
    &&& hp.has_gpu == has_accelerator(p)
    &&& hp.gpu_memory_bytes == accelerator_memory(p)
    &&& hp.accelerator_count == non_cpu_count(available_devices(p))
    &&& if forall|j: int| 0 <= j < p.len() ==> !(#[trigger] p[j]).0 {
        &&& hp.device_name@ == "CPU"@
        &&& hp.quality == QualityTier::Low
    } else {
        exists|i: int| {
            &&& is_best(p, i)
            &&& hp.device_name@ == p[i].4
            &&& hp.quality == quality_for(Some(p[i].1), hp.gpu_memory_bytes)
        }
    }
}

/// `gpu_memory_display` output: "N/A" for no memory, else the size in GiB with one
/// decimal from 1 GiB on, below that whole MiB, as `{:.1}` / `{:.0}` print the `f64`
/// quotients.
pub open spec fn gpu_memory_text(bytes: u64) -> Seq<char> {
    if bytes == 0 {
        "N/A"@
    } else if f64_of_u64(bytes) >= 0x4000_0000 {
        one_decimal(f64_of_u64(bytes), 0x4000_0000) + " GiB"@
    } else {
        decimal(round_half_even(f64_of_u64(bytes), 0x10_0000)) + " MiB"@
    }
}

impl HardwareProfile {
    /// Detect hardware and build a profile for the editor from the detected registry.
    /// `None` exactly when that registry's available accelerator memory does not fit in a
    /// `u64` (summing it would overflow); otherwise the profile built from it.
    pub fn detect() -> (r: Option<Self>)
        ensures
            exists|reg: AcceleratorRegistry| {
                &&& (r is None <==> accelerator_memory(#[trigger] registry_profiles(reg)) > u64::MAX)
                &&& (r matches Some(hp) ==> profile_from(hp, registry_profiles(reg)))
            },
    {
        let registry = detect_registry();
        let r = if Self::accelerator_memory_fits(&registry) {
            Some(Self::from_registry(&registry))
        } else {
            None
        };
        proof {
            let p = registry_profiles(registry);
            assert(r is None <==> accelerator_memory(p) > u64::MAX);
            assert(r matches Some(hp) ==> profile_from(hp, p));
        }
        r
    }

    /// Whether the memory of the registry's available non-CPU devices sums within `u64`.
    pub fn accelerator_memory_fits(registry: &AcceleratorRegistry) -> (b: bool)
        ensures
            b == (accelerator_memory(registry_profiles(*registry)) <= u64::MAX),
    {
        let devices = available_device_list(registry);
        let mut total: u64 = 0;
        let mut i: usize = 0;
        proof {
            lemma_accelerator_memory_available(registry_profiles(*registry));
        }
        while i < devices.len()
            invariant
                i <= devices@.len(),
                devices@ == available_devices(registry_profiles(*registry)),
                total as nat == non_cpu_memory(devices@.take(i as int)),
                accelerator_memory(registry_profiles(*registry)) == non_cpu_memory(devices@),
            decreases devices@.len() - i,
        {
            let (cpu, mem) = devices[i];
            proof {
                assert(devices@.take(i + 1).drop_last() =~= devices@.take(i as int));
                lemma_non_cpu_memory_prefix(devices@, i as int);
            }
            if !cpu {
                if total > u64::MAX - mem {
                    proof {
                        lemma_non_cpu_memory_prefix_le(devices@, i + 1);
                    }
                    return false;
                }
                total = total + mem;
            }
            i = i + 1;
        }
        proof {
            assert(devices@.take(devices@.len() as int) =~= devices@);
        }
        true
    }

    /// Build a profile from an existing registry.
    pub fn from_registry(registry: &AcceleratorRegistry) -> (hp: Self)
        requires
            accelerator_memory(registry_profiles(*registry)) <= u64::MAX,
        ensures
            profile_from(hp, registry_profiles(*registry)),
    {
        let has_gpu = registry.has_accelerator();
        let gpu_memory_bytes = registry.total_accelerator_memory();
        let devices = available_device_list(registry);
        let mut accelerator_count: usize = 0;
        let mut i: usize = 0;
        while i < devices.len()
            invariant
                i <= devices@.len(),
                accelerator_count as nat == non_cpu_count(devices@.take(i as int)),
                accelerator_count <= i,
            decreases devices@.len() - i,
        {
            proof {
                assert(devices@.take(i + 1).drop_last() =~= devices@.take(i as int));
            }
            if !devices[i].0 {
                accelerator_count = accelerator_count + 1;
            }
            i = i + 1;
        }
        proof {
            assert(devices@.take(devices@.len() as int) =~= devices@);
        }
        let (device_name, quality) = match best_device(registry) {
            Some((name, cpu)) => (name, classify_quality(Some(cpu), gpu_memory_bytes)),
            None => (String::from_str("CPU"), classify_quality(None, gpu_memory_bytes)),
        };
        let hp = HardwareProfile { quality, has_gpu, gpu_memory_bytes, device_name, accelerator_count };
        hp
    }

    /// Whether debug shapes should be enabled by default: only on High/Ultra.
    pub fn default_debug_shapes(&self) -> (r: bool)
        ensures
            r == (self.quality == QualityTier::High || self.quality == QualityTier::Ultra),
    {
        match self.quality {
            QualityTier::High | QualityTier::Ultra => true,
            _ => false,
        }
    }

    /// GPU memory in human-readable format.
    pub fn gpu_memory_display(&self) -> (r: String)
        ensures
            r@ == gpu_memory_text(self.gpu_memory_bytes),
    {
        if self.gpu_memory_bytes == 0 {
            return String::from_str("N/A");
        }
        let value = f64_of_u64_exec(self.gpu_memory_bytes);
        let mut out = String::new();
        if value >= 0x4000_0000 {
            push_one_decimal(&mut out, value, 0x4000_0000);
            out.append(" GiB");
        } else {
            let mib = round_half_even_u128(value, 0x10_0000);
            push_decimal(&mut out, mib as u64);
            out.append(" MiB");
        }
        out
    }
}

/// Memory of the non-CPU devices in `s`, summed.
pub open spec fn non_cpu_memory(s: Seq<(bool, u64)>) -> nat
    decreases s.len(),
{
    if s.len() == 0 {
        0
    } else {
        non_cpu_memory(s.drop_last()) + if s.last().0 { 0nat } else { s.last().1 as nat }
    }
}

proof fn lemma_non_cpu_memory_prefix(s: Seq<(bool, u64)>, i: int)
    requires
        0 <= i < s.len(),
    ensures
        non_cpu_memory(s.take(i + 1)) == non_cpu_memory(s.take(i)) + if s[i].0 { 0nat } else { s[i].1 as nat },
{
    assert(s.take(i + 1).drop_last() =~= s.take(i));
}

proof fn lemma_non_cpu_memory_prefix_le(s: Seq<(bool, u64)>, i: int)
    requires
        0 <= i <= s.len(),
    ensures
        non_cpu_memory(s.take(i)) <= non_cpu_memory(s),
    decreases s.len() - i,
{
    if i < s.len() {
        lemma_non_cpu_memory_prefix_le(s, i + 1);
        lemma_non_cpu_memory_prefix(s, i);
    } else {
        assert(s.take(i) =~= s);
    }
}

/// The accelerator memory of a registry is that of its available devices.
proof fn lemma_accelerator_memory_available(p: Seq<(bool, bool, u64, u32, Seq<char>)>)
    ensures
        accelerator_memory(p) == non_cpu_memory(available_devices(p)),
    decreases p.len(),
{
    if p.len() > 0 {
        let q = p.drop_last();
        let d = p.last();
        lemma_accelerator_memory_available(q);
        assert(p =~= q.push(d));
        let avail = |d: (bool, bool, u64, u32, Seq<char>)| d.0;
        let proj = |d: (bool, bool, u64, u32, Seq<char>)| (d.1, d.2);
        q.lemma_filter_push(d, avail);
        if d.0 {
            q.filter(avail).lemma_push_map_commute(proj, d);
            assert(available_devices(p) =~= available_devices(q).push((d.1, d.2)));
            assert(available_devices(p).drop_last() =~= available_devices(q));
        } else {
            assert(available_devices(p) =~= available_devices(q));
        }
    } else {
        assert(available_devices(p) =~= Seq::<(bool, u64)>::empty()) by {
            reveal(Seq::filter);
        }
    }
}

/// Numeric order of the tiers.
pub open spec fn tier_level(q: QualityTier) -> nat {
    match q {
        QualityTier::Low => 0,
        QualityTier::Medium => 1,
        QualityTier::High => 2,
        QualityTier::Ultra => 3,
    }
}

/// More accelerator memory never lowers the tier, and a CPU-only machine is always Low.
pub proof fn law_quality_monotone_in_memory(is_cpu: bool, a: u64, b: u64)
    requires
        a <= b,
    ensures
        tier_level(quality_for(Some(is_cpu), a)) <= tier_level(quality_for(Some(is_cpu), b)),
        quality_for(Some(true), a) == QualityTier::Low,
        quality_for(None, a) == QualityTier::Low,
{
    assert(a / 0x4000_0000 <= b / 0x4000_0000) by (nonlinear_arith)
        requires a <= b;
}

} // verus!
