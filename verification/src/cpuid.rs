//! CPU identification: decoding the raw CPUID leaves the boot path gathers
//! into a feature record, and the feature tests the kernel makes on it. The
//! instruction itself runs outside this crate; the decoding is here.

use vstd::prelude::*;

verus! {

/// The four registers one CPUID invocation fills.
#[derive(Clone, Copy, PartialEq, Eq, Structural, Debug)]
pub struct CpuidLeaf {
    pub eax: u32,
    pub ebx: u32,
    pub ecx: u32,
    pub edx: u32,
}

/// What the kernel knows about the processor after decoding.
pub struct CpuInfo {
    /// Vendor string bytes: EBX, EDX, ECX of leaf 0, least significant byte
    /// first.
    pub vendor: Vec<u8>,
    pub max_standard_leaf: u32,
    pub max_extended_leaf: u32,
    pub features_ecx: u32,
    pub features_edx: u32,
    /// Brand string bytes from the three extended name leaves, or 48 zero
    /// bytes when the processor lacks them.
    pub processor_name: Vec<u8>,
    pub cores_per_package: u32,
    /// Advisory only; the raw CPUID decode of this value is not reliable.
    pub threads_per_core: u32,
}

/// Feature bits of CPUID leaf 1 ECX, in bit order from bit 0; bit 16 is
/// reserved and skipped.
#[derive(Clone, Copy, PartialEq, Eq, Structural, Debug)]
pub enum CpuFeatureEcx {
    Sse3,
    Pclmul,
    Dtes64,
    Monitor,
    DsCpl,
    Vmx,
    Smx,
    Est,
    Tm2,
    Ssse3,
    Cid,
    Sdbg,
    Fma,
    Cx16,
    Xtpr,
    Pdcm,
    Pcid,
    Dca,
    Sse41,
    Sse42,
    X2apic,
    Movbe,
    Popcnt,
    Tsc,
    Aes,
    Xsave,
    Osxsave,
    Avx,
    F16c,
    Rdrand,
    Hypervisor,
}

impl CpuFeatureEcx {
    /// The mask of this feature's bit in leaf 1 ECX.
    pub open spec fn mask_spec(self) -> u32 {
        match self {
            CpuFeatureEcx::Sse3 => 0x1,
            CpuFeatureEcx::Pclmul => 0x2,
            CpuFeatureEcx::Dtes64 => 0x4,
            CpuFeatureEcx::Monitor => 0x8,
            CpuFeatureEcx::DsCpl => 0x10,
            CpuFeatureEcx::Vmx => 0x20,
            CpuFeatureEcx::Smx => 0x40,
            CpuFeatureEcx::Est => 0x80,
            CpuFeatureEcx::Tm2 => 0x100,
            CpuFeatureEcx::Ssse3 => 0x200,
            CpuFeatureEcx::Cid => 0x400,
            CpuFeatureEcx::Sdbg => 0x800,
            CpuFeatureEcx::Fma => 0x1000,
            CpuFeatureEcx::Cx16 => 0x2000,
            CpuFeatureEcx::Xtpr => 0x4000,
            CpuFeatureEcx::Pdcm => 0x8000,
            CpuFeatureEcx::Pcid => 0x20000,
            CpuFeatureEcx::Dca => 0x40000,
            CpuFeatureEcx::Sse41 => 0x80000,
            CpuFeatureEcx::Sse42 => 0x100000,
            CpuFeatureEcx::X2apic => 0x200000,
            CpuFeatureEcx::Movbe => 0x400000,
            CpuFeatureEcx::Popcnt => 0x800000,
            CpuFeatureEcx::Tsc => 0x1000000,
            CpuFeatureEcx::Aes => 0x2000000,
            CpuFeatureEcx::Xsave => 0x4000000,
            CpuFeatureEcx::Osxsave => 0x8000000,
            CpuFeatureEcx::Avx => 0x10000000,
            CpuFeatureEcx::F16c => 0x20000000,
            CpuFeatureEcx::Rdrand => 0x40000000,
            CpuFeatureEcx::Hypervisor => 0x80000000,
        }
    }

    /// The mask of this feature's bit in leaf 1 ECX.
    #[verifier::when_used_as_spec(mask_spec)]
    pub fn mask(self) -> (r: u32)
        ensures
            r == self.mask_spec(),
    {
        match self {
            CpuFeatureEcx::Sse3 => 0x1,
            CpuFeatureEcx::Pclmul => 0x2,
            CpuFeatureEcx::Dtes64 => 0x4,
            CpuFeatureEcx::Monitor => 0x8,
            CpuFeatureEcx::DsCpl => 0x10,
            CpuFeatureEcx::Vmx => 0x20,
            CpuFeatureEcx::Smx => 0x40,
            CpuFeatureEcx::Est => 0x80,
            CpuFeatureEcx::Tm2 => 0x100,
            CpuFeatureEcx::Ssse3 => 0x200,
            CpuFeatureEcx::Cid => 0x400,
            CpuFeatureEcx::Sdbg => 0x800,
            CpuFeatureEcx::Fma => 0x1000,
            CpuFeatureEcx::Cx16 => 0x2000,
            CpuFeatureEcx::Xtpr => 0x4000,
            CpuFeatureEcx::Pdcm => 0x8000,
            CpuFeatureEcx::Pcid => 0x20000,
            CpuFeatureEcx::Dca => 0x40000,
            CpuFeatureEcx::Sse41 => 0x80000,
            CpuFeatureEcx::Sse42 => 0x100000,
            CpuFeatureEcx::X2apic => 0x200000,
            CpuFeatureEcx::Movbe => 0x400000,
            CpuFeatureEcx::Popcnt => 0x800000,
            CpuFeatureEcx::Tsc => 0x1000000,
            CpuFeatureEcx::Aes => 0x2000000,
            CpuFeatureEcx::Xsave => 0x4000000,
            CpuFeatureEcx::Osxsave => 0x8000000,
            CpuFeatureEcx::Avx => 0x10000000,
            CpuFeatureEcx::F16c => 0x20000000,
            CpuFeatureEcx::Rdrand => 0x40000000,
            CpuFeatureEcx::Hypervisor => 0x80000000,
        }
    }
}

/// Feature bits of CPUID leaf 1 EDX, in bit order; reserved bits are
/// skipped.
#[derive(Clone, Copy, PartialEq, Eq, Structural, Debug)]
pub enum CpuFeatureEdx {
    Fpu,
    Vme,
    De,
    Pse,
    Tsc,
    Msr,
    Pae,
    Mce,
    Cx8,
    Apic,
    Sep,
    Mtrr,
    Pge,
    Mca,
    Cmov,
    Pat,
    Pse36,
    Psn,
    Clflush,
    Ds,
    Acpi,
    Mmx,
    Fxsr,
    Sse,
    Sse2,
    Ss,
    Htt,
    Tm,
    Ia64,
    Pbe,
}

impl CpuFeatureEdx {
    /// The mask of this feature's bit in leaf 1 EDX.
    pub open spec fn mask_spec(self) -> u32 {
        match self {
            CpuFeatureEdx::Fpu => 0x1,
            CpuFeatureEdx::Vme => 0x2,
            CpuFeatureEdx::De => 0x4,
            CpuFeatureEdx::Pse => 0x8,
            CpuFeatureEdx::Tsc => 0x10,
            CpuFeatureEdx::Msr => 0x20,
            CpuFeatureEdx::Pae => 0x40,
            CpuFeatureEdx::Mce => 0x80,
            CpuFeatureEdx::Cx8 => 0x100,
            CpuFeatureEdx::Apic => 0x200,
            CpuFeatureEdx::Sep => 0x800,
            CpuFeatureEdx::Mtrr => 0x1000,
            CpuFeatureEdx::Pge => 0x2000,
            CpuFeatureEdx::Mca => 0x4000,
            CpuFeatureEdx::Cmov => 0x8000,
            CpuFeatureEdx::Pat => 0x10000,
            CpuFeatureEdx::Pse36 => 0x20000,
            CpuFeatureEdx::Psn => 0x40000,
            CpuFeatureEdx::Clflush => 0x80000,
            CpuFeatureEdx::Ds => 0x200000,
            CpuFeatureEdx::Acpi => 0x400000,
            CpuFeatureEdx::Mmx => 0x800000,
            CpuFeatureEdx::Fxsr => 0x1000000,
            CpuFeatureEdx::Sse => 0x2000000,
            CpuFeatureEdx::Sse2 => 0x4000000,
            CpuFeatureEdx::Ss => 0x8000000,
            CpuFeatureEdx::Htt => 0x10000000,
            CpuFeatureEdx::Tm => 0x20000000,
            CpuFeatureEdx::Ia64 => 0x40000000,
            CpuFeatureEdx::Pbe => 0x80000000,
        }
    }

    /// The mask of this feature's bit in leaf 1 EDX.
    #[verifier::when_used_as_spec(mask_spec)]
    pub fn mask(self) -> (r: u32)
        ensures
            r == self.mask_spec(),
    {
        match self {
            CpuFeatureEdx::Fpu => 0x1,
            CpuFeatureEdx::Vme => 0x2,
            CpuFeatureEdx::De => 0x4,
            CpuFeatureEdx::Pse => 0x8,
            CpuFeatureEdx::Tsc => 0x10,
            CpuFeatureEdx::Msr => 0x20,
            CpuFeatureEdx::Pae => 0x40,
            CpuFeatureEdx::Mce => 0x80,
            CpuFeatureEdx::Cx8 => 0x100,
            CpuFeatureEdx::Apic => 0x200,
            CpuFeatureEdx::Sep => 0x800,
            CpuFeatureEdx::Mtrr => 0x1000,
            CpuFeatureEdx::Pge => 0x2000,
            CpuFeatureEdx::Mca => 0x4000,
            CpuFeatureEdx::Cmov => 0x8000,
            CpuFeatureEdx::Pat => 0x10000,
            CpuFeatureEdx::Pse36 => 0x20000,
            CpuFeatureEdx::Psn => 0x40000,
            CpuFeatureEdx::Clflush => 0x80000,
            CpuFeatureEdx::Ds => 0x200000,
            CpuFeatureEdx::Acpi => 0x400000,
            CpuFeatureEdx::Mmx => 0x800000,
            CpuFeatureEdx::Fxsr => 0x1000000,
            CpuFeatureEdx::Sse => 0x2000000,
            CpuFeatureEdx::Sse2 => 0x4000000,
            CpuFeatureEdx::Ss => 0x8000000,
            CpuFeatureEdx::Htt => 0x10000000,
            CpuFeatureEdx::Tm => 0x20000000,
            CpuFeatureEdx::Ia64 => 0x40000000,
            CpuFeatureEdx::Pbe => 0x80000000,
        }
    }
}

impl CpuInfo {
    /// Whether leaf 1 ECX reports this feature.
    pub fn has_feature_ecx(&self, feature: CpuFeatureEcx) -> (r: bool)
        ensures
            r == (self.features_ecx & feature.mask_spec() != 0),
    {
        self.features_ecx & feature.mask() != 0
    }

    /// Whether leaf 1 EDX reports this feature.
    pub fn has_feature_edx(&self, feature: CpuFeatureEdx) -> (r: bool)
        ensures
            r == (self.features_edx & feature.mask_spec() != 0),
    {
        self.features_edx & feature.mask() != 0
    }
}

/// The little-endian bytes of a register, least significant first.
pub open spec fn le_bytes(w: u32) -> Seq<u8> {
    seq![
        (w & 0xFF) as u8,
        ((w >> 8) & 0xFF) as u8,
        ((w >> 16) & 0xFF) as u8,
        ((w >> 24) & 0xFF) as u8,
    ]
}

/// Pushes the little-endian bytes of `w`.
fn push_le_bytes(v: &mut Vec<u8>, w: u32)
    ensures
        final(v)@ == old(v)@ + le_bytes(w),
{
    let ghost pre = v@;
    #[verifier::truncate]
    let b0 = (w & 0xFF) as u8;
    #[verifier::truncate]
    let b1 = ((w >> 8) & 0xFF) as u8;
    #[verifier::truncate]
    let b2 = ((w >> 16) & 0xFF) as u8;
    #[verifier::truncate]
    let b3 = ((w >> 24) & 0xFF) as u8;
    v.push(b0);
    v.push(b1);
    v.push(b2);
    v.push(b3);
    proof {
        let x = w;
        assert((x & 0xFF) < 256 && ((x >> 8) & 0xFF) < 256 && ((x >> 16) & 0xFF) < 256 && ((x
            >> 24) & 0xFF) < 256) by (bit_vector);
        assert(v@ =~= pre + le_bytes(w));
    }
}

/// The 16 brand-string bytes one extended name leaf contributes: its four
/// registers in EAX, EBX, ECX, EDX order, each little-endian.
pub open spec fn name_bytes(l: CpuidLeaf) -> Seq<u8> {
    le_bytes(l.eax) + le_bytes(l.ebx) + le_bytes(l.ecx) + le_bytes(l.edx)
}

/// Decodes the CPUID leaves the boot path gathered. The vendor string comes
/// from leaf 0's EBX, EDX, ECX in little-endian byte order; the feature
/// words from leaf 1 when the processor has it; the brand string from the
/// three extended name leaves when present; the core count from leaf 4 or
/// extended leaf 8 as available.
pub fn analyze_cpuid(
    leaf0: CpuidLeaf,
    leaf1: CpuidLeaf,
    ext0: CpuidLeaf,
    name2: CpuidLeaf,
    name3: CpuidLeaf,
    name4: CpuidLeaf,
    leaf4: CpuidLeaf,
    ext8: CpuidLeaf,
) -> (r: CpuInfo)
    ensures
        r.max_standard_leaf == leaf0.eax,
        r.max_extended_leaf == ext0.eax,
        r.vendor@ == le_bytes(leaf0.ebx) + le_bytes(leaf0.edx) + le_bytes(leaf0.ecx),
        r.processor_name@ == (if ext0.eax >= 0x80000004 {
            name_bytes(name2) + name_bytes(name3) + name_bytes(name4)
        } else {
            Seq::new(48, |i: int| 0u8)
        }),
        r.features_ecx == (if leaf0.eax >= 1 {
            leaf1.ecx
        } else {
            0u32
        }),
        r.features_edx == (if leaf0.eax >= 1 {
            leaf1.edx
        } else {
            0u32
        }),
        r.threads_per_core == (if leaf0.eax >= 1 && (leaf1.ebx >> 16) & 0xFF != 0 {
            (leaf1.ebx >> 16) & 0xFF
        } else {
            1u32
        }),
        r.cores_per_package == (if leaf0.eax >= 4 {
            (((leaf4.eax >> 26) & 0x3F) + 1) as u32
        } else if ext0.eax >= 0x80000008 {
            ((ext8.ecx & 0xFF) + 1) as u32
        } else {
            0u32
        }),
{
    let mut vendor: Vec<u8> = Vec::new();
    push_le_bytes(&mut vendor, leaf0.ebx);
    push_le_bytes(&mut vendor, leaf0.edx);
    push_le_bytes(&mut vendor, leaf0.ecx);
    let mut processor_name: Vec<u8> = Vec::new();
    if ext0.eax >= 0x80000004 {
        push_le_bytes(&mut processor_name, name2.eax);
        push_le_bytes(&mut processor_name, name2.ebx);
        push_le_bytes(&mut processor_name, name2.ecx);
        push_le_bytes(&mut processor_name, name2.edx);
        push_le_bytes(&mut processor_name, name3.eax);
        push_le_bytes(&mut processor_name, name3.ebx);
        push_le_bytes(&mut processor_name, name3.ecx);
        push_le_bytes(&mut processor_name, name3.edx);
        push_le_bytes(&mut processor_name, name4.eax);
        push_le_bytes(&mut processor_name, name4.ebx);
        push_le_bytes(&mut processor_name, name4.ecx);
        push_le_bytes(&mut processor_name, name4.edx);
        proof {
            assert(processor_name@ =~= name_bytes(name2) + name_bytes(name3) + name_bytes(
                name4,
            ));
        }
    } else {
        let mut z: usize = 0;
        while z < 48
            invariant
                z <= 48,
                processor_name@ =~= Seq::new(z as nat, |i: int| 0u8),
            decreases 48 - z,
        {
            processor_name.push(0);
            proof {
                assert(processor_name@ =~= Seq::new((z + 1) as nat, |i: int| 0u8));
            }
            z = z + 1;
        }
    }
    let mut features_ecx: u32 = 0;
    let mut features_edx: u32 = 0;
    let mut threads_per_core: u32 = 1;
    if leaf0.eax >= 1 {
        features_ecx = leaf1.ecx;
        features_edx = leaf1.edx;
        let raw = (leaf1.ebx >> 16) & 0xFF;
        if raw != 0 {
            threads_per_core = raw;
        }
    }
    let cores_per_package: u32 = if leaf0.eax >= 4 {
        proof {
            let x = leaf4.eax;
            assert(((x >> 26) & 0x3F) + 1 <= 0x40) by (bit_vector);
        }
        ((leaf4.eax >> 26) & 0x3F) + 1
    } else if ext0.eax >= 0x80000008 {
        proof {
            let x = ext8.ecx;
            assert((x & 0xFF) + 1 <= 0x100) by (bit_vector);
        }
        (ext8.ecx & 0xFF) + 1
    } else {
        0
    };
    CpuInfo {
        vendor,
        processor_name,
        max_standard_leaf: leaf0.eax,
        max_extended_leaf: ext0.eax,
        features_ecx,
        features_edx,
        cores_per_package,
        threads_per_core,
    }
}

} // verus!
