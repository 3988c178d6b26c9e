//! The target platform that a compile may be tuned for.

use vstd::prelude::*;

verus! {

/// `HS_TUNE_FAMILY_GENERIC`: tuning for generic.
pub const HS_TUNE_FAMILY_GENERIC: u32 = 0;

/// `HS_TUNE_FAMILY_SNB`: tuning for Sandy Bridge.
pub const HS_TUNE_FAMILY_SNB: u32 = 1;

/// `HS_TUNE_FAMILY_IVB`: tuning for Ivy Bridge.
pub const HS_TUNE_FAMILY_IVB: u32 = 2;

/// `HS_TUNE_FAMILY_HSW`: tuning for Haswell.
pub const HS_TUNE_FAMILY_HSW: u32 = 3;

/// `HS_TUNE_FAMILY_SLM`: tuning for Silvermont.
pub const HS_TUNE_FAMILY_SLM: u32 = 4;

/// `HS_TUNE_FAMILY_BDW`: tuning for Broadwell.
pub const HS_TUNE_FAMILY_BDW: u32 = 5;

/// `HS_TUNE_FAMILY_SKL`: tuning for Skylake.
pub const HS_TUNE_FAMILY_SKL: u32 = 6;

/// `HS_TUNE_FAMILY_SKX`: tuning for Skylake Server.
pub const HS_TUNE_FAMILY_SKX: u32 = 7;

/// `HS_TUNE_FAMILY_GLM`: tuning for Goldmont.
pub const HS_TUNE_FAMILY_GLM: u32 = 8;

/// Tuning Parameter
#[derive(Clone, Copy, Debug, PartialEq, Eq, Structural)]
pub enum Tune {
    /// Generic
    Generic,
    /// Intel(R) microarchitecture code name Sandy Bridge
    SandyBridge,
    /// Intel(R) microarchitecture code name Ivy Bridge
    IvyBridge,
    /// Intel(R) microarchitecture code name Haswell
    Haswell,
    /// Intel(R) microarchitecture code name Silvermont
    Silvermont,
    /// Intel(R) microarchitecture code name Broadwell
    Broadwell,
    /// Intel(R) microarchitecture code name Skylake
    Skylake,
    /// Intel(R) microarchitecture code name Skylake Server
    SkylakeServer,
    /// Intel(R) microarchitecture code name Goldmont
    Goldmont,
}

impl Tune {
    /// The tuning value that the engine reads.
    pub open spec fn spec_value(self) -> u32 {
        match self {
            Tune::Generic => 0,
            Tune::SandyBridge => 1,
            Tune::IvyBridge => 2,
            Tune::Haswell => 3,
            Tune::Silvermont => 4,
            Tune::Broadwell => 5,
            Tune::Skylake => 6,
            Tune::SkylakeServer => 7,
            Tune::Goldmont => 8,
        }
    }

    /// The tuning value that the engine reads.
    pub fn value(self) -> (r: u32)
        ensures
            r == self.spec_value(),
    {
        match self {
            Tune::Generic => 0,
            Tune::SandyBridge => 1,
            Tune::IvyBridge => 2,
            Tune::Haswell => 3,
            Tune::Silvermont => 4,
            Tune::Broadwell => 5,
            Tune::Skylake => 6,
            Tune::SkylakeServer => 7,
            Tune::Goldmont => 8,
        }
    }
}

impl Tune {
    /// Each tuning is the engine's constant for its family, and no two
    /// tunings share a value.
    pub proof fn lemma_value_engine(t: Tune, u: Tune)
        ensures
            t.spec_value() == match t {
                Tune::Generic => HS_TUNE_FAMILY_GENERIC,
                Tune::SandyBridge => HS_TUNE_FAMILY_SNB,
                Tune::IvyBridge => HS_TUNE_FAMILY_IVB,
                Tune::Haswell => HS_TUNE_FAMILY_HSW,
                Tune::Silvermont => HS_TUNE_FAMILY_SLM,
                Tune::Broadwell => HS_TUNE_FAMILY_BDW,
                Tune::Skylake => HS_TUNE_FAMILY_SKL,
                Tune::SkylakeServer => HS_TUNE_FAMILY_SKX,
                Tune::Goldmont => HS_TUNE_FAMILY_GLM,
            },
            t.spec_value() == u.spec_value() ==> t == u,
    {
    }
}

impl Default for Tune {
    fn default() -> (r: Tune)
        ensures
            r == Tune::Generic,
    {
        Tune::Generic
    }
}

/// CPU feature bit: Intel(R) Advanced Vector Extensions 2.
pub const HS_CPU_FEATURES_AVX2: u64 = 4;

/// CPU feature bit: Intel(R) Advanced Vector Extensions 512.
pub const HS_CPU_FEATURES_AVX512: u64 = 8;

/// CPU feature support flags.
#[derive(Clone, Copy, Debug, PartialEq, Eq, Structural)]
pub struct CpuFeatures {
    /// Intel(R) Advanced Vector Extensions 2 (Intel(R) AVX2)
    pub avx2: bool,
    /// Intel(R) Advanced Vector Extensions 512 (Intel(R) AVX512)
    pub avx512: bool,
}

impl CpuFeatures {
    /// The feature bits that the engine reads.
    pub open spec fn spec_bits(self) -> u64 {
        ((if self.avx2 { HS_CPU_FEATURES_AVX2 as int } else { 0 }) + (if self.avx512 {
            HS_CPU_FEATURES_AVX512 as int
        } else {
            0
        })) as u64
    }

    /// Each feature sets exactly its own constant's bit.
    pub proof fn lemma_bits_engine(f: CpuFeatures)
        ensures
            (f.spec_bits() & HS_CPU_FEATURES_AVX2 != 0) == f.avx2,
            (f.spec_bits() & HS_CPU_FEATURES_AVX512 != 0) == f.avx512,
    {
        let v = f.spec_bits();
        let a = f.avx2;
        let b = f.avx512;
        assert((v & 4 != 0) == a && (v & 8 != 0) == b) by (bit_vector)
            requires
                v == (if a { 4u64 } else { 0u64 }) + (if b { 8u64 } else { 0u64 }),
        ;
    }

    /// No feature.
    pub fn empty() -> (r: CpuFeatures)
        ensures
            r == (CpuFeatures { avx2: false, avx512: false }),
    {
        CpuFeatures { avx2: false, avx512: false }
    }

    /// The feature bits that the engine reads.
    pub fn bits(&self) -> (r: u64)
        ensures
            r == self.spec_bits(),
    {
        let a: u64 = if self.avx2 { HS_CPU_FEATURES_AVX2 } else { 0 };
        let b: u64 = if self.avx512 { HS_CPU_FEATURES_AVX512 } else { 0 };
        a + b
    }
}

impl Default for CpuFeatures {
    fn default() -> (r: CpuFeatures)
        ensures
            r == (CpuFeatures { avx2: false, avx512: false }),
    {
        CpuFeatures::empty()
    }
}

/// Information on the target platform which may be provided to the compile calls.
#[derive(Clone, Copy, Debug, PartialEq, Eq, Structural)]
pub struct Platform {
    /// The tuning parameter.
    pub tune: Tune,
    /// The CPU features.
    pub cpu_features: CpuFeatures,
}

impl Platform {
    /// Constructs a target platform which may be used to guide the optimisation process of the compile.
    pub fn new(tune: Tune, cpu_features: CpuFeatures) -> (r: Platform)
        ensures
            r == (Platform { tune, cpu_features }),
    {
        Platform { tune, cpu_features }
    }
}

} // verus!
