//! What the NVIDIA API's undocumented thermal call reports, and how the
//! widest sensor mask a driver accepts is found.
//!
//! The driver fills forty readings in 1/256 °C; a reading counts only when it
//! lies strictly between 0 and 255 °C. The sensor mask is found by trying the
//! single bits from the lowest up: the first bit the driver refuses ends the
//! search, and the mask is every bit below it.
use vstd::prelude::*;
use vstd::arithmetic::power2::{pow2, lemma2_to64, lemma_pow2_unfold};
use vstd::bits::lemma_u32_pow2_no_overflow;

verus! {

/// Index of the hotspot reading.
pub const HOTSPOT_SENSOR: usize = 9;

/// Index of the memory (VRAM) reading.
pub const VRAM_SENSOR: usize = 15;

/// Thermal readings as the driver fills them in.
#[derive(Debug)]
pub struct NvApiThermals {
    pub version: u32,
    pub mask: i32,
    pub values: [i32; 40],
}

/// The reading at `index` in whole degrees: the raw value divided by 256,
/// kept only strictly between 0 and 255.
pub open spec fn thermal_reading(values: Seq<i32>, index: int) -> Option<i32> {
    if 0 <= index < values.len() && 256 <= values[index] < 65280 {
        Some((values[index] / 256) as i32)
    } else {
        None
    }
}

/// Whether a raw reading in 1/256 °C lies strictly between 0 and 255 °C.
pub open spec fn reading_in_range(raw: int) -> bool {
    0 < raw < 65280
}

impl NvApiThermals {
    /// The reading at `index` in whole degrees (see `thermal_reading`).
    pub fn get_value(&self, index: usize) -> (r: Option<i32>)
        ensures
            r == thermal_reading(self.values@, index as int),
    {
        if index < 40 {
            let raw = self.values[index];
            if 256 <= raw && raw < 65280 {
                Some(raw / 256)
            } else {
                None
            }
        } else {
            None
        }
    }

    /// The hotspot temperature in whole degrees.
    pub fn hotspot(&self) -> (r: Option<i32>)
        ensures
            r == thermal_reading(self.values@, HOTSPOT_SENSOR as int),
    {
        self.get_value(HOTSPOT_SENSOR)
    }

    /// The memory temperature in whole degrees.
    pub fn vram(&self) -> (r: Option<i32>)
        ensures
            r == thermal_reading(self.values@, VRAM_SENSOR as int),
    {
        self.get_value(VRAM_SENSOR)
    }
}

/// Whether a raw reading in 1/256 °C is published as a temperature.
pub fn thermal_reading_in_range(raw: i32) -> (r: bool)
    ensures
        r == reading_in_range(raw as int),
{
    0 < raw && raw < 65280
}

/// The outcome of the driver's answer to the probe of bit `bit`: the mask
/// found, or `None` when the next bit is to be tried.
pub open spec fn step_result(bit: nat, accepted: bool) -> Option<u32> {
    if !accepted {
        Some((pow2(bit) - 1) as u32)
    } else if bit >= 31 {
        Some(u32::MAX)
    } else {
        None
    }
}

/// The mask the search ends with when the driver answers the probe of bit
/// `k` with `answers[k]`, from bit `bit` on.
pub open spec fn search_from(answers: Seq<bool>, bit: nat) -> u32
    decreases 32 - bit,
{
    if bit >= 32 {
        u32::MAX
    } else {
        match step_result(bit, answers[bit as int]) {
            Some(m) => m,
            None => search_from(answers, bit + 1),
        }
    }
}

/// The mask search finds exactly the bits below the first bit the driver
/// refuses, and all 32 bits when it refuses none.
pub proof fn lemma_mask_is_the_bits_below_the_first_refusal(answers: Seq<bool>, k: nat)
    requires
        answers.len() >= 32,
        k <= 32,
        forall|j: int| 0 <= j < k ==> #[trigger] answers[j],
    ensures
        k < 32 && !answers[k as int] ==> search_from(answers, 0) == (pow2(k) - 1) as u32,
        k == 32 ==> search_from(answers, 0) == u32::MAX,
{
    lemma_search_from(answers, 0, k);
}

proof fn lemma_search_from(answers: Seq<bool>, b: nat, k: nat)
    requires
        answers.len() >= 32,
        b <= k <= 32,
        forall|j: int| b <= j < k ==> #[trigger] answers[j],
    ensures
        k < 32 && !answers[k as int] ==> search_from(answers, b) == (pow2(k) - 1) as u32,
        k == 32 ==> search_from(answers, b) == u32::MAX,
    decreases k - b,
{
    if b < k {
        assert(answers[b as int]);
        if b < 31 {
            lemma_search_from(answers, b + 1, k);
        }
    }
}

/// One probe of the mask search: the single bit `bit` is being tried.
pub struct MaskProbe {
    bit: u32,
    mask: u32,
}

/// Where the search stands after an answer: try the next bit, or use the
/// mask found (as the driver's 32-bit mask word).
pub enum MaskSearch {
    Probe(MaskProbe),
    Found(u32),
}

impl MaskProbe {
    #[verifier::type_invariant]
    spec fn inv(self) -> bool {
        self.bit < 32 && self.mask == pow2(self.bit as nat)
    }

    /// The bit being tried.
    pub closed spec fn bit_spec(self) -> nat {
        self.bit as nat
    }

    /// The first probe: bit 0 alone.
    pub fn first() -> (p: MaskProbe)
        ensures
            p.bit_spec() == 0,
    {
        proof {
            lemma2_to64();
        }
        MaskProbe { bit: 0, mask: 1 }
    }

    /// The bit being tried.
    pub fn bit(&self) -> (b: u32)
        ensures
            b == self.bit_spec(),
            b < 32,
    {
        proof {
            use_type_invariant(self);
        }
        self.bit
    }

    /// The mask word to hand the driver for this probe: the tried bit alone.
    pub fn mask(&self) -> (m: u32)
        ensures
            m == pow2(self.bit_spec()),
    {
        proof {
            use_type_invariant(self);
        }
        self.mask
    }

    /// The search after the driver accepted or refused this probe: a
    /// refusal yields every bit below the refused one; acceptance of the
    /// last bit yields all 32 bits; otherwise the next bit is tried (see
    /// `step_result`).
    pub fn answer(self, accepted: bool) -> (r: MaskSearch)
        ensures
            self.bit_spec() < 32,
            match step_result(self.bit_spec(), accepted) {
                Some(m) => r == MaskSearch::Found(m),
                None => r matches MaskSearch::Probe(p) && p.bit_spec() == self.bit_spec() + 1,
            },
            !accepted ==> r == MaskSearch::Found((pow2(self.bit_spec()) - 1) as u32),
    {
        proof {
            use_type_invariant(&self);
            lemma_u32_pow2_no_overflow(self.bit as nat);
        }
        if !accepted {
            MaskSearch::Found(self.mask - 1)
        } else if self.bit == 31 {
            MaskSearch::Found(u32::MAX)
        } else {
            proof {
                lemma_pow2_unfold(self.bit as nat + 1);
                lemma_u32_pow2_no_overflow(self.bit as nat + 1);
            }
            MaskSearch::Probe(MaskProbe { bit: self.bit + 1, mask: self.mask * 2 })
        }
    }
}

/// The search after the opening call with mask 1: refused, the mask stays
/// 1; accepted, the single bits are tried from bit 0 up.
pub fn mask_search_start(accepted: bool) -> (r: MaskSearch)
    ensures
        !accepted ==> r == MaskSearch::Found(1),
        accepted ==> (r matches MaskSearch::Probe(p) && p.bit_spec() == 0),
{
    if accepted {
        MaskSearch::Probe(MaskProbe::first())
    } else {
        MaskSearch::Found(1)
    }
}

} // verus!
