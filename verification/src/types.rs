//! The values a Live set is described by: identifiers, versions, keys,
//! plugins, samples and time signatures.
use vstd::prelude::*;
use crate::errors::TimeSignatureError;
use crate::numbers::{decimal, format_decimal};
use crate::plugins::PluginFormat;
use crate::text::push_all;

verus! {

/// A database identifier.
#[derive(Debug, Clone, Copy, PartialEq, Eq, Structural, Hash)]
pub struct Id(pub u64);

impl Default for Id {
    fn default() -> (res: Self)
        ensures
            res == Id(0),
    {
        Id(0)
    }
}

/// The version of Live that saved a set.
#[derive(Debug, Clone, Copy, PartialEq, Eq, Structural)]
pub struct AbletonVersion {
    pub major: u32,
    pub minor: u32,
    pub patch: u32,
    pub beta: bool,
}

/// The text `Ableton {major}.{minor}.{patch}`.
pub open spec fn version_text(v: AbletonVersion) -> Seq<char> {
    "Ableton "@ + decimal(v.major as nat) + "."@ + decimal(v.minor as nat) + "."@ + decimal(v.patch as nat)
}

impl AbletonVersion {
    /// The version as text: `Ableton {major}.{minor}.{patch}`.
    pub fn to_string(&self) -> (res: String)
        ensures
            res@ == version_text(*self),
    {
        proof {
            reveal_strlit("Ableton ");
            reveal_strlit(".");
        }
        let mut s = String::new();
        push_all(&mut s, "Ableton ");
        push_all(&mut s, format_decimal(self.major as u64).as_str());
        push_all(&mut s, ".");
        push_all(&mut s, format_decimal(self.minor as u64).as_str());
        push_all(&mut s, ".");
        push_all(&mut s, format_decimal(self.patch as u64).as_str());
        s
    }
}

/// The scale of a key.
#[derive(Debug, Clone, Copy, PartialEq, Eq, Structural, Hash)]
pub enum Scale {
    Empty,
    Major,
    Minor,
    Dorian,
    Mixolydian,
    Aeolian,
    Phrygian,
    Locrian,
    WholeTone,
    HalfWholeDim,
    WholeHalfDim,
    MinorBlues,
    MinorPentatonic,
    MajorPentatonic,
    HarmonicMinor,
    MelodicMinor,
    Dorian4,
    PhrygianDominant,
    LydianDominant,
    LydianAugmented,
    HarmonicMajor,
    SuperLocrian,
    BToneSpanish,
    HungarianMinor,
    Hirajoshi,
    Iwato,
    PelogSelisir,
    PelogTembung,
    Messiaen1,
    Messiaen2,
    Messiaen3,
    Messiaen4,
    Messiaen5,
    Messiaen6,
    Messiaen7,
}

/// The tonic of a key.
#[derive(Debug, Clone, Copy, PartialEq, Eq, Structural, Hash)]
pub enum Tonic {
    Empty,
    C,
    CSharp,
    D,
    DSharp,
    E,
    F,
    FSharp,
    G,
    GSharp,
    A,
    ASharp,
    B,
}

/// A key: tonic and scale.
#[derive(Debug, Clone, Copy, PartialEq, Eq, Structural)]
pub struct KeySignature {
    pub tonic: Tonic,
    pub scale: Scale,
}

impl Default for KeySignature {
    /// No key: both parts empty.
    fn default() -> (res: Self)
        ensures
            res == (KeySignature { tonic: Tonic::Empty, scale: Scale::Empty }),
    {
        KeySignature { tonic: Tonic::Empty, scale: Scale::Empty }
    }
}

/// A plugin that a Live set uses. Plugins found in Live's plugin database
/// carry its data and are installed; the others carry what the set names.
#[derive(Debug)]
pub struct Plugin {
    pub plugin_id: Option<i32>,
    pub module_id: Option<i32>,
    pub dev_identifier: String,
    pub name: String,
    pub vendor: Option<String>,
    pub version: Option<String>,
    pub sdk_version: Option<String>,
    pub flags: Option<i32>,
    pub scanstate: Option<i32>,
    pub enabled: Option<i32>,
    pub plugin_format: PluginFormat,
    pub installed: bool,
}

/// A row of Live's plugin database.
#[derive(Debug)]
pub struct DbPlugin {
    pub plugin_id: i32,
    pub module_id: Option<i32>,
    pub dev_identifier: String,
    pub name: String,
    pub vendor: Option<String>,
    pub version: Option<String>,
    pub sdk_version: Option<String>,
    pub flags: Option<i32>,
    pub scanstate: Option<i32>,
    pub enabled: Option<i32>,
}

/// A sample that a Live set uses.
#[derive(Debug)]
pub struct Sample {
    pub id: Id,
    pub name: String,
    pub path: String,
    pub is_present: bool,
}

/// A time signature.
#[derive(Debug, Clone, Copy, PartialEq, Eq, Structural)]
pub struct TimeSignature {
    pub numerator: u8,
    pub denominator: u8,
}

pub open spec fn pow2(k: nat) -> nat
    decreases k,
{
    if k == 0 {
        1
    } else {
        2 * pow2((k - 1) as nat)
    }
}

/// Live stores a time signature as one number `v` in `0..=494`: the
/// numerator is `v % 99 + 1`, the denominator `2` to the power `v / 99`.
pub open spec fn encoded_in_range(v: int) -> bool {
    0 <= v <= 494
}

pub open spec fn numerator_of(v: int) -> int {
    v % 99 + 1
}

pub open spec fn denominator_of(v: int) -> int {
    pow2((v / 99) as nat) as int
}

impl TimeSignature {
    /// Decodes Live's encoding of a time signature; a value outside
    /// `0..=494` is `InvalidEncodedValue`.
    pub fn from_encoded(encoded_value: i32) -> (res: Result<Self, TimeSignatureError>)
        ensures
            match res {
                Ok(ts) => encoded_in_range(encoded_value as int)
                    && ts.numerator == numerator_of(encoded_value as int)
                    && ts.denominator == denominator_of(encoded_value as int),
                Err(TimeSignatureError::InvalidEncodedValue(v)) => !encoded_in_range(encoded_value as int) && v == encoded_value,
                Err(_) => false,
            },
    {
        if encoded_value < 0 || encoded_value > 494 {
            return Err(TimeSignatureError::InvalidEncodedValue(encoded_value));
        }
        let numerator = Self::decode_numerator(encoded_value);
        let denominator = Self::decode_denominator(encoded_value);
        Ok(TimeSignature { numerator, denominator })
    }

    /// The numerator of an encoded time signature (`1` for a negative value).
    pub fn decode_numerator(encoded_value: i32) -> (res: u8)
        ensures
            res == if encoded_value < 0 { 1 } else { numerator_of(encoded_value as int) },
    {
        if encoded_value < 0 {
            1
        } else if encoded_value < 99 {
            (encoded_value + 1) as u8
        } else {
            ((encoded_value % 99) + 1) as u8
        }
    }

    /// The denominator of an encoded time signature: `2` to the power
    /// `encoded_value / 99` (rounded towards zero). Beyond `791` the power
    /// does not fit in a `u8`.
    pub fn decode_denominator(encoded_value: i32) -> (res: u8)
        requires
            -98 <= encoded_value <= 791,
        ensures
            res == if encoded_value < 0 { 1 } else { denominator_of(encoded_value as int) },
    {
        let multiple: i32 = encoded_value / 99 + 1;
        let exponent: u32 = (multiple - 1) as u32;
        let mut res: u8 = 1;
        let mut k: u32 = 0;
        assert(encoded_value < 0 ==> exponent == 0);
        assert(encoded_value >= 0 ==> exponent as int == encoded_value as int / 99);
        while k < exponent
            invariant
                k <= exponent <= 7,
                res as nat == pow2(k as nat),
            decreases exponent - k,
        {
            proof {
                reveal_with_fuel(pow2, 8);
            }
            assert(res * 2 <= 128) by {
                reveal_with_fuel(pow2, 8);
            }
            res = res * 2;
            k = k + 1;
        }
        res
    }
}

/// Every encoded value Live can store decodes to a numerator from 1 to 99
/// and a denominator among 1, 2, 4, 8 and 16.
pub proof fn law_time_signature_bounds(v: int)
    requires
        encoded_in_range(v),
    ensures
        1 <= numerator_of(v) <= 99,
        denominator_of(v) == 1 || denominator_of(v) == 2 || denominator_of(v) == 4
            || denominator_of(v) == 8 || denominator_of(v) == 16,
{
    reveal_with_fuel(pow2, 5);
    assert(0 <= v / 99 <= 4);
}

/// Distinct encoded values decode to distinct time signatures.
pub proof fn law_time_signature_injective(v: int, w: int)
    requires
        encoded_in_range(v),
        encoded_in_range(w),
        numerator_of(v) == numerator_of(w),
        denominator_of(v) == denominator_of(w),
    ensures
        v == w,
{
    reveal_with_fuel(pow2, 5);
    assert(0 <= v / 99 <= 4);
    assert(0 <= w / 99 <= 4);
    assert(v / 99 == w / 99);
    assert(v == 99 * (v / 99) + v % 99);
    assert(w == 99 * (w / 99) + w % 99);
}

} // verus!
