//! The fixed gamma-correction table: a 256-entry map from linear
//! 8-bit brightness to the perceptually corrected value driven out to
//! the LEDs.

use vstd::prelude::*;

verus! {

/// The gamma-corrected value of `v`, from the fixed 256-entry table.
pub open spec fn gamma_spec(v: u8) -> u8 {
    match v {
        0u8 => 0u8,
        1u8 => 0u8,
        2u8 => 0u8,
        3u8 => 0u8,
        4u8 => 0u8,
        5u8 => 0u8,
        6u8 => 0u8,
        7u8 => 0u8,
        8u8 => 0u8,
        9u8 => 0u8,
        10u8 => 0u8,
        11u8 => 0u8,
        12u8 => 0u8,
        13u8 => 0u8,
        14u8 => 0u8,
        15u8 => 0u8,
        16u8 => 0u8,
        17u8 => 0u8,
        18u8 => 0u8,
        19u8 => 0u8,
        20u8 => 0u8,
        21u8 => 0u8,
        22u8 => 0u8,
        23u8 => 0u8,
        24u8 => 0u8,
        25u8 => 0u8,
        26u8 => 0u8,
        27u8 => 0u8,
        28u8 => 1u8,
        29u8 => 1u8,
        30u8 => 1u8,
        31u8 => 1u8,
        32u8 => 1u8,
        33u8 => 1u8,
        34u8 => 1u8,
        35u8 => 1u8,
        36u8 => 1u8,
        37u8 => 1u8,
        38u8 => 1u8,
        39u8 => 1u8,
        40u8 => 1u8,
        41u8 => 2u8,
        42u8 => 2u8,
        43u8 => 2u8,
        44u8 => 2u8,
        45u8 => 2u8,
        46u8 => 2u8,
        47u8 => 2u8,
        48u8 => 2u8,
        49u8 => 3u8,
        50u8 => 3u8,
        51u8 => 3u8,
        52u8 => 3u8,
        53u8 => 3u8,
        54u8 => 3u8,
        55u8 => 3u8,
        56u8 => 4u8,
        57u8 => 4u8,
        58u8 => 4u8,
        59u8 => 4u8,
        60u8 => 4u8,
        61u8 => 5u8,
        62u8 => 5u8,
        63u8 => 5u8,
        64u8 => 5u8,
        65u8 => 6u8,
        66u8 => 6u8,
        67u8 => 6u8,
        68u8 => 6u8,
        69u8 => 7u8,
        70u8 => 7u8,
        71u8 => 7u8,
        72u8 => 7u8,
        73u8 => 8u8,
        74u8 => 8u8,
        75u8 => 8u8,
        76u8 => 9u8,
        77u8 => 9u8,
        78u8 => 9u8,
        79u8 => 10u8,
        80u8 => 10u8,
        81u8 => 10u8,
        82u8 => 11u8,
        83u8 => 11u8,
        84u8 => 11u8,
        85u8 => 12u8,
        86u8 => 12u8,
        87u8 => 13u8,
        88u8 => 13u8,
        89u8 => 13u8,
        90u8 => 14u8,
        91u8 => 14u8,
        92u8 => 15u8,
        93u8 => 15u8,
        94u8 => 16u8,
        95u8 => 16u8,
        96u8 => 17u8,
        97u8 => 17u8,
        98u8 => 18u8,
        99u8 => 18u8,
        100u8 => 19u8,
        101u8 => 19u8,
        102u8 => 20u8,
        103u8 => 20u8,
        104u8 => 21u8,
        105u8 => 21u8,
        106u8 => 22u8,
        107u8 => 22u8,
        108u8 => 23u8,
        109u8 => 24u8,
        110u8 => 24u8,
        111u8 => 25u8,
        112u8 => 25u8,
        113u8 => 26u8,
        114u8 => 27u8,
        115u8 => 27u8,
        116u8 => 28u8,
        117u8 => 29u8,
        118u8 => 29u8,
        119u8 => 30u8,
        120u8 => 31u8,
        121u8 => 32u8,
        122u8 => 32u8,
        123u8 => 33u8,
        124u8 => 34u8,
        125u8 => 35u8,
        126u8 => 35u8,
        127u8 => 36u8,
        128u8 => 37u8,
        129u8 => 38u8,
        130u8 => 39u8,
        131u8 => 39u8,
        132u8 => 40u8,
        133u8 => 41u8,
        134u8 => 42u8,
        135u8 => 43u8,
        136u8 => 44u8,
        137u8 => 45u8,
        138u8 => 46u8,
        139u8 => 47u8,
        140u8 => 48u8,
        141u8 => 49u8,
        142u8 => 50u8,
        143u8 => 50u8,
        144u8 => 51u8,
        145u8 => 52u8,
        146u8 => 54u8,
        147u8 => 55u8,
        148u8 => 56u8,
        149u8 => 57u8,
        150u8 => 58u8,
        151u8 => 59u8,
        152u8 => 60u8,
        153u8 => 61u8,
        154u8 => 62u8,
        155u8 => 63u8,
        156u8 => 64u8,
        157u8 => 66u8,
        158u8 => 67u8,
        159u8 => 68u8,
        160u8 => 69u8,
        161u8 => 70u8,
        162u8 => 72u8,
        163u8 => 73u8,
        164u8 => 74u8,
        165u8 => 75u8,
        166u8 => 77u8,
        167u8 => 78u8,
        168u8 => 79u8,
        169u8 => 81u8,
        170u8 => 82u8,
        171u8 => 83u8,
        172u8 => 85u8,
        173u8 => 86u8,
        174u8 => 87u8,
        175u8 => 89u8,
        176u8 => 90u8,
        177u8 => 92u8,
        178u8 => 93u8,
        179u8 => 95u8,
        180u8 => 96u8,
        181u8 => 98u8,
        182u8 => 99u8,
        183u8 => 101u8,
        184u8 => 102u8,
        185u8 => 104u8,
        186u8 => 105u8,
        187u8 => 107u8,
        188u8 => 109u8,
        189u8 => 110u8,
        190u8 => 112u8,
        191u8 => 114u8,
        192u8 => 115u8,
        193u8 => 117u8,
        194u8 => 119u8,
        195u8 => 120u8,
        196u8 => 122u8,
        197u8 => 124u8,
        198u8 => 126u8,
        199u8 => 127u8,
        200u8 => 129u8,
        201u8 => 131u8,
        202u8 => 133u8,
        203u8 => 135u8,
        204u8 => 137u8,
        205u8 => 138u8,
        206u8 => 140u8,
        207u8 => 142u8,
        208u8 => 144u8,
        209u8 => 146u8,
        210u8 => 148u8,
        211u8 => 150u8,
        212u8 => 152u8,
        213u8 => 154u8,
        214u8 => 156u8,
        215u8 => 158u8,
        216u8 => 160u8,
        217u8 => 162u8,
        218u8 => 164u8,
        219u8 => 167u8,
        220u8 => 169u8,
        221u8 => 171u8,
        222u8 => 173u8,
        223u8 => 175u8,
        224u8 => 177u8,
        225u8 => 180u8,
        226u8 => 182u8,
        227u8 => 184u8,
        228u8 => 186u8,
        229u8 => 189u8,
        230u8 => 191u8,
        231u8 => 193u8,
        232u8 => 196u8,
        233u8 => 198u8,
        234u8 => 200u8,
        235u8 => 203u8,
        236u8 => 205u8,
        237u8 => 208u8,
        238u8 => 210u8,
        239u8 => 213u8,
        240u8 => 215u8,
        241u8 => 218u8,
        242u8 => 220u8,
        243u8 => 223u8,
        244u8 => 225u8,
        245u8 => 228u8,
        246u8 => 231u8,
        247u8 => 233u8,
        248u8 => 236u8,
        249u8 => 239u8,
        250u8 => 241u8,
        251u8 => 244u8,
        252u8 => 247u8,
        253u8 => 249u8,
        254u8 => 252u8,
        255u8 => 255u8,
    }
}

/// Looks up the gamma-corrected value of `v`.
pub fn gamma(v: u8) -> (r: u8)
    ensures
        r == gamma_spec(v),
{
    match v {
        0u8 => 0u8,
        1u8 => 0u8,
        2u8 => 0u8,
        3u8 => 0u8,
        4u8 => 0u8,
        5u8 => 0u8,
        6u8 => 0u8,
        7u8 => 0u8,
        8u8 => 0u8,
        9u8 => 0u8,
        10u8 => 0u8,
        11u8 => 0u8,
        12u8 => 0u8,
        13u8 => 0u8,
        14u8 => 0u8,
        15u8 => 0u8,
        16u8 => 0u8,
        17u8 => 0u8,
        18u8 => 0u8,
        19u8 => 0u8,
        20u8 => 0u8,
        21u8 => 0u8,
        22u8 => 0u8,
        23u8 => 0u8,
        24u8 => 0u8,
        25u8 => 0u8,
        26u8 => 0u8,
        27u8 => 0u8,
        28u8 => 1u8,
        29u8 => 1u8,
        30u8 => 1u8,
        31u8 => 1u8,
        32u8 => 1u8,
        33u8 => 1u8,
        34u8 => 1u8,
        35u8 => 1u8,
        36u8 => 1u8,
        37u8 => 1u8,
        38u8 => 1u8,
        39u8 => 1u8,
        40u8 => 1u8,
        41u8 => 2u8,
        42u8 => 2u8,
        43u8 => 2u8,
        44u8 => 2u8,
        45u8 => 2u8,
        46u8 => 2u8,
        47u8 => 2u8,
        48u8 => 2u8,
        49u8 => 3u8,
        50u8 => 3u8,
        51u8 => 3u8,
        52u8 => 3u8,
        53u8 => 3u8,
        54u8 => 3u8,
        55u8 => 3u8,
        56u8 => 4u8,
        57u8 => 4u8,
        58u8 => 4u8,
        59u8 => 4u8,
        60u8 => 4u8,
        61u8 => 5u8,
        62u8 => 5u8,
        63u8 => 5u8,
        64u8 => 5u8,
        65u8 => 6u8,
        66u8 => 6u8,
        67u8 => 6u8,
        68u8 => 6u8,
        69u8 => 7u8,
        70u8 => 7u8,
        71u8 => 7u8,
        72u8 => 7u8,
        73u8 => 8u8,
        74u8 => 8u8,
        75u8 => 8u8,
        76u8 => 9u8,
        77u8 => 9u8,
        78u8 => 9u8,
        79u8 => 10u8,
        80u8 => 10u8,
        81u8 => 10u8,
        82u8 => 11u8,
        83u8 => 11u8,
        84u8 => 11u8,
        85u8 => 12u8,
        86u8 => 12u8,
        87u8 => 13u8,
        88u8 => 13u8,
        89u8 => 13u8,
        90u8 => 14u8,
        91u8 => 14u8,
        92u8 => 15u8,
        93u8 => 15u8,
        94u8 => 16u8,
        95u8 => 16u8,
        96u8 => 17u8,
        97u8 => 17u8,
        98u8 => 18u8,
        99u8 => 18u8,
        100u8 => 19u8,
        101u8 => 19u8,
        102u8 => 20u8,
        103u8 => 20u8,
        104u8 => 21u8,
        105u8 => 21u8,
        106u8 => 22u8,
        107u8 => 22u8,
        108u8 => 23u8,
        109u8 => 24u8,
        110u8 => 24u8,
        111u8 => 25u8,
        112u8 => 25u8,
        113u8 => 26u8,
        114u8 => 27u8,
        115u8 => 27u8,
        116u8 => 28u8,
        117u8 => 29u8,
        118u8 => 29u8,
        119u8 => 30u8,
        120u8 => 31u8,
        121u8 => 32u8,
        122u8 => 32u8,
        123u8 => 33u8,
        124u8 => 34u8,
        125u8 => 35u8,
        126u8 => 35u8,
        127u8 => 36u8,
        128u8 => 37u8,
        129u8 => 38u8,
        130u8 => 39u8,
        131u8 => 39u8,
        132u8 => 40u8,
        133u8 => 41u8,
        134u8 => 42u8,
        135u8 => 43u8,
        136u8 => 44u8,
        137u8 => 45u8,
        138u8 => 46u8,
        139u8 => 47u8,
        140u8 => 48u8,
        141u8 => 49u8,
        142u8 => 50u8,
        143u8 => 50u8,
        144u8 => 51u8,
        145u8 => 52u8,
        146u8 => 54u8,
        147u8 => 55u8,
        148u8 => 56u8,
        149u8 => 57u8,
        150u8 => 58u8,
        151u8 => 59u8,
        152u8 => 60u8,
        153u8 => 61u8,
        154u8 => 62u8,
        155u8 => 63u8,
        156u8 => 64u8,
        157u8 => 66u8,
        158u8 => 67u8,
        159u8 => 68u8,
        160u8 => 69u8,
        161u8 => 70u8,
        162u8 => 72u8,
        163u8 => 73u8,
        164u8 => 74u8,
        165u8 => 75u8,
        166u8 => 77u8,
        167u8 => 78u8,
        168u8 => 79u8,
        169u8 => 81u8,
        170u8 => 82u8,
        171u8 => 83u8,
        172u8 => 85u8,
        173u8 => 86u8,
        174u8 => 87u8,
        175u8 => 89u8,
        176u8 => 90u8,
        177u8 => 92u8,
        178u8 => 93u8,
        179u8 => 95u8,
        180u8 => 96u8,
        181u8 => 98u8,
        182u8 => 99u8,
        183u8 => 101u8,
        184u8 => 102u8,
        185u8 => 104u8,
        186u8 => 105u8,
        187u8 => 107u8,
        188u8 => 109u8,
        189u8 => 110u8,
        190u8 => 112u8,
        191u8 => 114u8,
        192u8 => 115u8,
        193u8 => 117u8,
        194u8 => 119u8,
        195u8 => 120u8,
        196u8 => 122u8,
        197u8 => 124u8,
        198u8 => 126u8,
        199u8 => 127u8,
        200u8 => 129u8,
        201u8 => 131u8,
        202u8 => 133u8,
        203u8 => 135u8,
        204u8 => 137u8,
        205u8 => 138u8,
        206u8 => 140u8,
        207u8 => 142u8,
        208u8 => 144u8,
        209u8 => 146u8,
        210u8 => 148u8,
        211u8 => 150u8,
        212u8 => 152u8,
        213u8 => 154u8,
        214u8 => 156u8,
        215u8 => 158u8,
        216u8 => 160u8,
        217u8 => 162u8,
        218u8 => 164u8,
        219u8 => 167u8,
        220u8 => 169u8,
        221u8 => 171u8,
        222u8 => 173u8,
        223u8 => 175u8,
        224u8 => 177u8,
        225u8 => 180u8,
        226u8 => 182u8,
        227u8 => 184u8,
        228u8 => 186u8,
        229u8 => 189u8,
        230u8 => 191u8,
        231u8 => 193u8,
        232u8 => 196u8,
        233u8 => 198u8,
        234u8 => 200u8,
        235u8 => 203u8,
        236u8 => 205u8,
        237u8 => 208u8,
        238u8 => 210u8,
        239u8 => 213u8,
        240u8 => 215u8,
        241u8 => 218u8,
        242u8 => 220u8,
        243u8 => 223u8,
        244u8 => 225u8,
        245u8 => 228u8,
        246u8 => 231u8,
        247u8 => 233u8,
        248u8 => 236u8,
        249u8 => 239u8,
        250u8 => 241u8,
        251u8 => 244u8,
        252u8 => 247u8,
        253u8 => 249u8,
        254u8 => 252u8,
        255u8 => 255u8,
    }
}

/// Neighbouring table entries never decrease.
proof fn lemma_gamma_adjacent(v: u8)
    requires
        v < 255,
    ensures
        gamma_spec(v) <= gamma_spec((v + 1) as u8),
{
}

/// The table is monotonic: a brighter input never maps to a dimmer
/// output.
pub proof fn lemma_gamma_monotonic(a: u8, b: u8)
    requires
        a <= b,
    ensures
        gamma_spec(a) <= gamma_spec(b),
    decreases b - a,
{
    if a < b {
        lemma_gamma_adjacent(a);
        lemma_gamma_monotonic((a + 1) as u8, b);
    }
}

/// The table fixes the darkest and brightest inputs.
pub proof fn lemma_gamma_endpoints()
    ensures
        gamma_spec(0) == 0,
        gamma_spec(255) == 255,
{
}

} // verus!
