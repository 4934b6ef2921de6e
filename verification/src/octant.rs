//! Glyphs of the octant blitter: one Unicode 16 block character for each
//! of the 256 on/off patterns of a 2×4 cell.

use vstd::prelude::*;

verus! {

/// The octant glyph of each 8-bit cell pattern (`bit = row * 2 + col`): the
/// Unicode 16 `BLOCK OCTANT` characters at U+1CD00..U+1CDE5, with 26 patterns
/// drawn by older glyphs that already had their shape (space, half, quarter
/// and quadrant blocks, full block).
pub open spec fn octant_glyph(bits: u8) -> char {
    match bits {
        0 => '\u{0020}',
        1 => '\u{1CEA8}',
        2 => '\u{1CEAB}',
        3 => '\u{1FB82}',
        4 => '\u{1CD00}',
        5 => '\u{2598}',
        6 => '\u{1CD01}',
        7 => '\u{1CD02}',
        8 => '\u{1CD03}',
        9 => '\u{1CD04}',
        10 => '\u{259D}',
        11 => '\u{1CD05}',
        12 => '\u{1CD06}',
        13 => '\u{1CD07}',
        14 => '\u{1CD08}',
        15 => '\u{2580}',
        16 => '\u{1CD09}',
        17 => '\u{1CD0A}',
        18 => '\u{1CD0B}',
        19 => '\u{1CD0C}',
        20 => '\u{1FBE6}',
        21 => '\u{1CD0D}',
        22 => '\u{1CD0E}',
        23 => '\u{1CD0F}',
        24 => '\u{1CD10}',
        25 => '\u{1CD11}',
        26 => '\u{1CD12}',
        27 => '\u{1CD13}',
        28 => '\u{1CD14}',
        29 => '\u{1CD15}',
        30 => '\u{1CD16}',
        31 => '\u{1CD17}',
        32 => '\u{1CD18}',
        33 => '\u{1CD19}',
        34 => '\u{1CD1A}',
        35 => '\u{1CD1B}',
        36 => '\u{1CD1C}',
        37 => '\u{1CD1D}',
        38 => '\u{1CD1E}',
        39 => '\u{1CD1F}',
        40 => '\u{1FBE7}',
        41 => '\u{1CD20}',
        42 => '\u{1CD21}',
        43 => '\u{1CD22}',
        44 => '\u{1CD23}',
        45 => '\u{1CD24}',
        46 => '\u{1CD25}',
        47 => '\u{1CD26}',
        48 => '\u{1CD27}',
        49 => '\u{1CD28}',
        50 => '\u{1CD29}',
        51 => '\u{1CD2A}',
        52 => '\u{1CD2B}',
        53 => '\u{1CD2C}',
        54 => '\u{1CD2D}',
        55 => '\u{1CD2E}',
        56 => '\u{1CD2F}',
        57 => '\u{1CD30}',
        58 => '\u{1CD31}',
        59 => '\u{1CD32}',
        60 => '\u{1CD33}',
        61 => '\u{1CD34}',
        62 => '\u{1CD35}',
        63 => '\u{1FB85}',
        64 => '\u{1CEA3}',
        65 => '\u{1CD36}',
        66 => '\u{1CD37}',
        67 => '\u{1CD38}',
        68 => '\u{1CD39}',
        69 => '\u{1CD3A}',
        70 => '\u{1CD3B}',
        71 => '\u{1CD3C}',
        72 => '\u{1CD3D}',
        73 => '\u{1CD3E}',
        74 => '\u{1CD3F}',
        75 => '\u{1CD40}',
        76 => '\u{1CD41}',
        77 => '\u{1CD42}',
        78 => '\u{1CD43}',
        79 => '\u{1CD44}',
        80 => '\u{2596}',
        81 => '\u{1CD45}',
        82 => '\u{1CD46}',
        83 => '\u{1CD47}',
        84 => '\u{1CD48}',
        85 => '\u{258C}',
        86 => '\u{1CD49}',
        87 => '\u{1CD4A}',
        88 => '\u{1CD4B}',
        89 => '\u{1CD4C}',
        90 => '\u{259E}',
        91 => '\u{1CD4D}',
        92 => '\u{1CD4E}',
        93 => '\u{1CD4F}',
        94 => '\u{1CD50}',
        95 => '\u{259B}',
        96 => '\u{1CD51}',
        97 => '\u{1CD52}',
        98 => '\u{1CD53}',
        99 => '\u{1CD54}',
        100 => '\u{1CD55}',
        101 => '\u{1CD56}',
        102 => '\u{1CD57}',
        103 => '\u{1CD58}',
        104 => '\u{1CD59}',
        105 => '\u{1CD5A}',
        106 => '\u{1CD5B}',
        107 => '\u{1CD5C}',
        108 => '\u{1CD5D}',
        109 => '\u{1CD5E}',
        110 => '\u{1CD5F}',
        111 => '\u{1CD60}',
        112 => '\u{1CD61}',
        113 => '\u{1CD62}',
        114 => '\u{1CD63}',
        115 => '\u{1CD64}',
        116 => '\u{1CD65}',
        117 => '\u{1CD66}',
        118 => '\u{1CD67}',
        119 => '\u{1CD68}',
        120 => '\u{1CD69}',
        121 => '\u{1CD6A}',
        122 => '\u{1CD6B}',
        123 => '\u{1CD6C}',
        124 => '\u{1CD6D}',
        125 => '\u{1CD6E}',
        126 => '\u{1CD6F}',
        127 => '\u{1CD70}',
        128 => '\u{1CEA0}',
        129 => '\u{1CD71}',
        130 => '\u{1CD72}',
        131 => '\u{1CD73}',
        132 => '\u{1CD74}',
        133 => '\u{1CD75}',
        134 => '\u{1CD76}',
        135 => '\u{1CD77}',
        136 => '\u{1CD78}',
        137 => '\u{1CD79}',
        138 => '\u{1CD7A}',
        139 => '\u{1CD7B}',
        140 => '\u{1CD7C}',
        141 => '\u{1CD7D}',
        142 => '\u{1CD7E}',
        143 => '\u{1CD7F}',
        144 => '\u{1CD80}',
        145 => '\u{1CD81}',
        146 => '\u{1CD82}',
        147 => '\u{1CD83}',
        148 => '\u{1CD84}',
        149 => '\u{1CD85}',
        150 => '\u{1CD86}',
        151 => '\u{1CD87}',
        152 => '\u{1CD88}',
        153 => '\u{1CD89}',
        154 => '\u{1CD8A}',
        155 => '\u{1CD8B}',
        156 => '\u{1CD8C}',
        157 => '\u{1CD8D}',
        158 => '\u{1CD8E}',
        159 => '\u{1CD8F}',
        160 => '\u{2597}',
        161 => '\u{1CD90}',
        162 => '\u{1CD91}',
        163 => '\u{1CD92}',
        164 => '\u{1CD93}',
        165 => '\u{259A}',
        166 => '\u{1CD94}',
        167 => '\u{1CD95}',
        168 => '\u{1CD96}',
        169 => '\u{1CD97}',
        170 => '\u{2590}',
        171 => '\u{1CD98}',
        172 => '\u{1CD99}',
        173 => '\u{1CD9A}',
        174 => '\u{1CD9B}',
        175 => '\u{259C}',
        176 => '\u{1CD9C}',
        177 => '\u{1CD9D}',
        178 => '\u{1CD9E}',
        179 => '\u{1CD9F}',
        180 => '\u{1CDA0}',
        181 => '\u{1CDA1}',
        182 => '\u{1CDA2}',
        183 => '\u{1CDA3}',
        184 => '\u{1CDA4}',
        185 => '\u{1CDA5}',
        186 => '\u{1CDA6}',
        187 => '\u{1CDA7}',
        188 => '\u{1CDA8}',
        189 => '\u{1CDA9}',
        190 => '\u{1CDAA}',
        191 => '\u{1CDAB}',
        192 => '\u{2582}',
        193 => '\u{1CDAC}',
        194 => '\u{1CDAD}',
        195 => '\u{1CDAE}',
        196 => '\u{1CDAF}',
        197 => '\u{1CDB0}',
        198 => '\u{1CDB1}',
        199 => '\u{1CDB2}',
        200 => '\u{1CDB3}',
        201 => '\u{1CDB4}',
        202 => '\u{1CDB5}',
        203 => '\u{1CDB6}',
        204 => '\u{1CDB7}',
        205 => '\u{1CDB8}',
        206 => '\u{1CDB9}',
        207 => '\u{1CDBA}',
        208 => '\u{1CDBB}',
        209 => '\u{1CDBC}',
        210 => '\u{1CDBD}',
        211 => '\u{1CDBE}',
        212 => '\u{1CDBF}',
        213 => '\u{1CDC0}',
        214 => '\u{1CDC1}',
        215 => '\u{1CDC2}',
        216 => '\u{1CDC3}',
        217 => '\u{1CDC4}',
        218 => '\u{1CDC5}',
        219 => '\u{1CDC6}',
        220 => '\u{1CDC7}',
        221 => '\u{1CDC8}',
        222 => '\u{1CDC9}',
        223 => '\u{1CDCA}',
        224 => '\u{1CDCB}',
        225 => '\u{1CDCC}',
        226 => '\u{1CDCD}',
        227 => '\u{1CDCE}',
        228 => '\u{1CDCF}',
        229 => '\u{1CDD0}',
        230 => '\u{1CDD1}',
        231 => '\u{1CDD2}',
        232 => '\u{1CDD3}',
        233 => '\u{1CDD4}',
        234 => '\u{1CDD5}',
        235 => '\u{1CDD6}',
        236 => '\u{1CDD7}',
        237 => '\u{1CDD8}',
        238 => '\u{1CDD9}',
        239 => '\u{1CDDA}',
        240 => '\u{2584}',
        241 => '\u{1CDDB}',
        242 => '\u{1CDDC}',
        243 => '\u{1CDDD}',
        244 => '\u{1CDDE}',
        245 => '\u{2599}',
        246 => '\u{1CDDF}',
        247 => '\u{1CDE0}',
        248 => '\u{1CDE1}',
        249 => '\u{1CDE2}',
        250 => '\u{259F}',
        251 => '\u{1CDE3}',
        252 => '\u{2586}',
        253 => '\u{1CDE4}',
        254 => '\u{1CDE5}',
        255 => '\u{2588}',
    }
}

/// The pattern drawn by an octant glyph (0 for any other character).
pub open spec fn octant_pattern(c: char) -> u8 {
    match c {
        '\u{0020}' => 0u8,
        '\u{1CEA8}' => 1u8,
        '\u{1CEAB}' => 2u8,
        '\u{1FB82}' => 3u8,
        '\u{1CD00}' => 4u8,
        '\u{2598}' => 5u8,
        '\u{1CD01}' => 6u8,
        '\u{1CD02}' => 7u8,
        '\u{1CD03}' => 8u8,
        '\u{1CD04}' => 9u8,
        '\u{259D}' => 10u8,
        '\u{1CD05}' => 11u8,
        '\u{1CD06}' => 12u8,
        '\u{1CD07}' => 13u8,
        '\u{1CD08}' => 14u8,
        '\u{2580}' => 15u8,
        '\u{1CD09}' => 16u8,
        '\u{1CD0A}' => 17u8,
        '\u{1CD0B}' => 18u8,
        '\u{1CD0C}' => 19u8,
        '\u{1FBE6}' => 20u8,
        '\u{1CD0D}' => 21u8,
        '\u{1CD0E}' => 22u8,
        '\u{1CD0F}' => 23u8,
        '\u{1CD10}' => 24u8,
        '\u{1CD11}' => 25u8,
        '\u{1CD12}' => 26u8,
        '\u{1CD13}' => 27u8,
        '\u{1CD14}' => 28u8,
        '\u{1CD15}' => 29u8,
        '\u{1CD16}' => 30u8,
        '\u{1CD17}' => 31u8,
        '\u{1CD18}' => 32u8,
        '\u{1CD19}' => 33u8,
        '\u{1CD1A}' => 34u8,
        '\u{1CD1B}' => 35u8,
        '\u{1CD1C}' => 36u8,
        '\u{1CD1D}' => 37u8,
        '\u{1CD1E}' => 38u8,
        '\u{1CD1F}' => 39u8,
        '\u{1FBE7}' => 40u8,
        '\u{1CD20}' => 41u8,
        '\u{1CD21}' => 42u8,
        '\u{1CD22}' => 43u8,
        '\u{1CD23}' => 44u8,
        '\u{1CD24}' => 45u8,
        '\u{1CD25}' => 46u8,
        '\u{1CD26}' => 47u8,
        '\u{1CD27}' => 48u8,
        '\u{1CD28}' => 49u8,
        '\u{1CD29}' => 50u8,
        '\u{1CD2A}' => 51u8,
        '\u{1CD2B}' => 52u8,
        '\u{1CD2C}' => 53u8,
        '\u{1CD2D}' => 54u8,
        '\u{1CD2E}' => 55u8,
        '\u{1CD2F}' => 56u8,
        '\u{1CD30}' => 57u8,
        '\u{1CD31}' => 58u8,
        '\u{1CD32}' => 59u8,
        '\u{1CD33}' => 60u8,
        '\u{1CD34}' => 61u8,
        '\u{1CD35}' => 62u8,
        '\u{1FB85}' => 63u8,
        '\u{1CEA3}' => 64u8,
        '\u{1CD36}' => 65u8,
        '\u{1CD37}' => 66u8,
        '\u{1CD38}' => 67u8,
        '\u{1CD39}' => 68u8,
        '\u{1CD3A}' => 69u8,
        '\u{1CD3B}' => 70u8,
        '\u{1CD3C}' => 71u8,
        '\u{1CD3D}' => 72u8,
        '\u{1CD3E}' => 73u8,
        '\u{1CD3F}' => 74u8,
        '\u{1CD40}' => 75u8,
        '\u{1CD41}' => 76u8,
        '\u{1CD42}' => 77u8,
        '\u{1CD43}' => 78u8,
        '\u{1CD44}' => 79u8,
        '\u{2596}' => 80u8,
        '\u{1CD45}' => 81u8,
        '\u{1CD46}' => 82u8,
        '\u{1CD47}' => 83u8,
        '\u{1CD48}' => 84u8,
        '\u{258C}' => 85u8,
        '\u{1CD49}' => 86u8,
        '\u{1CD4A}' => 87u8,
        '\u{1CD4B}' => 88u8,
        '\u{1CD4C}' => 89u8,
        '\u{259E}' => 90u8,
        '\u{1CD4D}' => 91u8,
        '\u{1CD4E}' => 92u8,
        '\u{1CD4F}' => 93u8,
        '\u{1CD50}' => 94u8,
        '\u{259B}' => 95u8,
        '\u{1CD51}' => 96u8,
        '\u{1CD52}' => 97u8,
        '\u{1CD53}' => 98u8,
        '\u{1CD54}' => 99u8,
        '\u{1CD55}' => 100u8,
        '\u{1CD56}' => 101u8,
        '\u{1CD57}' => 102u8,
        '\u{1CD58}' => 103u8,
        '\u{1CD59}' => 104u8,
        '\u{1CD5A}' => 105u8,
        '\u{1CD5B}' => 106u8,
        '\u{1CD5C}' => 107u8,
        '\u{1CD5D}' => 108u8,
        '\u{1CD5E}' => 109u8,
        '\u{1CD5F}' => 110u8,
        '\u{1CD60}' => 111u8,
        '\u{1CD61}' => 112u8,
        '\u{1CD62}' => 113u8,
        '\u{1CD63}' => 114u8,
        '\u{1CD64}' => 115u8,
        '\u{1CD65}' => 116u8,
        '\u{1CD66}' => 117u8,
        '\u{1CD67}' => 118u8,
        '\u{1CD68}' => 119u8,
        '\u{1CD69}' => 120u8,
        '\u{1CD6A}' => 121u8,
        '\u{1CD6B}' => 122u8,
        '\u{1CD6C}' => 123u8,
        '\u{1CD6D}' => 124u8,
        '\u{1CD6E}' => 125u8,
        '\u{1CD6F}' => 126u8,
        '\u{1CD70}' => 127u8,
        '\u{1CEA0}' => 128u8,
        '\u{1CD71}' => 129u8,
        '\u{1CD72}' => 130u8,
        '\u{1CD73}' => 131u8,
        '\u{1CD74}' => 132u8,
        '\u{1CD75}' => 133u8,
        '\u{1CD76}' => 134u8,
        '\u{1CD77}' => 135u8,
        '\u{1CD78}' => 136u8,
        '\u{1CD79}' => 137u8,
        '\u{1CD7A}' => 138u8,
        '\u{1CD7B}' => 139u8,
        '\u{1CD7C}' => 140u8,
        '\u{1CD7D}' => 141u8,
        '\u{1CD7E}' => 142u8,
        '\u{1CD7F}' => 143u8,
        '\u{1CD80}' => 144u8,
        '\u{1CD81}' => 145u8,
        '\u{1CD82}' => 146u8,
        '\u{1CD83}' => 147u8,
        '\u{1CD84}' => 148u8,
        '\u{1CD85}' => 149u8,
        '\u{1CD86}' => 150u8,
        '\u{1CD87}' => 151u8,
        '\u{1CD88}' => 152u8,
        '\u{1CD89}' => 153u8,
        '\u{1CD8A}' => 154u8,
        '\u{1CD8B}' => 155u8,
        '\u{1CD8C}' => 156u8,
        '\u{1CD8D}' => 157u8,
        '\u{1CD8E}' => 158u8,
        '\u{1CD8F}' => 159u8,
        '\u{2597}' => 160u8,
        '\u{1CD90}' => 161u8,
        '\u{1CD91}' => 162u8,
        '\u{1CD92}' => 163u8,
        '\u{1CD93}' => 164u8,
        '\u{259A}' => 165u8,
        '\u{1CD94}' => 166u8,
        '\u{1CD95}' => 167u8,
        '\u{1CD96}' => 168u8,
        '\u{1CD97}' => 169u8,
        '\u{2590}' => 170u8,
        '\u{1CD98}' => 171u8,
        '\u{1CD99}' => 172u8,
        '\u{1CD9A}' => 173u8,
        '\u{1CD9B}' => 174u8,
        '\u{259C}' => 175u8,
        '\u{1CD9C}' => 176u8,
        '\u{1CD9D}' => 177u8,
        '\u{1CD9E}' => 178u8,
        '\u{1CD9F}' => 179u8,
        '\u{1CDA0}' => 180u8,
        '\u{1CDA1}' => 181u8,
        '\u{1CDA2}' => 182u8,
        '\u{1CDA3}' => 183u8,
        '\u{1CDA4}' => 184u8,
        '\u{1CDA5}' => 185u8,
        '\u{1CDA6}' => 186u8,
        '\u{1CDA7}' => 187u8,
        '\u{1CDA8}' => 188u8,
        '\u{1CDA9}' => 189u8,
        '\u{1CDAA}' => 190u8,
        '\u{1CDAB}' => 191u8,
        '\u{2582}' => 192u8,
        '\u{1CDAC}' => 193u8,
        '\u{1CDAD}' => 194u8,
        '\u{1CDAE}' => 195u8,
        '\u{1CDAF}' => 196u8,
        '\u{1CDB0}' => 197u8,
        '\u{1CDB1}' => 198u8,
        '\u{1CDB2}' => 199u8,
        '\u{1CDB3}' => 200u8,
        '\u{1CDB4}' => 201u8,
        '\u{1CDB5}' => 202u8,
        '\u{1CDB6}' => 203u8,
        '\u{1CDB7}' => 204u8,
        '\u{1CDB8}' => 205u8,
        '\u{1CDB9}' => 206u8,
        '\u{1CDBA}' => 207u8,
        '\u{1CDBB}' => 208u8,
        '\u{1CDBC}' => 209u8,
        '\u{1CDBD}' => 210u8,
        '\u{1CDBE}' => 211u8,
        '\u{1CDBF}' => 212u8,
        '\u{1CDC0}' => 213u8,
        '\u{1CDC1}' => 214u8,
        '\u{1CDC2}' => 215u8,
        '\u{1CDC3}' => 216u8,
        '\u{1CDC4}' => 217u8,
        '\u{1CDC5}' => 218u8,
        '\u{1CDC6}' => 219u8,
        '\u{1CDC7}' => 220u8,
        '\u{1CDC8}' => 221u8,
        '\u{1CDC9}' => 222u8,
        '\u{1CDCA}' => 223u8,
        '\u{1CDCB}' => 224u8,
        '\u{1CDCC}' => 225u8,
        '\u{1CDCD}' => 226u8,
        '\u{1CDCE}' => 227u8,
        '\u{1CDCF}' => 228u8,
        '\u{1CDD0}' => 229u8,
        '\u{1CDD1}' => 230u8,
        '\u{1CDD2}' => 231u8,
        '\u{1CDD3}' => 232u8,
        '\u{1CDD4}' => 233u8,
        '\u{1CDD5}' => 234u8,
        '\u{1CDD6}' => 235u8,
        '\u{1CDD7}' => 236u8,
        '\u{1CDD8}' => 237u8,
        '\u{1CDD9}' => 238u8,
        '\u{1CDDA}' => 239u8,
        '\u{2584}' => 240u8,
        '\u{1CDDB}' => 241u8,
        '\u{1CDDC}' => 242u8,
        '\u{1CDDD}' => 243u8,
        '\u{1CDDE}' => 244u8,
        '\u{2599}' => 245u8,
        '\u{1CDDF}' => 246u8,
        '\u{1CDE0}' => 247u8,
        '\u{1CDE1}' => 248u8,
        '\u{1CDE2}' => 249u8,
        '\u{259F}' => 250u8,
        '\u{1CDE3}' => 251u8,
        '\u{2586}' => 252u8,
        '\u{1CDE4}' => 253u8,
        '\u{1CDE5}' => 254u8,
        '\u{2588}' => 255u8,
        _ => 0u8,
    }
}

proof fn lemma_octant_pattern_inverts(bits: u8)
    ensures
        octant_pattern(octant_glyph(bits)) == bits,
{
}

/// Distinct octant patterns are drawn by distinct glyphs.
pub proof fn lemma_octant_glyphs_distinct(a: u8, b: u8)
    requires
        a != b,
    ensures
        octant_glyph(a) != octant_glyph(b),
{
    lemma_octant_pattern_inverts(a);
    lemma_octant_pattern_inverts(b);
}

/// The glyph of an 8-bit octant pattern.
pub fn octant_bits_to_char(bits: u8) -> (c: char)
    ensures
        c == octant_glyph(bits),
{
    match bits {
        0 => '\u{0020}',
        1 => '\u{1CEA8}',
        2 => '\u{1CEAB}',
        3 => '\u{1FB82}',
        4 => '\u{1CD00}',
        5 => '\u{2598}',
        6 => '\u{1CD01}',
        7 => '\u{1CD02}',
        8 => '\u{1CD03}',
        9 => '\u{1CD04}',
        10 => '\u{259D}',
        11 => '\u{1CD05}',
        12 => '\u{1CD06}',
        13 => '\u{1CD07}',
        14 => '\u{1CD08}',
        15 => '\u{2580}',
        16 => '\u{1CD09}',
        17 => '\u{1CD0A}',
        18 => '\u{1CD0B}',
        19 => '\u{1CD0C}',
        20 => '\u{1FBE6}',
        21 => '\u{1CD0D}',
        22 => '\u{1CD0E}',
        23 => '\u{1CD0F}',
        24 => '\u{1CD10}',
        25 => '\u{1CD11}',
        26 => '\u{1CD12}',
        27 => '\u{1CD13}',
        28 => '\u{1CD14}',
        29 => '\u{1CD15}',
        30 => '\u{1CD16}',
        31 => '\u{1CD17}',
        32 => '\u{1CD18}',
        33 => '\u{1CD19}',
        34 => '\u{1CD1A}',
        35 => '\u{1CD1B}',
        36 => '\u{1CD1C}',
        37 => '\u{1CD1D}',
        38 => '\u{1CD1E}',
        39 => '\u{1CD1F}',
        40 => '\u{1FBE7}',
        41 => '\u{1CD20}',
        42 => '\u{1CD21}',
        43 => '\u{1CD22}',
        44 => '\u{1CD23}',
        45 => '\u{1CD24}',
        46 => '\u{1CD25}',
        47 => '\u{1CD26}',
        48 => '\u{1CD27}',
        49 => '\u{1CD28}',
        50 => '\u{1CD29}',
        51 => '\u{1CD2A}',
        52 => '\u{1CD2B}',
        53 => '\u{1CD2C}',
        54 => '\u{1CD2D}',
        55 => '\u{1CD2E}',
        56 => '\u{1CD2F}',
        57 => '\u{1CD30}',
        58 => '\u{1CD31}',
        59 => '\u{1CD32}',
        60 => '\u{1CD33}',
        61 => '\u{1CD34}',
        62 => '\u{1CD35}',
        63 => '\u{1FB85}',
        64 => '\u{1CEA3}',
        65 => '\u{1CD36}',
        66 => '\u{1CD37}',
        67 => '\u{1CD38}',
        68 => '\u{1CD39}',
        69 => '\u{1CD3A}',
        70 => '\u{1CD3B}',
        71 => '\u{1CD3C}',
        72 => '\u{1CD3D}',
        73 => '\u{1CD3E}',
        74 => '\u{1CD3F}',
        75 => '\u{1CD40}',
        76 => '\u{1CD41}',
        77 => '\u{1CD42}',
        78 => '\u{1CD43}',
        79 => '\u{1CD44}',
        80 => '\u{2596}',
        81 => '\u{1CD45}',
        82 => '\u{1CD46}',
        83 => '\u{1CD47}',
        84 => '\u{1CD48}',
        85 => '\u{258C}',
        86 => '\u{1CD49}',
        87 => '\u{1CD4A}',
        88 => '\u{1CD4B}',
        89 => '\u{1CD4C}',
        90 => '\u{259E}',
        91 => '\u{1CD4D}',
        92 => '\u{1CD4E}',
        93 => '\u{1CD4F}',
        94 => '\u{1CD50}',
        95 => '\u{259B}',
        96 => '\u{1CD51}',
        97 => '\u{1CD52}',
        98 => '\u{1CD53}',
        99 => '\u{1CD54}',
        100 => '\u{1CD55}',
        101 => '\u{1CD56}',
        102 => '\u{1CD57}',
        103 => '\u{1CD58}',
        104 => '\u{1CD59}',
        105 => '\u{1CD5A}',
        106 => '\u{1CD5B}',
        107 => '\u{1CD5C}',
        108 => '\u{1CD5D}',
        109 => '\u{1CD5E}',
        110 => '\u{1CD5F}',
        111 => '\u{1CD60}',
        112 => '\u{1CD61}',
        113 => '\u{1CD62}',
        114 => '\u{1CD63}',
        115 => '\u{1CD64}',
        116 => '\u{1CD65}',
        117 => '\u{1CD66}',
        118 => '\u{1CD67}',
        119 => '\u{1CD68}',
        120 => '\u{1CD69}',
        121 => '\u{1CD6A}',
        122 => '\u{1CD6B}',
        123 => '\u{1CD6C}',
        124 => '\u{1CD6D}',
        125 => '\u{1CD6E}',
        126 => '\u{1CD6F}',
        127 => '\u{1CD70}',
        128 => '\u{1CEA0}',
        129 => '\u{1CD71}',
        130 => '\u{1CD72}',
        131 => '\u{1CD73}',
        132 => '\u{1CD74}',
        133 => '\u{1CD75}',
        134 => '\u{1CD76}',
        135 => '\u{1CD77}',
        136 => '\u{1CD78}',
        137 => '\u{1CD79}',
        138 => '\u{1CD7A}',
        139 => '\u{1CD7B}',
        140 => '\u{1CD7C}',
        141 => '\u{1CD7D}',
        142 => '\u{1CD7E}',
        143 => '\u{1CD7F}',
        144 => '\u{1CD80}',
        145 => '\u{1CD81}',
        146 => '\u{1CD82}',
        147 => '\u{1CD83}',
        148 => '\u{1CD84}',
        149 => '\u{1CD85}',
        150 => '\u{1CD86}',
        151 => '\u{1CD87}',
        152 => '\u{1CD88}',
        153 => '\u{1CD89}',
        154 => '\u{1CD8A}',
        155 => '\u{1CD8B}',
        156 => '\u{1CD8C}',
        157 => '\u{1CD8D}',
        158 => '\u{1CD8E}',
        159 => '\u{1CD8F}',
        160 => '\u{2597}',
        161 => '\u{1CD90}',
        162 => '\u{1CD91}',
        163 => '\u{1CD92}',
        164 => '\u{1CD93}',
        165 => '\u{259A}',
        166 => '\u{1CD94}',
        167 => '\u{1CD95}',
        168 => '\u{1CD96}',
        169 => '\u{1CD97}',
        170 => '\u{2590}',
        171 => '\u{1CD98}',
        172 => '\u{1CD99}',
        173 => '\u{1CD9A}',
        174 => '\u{1CD9B}',
        175 => '\u{259C}',
        176 => '\u{1CD9C}',
        177 => '\u{1CD9D}',
        178 => '\u{1CD9E}',
        179 => '\u{1CD9F}',
        180 => '\u{1CDA0}',
        181 => '\u{1CDA1}',
        182 => '\u{1CDA2}',
        183 => '\u{1CDA3}',
        184 => '\u{1CDA4}',
        185 => '\u{1CDA5}',
        186 => '\u{1CDA6}',
        187 => '\u{1CDA7}',
        188 => '\u{1CDA8}',
        189 => '\u{1CDA9}',
        190 => '\u{1CDAA}',
        191 => '\u{1CDAB}',
        192 => '\u{2582}',
        193 => '\u{1CDAC}',
        194 => '\u{1CDAD}',
        195 => '\u{1CDAE}',
        196 => '\u{1CDAF}',
        197 => '\u{1CDB0}',
        198 => '\u{1CDB1}',
        199 => '\u{1CDB2}',
        200 => '\u{1CDB3}',
        201 => '\u{1CDB4}',
        202 => '\u{1CDB5}',
        203 => '\u{1CDB6}',
        204 => '\u{1CDB7}',
        205 => '\u{1CDB8}',
        206 => '\u{1CDB9}',
        207 => '\u{1CDBA}',
        208 => '\u{1CDBB}',
        209 => '\u{1CDBC}',
        210 => '\u{1CDBD}',
        211 => '\u{1CDBE}',
        212 => '\u{1CDBF}',
        213 => '\u{1CDC0}',
        214 => '\u{1CDC1}',
        215 => '\u{1CDC2}',
        216 => '\u{1CDC3}',
        217 => '\u{1CDC4}',
        218 => '\u{1CDC5}',
        219 => '\u{1CDC6}',
        220 => '\u{1CDC7}',
        221 => '\u{1CDC8}',
        222 => '\u{1CDC9}',
        223 => '\u{1CDCA}',
        224 => '\u{1CDCB}',
        225 => '\u{1CDCC}',
        226 => '\u{1CDCD}',
        227 => '\u{1CDCE}',
        228 => '\u{1CDCF}',
        229 => '\u{1CDD0}',
        230 => '\u{1CDD1}',
        231 => '\u{1CDD2}',
        232 => '\u{1CDD3}',
        233 => '\u{1CDD4}',
        234 => '\u{1CDD5}',
        235 => '\u{1CDD6}',
        236 => '\u{1CDD7}',
        237 => '\u{1CDD8}',
        238 => '\u{1CDD9}',
        239 => '\u{1CDDA}',
        240 => '\u{2584}',
        241 => '\u{1CDDB}',
        242 => '\u{1CDDC}',
        243 => '\u{1CDDD}',
        244 => '\u{1CDDE}',
        245 => '\u{2599}',
        246 => '\u{1CDDF}',
        247 => '\u{1CDE0}',
        248 => '\u{1CDE1}',
        249 => '\u{1CDE2}',
        250 => '\u{259F}',
        251 => '\u{1CDE3}',
        252 => '\u{2586}',
        253 => '\u{1CDE4}',
        254 => '\u{1CDE5}',
        255 => '\u{2588}',
    }
}

} // verus!
