//! The table of named ANSI colors: names to palette numbers and back.

use vstd::prelude::*;
use crate::strutil::{chars_eq_str, chars_of};

verus! {

/// Part 1 of the named-color table (in table order).
pub open spec fn ansi_number_part0(name: Seq<char>) -> Option<u8> {
    if name == "black"@ {
        Some(0u8)
    } else if name == "red"@ {
        Some(1u8)
    } else if name == "green"@ {
        Some(2u8)
    } else if name == "yellow"@ {
        Some(3u8)
    } else if name == "blue"@ {
        Some(4u8)
    } else if name == "magenta"@ {
        Some(5u8)
    } else if name == "cyan"@ {
        Some(6u8)
    } else if name == "white"@ {
        Some(7u8)
    } else if name == "bright_black"@ {
        Some(8u8)
    } else if name == "bright_red"@ {
        Some(9u8)
    } else if name == "bright_green"@ {
        Some(10u8)
    } else if name == "bright_yellow"@ {
        Some(11u8)
    } else if name == "bright_blue"@ {
        Some(12u8)
    } else if name == "bright_magenta"@ {
        Some(13u8)
    } else if name == "bright_cyan"@ {
        Some(14u8)
    } else if name == "bright_white"@ {
        Some(15u8)
    } else if name == "grey0"@ {
        Some(16u8)
    } else if name == "gray0"@ {
        Some(16u8)
    } else if name == "navy_blue"@ {
        Some(17u8)
    } else if name == "dark_blue"@ {
        Some(18u8)
    } else if name == "blue3"@ {
        Some(20u8)
    } else if name == "blue1"@ {
        Some(21u8)
    } else if name == "dark_green"@ {
        Some(22u8)
    } else if name == "deep_sky_blue4"@ {
        Some(25u8)
    } else if name == "dodger_blue3"@ {
        Some(26u8)
    } else if name == "dodger_blue2"@ {
        Some(27u8)
    } else if name == "green4"@ {
        Some(28u8)
    } else if name == "spring_green4"@ {
        Some(29u8)
    } else if name == "turquoise4"@ {
        Some(30u8)
    } else if name == "deep_sky_blue3"@ {
        Some(32u8)
    } else if name == "dodger_blue1"@ {
        Some(33u8)
    } else if name == "green3"@ {
        Some(40u8)
    } else if name == "spring_green3"@ {
        Some(41u8)
    } else if name == "dark_cyan"@ {
        Some(36u8)
    } else if name == "light_sea_green"@ {
        Some(37u8)
    } else if name == "deep_sky_blue2"@ {
        Some(38u8)
    } else if name == "deep_sky_blue1"@ {
        Some(39u8)
    } else if name == "spring_green2"@ {
        Some(47u8)
    } else if name == "cyan3"@ {
        Some(43u8)
    } else if name == "dark_turquoise"@ {
        Some(44u8)
    } else if name == "turquoise2"@ {
        Some(45u8)
    } else if name == "green1"@ {
        Some(46u8)
    } else if name == "spring_green1"@ {
        Some(48u8)
    } else if name == "medium_spring_green"@ {
        Some(49u8)
    } else if name == "cyan2"@ {
        Some(50u8)
    } else if name == "cyan1"@ {
        Some(51u8)
    } else if name == "dark_red"@ {
        Some(88u8)
    } else if name == "deep_pink4"@ {
        Some(125u8)
    } else if name == "purple4"@ {
        Some(55u8)
    } else if name == "purple3"@ {
        Some(56u8)
    } else if name == "blue_violet"@ {
        Some(57u8)
    } else if name == "orange4"@ {
        Some(94u8)
    } else if name == "grey37"@ {
        Some(59u8)
    } else if name == "gray37"@ {
        Some(59u8)
    } else if name == "medium_purple4"@ {
        Some(60u8)
    } else if name == "slate_blue3"@ {
        Some(62u8)
    } else if name == "royal_blue1"@ {
        Some(63u8)
    } else if name == "chartreuse4"@ {
        Some(64u8)
    } else if name == "dark_sea_green4"@ {
        Some(71u8)
    } else if name == "pale_turquoise4"@ {
        Some(66u8)
    } else {
        ansi_number_part1(name)
    }
}

/// Part 2 of the named-color table (in table order).
pub open spec fn ansi_number_part1(name: Seq<char>) -> Option<u8> {
    if name == "steel_blue"@ {
        Some(67u8)
    } else if name == "steel_blue3"@ {
        Some(68u8)
    } else if name == "cornflower_blue"@ {
        Some(69u8)
    } else if name == "chartreuse3"@ {
        Some(76u8)
    } else if name == "cadet_blue"@ {
        Some(73u8)
    } else if name == "sky_blue3"@ {
        Some(74u8)
    } else if name == "steel_blue1"@ {
        Some(81u8)
    } else if name == "pale_green3"@ {
        Some(114u8)
    } else if name == "sea_green3"@ {
        Some(78u8)
    } else if name == "aquamarine3"@ {
        Some(79u8)
    } else if name == "medium_turquoise"@ {
        Some(80u8)
    } else if name == "chartreuse2"@ {
        Some(112u8)
    } else if name == "sea_green2"@ {
        Some(83u8)
    } else if name == "sea_green1"@ {
        Some(85u8)
    } else if name == "aquamarine1"@ {
        Some(122u8)
    } else if name == "dark_slate_gray2"@ {
        Some(87u8)
    } else if name == "dark_magenta"@ {
        Some(91u8)
    } else if name == "dark_violet"@ {
        Some(128u8)
    } else if name == "purple"@ {
        Some(129u8)
    } else if name == "light_pink4"@ {
        Some(95u8)
    } else if name == "plum4"@ {
        Some(96u8)
    } else if name == "medium_purple3"@ {
        Some(98u8)
    } else if name == "slate_blue1"@ {
        Some(99u8)
    } else if name == "yellow4"@ {
        Some(106u8)
    } else if name == "wheat4"@ {
        Some(101u8)
    } else if name == "grey53"@ {
        Some(102u8)
    } else if name == "gray53"@ {
        Some(102u8)
    } else if name == "light_slate_grey"@ {
        Some(103u8)
    } else if name == "light_slate_gray"@ {
        Some(103u8)
    } else if name == "medium_purple"@ {
        Some(104u8)
    } else if name == "light_slate_blue"@ {
        Some(105u8)
    } else if name == "dark_olive_green3"@ {
        Some(149u8)
    } else if name == "dark_sea_green"@ {
        Some(108u8)
    } else if name == "light_sky_blue3"@ {
        Some(110u8)
    } else if name == "sky_blue2"@ {
        Some(111u8)
    } else if name == "dark_sea_green3"@ {
        Some(150u8)
    } else if name == "dark_slate_gray3"@ {
        Some(116u8)
    } else if name == "sky_blue1"@ {
        Some(117u8)
    } else if name == "chartreuse1"@ {
        Some(118u8)
    } else if name == "light_green"@ {
        Some(120u8)
    } else if name == "pale_green1"@ {
        Some(156u8)
    } else if name == "dark_slate_gray1"@ {
        Some(123u8)
    } else if name == "red3"@ {
        Some(160u8)
    } else if name == "medium_violet_red"@ {
        Some(126u8)
    } else if name == "magenta3"@ {
        Some(164u8)
    } else if name == "dark_orange3"@ {
        Some(166u8)
    } else if name == "indian_red"@ {
        Some(167u8)
    } else if name == "hot_pink3"@ {
        Some(168u8)
    } else if name == "medium_orchid3"@ {
        Some(133u8)
    } else if name == "medium_orchid"@ {
        Some(134u8)
    } else if name == "medium_purple2"@ {
        Some(140u8)
    } else if name == "dark_goldenrod"@ {
        Some(136u8)
    } else if name == "light_salmon3"@ {
        Some(173u8)
    } else if name == "rosy_brown"@ {
        Some(138u8)
    } else if name == "grey63"@ {
        Some(139u8)
    } else if name == "gray63"@ {
        Some(139u8)
    } else if name == "medium_purple1"@ {
        Some(141u8)
    } else if name == "gold3"@ {
        Some(178u8)
    } else if name == "dark_khaki"@ {
        Some(143u8)
    } else if name == "navajo_white3"@ {
        Some(144u8)
    } else {
        ansi_number_part2(name)
    }
}

/// Part 3 of the named-color table (in table order).
pub open spec fn ansi_number_part2(name: Seq<char>) -> Option<u8> {
    if name == "grey69"@ {
        Some(145u8)
    } else if name == "gray69"@ {
        Some(145u8)
    } else if name == "light_steel_blue3"@ {
        Some(146u8)
    } else if name == "light_steel_blue"@ {
        Some(147u8)
    } else if name == "yellow3"@ {
        Some(184u8)
    } else if name == "dark_sea_green2"@ {
        Some(157u8)
    } else if name == "light_cyan3"@ {
        Some(152u8)
    } else if name == "light_sky_blue1"@ {
        Some(153u8)
    } else if name == "green_yellow"@ {
        Some(154u8)
    } else if name == "dark_olive_green2"@ {
        Some(155u8)
    } else if name == "dark_sea_green1"@ {
        Some(193u8)
    } else if name == "pale_turquoise1"@ {
        Some(159u8)
    } else if name == "deep_pink3"@ {
        Some(162u8)
    } else if name == "magenta2"@ {
        Some(200u8)
    } else if name == "hot_pink2"@ {
        Some(169u8)
    } else if name == "orchid"@ {
        Some(170u8)
    } else if name == "medium_orchid1"@ {
        Some(207u8)
    } else if name == "orange3"@ {
        Some(172u8)
    } else if name == "light_pink3"@ {
        Some(174u8)
    } else if name == "pink3"@ {
        Some(175u8)
    } else if name == "plum3"@ {
        Some(176u8)
    } else if name == "violet"@ {
        Some(177u8)
    } else if name == "light_goldenrod3"@ {
        Some(179u8)
    } else if name == "tan"@ {
        Some(180u8)
    } else if name == "misty_rose3"@ {
        Some(181u8)
    } else if name == "thistle3"@ {
        Some(182u8)
    } else if name == "plum2"@ {
        Some(183u8)
    } else if name == "khaki3"@ {
        Some(185u8)
    } else if name == "light_goldenrod2"@ {
        Some(222u8)
    } else if name == "light_yellow3"@ {
        Some(187u8)
    } else if name == "grey84"@ {
        Some(188u8)
    } else if name == "gray84"@ {
        Some(188u8)
    } else if name == "light_steel_blue1"@ {
        Some(189u8)
    } else if name == "yellow2"@ {
        Some(190u8)
    } else if name == "dark_olive_green1"@ {
        Some(192u8)
    } else if name == "honeydew2"@ {
        Some(194u8)
    } else if name == "light_cyan1"@ {
        Some(195u8)
    } else if name == "red1"@ {
        Some(196u8)
    } else if name == "deep_pink2"@ {
        Some(197u8)
    } else if name == "deep_pink1"@ {
        Some(199u8)
    } else if name == "magenta1"@ {
        Some(201u8)
    } else if name == "orange_red1"@ {
        Some(202u8)
    } else if name == "indian_red1"@ {
        Some(204u8)
    } else if name == "hot_pink"@ {
        Some(206u8)
    } else if name == "dark_orange"@ {
        Some(208u8)
    } else if name == "salmon1"@ {
        Some(209u8)
    } else if name == "light_coral"@ {
        Some(210u8)
    } else if name == "pale_violet_red1"@ {
        Some(211u8)
    } else if name == "orchid2"@ {
        Some(212u8)
    } else if name == "orchid1"@ {
        Some(213u8)
    } else if name == "orange1"@ {
        Some(214u8)
    } else if name == "sandy_brown"@ {
        Some(215u8)
    } else if name == "light_salmon1"@ {
        Some(216u8)
    } else if name == "light_pink1"@ {
        Some(217u8)
    } else if name == "pink1"@ {
        Some(218u8)
    } else if name == "plum1"@ {
        Some(219u8)
    } else if name == "gold1"@ {
        Some(220u8)
    } else if name == "navajo_white1"@ {
        Some(223u8)
    } else if name == "misty_rose1"@ {
        Some(224u8)
    } else if name == "thistle1"@ {
        Some(225u8)
    } else {
        ansi_number_part3(name)
    }
}

/// Part 4 of the named-color table (in table order).
pub open spec fn ansi_number_part3(name: Seq<char>) -> Option<u8> {
    if name == "yellow1"@ {
        Some(226u8)
    } else if name == "light_goldenrod1"@ {
        Some(227u8)
    } else if name == "khaki1"@ {
        Some(228u8)
    } else if name == "wheat1"@ {
        Some(229u8)
    } else if name == "cornsilk1"@ {
        Some(230u8)
    } else if name == "grey100"@ {
        Some(231u8)
    } else if name == "gray100"@ {
        Some(231u8)
    } else if name == "grey3"@ {
        Some(232u8)
    } else if name == "gray3"@ {
        Some(232u8)
    } else if name == "grey7"@ {
        Some(233u8)
    } else if name == "gray7"@ {
        Some(233u8)
    } else if name == "grey11"@ {
        Some(234u8)
    } else if name == "gray11"@ {
        Some(234u8)
    } else if name == "grey15"@ {
        Some(235u8)
    } else if name == "gray15"@ {
        Some(235u8)
    } else if name == "grey19"@ {
        Some(236u8)
    } else if name == "gray19"@ {
        Some(236u8)
    } else if name == "grey23"@ {
        Some(237u8)
    } else if name == "gray23"@ {
        Some(237u8)
    } else if name == "grey27"@ {
        Some(238u8)
    } else if name == "gray27"@ {
        Some(238u8)
    } else if name == "grey30"@ {
        Some(239u8)
    } else if name == "gray30"@ {
        Some(239u8)
    } else if name == "grey35"@ {
        Some(240u8)
    } else if name == "gray35"@ {
        Some(240u8)
    } else if name == "grey39"@ {
        Some(241u8)
    } else if name == "gray39"@ {
        Some(241u8)
    } else if name == "grey42"@ {
        Some(242u8)
    } else if name == "gray42"@ {
        Some(242u8)
    } else if name == "grey46"@ {
        Some(243u8)
    } else if name == "gray46"@ {
        Some(243u8)
    } else if name == "grey50"@ {
        Some(244u8)
    } else if name == "gray50"@ {
        Some(244u8)
    } else if name == "grey54"@ {
        Some(245u8)
    } else if name == "gray54"@ {
        Some(245u8)
    } else if name == "grey58"@ {
        Some(246u8)
    } else if name == "gray58"@ {
        Some(246u8)
    } else if name == "grey62"@ {
        Some(247u8)
    } else if name == "gray62"@ {
        Some(247u8)
    } else if name == "grey66"@ {
        Some(248u8)
    } else if name == "gray66"@ {
        Some(248u8)
    } else if name == "grey70"@ {
        Some(249u8)
    } else if name == "gray70"@ {
        Some(249u8)
    } else if name == "grey74"@ {
        Some(250u8)
    } else if name == "gray74"@ {
        Some(250u8)
    } else if name == "grey78"@ {
        Some(251u8)
    } else if name == "gray78"@ {
        Some(251u8)
    } else if name == "grey82"@ {
        Some(252u8)
    } else if name == "gray82"@ {
        Some(252u8)
    } else if name == "grey85"@ {
        Some(253u8)
    } else if name == "gray85"@ {
        Some(253u8)
    } else if name == "grey89"@ {
        Some(254u8)
    } else if name == "gray89"@ {
        Some(254u8)
    } else if name == "grey93"@ {
        Some(255u8)
    } else if name == "gray93"@ {
        Some(255u8)
    } else {
        None
    }
}

fn ansi_number_exec0(name: &[char]) -> (r: Option<u8>)
    ensures
        r == ansi_number_part0(name@),
{
    if chars_eq_str(name, "black") {
        return Some(0);
    }
    if chars_eq_str(name, "red") {
        return Some(1);
    }
    if chars_eq_str(name, "green") {
        return Some(2);
    }
    if chars_eq_str(name, "yellow") {
        return Some(3);
    }
    if chars_eq_str(name, "blue") {
        return Some(4);
    }
    if chars_eq_str(name, "magenta") {
        return Some(5);
    }
    if chars_eq_str(name, "cyan") {
        return Some(6);
    }
    if chars_eq_str(name, "white") {
        return Some(7);
    }
    if chars_eq_str(name, "bright_black") {
        return Some(8);
    }
    if chars_eq_str(name, "bright_red") {
        return Some(9);
    }
    if chars_eq_str(name, "bright_green") {
        return Some(10);
    }
    if chars_eq_str(name, "bright_yellow") {
        return Some(11);
    }
    if chars_eq_str(name, "bright_blue") {
        return Some(12);
    }
    if chars_eq_str(name, "bright_magenta") {
        return Some(13);
    }
    if chars_eq_str(name, "bright_cyan") {
        return Some(14);
    }
    if chars_eq_str(name, "bright_white") {
        return Some(15);
    }
    if chars_eq_str(name, "grey0") {
        return Some(16);
    }
    if chars_eq_str(name, "gray0") {
        return Some(16);
    }
    if chars_eq_str(name, "navy_blue") {
        return Some(17);
    }
    if chars_eq_str(name, "dark_blue") {
        return Some(18);
    }
    if chars_eq_str(name, "blue3") {
        return Some(20);
    }
    if chars_eq_str(name, "blue1") {
        return Some(21);
    }
    if chars_eq_str(name, "dark_green") {
        return Some(22);
    }
    if chars_eq_str(name, "deep_sky_blue4") {
        return Some(25);
    }
    if chars_eq_str(name, "dodger_blue3") {
        return Some(26);
    }
    if chars_eq_str(name, "dodger_blue2") {
        return Some(27);
    }
    if chars_eq_str(name, "green4") {
        return Some(28);
    }
    if chars_eq_str(name, "spring_green4") {
        return Some(29);
    }
    if chars_eq_str(name, "turquoise4") {
        return Some(30);
    }
    if chars_eq_str(name, "deep_sky_blue3") {
        return Some(32);
    }
    if chars_eq_str(name, "dodger_blue1") {
        return Some(33);
    }
    if chars_eq_str(name, "green3") {
        return Some(40);
    }
    if chars_eq_str(name, "spring_green3") {
        return Some(41);
    }
    if chars_eq_str(name, "dark_cyan") {
        return Some(36);
    }
    if chars_eq_str(name, "light_sea_green") {
        return Some(37);
    }
    if chars_eq_str(name, "deep_sky_blue2") {
        return Some(38);
    }
    if chars_eq_str(name, "deep_sky_blue1") {
        return Some(39);
    }
    if chars_eq_str(name, "spring_green2") {
        return Some(47);
    }
    if chars_eq_str(name, "cyan3") {
        return Some(43);
    }
    if chars_eq_str(name, "dark_turquoise") {
        return Some(44);
    }
    if chars_eq_str(name, "turquoise2") {
        return Some(45);
    }
    if chars_eq_str(name, "green1") {
        return Some(46);
    }
    if chars_eq_str(name, "spring_green1") {
        return Some(48);
    }
    if chars_eq_str(name, "medium_spring_green") {
        return Some(49);
    }
    if chars_eq_str(name, "cyan2") {
        return Some(50);
    }
    if chars_eq_str(name, "cyan1") {
        return Some(51);
    }
    if chars_eq_str(name, "dark_red") {
        return Some(88);
    }
    if chars_eq_str(name, "deep_pink4") {
        return Some(125);
    }
    if chars_eq_str(name, "purple4") {
        return Some(55);
    }
    if chars_eq_str(name, "purple3") {
        return Some(56);
    }
    if chars_eq_str(name, "blue_violet") {
        return Some(57);
    }
    if chars_eq_str(name, "orange4") {
        return Some(94);
    }
    if chars_eq_str(name, "grey37") {
        return Some(59);
    }
    if chars_eq_str(name, "gray37") {
        return Some(59);
    }
    if chars_eq_str(name, "medium_purple4") {
        return Some(60);
    }
    if chars_eq_str(name, "slate_blue3") {
        return Some(62);
    }
    if chars_eq_str(name, "royal_blue1") {
        return Some(63);
    }
    if chars_eq_str(name, "chartreuse4") {
        return Some(64);
    }
    if chars_eq_str(name, "dark_sea_green4") {
        return Some(71);
    }
    if chars_eq_str(name, "pale_turquoise4") {
        return Some(66);
    }
    ansi_number_exec1(name)
}

fn ansi_number_exec1(name: &[char]) -> (r: Option<u8>)
    ensures
        r == ansi_number_part1(name@),
{
    if chars_eq_str(name, "steel_blue") {
        return Some(67);
    }
    if chars_eq_str(name, "steel_blue3") {
        return Some(68);
    }
    if chars_eq_str(name, "cornflower_blue") {
        return Some(69);
    }
    if chars_eq_str(name, "chartreuse3") {
        return Some(76);
    }
    if chars_eq_str(name, "cadet_blue") {
        return Some(73);
    }
    if chars_eq_str(name, "sky_blue3") {
        return Some(74);
    }
    if chars_eq_str(name, "steel_blue1") {
        return Some(81);
    }
    if chars_eq_str(name, "pale_green3") {
        return Some(114);
    }
    if chars_eq_str(name, "sea_green3") {
        return Some(78);
    }
    if chars_eq_str(name, "aquamarine3") {
        return Some(79);
    }
    if chars_eq_str(name, "medium_turquoise") {
        return Some(80);
    }
    if chars_eq_str(name, "chartreuse2") {
        return Some(112);
    }
    if chars_eq_str(name, "sea_green2") {
        return Some(83);
    }
    if chars_eq_str(name, "sea_green1") {
        return Some(85);
    }
    if chars_eq_str(name, "aquamarine1") {
        return Some(122);
    }
    if chars_eq_str(name, "dark_slate_gray2") {
        return Some(87);
    }
    if chars_eq_str(name, "dark_magenta") {
        return Some(91);
    }
    if chars_eq_str(name, "dark_violet") {
        return Some(128);
    }
    if chars_eq_str(name, "purple") {
        return Some(129);
    }
    if chars_eq_str(name, "light_pink4") {
        return Some(95);
    }
    if chars_eq_str(name, "plum4") {
        return Some(96);
    }
    if chars_eq_str(name, "medium_purple3") {
        return Some(98);
    }
    if chars_eq_str(name, "slate_blue1") {
        return Some(99);
    }
    if chars_eq_str(name, "yellow4") {
        return Some(106);
    }
    if chars_eq_str(name, "wheat4") {
        return Some(101);
    }
    if chars_eq_str(name, "grey53") {
        return Some(102);
    }
    if chars_eq_str(name, "gray53") {
        return Some(102);
    }
    if chars_eq_str(name, "light_slate_grey") {
        return Some(103);
    }
    if chars_eq_str(name, "light_slate_gray") {
        return Some(103);
    }
    if chars_eq_str(name, "medium_purple") {
        return Some(104);
    }
    if chars_eq_str(name, "light_slate_blue") {
        return Some(105);
    }
    if chars_eq_str(name, "dark_olive_green3") {
        return Some(149);
    }
    if chars_eq_str(name, "dark_sea_green") {
        return Some(108);
    }
    if chars_eq_str(name, "light_sky_blue3") {
        return Some(110);
    }
    if chars_eq_str(name, "sky_blue2") {
        return Some(111);
    }
    if chars_eq_str(name, "dark_sea_green3") {
        return Some(150);
    }
    if chars_eq_str(name, "dark_slate_gray3") {
        return Some(116);
    }
    if chars_eq_str(name, "sky_blue1") {
        return Some(117);
    }
    if chars_eq_str(name, "chartreuse1") {
        return Some(118);
    }
    if chars_eq_str(name, "light_green") {
        return Some(120);
    }
    if chars_eq_str(name, "pale_green1") {
        return Some(156);
    }
    if chars_eq_str(name, "dark_slate_gray1") {
        return Some(123);
    }
    if chars_eq_str(name, "red3") {
        return Some(160);
    }
    if chars_eq_str(name, "medium_violet_red") {
        return Some(126);
    }
    if chars_eq_str(name, "magenta3") {
        return Some(164);
    }
    if chars_eq_str(name, "dark_orange3") {
        return Some(166);
    }
    if chars_eq_str(name, "indian_red") {
        return Some(167);
    }
    if chars_eq_str(name, "hot_pink3") {
        return Some(168);
    }
    if chars_eq_str(name, "medium_orchid3") {
        return Some(133);
    }
    if chars_eq_str(name, "medium_orchid") {
        return Some(134);
    }
    if chars_eq_str(name, "medium_purple2") {
        return Some(140);
    }
    if chars_eq_str(name, "dark_goldenrod") {
        return Some(136);
    }
    if chars_eq_str(name, "light_salmon3") {
        return Some(173);
    }
    if chars_eq_str(name, "rosy_brown") {
        return Some(138);
    }
    if chars_eq_str(name, "grey63") {
        return Some(139);
    }
    if chars_eq_str(name, "gray63") {
        return Some(139);
    }
    if chars_eq_str(name, "medium_purple1") {
        return Some(141);
    }
    if chars_eq_str(name, "gold3") {
        return Some(178);
    }
    if chars_eq_str(name, "dark_khaki") {
        return Some(143);
    }
    if chars_eq_str(name, "navajo_white3") {
        return Some(144);
    }
    ansi_number_exec2(name)
}

fn ansi_number_exec2(name: &[char]) -> (r: Option<u8>)
    ensures
        r == ansi_number_part2(name@),
{
    if chars_eq_str(name, "grey69") {
        return Some(145);
    }
    if chars_eq_str(name, "gray69") {
        return Some(145);
    }
    if chars_eq_str(name, "light_steel_blue3") {
        return Some(146);
    }
    if chars_eq_str(name, "light_steel_blue") {
        return Some(147);
    }
    if chars_eq_str(name, "yellow3") {
        return Some(184);
    }
    if chars_eq_str(name, "dark_sea_green2") {
        return Some(157);
    }
    if chars_eq_str(name, "light_cyan3") {
        return Some(152);
    }
    if chars_eq_str(name, "light_sky_blue1") {
        return Some(153);
    }
    if chars_eq_str(name, "green_yellow") {
        return Some(154);
    }
    if chars_eq_str(name, "dark_olive_green2") {
        return Some(155);
    }
    if chars_eq_str(name, "dark_sea_green1") {
        return Some(193);
    }
    if chars_eq_str(name, "pale_turquoise1") {
        return Some(159);
    }
    if chars_eq_str(name, "deep_pink3") {
        return Some(162);
    }
    if chars_eq_str(name, "magenta2") {
        return Some(200);
    }
    if chars_eq_str(name, "hot_pink2") {
        return Some(169);
    }
    if chars_eq_str(name, "orchid") {
        return Some(170);
    }
    if chars_eq_str(name, "medium_orchid1") {
        return Some(207);
    }
    if chars_eq_str(name, "orange3") {
        return Some(172);
    }
    if chars_eq_str(name, "light_pink3") {
        return Some(174);
    }
    if chars_eq_str(name, "pink3") {
        return Some(175);
    }
    if chars_eq_str(name, "plum3") {
        return Some(176);
    }
    if chars_eq_str(name, "violet") {
        return Some(177);
    }
    if chars_eq_str(name, "light_goldenrod3") {
        return Some(179);
    }
    if chars_eq_str(name, "tan") {
        return Some(180);
    }
    if chars_eq_str(name, "misty_rose3") {
        return Some(181);
    }
    if chars_eq_str(name, "thistle3") {
        return Some(182);
    }
    if chars_eq_str(name, "plum2") {
        return Some(183);
    }
    if chars_eq_str(name, "khaki3") {
        return Some(185);
    }
    if chars_eq_str(name, "light_goldenrod2") {
        return Some(222);
    }
    if chars_eq_str(name, "light_yellow3") {
        return Some(187);
    }
    if chars_eq_str(name, "grey84") {
        return Some(188);
    }
    if chars_eq_str(name, "gray84") {
        return Some(188);
    }
    if chars_eq_str(name, "light_steel_blue1") {
        return Some(189);
    }
    if chars_eq_str(name, "yellow2") {
        return Some(190);
    }
    if chars_eq_str(name, "dark_olive_green1") {
        return Some(192);
    }
    if chars_eq_str(name, "honeydew2") {
        return Some(194);
    }
    if chars_eq_str(name, "light_cyan1") {
        return Some(195);
    }
    if chars_eq_str(name, "red1") {
        return Some(196);
    }
    if chars_eq_str(name, "deep_pink2") {
        return Some(197);
    }
    if chars_eq_str(name, "deep_pink1") {
        return Some(199);
    }
    if chars_eq_str(name, "magenta1") {
        return Some(201);
    }
    if chars_eq_str(name, "orange_red1") {
        return Some(202);
    }
    if chars_eq_str(name, "indian_red1") {
        return Some(204);
    }
    if chars_eq_str(name, "hot_pink") {
        return Some(206);
    }
    if chars_eq_str(name, "dark_orange") {
        return Some(208);
    }
    if chars_eq_str(name, "salmon1") {
        return Some(209);
    }
    if chars_eq_str(name, "light_coral") {
        return Some(210);
    }
    if chars_eq_str(name, "pale_violet_red1") {
        return Some(211);
    }
    if chars_eq_str(name, "orchid2") {
        return Some(212);
    }
    if chars_eq_str(name, "orchid1") {
        return Some(213);
    }
    if chars_eq_str(name, "orange1") {
        return Some(214);
    }
    if chars_eq_str(name, "sandy_brown") {
        return Some(215);
    }
    if chars_eq_str(name, "light_salmon1") {
        return Some(216);
    }
    if chars_eq_str(name, "light_pink1") {
        return Some(217);
    }
    if chars_eq_str(name, "pink1") {
        return Some(218);
    }
    if chars_eq_str(name, "plum1") {
        return Some(219);
    }
    if chars_eq_str(name, "gold1") {
        return Some(220);
    }
    if chars_eq_str(name, "navajo_white1") {
        return Some(223);
    }
    if chars_eq_str(name, "misty_rose1") {
        return Some(224);
    }
    if chars_eq_str(name, "thistle1") {
        return Some(225);
    }
    ansi_number_exec3(name)
}

fn ansi_number_exec3(name: &[char]) -> (r: Option<u8>)
    ensures
        r == ansi_number_part3(name@),
{
    if chars_eq_str(name, "yellow1") {
        return Some(226);
    }
    if chars_eq_str(name, "light_goldenrod1") {
        return Some(227);
    }
    if chars_eq_str(name, "khaki1") {
        return Some(228);
    }
    if chars_eq_str(name, "wheat1") {
        return Some(229);
    }
    if chars_eq_str(name, "cornsilk1") {
        return Some(230);
    }
    if chars_eq_str(name, "grey100") {
        return Some(231);
    }
    if chars_eq_str(name, "gray100") {
        return Some(231);
    }
    if chars_eq_str(name, "grey3") {
        return Some(232);
    }
    if chars_eq_str(name, "gray3") {
        return Some(232);
    }
    if chars_eq_str(name, "grey7") {
        return Some(233);
    }
    if chars_eq_str(name, "gray7") {
        return Some(233);
    }
    if chars_eq_str(name, "grey11") {
        return Some(234);
    }
    if chars_eq_str(name, "gray11") {
        return Some(234);
    }
    if chars_eq_str(name, "grey15") {
        return Some(235);
    }
    if chars_eq_str(name, "gray15") {
        return Some(235);
    }
    if chars_eq_str(name, "grey19") {
        return Some(236);
    }
    if chars_eq_str(name, "gray19") {
        return Some(236);
    }
    if chars_eq_str(name, "grey23") {
        return Some(237);
    }
    if chars_eq_str(name, "gray23") {
        return Some(237);
    }
    if chars_eq_str(name, "grey27") {
        return Some(238);
    }
    if chars_eq_str(name, "gray27") {
        return Some(238);
    }
    if chars_eq_str(name, "grey30") {
        return Some(239);
    }
    if chars_eq_str(name, "gray30") {
        return Some(239);
    }
    if chars_eq_str(name, "grey35") {
        return Some(240);
    }
    if chars_eq_str(name, "gray35") {
        return Some(240);
    }
    if chars_eq_str(name, "grey39") {
        return Some(241);
    }
    if chars_eq_str(name, "gray39") {
        return Some(241);
    }
    if chars_eq_str(name, "grey42") {
        return Some(242);
    }
    if chars_eq_str(name, "gray42") {
        return Some(242);
    }
    if chars_eq_str(name, "grey46") {
        return Some(243);
    }
    if chars_eq_str(name, "gray46") {
        return Some(243);
    }
    if chars_eq_str(name, "grey50") {
        return Some(244);
    }
    if chars_eq_str(name, "gray50") {
        return Some(244);
    }
    if chars_eq_str(name, "grey54") {
        return Some(245);
    }
    if chars_eq_str(name, "gray54") {
        return Some(245);
    }
    if chars_eq_str(name, "grey58") {
        return Some(246);
    }
    if chars_eq_str(name, "gray58") {
        return Some(246);
    }
    if chars_eq_str(name, "grey62") {
        return Some(247);
    }
    if chars_eq_str(name, "gray62") {
        return Some(247);
    }
    if chars_eq_str(name, "grey66") {
        return Some(248);
    }
    if chars_eq_str(name, "gray66") {
        return Some(248);
    }
    if chars_eq_str(name, "grey70") {
        return Some(249);
    }
    if chars_eq_str(name, "gray70") {
        return Some(249);
    }
    if chars_eq_str(name, "grey74") {
        return Some(250);
    }
    if chars_eq_str(name, "gray74") {
        return Some(250);
    }
    if chars_eq_str(name, "grey78") {
        return Some(251);
    }
    if chars_eq_str(name, "gray78") {
        return Some(251);
    }
    if chars_eq_str(name, "grey82") {
        return Some(252);
    }
    if chars_eq_str(name, "gray82") {
        return Some(252);
    }
    if chars_eq_str(name, "grey85") {
        return Some(253);
    }
    if chars_eq_str(name, "gray85") {
        return Some(253);
    }
    if chars_eq_str(name, "grey89") {
        return Some(254);
    }
    if chars_eq_str(name, "gray89") {
        return Some(254);
    }
    if chars_eq_str(name, "grey93") {
        return Some(255);
    }
    if chars_eq_str(name, "gray93") {
        return Some(255);
    }
    None
}

/// The palette number of a named color, if `name` is one of the names of
/// the named-color table (`"red"`, `"grey0"`/`"gray0"`, `"yellow4"`, …).
pub open spec fn spec_ansi_color_number(name: Seq<char>) -> Option<u8> {
    ansi_number_part0(name)
}

/// The canonical name of each of the sixteen standard colors.
pub open spec fn spec_ansi_color_name(n: u8) -> Option<Seq<char>> {
    if n == 0 {
        Some("black"@)
    } else if n == 1 {
        Some("red"@)
    } else if n == 2 {
        Some("green"@)
    } else if n == 3 {
        Some("yellow"@)
    } else if n == 4 {
        Some("blue"@)
    } else if n == 5 {
        Some("magenta"@)
    } else if n == 6 {
        Some("cyan"@)
    } else if n == 7 {
        Some("white"@)
    } else if n == 8 {
        Some("bright_black"@)
    } else if n == 9 {
        Some("bright_red"@)
    } else if n == 10 {
        Some("bright_green"@)
    } else if n == 11 {
        Some("bright_yellow"@)
    } else if n == 12 {
        Some("bright_blue"@)
    } else if n == 13 {
        Some("bright_magenta"@)
    } else if n == 14 {
        Some("bright_cyan"@)
    } else if n == 15 {
        Some("bright_white"@)
    } else {
        None
    }
}

/// Looks up a named color in the table given its characters.
pub fn ansi_color_number_of(name: &[char]) -> (r: Option<u8>)
    ensures
        r == spec_ansi_color_number(name@),
{
    ansi_number_exec0(name)
}

/// Gets the ANSI color number for a named color.
pub fn get_ansi_color_number(name: &str) -> (r: Option<u8>)
    ensures
        r == spec_ansi_color_number(name@),
{
    let cs = chars_of(name);
    ansi_number_exec0(cs.as_slice())
}

/// The canonical name of one of the sixteen standard colors; numbers of 16
/// and above have none.
pub fn ansi_color_name(n: u8) -> (r: Option<&'static str>)
    ensures
        r is Some <==> n < 16,
        r matches Some(s) ==> spec_ansi_color_name(n) == Some(s@),
        r is None ==> spec_ansi_color_name(n) is None,
{
    match n {
        0 => Some("black"),
        1 => Some("red"),
        2 => Some("green"),
        3 => Some("yellow"),
        4 => Some("blue"),
        5 => Some("magenta"),
        6 => Some("cyan"),
        7 => Some("white"),
        8 => Some("bright_black"),
        9 => Some("bright_red"),
        10 => Some("bright_green"),
        11 => Some("bright_yellow"),
        12 => Some("bright_blue"),
        13 => Some("bright_magenta"),
        14 => Some("bright_cyan"),
        15 => Some("bright_white"),
        _ => None,
    }
}

/// Each of the sixteen canonical names looks up its own number.
pub proof fn lemma_ansi_name_number_round_trip(n: u8)
    requires
        n < 16,
    ensures
        spec_ansi_color_name(n) matches Some(name) && spec_ansi_color_number(name) == Some(n),
{
    if n == 0 {
        reveal_strlit("black");

    } else if n == 1 {
        reveal_strlit("red");
        reveal_strlit("black");
        assert("red"@.len() != "black"@.len());
    } else if n == 2 {
        reveal_strlit("green");
        reveal_strlit("black");
        reveal_strlit("red");
        assert("green"@[0] != "black"@[0]);
        assert("green"@.len() != "red"@.len());
    } else if n == 3 {
        reveal_strlit("yellow");
        reveal_strlit("black");
        reveal_strlit("red");
        reveal_strlit("green");
        assert("yellow"@.len() != "black"@.len());
        assert("yellow"@.len() != "red"@.len());
        assert("yellow"@.len() != "green"@.len());
    } else if n == 4 {
        reveal_strlit("blue");
        reveal_strlit("black");
        reveal_strlit("red");
        reveal_strlit("green");
        reveal_strlit("yellow");
        assert("blue"@.len() != "black"@.len());
        assert("blue"@.len() != "red"@.len());
        assert("blue"@.len() != "green"@.len());
        assert("blue"@.len() != "yellow"@.len());
    } else if n == 5 {
        reveal_strlit("magenta");
        reveal_strlit("black");
        reveal_strlit("red");
        reveal_strlit("green");
        reveal_strlit("yellow");
        reveal_strlit("blue");
        assert("magenta"@.len() != "black"@.len());
        assert("magenta"@.len() != "red"@.len());
        assert("magenta"@.len() != "green"@.len());
        assert("magenta"@.len() != "yellow"@.len());
        assert("magenta"@.len() != "blue"@.len());
    } else if n == 6 {
        reveal_strlit("cyan");
        reveal_strlit("black");
        reveal_strlit("red");
        reveal_strlit("green");
        reveal_strlit("yellow");
        reveal_strlit("blue");
        reveal_strlit("magenta");
        assert("cyan"@.len() != "black"@.len());
        assert("cyan"@.len() != "red"@.len());
        assert("cyan"@.len() != "green"@.len());
        assert("cyan"@.len() != "yellow"@.len());
        assert("cyan"@[0] != "blue"@[0]);
        assert("cyan"@.len() != "magenta"@.len());
    } else if n == 7 {
        reveal_strlit("white");
        reveal_strlit("black");
        reveal_strlit("red");
        reveal_strlit("green");
        reveal_strlit("yellow");
        reveal_strlit("blue");
        reveal_strlit("magenta");
        reveal_strlit("cyan");
        assert("white"@[0] != "black"@[0]);
        assert("white"@.len() != "red"@.len());
        assert("white"@[0] != "green"@[0]);
        assert("white"@.len() != "yellow"@.len());
        assert("white"@.len() != "blue"@.len());
        assert("white"@.len() != "magenta"@.len());
        assert("white"@.len() != "cyan"@.len());
    } else if n == 8 {
        reveal_strlit("bright_black");
        reveal_strlit("black");
        reveal_strlit("red");
        reveal_strlit("green");
        reveal_strlit("yellow");
        reveal_strlit("blue");
        reveal_strlit("magenta");
        reveal_strlit("cyan");
        reveal_strlit("white");
        assert("bright_black"@.len() != "black"@.len());
        assert("bright_black"@.len() != "red"@.len());
        assert("bright_black"@.len() != "green"@.len());
        assert("bright_black"@.len() != "yellow"@.len());
        assert("bright_black"@.len() != "blue"@.len());
        assert("bright_black"@.len() != "magenta"@.len());
        assert("bright_black"@.len() != "cyan"@.len());
        assert("bright_black"@.len() != "white"@.len());
    } else if n == 9 {
        reveal_strlit("bright_red");
        reveal_strlit("black");
        reveal_strlit("red");
        reveal_strlit("green");
        reveal_strlit("yellow");
        reveal_strlit("blue");
        reveal_strlit("magenta");
        reveal_strlit("cyan");
        reveal_strlit("white");
        reveal_strlit("bright_black");
        assert("bright_red"@.len() != "black"@.len());
        assert("bright_red"@.len() != "red"@.len());
        assert("bright_red"@.len() != "green"@.len());
        assert("bright_red"@.len() != "yellow"@.len());
        assert("bright_red"@.len() != "blue"@.len());
        assert("bright_red"@.len() != "magenta"@.len());
        assert("bright_red"@.len() != "cyan"@.len());
        assert("bright_red"@.len() != "white"@.len());
        assert("bright_red"@.len() != "bright_black"@.len());
    } else if n == 10 {
        reveal_strlit("bright_green");
        reveal_strlit("black");
        reveal_strlit("red");
        reveal_strlit("green");
        reveal_strlit("yellow");
        reveal_strlit("blue");
        reveal_strlit("magenta");
        reveal_strlit("cyan");
        reveal_strlit("white");
        reveal_strlit("bright_black");
        reveal_strlit("bright_red");
        assert("bright_green"@.len() != "black"@.len());
        assert("bright_green"@.len() != "red"@.len());
        assert("bright_green"@.len() != "green"@.len());
        assert("bright_green"@.len() != "yellow"@.len());
        assert("bright_green"@.len() != "blue"@.len());
        assert("bright_green"@.len() != "magenta"@.len());
        assert("bright_green"@.len() != "cyan"@.len());
        assert("bright_green"@.len() != "white"@.len());
        assert("bright_green"@[7] != "bright_black"@[7]);
        assert("bright_green"@.len() != "bright_red"@.len());
    } else if n == 11 {
        reveal_strlit("bright_yellow");
        reveal_strlit("black");
        reveal_strlit("red");
        reveal_strlit("green");
        reveal_strlit("yellow");
        reveal_strlit("blue");
        reveal_strlit("magenta");
        reveal_strlit("cyan");
        reveal_strlit("white");
        reveal_strlit("bright_black");
        reveal_strlit("bright_red");
        reveal_strlit("bright_green");
        assert("bright_yellow"@.len() != "black"@.len());
        assert("bright_yellow"@.len() != "red"@.len());
        assert("bright_yellow"@.len() != "green"@.len());
        assert("bright_yellow"@.len() != "yellow"@.len());
        assert("bright_yellow"@.len() != "blue"@.len());
        assert("bright_yellow"@.len() != "magenta"@.len());
        assert("bright_yellow"@.len() != "cyan"@.len());
        assert("bright_yellow"@.len() != "white"@.len());
        assert("bright_yellow"@.len() != "bright_black"@.len());
        assert("bright_yellow"@.len() != "bright_red"@.len());
        assert("bright_yellow"@.len() != "bright_green"@.len());
    } else if n == 12 {
        reveal_strlit("bright_blue");
        reveal_strlit("black");
        reveal_strlit("red");
        reveal_strlit("green");
        reveal_strlit("yellow");
        reveal_strlit("blue");
        reveal_strlit("magenta");
        reveal_strlit("cyan");
        reveal_strlit("white");
        reveal_strlit("bright_black");
        reveal_strlit("bright_red");
        reveal_strlit("bright_green");
        reveal_strlit("bright_yellow");
        assert("bright_blue"@.len() != "black"@.len());
        assert("bright_blue"@.len() != "red"@.len());
        assert("bright_blue"@.len() != "green"@.len());
        assert("bright_blue"@.len() != "yellow"@.len());
        assert("bright_blue"@.len() != "blue"@.len());
        assert("bright_blue"@.len() != "magenta"@.len());
        assert("bright_blue"@.len() != "cyan"@.len());
        assert("bright_blue"@.len() != "white"@.len());
        assert("bright_blue"@.len() != "bright_black"@.len());
        assert("bright_blue"@.len() != "bright_red"@.len());
        assert("bright_blue"@.len() != "bright_green"@.len());
        assert("bright_blue"@.len() != "bright_yellow"@.len());
    } else if n == 13 {
        reveal_strlit("bright_magenta");
        reveal_strlit("black");
        reveal_strlit("red");
        reveal_strlit("green");
        reveal_strlit("yellow");
        reveal_strlit("blue");
        reveal_strlit("magenta");
        reveal_strlit("cyan");
        reveal_strlit("white");
        reveal_strlit("bright_black");
        reveal_strlit("bright_red");
        reveal_strlit("bright_green");
        reveal_strlit("bright_yellow");
        reveal_strlit("bright_blue");
        assert("bright_magenta"@.len() != "black"@.len());
        assert("bright_magenta"@.len() != "red"@.len());
        assert("bright_magenta"@.len() != "green"@.len());
        assert("bright_magenta"@.len() != "yellow"@.len());
        assert("bright_magenta"@.len() != "blue"@.len());
        assert("bright_magenta"@.len() != "magenta"@.len());
        assert("bright_magenta"@.len() != "cyan"@.len());
        assert("bright_magenta"@.len() != "white"@.len());
        assert("bright_magenta"@.len() != "bright_black"@.len());
        assert("bright_magenta"@.len() != "bright_red"@.len());
        assert("bright_magenta"@.len() != "bright_green"@.len());
        assert("bright_magenta"@.len() != "bright_yellow"@.len());
        assert("bright_magenta"@.len() != "bright_blue"@.len());
    } else if n == 14 {
        reveal_strlit("bright_cyan");
        reveal_strlit("black");
        reveal_strlit("red");
        reveal_strlit("green");
        reveal_strlit("yellow");
        reveal_strlit("blue");
        reveal_strlit("magenta");
        reveal_strlit("cyan");
        reveal_strlit("white");
        reveal_strlit("bright_black");
        reveal_strlit("bright_red");
        reveal_strlit("bright_green");
        reveal_strlit("bright_yellow");
        reveal_strlit("bright_blue");
        reveal_strlit("bright_magenta");
        assert("bright_cyan"@.len() != "black"@.len());
        assert("bright_cyan"@.len() != "red"@.len());
        assert("bright_cyan"@.len() != "green"@.len());
        assert("bright_cyan"@.len() != "yellow"@.len());
        assert("bright_cyan"@.len() != "blue"@.len());
        assert("bright_cyan"@.len() != "magenta"@.len());
        assert("bright_cyan"@.len() != "cyan"@.len());
        assert("bright_cyan"@.len() != "white"@.len());
        assert("bright_cyan"@.len() != "bright_black"@.len());
        assert("bright_cyan"@.len() != "bright_red"@.len());
        assert("bright_cyan"@.len() != "bright_green"@.len());
        assert("bright_cyan"@.len() != "bright_yellow"@.len());
        assert("bright_cyan"@[7] != "bright_blue"@[7]);
        assert("bright_cyan"@.len() != "bright_magenta"@.len());
    } else if n == 15 {
        reveal_strlit("bright_white");
        reveal_strlit("black");
        reveal_strlit("red");
        reveal_strlit("green");
        reveal_strlit("yellow");
        reveal_strlit("blue");
        reveal_strlit("magenta");
        reveal_strlit("cyan");
        reveal_strlit("white");
        reveal_strlit("bright_black");
        reveal_strlit("bright_red");
        reveal_strlit("bright_green");
        reveal_strlit("bright_yellow");
        reveal_strlit("bright_blue");
        reveal_strlit("bright_magenta");
        reveal_strlit("bright_cyan");
        assert("bright_white"@.len() != "black"@.len());
        assert("bright_white"@.len() != "red"@.len());
        assert("bright_white"@.len() != "green"@.len());
        assert("bright_white"@.len() != "yellow"@.len());
        assert("bright_white"@.len() != "blue"@.len());
        assert("bright_white"@.len() != "magenta"@.len());
        assert("bright_white"@.len() != "cyan"@.len());
        assert("bright_white"@.len() != "white"@.len());
        assert("bright_white"@[7] != "bright_black"@[7]);
        assert("bright_white"@.len() != "bright_red"@.len());
        assert("bright_white"@[7] != "bright_green"@[7]);
        assert("bright_white"@.len() != "bright_yellow"@.len());
        assert("bright_white"@.len() != "bright_blue"@.len());
        assert("bright_white"@.len() != "bright_magenta"@.len());
        assert("bright_white"@.len() != "bright_cyan"@.len());
    }
}

} // verus!
