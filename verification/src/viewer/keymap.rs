//! Keycodes of the Linux input layer and the numbers that QEMU knows the keys by.

use vstd::prelude::*;

verus! {

/// QEMU's number for a Linux keycode.
pub open spec fn qnum_of(linux_keycode: u32) -> Option<u32> {
    match linux_keycode {
        1u32..=83u32 => Some(linux_keycode),
        85u32 => Some(118),
        86u32..=88u32 => Some(linux_keycode),
        89u32 => Some(115),
        90u32 => Some(120),
        91u32 => Some(119),
        92u32 => Some(121),
        93u32 => Some(112),
        94u32 => Some(123),
        95u32 => Some(92),
        96u32 => Some(156),
        97u32 => Some(157),
        98u32 => Some(181),
        99u32 => Some(183),
        100u32 => Some(184),
        101u32 => Some(91),
        102u32 => Some(199),
        103u32 => Some(200),
        104u32 => Some(201),
        105u32 => Some(203),
        106u32 => Some(205),
        107u32 => Some(207),
        108u32 => Some(208),
        109u32 => Some(209),
        110u32 => Some(210),
        111u32 => Some(211),
        112u32 => Some(239),
        113u32 => Some(160),
        114u32 => Some(174),
        115u32 => Some(176),
        116u32 => Some(222),
        117u32 => Some(89),
        118u32 => Some(206),
        119u32 => Some(198),
        120u32 => Some(139),
        121u32 => Some(126),
        122u32 => Some(114),
        123u32 => Some(113),
        124u32 => Some(125),
        125u32 => Some(219),
        126u32 => Some(220),
        127u32 => Some(221),
        128u32 => Some(232),
        129u32 => Some(133),
        130u32 => Some(134),
        131u32 => Some(135),
        132u32 => Some(140),
        133u32 => Some(248),
        134u32 => Some(100),
        135u32 => Some(101),
        136u32 => Some(193),
        137u32 => Some(188),
        138u32 => Some(245),
        139u32 => Some(158),
        140u32 => Some(161),
        141u32 => Some(102),
        142u32 => Some(223),
        143u32 => Some(227),
        144u32 => Some(103),
        145u32 => Some(104),
        146u32 => Some(105),
        147u32 => Some(147),
        148u32 => Some(159),
        149u32 => Some(151),
        150u32 => Some(130),
        151u32 => Some(106),
        152u32 => Some(146),
        153u32 => Some(107),
        154u32 => Some(166),
        155u32 => Some(236),
        156u32 => Some(230),
        157u32 => Some(235),
        158u32 => Some(234),
        159u32 => Some(233),
        160u32 => Some(163),
        161u32 => Some(108),
        162u32 => Some(253),
        163u32 => Some(153),
        164u32 => Some(162),
        165u32 => Some(144),
        166u32 => Some(164),
        167u32 => Some(177),
        168u32 => Some(152),
        169u32 => Some(99),
        171u32 => Some(129),
        172u32 => Some(178),
        173u32 => Some(231),
        176u32 => Some(136),
        177u32 => Some(117),
        178u32 => Some(143),
        179u32 => Some(246),
        180u32 => Some(251),
        181u32 => Some(137),
        182u32 => Some(138),
        183u32 => Some(93),
        184u32 => Some(94),
        185u32 => Some(95),
        186u32 => Some(85),
        187u32 => Some(131),
        188u32 => Some(247),
        189u32 => Some(132),
        190u32 => Some(90),
        191u32 => Some(116),
        192u32 => Some(249),
        193u32 => Some(109),
        194u32 => Some(111),
        200u32 => Some(168),
        201u32 => Some(169),
        202u32 => Some(171),
        203u32 => Some(172),
        204u32 => Some(173),
        205u32 => Some(165),
        206u32 => Some(175),
        207u32 => Some(179),
        208u32 => Some(180),
        209u32 => Some(182),
        210u32 => Some(185),
        211u32 => Some(186),
        212u32 => Some(187),
        213u32 => Some(189),
        214u32 => Some(190),
        215u32 => Some(191),
        216u32 => Some(192),
        217u32 => Some(229),
        218u32 => Some(194),
        219u32 => Some(195),
        220u32 => Some(196),
        221u32 => Some(197),
        222u32 => Some(148),
        223u32 => Some(202),
        224u32 => Some(204),
        225u32 => Some(212),
        226u32 => Some(237),
        227u32 => Some(214),
        228u32 => Some(215),
        229u32 => Some(216),
        230u32 => Some(217),
        231u32 => Some(218),
        232u32 => Some(228),
        233u32 => Some(142),
        234u32 => Some(213),
        235u32 => Some(240),
        236u32 => Some(241),
        237u32 => Some(242),
        238u32 => Some(243),
        239u32 => Some(244),
        _ => None,
    }
}

/// QEMU's number for a Linux keycode.
pub fn linux_keycode_to_qnum(linux_keycode: u32) -> (qnum: Option<u32>)
    ensures
        qnum == qnum_of(linux_keycode),
{
    match linux_keycode {
        1u32..=83u32 => Some(linux_keycode),
        85u32 => Some(118),
        86u32..=88u32 => Some(linux_keycode),
        89u32 => Some(115),
        90u32 => Some(120),
        91u32 => Some(119),
        92u32 => Some(121),
        93u32 => Some(112),
        94u32 => Some(123),
        95u32 => Some(92),
        96u32 => Some(156),
        97u32 => Some(157),
        98u32 => Some(181),
        99u32 => Some(183),
        100u32 => Some(184),
        101u32 => Some(91),
        102u32 => Some(199),
        103u32 => Some(200),
        104u32 => Some(201),
        105u32 => Some(203),
        106u32 => Some(205),
        107u32 => Some(207),
        108u32 => Some(208),
        109u32 => Some(209),
        110u32 => Some(210),
        111u32 => Some(211),
        112u32 => Some(239),
        113u32 => Some(160),
        114u32 => Some(174),
        115u32 => Some(176),
        116u32 => Some(222),
        117u32 => Some(89),
        118u32 => Some(206),
        119u32 => Some(198),
        120u32 => Some(139),
        121u32 => Some(126),
        122u32 => Some(114),
        123u32 => Some(113),
        124u32 => Some(125),
        125u32 => Some(219),
        126u32 => Some(220),
        127u32 => Some(221),
        128u32 => Some(232),
        129u32 => Some(133),
        130u32 => Some(134),
        131u32 => Some(135),
        132u32 => Some(140),
        133u32 => Some(248),
        134u32 => Some(100),
        135u32 => Some(101),
        136u32 => Some(193),
        137u32 => Some(188),
        138u32 => Some(245),
        139u32 => Some(158),
        140u32 => Some(161),
        141u32 => Some(102),
        142u32 => Some(223),
        143u32 => Some(227),
        144u32 => Some(103),
        145u32 => Some(104),
        146u32 => Some(105),
        147u32 => Some(147),
        148u32 => Some(159),
        149u32 => Some(151),
        150u32 => Some(130),
        151u32 => Some(106),
        152u32 => Some(146),
        153u32 => Some(107),
        154u32 => Some(166),
        155u32 => Some(236),
        156u32 => Some(230),
        157u32 => Some(235),
        158u32 => Some(234),
        159u32 => Some(233),
        160u32 => Some(163),
        161u32 => Some(108),
        162u32 => Some(253),
        163u32 => Some(153),
        164u32 => Some(162),
        165u32 => Some(144),
        166u32 => Some(164),
        167u32 => Some(177),
        168u32 => Some(152),
        169u32 => Some(99),
        171u32 => Some(129),
        172u32 => Some(178),
        173u32 => Some(231),
        176u32 => Some(136),
        177u32 => Some(117),
        178u32 => Some(143),
        179u32 => Some(246),
        180u32 => Some(251),
        181u32 => Some(137),
        182u32 => Some(138),
        183u32 => Some(93),
        184u32 => Some(94),
        185u32 => Some(95),
        186u32 => Some(85),
        187u32 => Some(131),
        188u32 => Some(247),
        189u32 => Some(132),
        190u32 => Some(90),
        191u32 => Some(116),
        192u32 => Some(249),
        193u32 => Some(109),
        194u32 => Some(111),
        200u32 => Some(168),
        201u32 => Some(169),
        202u32 => Some(171),
        203u32 => Some(172),
        204u32 => Some(173),
        205u32 => Some(165),
        206u32 => Some(175),
        207u32 => Some(179),
        208u32 => Some(180),
        209u32 => Some(182),
        210u32 => Some(185),
        211u32 => Some(186),
        212u32 => Some(187),
        213u32 => Some(189),
        214u32 => Some(190),
        215u32 => Some(191),
        216u32 => Some(192),
        217u32 => Some(229),
        218u32 => Some(194),
        219u32 => Some(195),
        220u32 => Some(196),
        221u32 => Some(197),
        222u32 => Some(148),
        223u32 => Some(202),
        224u32 => Some(204),
        225u32 => Some(212),
        226u32 => Some(237),
        227u32 => Some(214),
        228u32 => Some(215),
        229u32 => Some(216),
        230u32 => Some(217),
        231u32 => Some(218),
        232u32 => Some(228),
        233u32 => Some(142),
        234u32 => Some(213),
        235u32 => Some(240),
        236u32 => Some(241),
        237u32 => Some(242),
        238u32 => Some(243),
        239u32 => Some(244),
        _ => None,
    }
}

/// The keycodes of the windowing system are those of Linux, moved up by eight.
pub open spec fn gdk_qnum_of(keycode: u32) -> Option<u32> {
    if keycode < 8 {
        None
    } else {
        qnum_of((keycode - 8) as u32)
    }
}

/// QEMU's number for a keycode of the windowing system.
pub fn gdk_keycode_to_qnum(keycode: u32) -> (qnum: Option<u32>)
    ensures
        qnum == gdk_qnum_of(keycode),
{
    match keycode.checked_sub(8) {
        Some(linux_keycode) => linux_keycode_to_qnum(linux_keycode),
        None => None,
    }
}

/// No two keys have the same number.
#[verifier::spinoff_prover]
pub proof fn qnums_are_distinct(left: u32, right: u32)
    requires
        qnum_of(left) is Some,
        qnum_of(left) == qnum_of(right),
    ensures
        left == right,
{
}

/// Every number fits in a byte, and none is zero.
pub proof fn qnums_fit_in_a_byte(linux_keycode: u32)
    ensures
        qnum_of(linux_keycode) matches Some(qnum) ==> 0 < qnum < 256,
{
}

/// The Linux keycode of the key with scancode `code` of an AT keyboard (set 1), `extended` where the
/// prefix `e0` comes before it. Keys that such keyboards never had follow the numbers that Linux
/// itself assigns.
pub open spec fn key_at(extended: bool, code: u32) -> Option<u32> {
    if !extended {
        match code {
            0x01u32..=0x53u32 => Some(code),
            0x55u32 => Some(186),
            0x56u32..=0x58u32 => Some(code),
            0x59u32 => Some(117),
            0x5au32 => Some(190),
            0x5bu32 => Some(101),
            0x5cu32 => Some(95),
            0x5du32 => Some(183),
            0x5eu32 => Some(184),
            0x5fu32 => Some(185),
            0x63u32 => Some(169),
            0x64u32 => Some(134),
            0x65u32 => Some(135),
            0x66u32 => Some(141),
            0x67u32 => Some(144),
            0x68u32 => Some(145),
            0x69u32 => Some(146),
            0x6au32 => Some(151),
            0x6bu32 => Some(153),
            0x6cu32 => Some(161),
            0x6du32 => Some(193),
            0x6fu32 => Some(194),
            0x70u32 => Some(93),
            0x71u32 => Some(123),
            0x72u32 => Some(122),
            0x73u32 => Some(89),
            0x74u32 => Some(191),
            0x75u32 => Some(177),
            0x76u32 => Some(85),
            0x77u32 => Some(91),
            0x78u32 => Some(90),
            0x79u32 => Some(92),
            0x7bu32 => Some(94),
            0x7du32 => Some(124),
            0x7eu32 => Some(121),
            _ => None,
        }
    } else {
        match code {
            0x01u32 => Some(171),
            0x02u32 => Some(150),
            0x03u32 => Some(187),
            0x04u32 => Some(189),
            0x05u32 => Some(129),
            0x06u32 => Some(130),
            0x07u32 => Some(131),
            0x08u32 => Some(176),
            0x09u32 => Some(181),
            0x0au32 => Some(182),
            0x0bu32 => Some(120),
            0x0cu32 => Some(132),
            0x0eu32 => Some(233),
            0x0fu32 => Some(178),
            0x10u32 => Some(165),
            0x12u32 => Some(152),
            0x13u32 => Some(147),
            0x14u32 => Some(222),
            0x17u32 => Some(149),
            0x18u32 => Some(168),
            0x19u32 => Some(163),
            0x1cu32 => Some(96),
            0x1du32 => Some(97),
            0x1eu32 => Some(139),
            0x1fu32 => Some(148),
            0x20u32 => Some(113),
            0x21u32 => Some(140),
            0x22u32 => Some(164),
            0x23u32 => Some(160),
            0x24u32 => Some(166),
            0x25u32 => Some(205),
            0x26u32 => Some(154),
            0x28u32 => Some(200),
            0x29u32 => Some(201),
            0x2bu32 => Some(202),
            0x2cu32 => Some(203),
            0x2du32 => Some(204),
            0x2eu32 => Some(114),
            0x2fu32 => Some(206),
            0x30u32 => Some(115),
            0x31u32 => Some(167),
            0x32u32 => Some(172),
            0x33u32 => Some(207),
            0x34u32 => Some(208),
            0x35u32 => Some(98),
            0x36u32 => Some(209),
            0x37u32 => Some(99),
            0x38u32 => Some(100),
            0x39u32 => Some(210),
            0x3au32 => Some(211),
            0x3bu32 => Some(212),
            0x3cu32 => Some(137),
            0x3du32 => Some(213),
            0x3eu32 => Some(214),
            0x3fu32 => Some(215),
            0x40u32 => Some(216),
            0x41u32 => Some(136),
            0x42u32 => Some(218),
            0x43u32 => Some(219),
            0x44u32 => Some(220),
            0x45u32 => Some(221),
            0x46u32 => Some(119),
            0x47u32 => Some(102),
            0x48u32 => Some(103),
            0x49u32 => Some(104),
            0x4au32 => Some(223),
            0x4bu32 => Some(105),
            0x4cu32 => Some(224),
            0x4du32 => Some(106),
            0x4eu32 => Some(118),
            0x4fu32 => Some(107),
            0x50u32 => Some(108),
            0x51u32 => Some(109),
            0x52u32 => Some(110),
            0x53u32 => Some(111),
            0x54u32 => Some(225),
            0x55u32 => Some(234),
            0x56u32 => Some(227),
            0x57u32 => Some(228),
            0x58u32 => Some(229),
            0x59u32 => Some(230),
            0x5au32 => Some(231),
            0x5bu32 => Some(125),
            0x5cu32 => Some(126),
            0x5du32 => Some(127),
            0x5eu32 => Some(116),
            0x5fu32 => Some(142),
            0x63u32 => Some(143),
            0x64u32 => Some(232),
            0x65u32 => Some(217),
            0x66u32 => Some(156),
            0x67u32 => Some(173),
            0x68u32 => Some(128),
            0x69u32 => Some(159),
            0x6au32 => Some(158),
            0x6bu32 => Some(157),
            0x6cu32 => Some(155),
            0x6du32 => Some(226),
            0x6fu32 => Some(112),
            0x70u32 => Some(235),
            0x71u32 => Some(236),
            0x72u32 => Some(237),
            0x73u32 => Some(238),
            0x74u32 => Some(239),
            0x75u32 => Some(138),
            0x76u32 => Some(179),
            0x77u32 => Some(188),
            0x78u32 => Some(133),
            0x79u32 => Some(192),
            0x7bu32 => Some(180),
            0x7du32 => Some(162),
            _ => None,
        }
    }
}

#[verifier::spinoff_prover]
proof fn numbers_lead_to_keys(linux_keycode: u32)
    ensures
        qnum_of(linux_keycode) matches Some(qnum) ==> key_at(
            qnum >= 0x80,
            (qnum % 0x80) as u32,
        ) == Some(linux_keycode),
{
}

#[verifier::spinoff_prover]
proof fn keys_lead_to_numbers(extended: bool, code: u32)
    requires
        code < 0x80,
    ensures
        key_at(extended, code) matches Some(key) ==> qnum_of(key) == Some(
            (code + if extended {
                0x80int
            } else {
                0
            }) as u32,
        ),
{
}

/// A key's number is its scancode, with the high bit set for the prefix `e0`: the key that a number
/// stands for is the one that sends that scancode, and a key without one has no number. A key of
/// the windowing system has the number of the Linux key eight below it.
pub proof fn numbers_are_scancodes(
    linux_keycode: u32,
    qnum: Option<u32>,
    keycode: u32,
    gdk_qnum: Option<u32>,
)
    requires
        call_ensures(linux_keycode_to_qnum, (linux_keycode,), qnum),
        call_ensures(gdk_keycode_to_qnum, (keycode,), gdk_qnum),
    ensures
        forall|extended: bool, code: u32|
            code < 0x80 ==> (#[trigger] key_at(extended, code) == Some(linux_keycode) <==> qnum
                == Some(
                (code + if extended {
                    0x80int
                } else {
                    0
                }) as u32,
            )),
        qnum matches Some(number) ==> key_at(number >= 0x80, (number % 0x80) as u32) == Some(
            linux_keycode,
        ),
        keycode < 8 ==> gdk_qnum is None,
        keycode == linux_keycode + 8 ==> gdk_qnum == qnum,
{
    numbers_lead_to_keys(linux_keycode);
    qnums_fit_in_a_byte(linux_keycode);
    assert forall|extended: bool, code: u32| code < 0x80 implies (#[trigger] key_at(extended, code)
        == Some(linux_keycode) <==> qnum == Some(
        (code + if extended {
            0x80int
        } else {
            0
        }) as u32,
    )) by {
        keys_lead_to_numbers(extended, code);
    }
}

/// The keys with a prefix that every keyboard has, by the scancodes that are printed for them.
pub proof fn extended_keys_are_told_apart()
    ensures
        forall|key: u32, code: u32| #[trigger]
            extended_key(key, code) ==> qnum_of(key) == Some((0x80 + code) as u32),
{
}

/// The key is known to send `e0` and then the code.
pub open spec fn extended_key(linux_keycode: u32, code: u32) -> bool {
    ||| (linux_keycode, code) == (96u32, 0x1cu32)  // Enter of the keypad
    ||| (linux_keycode, code) == (97u32, 0x1du32)  // right Control
    ||| (linux_keycode, code) == (98u32, 0x35u32)  // slash of the keypad
    ||| (linux_keycode, code) == (100u32, 0x38u32)  // right Alt
    ||| (linux_keycode, code) == (102u32, 0x47u32)  // Home
    ||| (linux_keycode, code) == (103u32, 0x48u32)  // Up
    ||| (linux_keycode, code) == (104u32, 0x49u32)  // Page Up
    ||| (linux_keycode, code) == (105u32, 0x4bu32)  // Left
    ||| (linux_keycode, code) == (106u32, 0x4du32)  // Right
    ||| (linux_keycode, code) == (107u32, 0x4fu32)  // End
    ||| (linux_keycode, code) == (108u32, 0x50u32)  // Down
    ||| (linux_keycode, code) == (109u32, 0x51u32)  // Page Down
    ||| (linux_keycode, code) == (110u32, 0x52u32)  // Insert
    ||| (linux_keycode, code) == (111u32, 0x53u32)  // Delete
    ||| (linux_keycode, code) == (125u32, 0x5bu32)  // left Meta
    ||| (linux_keycode, code) == (126u32, 0x5cu32)  // right Meta
    ||| (linux_keycode, code) == (127u32, 0x5du32)  // Menu
}

}
