//! What a radio can do: reading it from the listing of `iw`, and writing it
//! the way `hostapd` wants it.
use vstd::prelude::*;
use vstd::string::*;

use crate::number::{
    digit_char, digit_value, law_numeral_reads_back, numeral, parse_unsigned, unsigned_value,
};
use crate::text::{
    flag_in, has_prefix, is_flag, is_flag_or_none, is_flag_row, law_lines_undo_unlines, law_prefix,
    law_trimming, lemma_row_grows, lemma_row_starts, lemma_split_last, lemma_split_single, lines,
    lines_of, occurs_in, same_text, split, split_on, starts_with, str_eq, strip_prefix, texts, trim,
    trimmed, unlines,
};
use crate::unicode::{from_utf8_lossy, lossy_text};

verus! {

broadcast use vstd::string::group_string_axioms;

/// The capabilities of a radio in the 5 GHz band.
#[derive(Debug, Clone, Copy)]
pub struct PhyCaps {
    pub ht_caps: u16,
    pub vht_caps: u32,
    pub has_vht: bool,
    pub max_vht_width: VhtWidth,
}

/// The widest channel of 802.11ac that a radio can use.
#[derive(Debug, Clone, Copy, PartialEq, Eq, PartialOrd, Ord, Structural)]
pub enum VhtWidth {
    W80,
    W160,
    W80P80,
}

// ---------------------------------------------------------------------------
// Model
// ---------------------------------------------------------------------------

/// The capabilities when nothing is known.
pub open spec fn no_caps() -> PhyCaps {
    PhyCaps { ht_caps: 0, vht_caps: 0, has_vht: false, max_vht_width: VhtWidth::W80 }
}

/// `flag` where `present`.
pub open spec fn tag(present: bool, flag: Seq<char>) -> Seq<char> {
    if present {
        flag
    } else {
        Seq::empty()
    }
}

/// Channels of the 5 GHz band that can be half of a channel of 40 MHz.
pub open spec fn bonds_in_5ghz(channel: u8) -> bool {
    channel % 4 == 0 && (36 <= channel <= 64 || 100 <= channel <= 144)
}

/// Where the second half of a channel of 40 MHz is: above, below, or nowhere.
pub open spec fn bonding_flags(channel: u8) -> Seq<char> {
    if 1 <= channel <= 7 || (bonds_in_5ghz(channel) && channel % 8 == 4) {
        "[HT40+]"@
    } else if 8 <= channel <= 13 || (bonds_in_5ghz(channel) && channel % 8 == 0) {
        "[HT40-]"@
    } else {
        Seq::empty()
    }
}

/// The flag for the mode of spatial multiplexing power save.
pub open spec fn smps_flag(mode: u16) -> Seq<char> {
    if mode == 0 {
        "[SMPS-STATIC]"@
    } else if mode == 1 {
        "[SMPS-DYNAMIC]"@
    } else {
        Seq::empty()
    }
}

/// The flag for the number of streams received with space-time block coding.
pub open spec fn ht_rx_stbc_flag(streams: u16) -> Seq<char> {
    if streams == 1 {
        "[RX-STBC1]"@
    } else if streams == 2 {
        "[RX-STBC12]"@
    } else if streams == 3 {
        "[RX-STBC123]"@
    } else {
        Seq::empty()
    }
}

/// The 802.11n capabilities `c` as flags, for a channel.
pub open spec fn ht_flags(c: u16, channel: u8) -> Seq<char> {
    tag(c & 0x0001 != 0, "[LDPC]"@)
        + tag(c & 0x0002 != 0, bonding_flags(channel))
        + smps_flag((c >> 2) & 0x3)
        + tag(c & 0x0010 != 0, "[GF]"@)
        + tag(c & 0x0020 != 0, "[SHORT-GI-20]"@)
        + tag(c & 0x0040 != 0, "[SHORT-GI-40]"@)
        + tag(c & 0x0080 != 0, "[TX-STBC]"@)
        + ht_rx_stbc_flag((c >> 8) & 0x3)
        + tag(c & 0x0800 != 0, "[MAX-AMSDU-7935]"@)
        + tag(c & 0x1000 == 0, "[DSSS_CCK-40]"@)
}

/// The flag for the longest frame.
pub open spec fn mpdu_flag(length: u32) -> Seq<char> {
    if length == 1 {
        "[MAX-MPDU-7991]"@
    } else if length == 2 {
        "[MAX-MPDU-11454]"@
    } else {
        Seq::empty()
    }
}

/// The flag for the number of streams received with space-time block coding.
pub open spec fn vht_rx_stbc_flag(streams: u32) -> Seq<char> {
    if streams == 1 {
        "[RX-STBC-1]"@
    } else if streams == 2 {
        "[RX-STBC-12]"@
    } else if streams == 3 {
        "[RX-STBC-123]"@
    } else if streams == 4 {
        "[RX-STBC-1234]"@
    } else {
        Seq::empty()
    }
}

/// The flag for the number of antennas that a beam is formed for: one more
/// than the field says, which is named from two to four.
pub open spec fn antenna_flag(field: u32) -> Seq<char> {
    if 1 <= field <= 3 {
        "[BF-ANTENNA-"@ + seq![digit_char((field + 1) as nat)] + "]"@
    } else {
        Seq::empty()
    }
}

/// The 802.11ac capabilities `c` as flags.
pub open spec fn vht_flags(c: u32) -> Seq<char> {
    mpdu_flag(c & 0x3)
        + tag(c & 0x0010 != 0, "[RXLDPC]"@)
        + tag(c & 0x0020 != 0, "[SHORT-GI-80]"@)
        + tag(c & 0x0040 != 0, "[SHORT-GI-160]"@)
        + tag(c & 0x0080 != 0, "[TX-STBC-2BY1]"@)
        + vht_rx_stbc_flag((c >> 8) & 0x7)
        + tag(c & 0x0800 != 0, "[SU-BEAMFORMER]"@)
        + tag(c & 0x1000 != 0, "[SU-BEAMFORMEE]"@)
        + antenna_flag((c >> 13) & 0x7)
        + tag(c & 0x0008_0000 != 0, "[MU-BEAMFORMER]"@)
        + tag(c & 0x0010_0000 != 0, "[MU-BEAMFORMEE]"@)
        + tag(c & 0x0020_0000 != 0, "[VHT-TXOP-PS]"@)
        + tag(c & 0x0040_0000 != 0, "[HTC-VHT]"@)
        + tag(c & 0x1000_0000 != 0, "[RX-ANTENNA-PATTERN]"@)
        + tag(c & 0x2000_0000 != 0, "[TX-ANTENNA-PATTERN]"@)
}

/// The widest channel that 802.11ac capabilities speak of.
pub open spec fn width_of(vht_caps: u32) -> VhtWidth {
    if (vht_caps >> 2) & 0x3 == 1 {
        VhtWidth::W160
    } else if (vht_caps >> 2) & 0x3 == 2 {
        VhtWidth::W80P80
    } else {
        VhtWidth::W80
    }
}

/// The number that `hostapd` knows a channel width by.
pub open spec fn width_number(width: VhtWidth) -> u8 {
    match width {
        VhtWidth::W80 => 1,
        VhtWidth::W160 => 2,
        VhtWidth::W80P80 => 3,
    }
}

/// The least of `n` and the largest byte.
pub open spec fn at_most_byte(n: int) -> u8 {
    if n <= 255 {
        n as u8
    } else {
        255
    }
}

/// The channel in the middle of the wide channel that `channel` is part of.
pub open spec fn center_channel(channel: u8, width: VhtWidth) -> u8 {
    if width == VhtWidth::W80 {
        if 36 <= channel <= 48 {
            42
        } else if 52 <= channel <= 64 {
            58
        } else if 100 <= channel <= 112 {
            106
        } else if 116 <= channel <= 128 {
            122
        } else if 132 <= channel <= 144 {
            138
        } else if 149 <= channel <= 161 {
            155
        } else {
            at_most_byte(channel + 6)
        }
    } else {
        if 36 <= channel <= 64 {
            50
        } else if 100 <= channel <= 128 {
            114
        } else {
            at_most_byte(channel + 14)
        }
    }
}

/// How far the listing of `iw` was read: whether in the part on the second
/// band, and what that part said.
pub struct Listing {
    pub in_band2: bool,
    pub caps: PhyCaps,
}

/// Whether what follows the line `t` is about the second band.
pub open spec fn band2_after(in_band2: bool, t: Seq<char>) -> bool {
    if has_prefix(t, "Band 2:"@) {
        true
    } else if has_prefix(t, "Band 1:"@) || has_prefix(t, "Band 3:"@) || has_prefix(t, "Band 4:"@) {
        false
    } else {
        in_band2
    }
}

/// The 802.11n capabilities that the line `t` gives.
pub open spec fn ht_line(t: Seq<char>) -> Option<nat> {
    let mark = "Capabilities: 0x"@;
    if has_prefix(t, mark) {
        unsigned_value(trimmed(t.skip(mark.len() as int)), 16, 0xffff)
    } else {
        None
    }
}

/// The 802.11ac capabilities that the line `t` gives.
pub open spec fn vht_line(t: Seq<char>) -> Option<nat> {
    let mark = "VHT Capabilities (0x"@;
    if has_prefix(t, mark) {
        unsigned_value(trimmed(split_on(t.skip(mark.len() as int), ')')[0]), 16, 0xffff_ffff)
    } else {
        None
    }
}

/// What is known after one more line. Only the part on the second band counts.
pub open spec fn listing_after(l: Listing, line: Seq<char>) -> Listing {
    let t = trimmed(line);
    let in_band2 = band2_after(l.in_band2, t);
    let ht = if in_band2 {
        ht_line(t)
    } else {
        None
    };
    let vht = if in_band2 {
        vht_line(t)
    } else {
        None
    };
    Listing {
        in_band2,
        caps: PhyCaps {
            ht_caps: match ht {
                Some(v) => v as u16,
                None => l.caps.ht_caps,
            },
            vht_caps: match vht {
                Some(v) => v as u32,
                None => l.caps.vht_caps,
            },
            has_vht: vht is Some || l.caps.has_vht,
            max_vht_width: match vht {
                Some(v) => width_of(v as u32),
                None => l.caps.max_vht_width,
            },
        },
    }
}

/// What is known after all of `lines`.
pub open spec fn listing_of(lines: Seq<Seq<char>>) -> Listing
    decreases lines.len(),
{
    if lines.len() == 0 {
        Listing { in_band2: false, caps: no_caps() }
    } else {
        listing_after(listing_of(lines.drop_last()), lines.last())
    }
}

/// The capabilities that a listing gives.
pub open spec fn listed_caps(text: Seq<char>) -> PhyCaps {
    listing_of(lines_of(text)).caps
}

/// The part of a path behind its last separator, leaving out empty parts and
/// those that name the directory itself.
pub open spec fn last_part(parts: Seq<Seq<char>>) -> Option<Seq<char>>
    decreases parts.len(),
{
    if parts.len() == 0 {
        None
    } else if parts.last().len() == 0 || parts.last() == "."@ {
        last_part(parts.drop_last())
    } else if parts.last() == ".."@ {
        None
    } else {
        Some(parts.last())
    }
}

/// The flags of 802.11n.
pub open spec fn ht_flag_names() -> Seq<Seq<char>> {
    seq![
        "[LDPC]"@,
        "[HT40+]"@,
        "[HT40-]"@,
        "[SMPS-STATIC]"@,
        "[SMPS-DYNAMIC]"@,
        "[GF]"@,
        "[SHORT-GI-20]"@,
        "[SHORT-GI-40]"@,
        "[TX-STBC]"@,
        "[RX-STBC1]"@,
        "[RX-STBC12]"@,
        "[RX-STBC123]"@,
        "[MAX-AMSDU-7935]"@,
        "[DSSS_CCK-40]"@,
    ]
}

/// The flags of 802.11ac.
pub open spec fn vht_flag_names() -> Seq<Seq<char>> {
    seq![
        "[MAX-MPDU-7991]"@,
        "[MAX-MPDU-11454]"@,
        "[RXLDPC]"@,
        "[SHORT-GI-80]"@,
        "[SHORT-GI-160]"@,
        "[TX-STBC-2BY1]"@,
        "[RX-STBC-1]"@,
        "[RX-STBC-12]"@,
        "[RX-STBC-123]"@,
        "[RX-STBC-1234]"@,
        "[SU-BEAMFORMER]"@,
        "[SU-BEAMFORMEE]"@,
        "[BF-ANTENNA-2]"@,
        "[BF-ANTENNA-3]"@,
        "[BF-ANTENNA-4]"@,
        "[MU-BEAMFORMER]"@,
        "[MU-BEAMFORMEE]"@,
        "[VHT-TXOP-PS]"@,
        "[HTC-VHT]"@,
        "[RX-ANTENNA-PATTERN]"@,
        "[TX-ANTENNA-PATTERN]"@,
    ]
}

// ---------------------------------------------------------------------------
// Laws
// ---------------------------------------------------------------------------

/// The number of a flag of 802.11n, from 0 on; -1 for another text.
#[verifier::opaque]
spec fn ht_number(t: Seq<char>) -> int {
    if t == "[LDPC]"@ {
        0
    } else if t == "[HT40+]"@ {
        1
    } else if t == "[HT40-]"@ {
        2
    } else if t == "[SMPS-STATIC]"@ {
        3
    } else if t == "[SMPS-DYNAMIC]"@ {
        4
    } else if t == "[GF]"@ {
        5
    } else if t == "[SHORT-GI-20]"@ {
        6
    } else if t == "[SHORT-GI-40]"@ {
        7
    } else if t == "[TX-STBC]"@ {
        8
    } else if t == "[RX-STBC1]"@ {
        9
    } else if t == "[RX-STBC12]"@ {
        10
    } else if t == "[RX-STBC123]"@ {
        11
    } else if t == "[MAX-AMSDU-7935]"@ {
        12
    } else if t == "[DSSS_CCK-40]"@ {
        13
    } else {
        -1
    }
}

/// The flags of 802.11n are flags, and what tells those of the same length apart.
proof fn lemma_ht_names()
    ensures
        is_flag("[LDPC]"@),
        "[LDPC]"@.len() == 6,
        is_flag("[HT40+]"@),
        "[HT40+]"@.len() == 7,
        "[HT40+]"@[5] == '+',
        is_flag("[HT40-]"@),
        "[HT40-]"@.len() == 7,
        "[HT40-]"@[5] == '-',
        is_flag("[SMPS-STATIC]"@),
        "[SMPS-STATIC]"@.len() == 13,
        "[SMPS-STATIC]"@[1] == 'S',
        "[SMPS-STATIC]"@[2] == 'M',
        is_flag("[SMPS-DYNAMIC]"@),
        "[SMPS-DYNAMIC]"@.len() == 14,
        is_flag("[GF]"@),
        "[GF]"@.len() == 4,
        is_flag("[SHORT-GI-20]"@),
        "[SHORT-GI-20]"@.len() == 13,
        "[SHORT-GI-20]"@[1] == 'S',
        "[SHORT-GI-20]"@[2] == 'H',
        "[SHORT-GI-20]"@[10] == '2',
        is_flag("[SHORT-GI-40]"@),
        "[SHORT-GI-40]"@.len() == 13,
        "[SHORT-GI-40]"@[1] == 'S',
        "[SHORT-GI-40]"@[2] == 'H',
        "[SHORT-GI-40]"@[10] == '4',
        is_flag("[TX-STBC]"@),
        "[TX-STBC]"@.len() == 9,
        is_flag("[RX-STBC1]"@),
        "[RX-STBC1]"@.len() == 10,
        is_flag("[RX-STBC12]"@),
        "[RX-STBC12]"@.len() == 11,
        is_flag("[RX-STBC123]"@),
        "[RX-STBC123]"@.len() == 12,
        is_flag("[MAX-AMSDU-7935]"@),
        "[MAX-AMSDU-7935]"@.len() == 16,
        is_flag("[DSSS_CCK-40]"@),
        "[DSSS_CCK-40]"@.len() == 13,
        "[DSSS_CCK-40]"@[1] == 'D',
{
    assert({
        &&& is_flag("[LDPC]"@)
        &&& "[LDPC]"@.len() == 6
    }) by {
        reveal_strlit("[LDPC]");
        reveal(is_flag);
    }
    assert({
        &&& is_flag("[HT40+]"@)
        &&& "[HT40+]"@.len() == 7
        &&& "[HT40+]"@[5] == '+'
    }) by {
        reveal_strlit("[HT40+]");
        reveal(is_flag);
    }
    assert({
        &&& is_flag("[HT40-]"@)
        &&& "[HT40-]"@.len() == 7
        &&& "[HT40-]"@[5] == '-'
    }) by {
        reveal_strlit("[HT40-]");
        reveal(is_flag);
    }
    assert({
        &&& is_flag("[SMPS-STATIC]"@)
        &&& "[SMPS-STATIC]"@.len() == 13
        &&& "[SMPS-STATIC]"@[1] == 'S'
        &&& "[SMPS-STATIC]"@[2] == 'M'
    }) by {
        reveal_strlit("[SMPS-STATIC]");
        reveal(is_flag);
    }
    assert({
        &&& is_flag("[SMPS-DYNAMIC]"@)
        &&& "[SMPS-DYNAMIC]"@.len() == 14
    }) by {
        reveal_strlit("[SMPS-DYNAMIC]");
        reveal(is_flag);
    }
    assert({
        &&& is_flag("[GF]"@)
        &&& "[GF]"@.len() == 4
    }) by {
        reveal_strlit("[GF]");
        reveal(is_flag);
    }
    assert({
        &&& is_flag("[SHORT-GI-20]"@)
        &&& "[SHORT-GI-20]"@.len() == 13
        &&& "[SHORT-GI-20]"@[1] == 'S'
        &&& "[SHORT-GI-20]"@[2] == 'H'
        &&& "[SHORT-GI-20]"@[10] == '2'
    }) by {
        reveal_strlit("[SHORT-GI-20]");
        reveal(is_flag);
    }
    assert({
        &&& is_flag("[SHORT-GI-40]"@)
        &&& "[SHORT-GI-40]"@.len() == 13
        &&& "[SHORT-GI-40]"@[1] == 'S'
        &&& "[SHORT-GI-40]"@[2] == 'H'
        &&& "[SHORT-GI-40]"@[10] == '4'
    }) by {
        reveal_strlit("[SHORT-GI-40]");
        reveal(is_flag);
    }
    assert({
        &&& is_flag("[TX-STBC]"@)
        &&& "[TX-STBC]"@.len() == 9
    }) by {
        reveal_strlit("[TX-STBC]");
        reveal(is_flag);
    }
    assert({
        &&& is_flag("[RX-STBC1]"@)
        &&& "[RX-STBC1]"@.len() == 10
    }) by {
        reveal_strlit("[RX-STBC1]");
        reveal(is_flag);
    }
    assert({
        &&& is_flag("[RX-STBC12]"@)
        &&& "[RX-STBC12]"@.len() == 11
    }) by {
        reveal_strlit("[RX-STBC12]");
        reveal(is_flag);
    }
    assert({
        &&& is_flag("[RX-STBC123]"@)
        &&& "[RX-STBC123]"@.len() == 12
    }) by {
        reveal_strlit("[RX-STBC123]");
        reveal(is_flag);
    }
    assert({
        &&& is_flag("[MAX-AMSDU-7935]"@)
        &&& "[MAX-AMSDU-7935]"@.len() == 16
    }) by {
        reveal_strlit("[MAX-AMSDU-7935]");
        reveal(is_flag);
    }
    assert({
        &&& is_flag("[DSSS_CCK-40]"@)
        &&& "[DSSS_CCK-40]"@.len() == 13
        &&& "[DSSS_CCK-40]"@[1] == 'D'
    }) by {
        reveal_strlit("[DSSS_CCK-40]");
        reveal(is_flag);
    }
}

/// The flags of 802.11n have different numbers.
proof fn lemma_ht_numbers()
    ensures
        ht_number("[LDPC]"@) == 0,
        is_flag("[LDPC]"@),
        ht_number("[HT40+]"@) == 1,
        is_flag("[HT40+]"@),
        ht_number("[HT40-]"@) == 2,
        is_flag("[HT40-]"@),
        ht_number("[SMPS-STATIC]"@) == 3,
        is_flag("[SMPS-STATIC]"@),
        ht_number("[SMPS-DYNAMIC]"@) == 4,
        is_flag("[SMPS-DYNAMIC]"@),
        ht_number("[GF]"@) == 5,
        is_flag("[GF]"@),
        ht_number("[SHORT-GI-20]"@) == 6,
        is_flag("[SHORT-GI-20]"@),
        ht_number("[SHORT-GI-40]"@) == 7,
        is_flag("[SHORT-GI-40]"@),
        ht_number("[TX-STBC]"@) == 8,
        is_flag("[TX-STBC]"@),
        ht_number("[RX-STBC1]"@) == 9,
        is_flag("[RX-STBC1]"@),
        ht_number("[RX-STBC12]"@) == 10,
        is_flag("[RX-STBC12]"@),
        ht_number("[RX-STBC123]"@) == 11,
        is_flag("[RX-STBC123]"@),
        ht_number("[MAX-AMSDU-7935]"@) == 12,
        is_flag("[MAX-AMSDU-7935]"@),
        ht_number("[DSSS_CCK-40]"@) == 13,
        is_flag("[DSSS_CCK-40]"@),
{
    lemma_ht_names();
    reveal(ht_number);
}

/// Where the second half of a channel is, if it counts.
proof fn lemma_bonding_tag(present: bool, channel: u8, t: Seq<char>)
    requires
        t.len() > 0,
    ensures
        is_flag_or_none(tag(present, bonding_flags(channel))),
        same_text(tag(present, bonding_flags(channel)), t) == {
            ||| present && bonding_flags(channel) == "[HT40+]"@ && ht_number(t) == 1
            ||| present && bonding_flags(channel) == "[HT40-]"@ && ht_number(t) == 2
        },
{
    reveal(is_flag_or_none);
    reveal(same_text);
    reveal(ht_number);
    lemma_ht_numbers();
}

/// The flag for the mode of power save.
proof fn lemma_smps_tag(mode: u16, t: Seq<char>)
    requires
        t.len() > 0,
    ensures
        is_flag_or_none(smps_flag(mode)),
        same_text(smps_flag(mode), t) == {
            ||| mode == 0 && ht_number(t) == 3
            ||| mode == 1 && ht_number(t) == 4
        },
{
    reveal(is_flag_or_none);
    reveal(same_text);
    reveal(ht_number);
    lemma_ht_numbers();
}

/// The flag for the streams received.
proof fn lemma_ht_rx_tag(streams: u16, t: Seq<char>)
    requires
        t.len() > 0,
    ensures
        is_flag_or_none(ht_rx_stbc_flag(streams)),
        same_text(ht_rx_stbc_flag(streams), t) == {
            ||| streams == 1 && ht_number(t) == 9
            ||| streams == 2 && ht_number(t) == 10
            ||| streams == 3 && ht_number(t) == 11
        },
{
    reveal(is_flag_or_none);
    reveal(same_text);
    reveal(ht_number);
    lemma_ht_numbers();
}

/// A flag of 802.11n that is there or not.
proof fn lemma_ht_tag(present: bool, flag: Seq<char>, t: Seq<char>)
    requires
        t.len() > 0,
        is_flag(flag),
        ht_number(flag) >= 0,
    ensures
        is_flag_or_none(tag(present, flag)),
        same_text(tag(present, flag), t) == (present && ht_number(t) == ht_number(flag)),
{
    reveal(is_flag_or_none);
    reveal(same_text);
    reveal(ht_number);
    lemma_ht_numbers();
}

/// A flag stands in those of 802.11n if it is one of them and its bits are set so.
proof fn lemma_ht_row(c: u16, channel: u8, t: Seq<char>)
    requires
        is_flag(t),
    ensures
        flag_in(ht_flags(c, channel), t) == {
            ||| c & 0x0001 != 0 && ht_number(t) == 0
            ||| c & 0x0002 != 0 && bonding_flags(channel) == "[HT40+]"@ && ht_number(t) == 1
            ||| c & 0x0002 != 0 && bonding_flags(channel) == "[HT40-]"@ && ht_number(t) == 2
            ||| (c >> 2) & 0x3 == 0 && ht_number(t) == 3
            ||| (c >> 2) & 0x3 == 1 && ht_number(t) == 4
            ||| c & 0x0010 != 0 && ht_number(t) == 5
            ||| c & 0x0020 != 0 && ht_number(t) == 6
            ||| c & 0x0040 != 0 && ht_number(t) == 7
            ||| c & 0x0080 != 0 && ht_number(t) == 8
            ||| (c >> 8) & 0x3 == 1 && ht_number(t) == 9
            ||| (c >> 8) & 0x3 == 2 && ht_number(t) == 10
            ||| (c >> 8) & 0x3 == 3 && ht_number(t) == 11
            ||| c & 0x0800 != 0 && ht_number(t) == 12
            ||| c & 0x1000 == 0 && ht_number(t) == 13
        },
{
    assert(t.len() > 0) by {
        reveal(is_flag);
    }
    lemma_ht_numbers();
    let p0 = tag(c & 0x0001 != 0, "[LDPC]"@);
    lemma_ht_tag(c & 0x0001 != 0, "[LDPC]"@, t);
    lemma_row_starts(p0, t);
    let s0 = p0;
    let p1 = tag(c & 0x0002 != 0, bonding_flags(channel));
    lemma_bonding_tag(c & 0x0002 != 0, channel, t);
    lemma_row_grows(s0, p1, t);
    let s1 = s0 + p1;
    let p2 = smps_flag((c >> 2) & 0x3);
    lemma_smps_tag((c >> 2) & 0x3, t);
    lemma_row_grows(s1, p2, t);
    let s2 = s1 + p2;
    let p3 = tag(c & 0x0010 != 0, "[GF]"@);
    lemma_ht_tag(c & 0x0010 != 0, "[GF]"@, t);
    lemma_row_grows(s2, p3, t);
    let s3 = s2 + p3;
    let p4 = tag(c & 0x0020 != 0, "[SHORT-GI-20]"@);
    lemma_ht_tag(c & 0x0020 != 0, "[SHORT-GI-20]"@, t);
    lemma_row_grows(s3, p4, t);
    let s4 = s3 + p4;
    let p5 = tag(c & 0x0040 != 0, "[SHORT-GI-40]"@);
    lemma_ht_tag(c & 0x0040 != 0, "[SHORT-GI-40]"@, t);
    lemma_row_grows(s4, p5, t);
    let s5 = s4 + p5;
    let p6 = tag(c & 0x0080 != 0, "[TX-STBC]"@);
    lemma_ht_tag(c & 0x0080 != 0, "[TX-STBC]"@, t);
    lemma_row_grows(s5, p6, t);
    let s6 = s5 + p6;
    let p7 = ht_rx_stbc_flag((c >> 8) & 0x3);
    lemma_ht_rx_tag((c >> 8) & 0x3, t);
    lemma_row_grows(s6, p7, t);
    let s7 = s6 + p7;
    let p8 = tag(c & 0x0800 != 0, "[MAX-AMSDU-7935]"@);
    lemma_ht_tag(c & 0x0800 != 0, "[MAX-AMSDU-7935]"@, t);
    lemma_row_grows(s7, p8, t);
    let s8 = s7 + p8;
    let p9 = tag(c & 0x1000 == 0, "[DSSS_CCK-40]"@);
    lemma_ht_tag(c & 0x1000 == 0, "[DSSS_CCK-40]"@, t);
    lemma_row_grows(s8, p9, t);
    let s9 = s8 + p9;
}

/// Only the flags of 802.11n have a number.
proof fn lemma_ht_named(t: Seq<char>)
    requires
        ht_number(t) >= 0,
    ensures
        ht_flag_names().contains(t),
{
    let names = ht_flag_names();
    reveal(ht_number);
    assert(names[0] == "[LDPC]"@);
    assert(names[1] == "[HT40+]"@);
    assert(names[2] == "[HT40-]"@);
    assert(names[3] == "[SMPS-STATIC]"@);
    assert(names[4] == "[SMPS-DYNAMIC]"@);
    assert(names[5] == "[GF]"@);
    assert(names[6] == "[SHORT-GI-20]"@);
    assert(names[7] == "[SHORT-GI-40]"@);
    assert(names[8] == "[TX-STBC]"@);
    assert(names[9] == "[RX-STBC1]"@);
    assert(names[10] == "[RX-STBC12]"@);
    assert(names[11] == "[RX-STBC123]"@);
    assert(names[12] == "[MAX-AMSDU-7935]"@);
    assert(names[13] == "[DSSS_CCK-40]"@);
    assert(names[ht_number(t)] == t);
}

/// The number of a flag of 802.11ac, from 0 on; -1 for another text.
#[verifier::opaque]
spec fn vht_number(t: Seq<char>) -> int {
    if t == "[MAX-MPDU-7991]"@ {
        0
    } else if t == "[MAX-MPDU-11454]"@ {
        1
    } else if t == "[RXLDPC]"@ {
        2
    } else if t == "[SHORT-GI-80]"@ {
        3
    } else if t == "[SHORT-GI-160]"@ {
        4
    } else if t == "[TX-STBC-2BY1]"@ {
        5
    } else if t == "[RX-STBC-1]"@ {
        6
    } else if t == "[RX-STBC-12]"@ {
        7
    } else if t == "[RX-STBC-123]"@ {
        8
    } else if t == "[RX-STBC-1234]"@ {
        9
    } else if t == "[SU-BEAMFORMER]"@ {
        10
    } else if t == "[SU-BEAMFORMEE]"@ {
        11
    } else if t == "[BF-ANTENNA-2]"@ {
        12
    } else if t == "[BF-ANTENNA-3]"@ {
        13
    } else if t == "[BF-ANTENNA-4]"@ {
        14
    } else if t == "[MU-BEAMFORMER]"@ {
        15
    } else if t == "[MU-BEAMFORMEE]"@ {
        16
    } else if t == "[VHT-TXOP-PS]"@ {
        17
    } else if t == "[HTC-VHT]"@ {
        18
    } else if t == "[RX-ANTENNA-PATTERN]"@ {
        19
    } else if t == "[TX-ANTENNA-PATTERN]"@ {
        20
    } else {
        -1
    }
}

/// The flags of 802.11ac are flags, and what tells those of the same length apart.
proof fn lemma_vht_names()
    ensures
        is_flag("[MAX-MPDU-7991]"@),
        "[MAX-MPDU-7991]"@.len() == 15,
        "[MAX-MPDU-7991]"@[1] == 'M',
        "[MAX-MPDU-7991]"@[2] == 'A',
        is_flag("[MAX-MPDU-11454]"@),
        "[MAX-MPDU-11454]"@.len() == 16,
        is_flag("[RXLDPC]"@),
        "[RXLDPC]"@.len() == 8,
        is_flag("[SHORT-GI-80]"@),
        "[SHORT-GI-80]"@.len() == 13,
        "[SHORT-GI-80]"@[1] == 'S',
        is_flag("[SHORT-GI-160]"@),
        "[SHORT-GI-160]"@.len() == 14,
        "[SHORT-GI-160]"@[1] == 'S',
        is_flag("[TX-STBC-2BY1]"@),
        "[TX-STBC-2BY1]"@.len() == 14,
        "[TX-STBC-2BY1]"@[1] == 'T',
        is_flag("[RX-STBC-1]"@),
        "[RX-STBC-1]"@.len() == 11,
        is_flag("[RX-STBC-12]"@),
        "[RX-STBC-12]"@.len() == 12,
        is_flag("[RX-STBC-123]"@),
        "[RX-STBC-123]"@.len() == 13,
        "[RX-STBC-123]"@[1] == 'R',
        is_flag("[RX-STBC-1234]"@),
        "[RX-STBC-1234]"@.len() == 14,
        "[RX-STBC-1234]"@[1] == 'R',
        is_flag("[SU-BEAMFORMER]"@),
        "[SU-BEAMFORMER]"@.len() == 15,
        "[SU-BEAMFORMER]"@[1] == 'S',
        "[SU-BEAMFORMER]"@[13] == 'R',
        is_flag("[SU-BEAMFORMEE]"@),
        "[SU-BEAMFORMEE]"@.len() == 15,
        "[SU-BEAMFORMEE]"@[1] == 'S',
        "[SU-BEAMFORMEE]"@[13] == 'E',
        is_flag("[BF-ANTENNA-2]"@),
        "[BF-ANTENNA-2]"@.len() == 14,
        "[BF-ANTENNA-2]"@[1] == 'B',
        "[BF-ANTENNA-2]"@[12] == '2',
        is_flag("[BF-ANTENNA-3]"@),
        "[BF-ANTENNA-3]"@.len() == 14,
        "[BF-ANTENNA-3]"@[1] == 'B',
        "[BF-ANTENNA-3]"@[12] == '3',
        is_flag("[BF-ANTENNA-4]"@),
        "[BF-ANTENNA-4]"@.len() == 14,
        "[BF-ANTENNA-4]"@[1] == 'B',
        "[BF-ANTENNA-4]"@[12] == '4',
        is_flag("[MU-BEAMFORMER]"@),
        "[MU-BEAMFORMER]"@.len() == 15,
        "[MU-BEAMFORMER]"@[1] == 'M',
        "[MU-BEAMFORMER]"@[2] == 'U',
        "[MU-BEAMFORMER]"@[13] == 'R',
        is_flag("[MU-BEAMFORMEE]"@),
        "[MU-BEAMFORMEE]"@.len() == 15,
        "[MU-BEAMFORMEE]"@[1] == 'M',
        "[MU-BEAMFORMEE]"@[2] == 'U',
        "[MU-BEAMFORMEE]"@[13] == 'E',
        is_flag("[VHT-TXOP-PS]"@),
        "[VHT-TXOP-PS]"@.len() == 13,
        "[VHT-TXOP-PS]"@[1] == 'V',
        is_flag("[HTC-VHT]"@),
        "[HTC-VHT]"@.len() == 9,
        is_flag("[RX-ANTENNA-PATTERN]"@),
        "[RX-ANTENNA-PATTERN]"@.len() == 20,
        "[RX-ANTENNA-PATTERN]"@[1] == 'R',
        is_flag("[TX-ANTENNA-PATTERN]"@),
        "[TX-ANTENNA-PATTERN]"@.len() == 20,
        "[TX-ANTENNA-PATTERN]"@[1] == 'T',
{
    assert({
        &&& is_flag("[MAX-MPDU-7991]"@)
        &&& "[MAX-MPDU-7991]"@.len() == 15
        &&& "[MAX-MPDU-7991]"@[1] == 'M'
        &&& "[MAX-MPDU-7991]"@[2] == 'A'
    }) by {
        reveal_strlit("[MAX-MPDU-7991]");
        reveal(is_flag);
    }
    assert({
        &&& is_flag("[MAX-MPDU-11454]"@)
        &&& "[MAX-MPDU-11454]"@.len() == 16
    }) by {
        reveal_strlit("[MAX-MPDU-11454]");
        reveal(is_flag);
    }
    assert({
        &&& is_flag("[RXLDPC]"@)
        &&& "[RXLDPC]"@.len() == 8
    }) by {
        reveal_strlit("[RXLDPC]");
        reveal(is_flag);
    }
    assert({
        &&& is_flag("[SHORT-GI-80]"@)
        &&& "[SHORT-GI-80]"@.len() == 13
        &&& "[SHORT-GI-80]"@[1] == 'S'
    }) by {
        reveal_strlit("[SHORT-GI-80]");
        reveal(is_flag);
    }
    assert({
        &&& is_flag("[SHORT-GI-160]"@)
        &&& "[SHORT-GI-160]"@.len() == 14
        &&& "[SHORT-GI-160]"@[1] == 'S'
    }) by {
        reveal_strlit("[SHORT-GI-160]");
        reveal(is_flag);
    }
    assert({
        &&& is_flag("[TX-STBC-2BY1]"@)
        &&& "[TX-STBC-2BY1]"@.len() == 14
        &&& "[TX-STBC-2BY1]"@[1] == 'T'
    }) by {
        reveal_strlit("[TX-STBC-2BY1]");
        reveal(is_flag);
    }
    assert({
        &&& is_flag("[RX-STBC-1]"@)
        &&& "[RX-STBC-1]"@.len() == 11
    }) by {
        reveal_strlit("[RX-STBC-1]");
        reveal(is_flag);
    }
    assert({
        &&& is_flag("[RX-STBC-12]"@)
        &&& "[RX-STBC-12]"@.len() == 12
    }) by {
        reveal_strlit("[RX-STBC-12]");
        reveal(is_flag);
    }
    assert({
        &&& is_flag("[RX-STBC-123]"@)
        &&& "[RX-STBC-123]"@.len() == 13
        &&& "[RX-STBC-123]"@[1] == 'R'
    }) by {
        reveal_strlit("[RX-STBC-123]");
        reveal(is_flag);
    }
    assert({
        &&& is_flag("[RX-STBC-1234]"@)
        &&& "[RX-STBC-1234]"@.len() == 14
        &&& "[RX-STBC-1234]"@[1] == 'R'
    }) by {
        reveal_strlit("[RX-STBC-1234]");
        reveal(is_flag);
    }
    assert({
        &&& is_flag("[SU-BEAMFORMER]"@)
        &&& "[SU-BEAMFORMER]"@.len() == 15
        &&& "[SU-BEAMFORMER]"@[1] == 'S'
        &&& "[SU-BEAMFORMER]"@[13] == 'R'
    }) by {
        reveal_strlit("[SU-BEAMFORMER]");
        reveal(is_flag);
    }
    assert({
        &&& is_flag("[SU-BEAMFORMEE]"@)
        &&& "[SU-BEAMFORMEE]"@.len() == 15
        &&& "[SU-BEAMFORMEE]"@[1] == 'S'
        &&& "[SU-BEAMFORMEE]"@[13] == 'E'
    }) by {
        reveal_strlit("[SU-BEAMFORMEE]");
        reveal(is_flag);
    }
    assert({
        &&& is_flag("[BF-ANTENNA-2]"@)
        &&& "[BF-ANTENNA-2]"@.len() == 14
        &&& "[BF-ANTENNA-2]"@[1] == 'B'
        &&& "[BF-ANTENNA-2]"@[12] == '2'
    }) by {
        reveal_strlit("[BF-ANTENNA-2]");
        reveal(is_flag);
    }
    assert({
        &&& is_flag("[BF-ANTENNA-3]"@)
        &&& "[BF-ANTENNA-3]"@.len() == 14
        &&& "[BF-ANTENNA-3]"@[1] == 'B'
        &&& "[BF-ANTENNA-3]"@[12] == '3'
    }) by {
        reveal_strlit("[BF-ANTENNA-3]");
        reveal(is_flag);
    }
    assert({
        &&& is_flag("[BF-ANTENNA-4]"@)
        &&& "[BF-ANTENNA-4]"@.len() == 14
        &&& "[BF-ANTENNA-4]"@[1] == 'B'
        &&& "[BF-ANTENNA-4]"@[12] == '4'
    }) by {
        reveal_strlit("[BF-ANTENNA-4]");
        reveal(is_flag);
    }
    assert({
        &&& is_flag("[MU-BEAMFORMER]"@)
        &&& "[MU-BEAMFORMER]"@.len() == 15
        &&& "[MU-BEAMFORMER]"@[1] == 'M'
        &&& "[MU-BEAMFORMER]"@[2] == 'U'
        &&& "[MU-BEAMFORMER]"@[13] == 'R'
    }) by {
        reveal_strlit("[MU-BEAMFORMER]");
        reveal(is_flag);
    }
    assert({
        &&& is_flag("[MU-BEAMFORMEE]"@)
        &&& "[MU-BEAMFORMEE]"@.len() == 15
        &&& "[MU-BEAMFORMEE]"@[1] == 'M'
        &&& "[MU-BEAMFORMEE]"@[2] == 'U'
        &&& "[MU-BEAMFORMEE]"@[13] == 'E'
    }) by {
        reveal_strlit("[MU-BEAMFORMEE]");
        reveal(is_flag);
    }
    assert({
        &&& is_flag("[VHT-TXOP-PS]"@)
        &&& "[VHT-TXOP-PS]"@.len() == 13
        &&& "[VHT-TXOP-PS]"@[1] == 'V'
    }) by {
        reveal_strlit("[VHT-TXOP-PS]");
        reveal(is_flag);
    }
    assert({
        &&& is_flag("[HTC-VHT]"@)
        &&& "[HTC-VHT]"@.len() == 9
    }) by {
        reveal_strlit("[HTC-VHT]");
        reveal(is_flag);
    }
    assert({
        &&& is_flag("[RX-ANTENNA-PATTERN]"@)
        &&& "[RX-ANTENNA-PATTERN]"@.len() == 20
        &&& "[RX-ANTENNA-PATTERN]"@[1] == 'R'
    }) by {
        reveal_strlit("[RX-ANTENNA-PATTERN]");
        reveal(is_flag);
    }
    assert({
        &&& is_flag("[TX-ANTENNA-PATTERN]"@)
        &&& "[TX-ANTENNA-PATTERN]"@.len() == 20
        &&& "[TX-ANTENNA-PATTERN]"@[1] == 'T'
    }) by {
        reveal_strlit("[TX-ANTENNA-PATTERN]");
        reveal(is_flag);
    }
}

/// The flags of 802.11ac have different numbers.
proof fn lemma_vht_numbers()
    ensures
        vht_number("[MAX-MPDU-7991]"@) == 0,
        is_flag("[MAX-MPDU-7991]"@),
        vht_number("[MAX-MPDU-11454]"@) == 1,
        is_flag("[MAX-MPDU-11454]"@),
        vht_number("[RXLDPC]"@) == 2,
        is_flag("[RXLDPC]"@),
        vht_number("[SHORT-GI-80]"@) == 3,
        is_flag("[SHORT-GI-80]"@),
        vht_number("[SHORT-GI-160]"@) == 4,
        is_flag("[SHORT-GI-160]"@),
        vht_number("[TX-STBC-2BY1]"@) == 5,
        is_flag("[TX-STBC-2BY1]"@),
        vht_number("[RX-STBC-1]"@) == 6,
        is_flag("[RX-STBC-1]"@),
        vht_number("[RX-STBC-12]"@) == 7,
        is_flag("[RX-STBC-12]"@),
        vht_number("[RX-STBC-123]"@) == 8,
        is_flag("[RX-STBC-123]"@),
        vht_number("[RX-STBC-1234]"@) == 9,
        is_flag("[RX-STBC-1234]"@),
        vht_number("[SU-BEAMFORMER]"@) == 10,
        is_flag("[SU-BEAMFORMER]"@),
        vht_number("[SU-BEAMFORMEE]"@) == 11,
        is_flag("[SU-BEAMFORMEE]"@),
        vht_number("[BF-ANTENNA-2]"@) == 12,
        is_flag("[BF-ANTENNA-2]"@),
        vht_number("[BF-ANTENNA-3]"@) == 13,
        is_flag("[BF-ANTENNA-3]"@),
        vht_number("[BF-ANTENNA-4]"@) == 14,
        is_flag("[BF-ANTENNA-4]"@),
        vht_number("[MU-BEAMFORMER]"@) == 15,
        is_flag("[MU-BEAMFORMER]"@),
        vht_number("[MU-BEAMFORMEE]"@) == 16,
        is_flag("[MU-BEAMFORMEE]"@),
        vht_number("[VHT-TXOP-PS]"@) == 17,
        is_flag("[VHT-TXOP-PS]"@),
        vht_number("[HTC-VHT]"@) == 18,
        is_flag("[HTC-VHT]"@),
        vht_number("[RX-ANTENNA-PATTERN]"@) == 19,
        is_flag("[RX-ANTENNA-PATTERN]"@),
        vht_number("[TX-ANTENNA-PATTERN]"@) == 20,
        is_flag("[TX-ANTENNA-PATTERN]"@),
{
    lemma_vht_names();
    reveal(vht_number);
}

/// The flag for the longest frame.
proof fn lemma_mpdu_tag(length: u32, t: Seq<char>)
    requires
        t.len() > 0,
    ensures
        is_flag_or_none(mpdu_flag(length)),
        same_text(mpdu_flag(length), t) == {
            ||| length == 1 && vht_number(t) == 0
            ||| length == 2 && vht_number(t) == 1
        },
{
    reveal(is_flag_or_none);
    reveal(same_text);
    reveal(vht_number);
    lemma_vht_numbers();
}

/// The flag for the streams received.
proof fn lemma_vht_rx_tag(streams: u32, t: Seq<char>)
    requires
        t.len() > 0,
    ensures
        is_flag_or_none(vht_rx_stbc_flag(streams)),
        same_text(vht_rx_stbc_flag(streams), t) == {
            ||| streams == 1 && vht_number(t) == 6
            ||| streams == 2 && vht_number(t) == 7
            ||| streams == 3 && vht_number(t) == 8
            ||| streams == 4 && vht_number(t) == 9
        },
{
    reveal(is_flag_or_none);
    reveal(same_text);
    reveal(vht_number);
    lemma_vht_numbers();
}

/// The flag for the number of antennas.
proof fn lemma_antenna_tag(field: u32, t: Seq<char>)
    requires
        t.len() > 0,
    ensures
        is_flag_or_none(antenna_flag(field)),
        same_text(antenna_flag(field), t) == {
            ||| field == 1 && vht_number(t) == 12
            ||| field == 2 && vht_number(t) == 13
            ||| field == 3 && vht_number(t) == 14
        },
{
    reveal(is_flag_or_none);
    reveal(same_text);
    reveal(vht_number);
    lemma_vht_numbers();
    reveal_strlit("[BF-ANTENNA-");
    reveal_strlit("]");
    reveal_strlit("[BF-ANTENNA-2]");
    reveal_strlit("[BF-ANTENNA-3]");
    reveal_strlit("[BF-ANTENNA-4]");
    if field == 1 {
        assert(antenna_flag(field) =~= "[BF-ANTENNA-2]"@);
    } else if field == 2 {
        assert(antenna_flag(field) =~= "[BF-ANTENNA-3]"@);
    } else if field == 3 {
        assert(antenna_flag(field) =~= "[BF-ANTENNA-4]"@);
    }
}

/// A flag of 802.11ac that is there or not.
proof fn lemma_vht_tag(present: bool, flag: Seq<char>, t: Seq<char>)
    requires
        t.len() > 0,
        is_flag(flag),
        vht_number(flag) >= 0,
    ensures
        is_flag_or_none(tag(present, flag)),
        same_text(tag(present, flag), t) == (present && vht_number(t) == vht_number(flag)),
{
    reveal(is_flag_or_none);
    reveal(same_text);
    reveal(vht_number);
    lemma_vht_numbers();
}

/// The flags of 802.11ac, up to some.
#[verifier::opaque]
spec fn vht_row0(c: u32) -> Seq<char> {
    mpdu_flag(c & 0x3)
        + tag(c & 0x0010 != 0, "[RXLDPC]"@)
        + tag(c & 0x0020 != 0, "[SHORT-GI-80]"@)
        + tag(c & 0x0040 != 0, "[SHORT-GI-160]"@)
        + tag(c & 0x0080 != 0, "[TX-STBC-2BY1]"@)
}

proof fn lemma_vht_row0(c: u32, t: Seq<char>)
    requires
        is_flag(t),
    ensures
        is_flag_row(vht_row0(c)),
        flag_in(vht_row0(c), t) == {
            ||| c & 0x3 == 1 && vht_number(t) == 0
            ||| c & 0x3 == 2 && vht_number(t) == 1
            ||| c & 0x0010 != 0 && vht_number(t) == 2
            ||| c & 0x0020 != 0 && vht_number(t) == 3
            ||| c & 0x0040 != 0 && vht_number(t) == 4
            ||| c & 0x0080 != 0 && vht_number(t) == 5
        },
{
    assert(t.len() > 0) by {
        reveal(is_flag);
    }
    reveal(vht_row0);
    lemma_vht_numbers();
    let p0 = mpdu_flag(c & 0x3);
    lemma_mpdu_tag(c & 0x3, t);
    lemma_row_starts(p0, t);
    let s0 = p0;
    let p1 = tag(c & 0x0010 != 0, "[RXLDPC]"@);
    lemma_vht_tag(c & 0x0010 != 0, "[RXLDPC]"@, t);
    lemma_row_grows(s0, p1, t);
    let s1 = s0 + p1;
    let p2 = tag(c & 0x0020 != 0, "[SHORT-GI-80]"@);
    lemma_vht_tag(c & 0x0020 != 0, "[SHORT-GI-80]"@, t);
    lemma_row_grows(s1, p2, t);
    let s2 = s1 + p2;
    let p3 = tag(c & 0x0040 != 0, "[SHORT-GI-160]"@);
    lemma_vht_tag(c & 0x0040 != 0, "[SHORT-GI-160]"@, t);
    lemma_row_grows(s2, p3, t);
    let s3 = s2 + p3;
    let p4 = tag(c & 0x0080 != 0, "[TX-STBC-2BY1]"@);
    lemma_vht_tag(c & 0x0080 != 0, "[TX-STBC-2BY1]"@, t);
    lemma_row_grows(s3, p4, t);
    let s4 = s3 + p4;
}

/// The flags of 802.11ac, up to some.
#[verifier::opaque]
spec fn vht_row1(c: u32) -> Seq<char> {
    vht_row0(c)
        + vht_rx_stbc_flag((c >> 8) & 0x7)
        + tag(c & 0x0800 != 0, "[SU-BEAMFORMER]"@)
        + tag(c & 0x1000 != 0, "[SU-BEAMFORMEE]"@)
}

proof fn lemma_vht_row1(c: u32, t: Seq<char>)
    requires
        is_flag(t),
    ensures
        is_flag_row(vht_row1(c)),
        flag_in(vht_row1(c), t) == {
            ||| flag_in(vht_row0(c), t)
            ||| (c >> 8) & 0x7 == 1 && vht_number(t) == 6
            ||| (c >> 8) & 0x7 == 2 && vht_number(t) == 7
            ||| (c >> 8) & 0x7 == 3 && vht_number(t) == 8
            ||| (c >> 8) & 0x7 == 4 && vht_number(t) == 9
            ||| c & 0x0800 != 0 && vht_number(t) == 10
            ||| c & 0x1000 != 0 && vht_number(t) == 11
        },
{
    assert(t.len() > 0) by {
        reveal(is_flag);
    }
    reveal(vht_row1);
    lemma_vht_row0(c, t);
    lemma_vht_numbers();
    let p5 = vht_rx_stbc_flag((c >> 8) & 0x7);
    lemma_vht_rx_tag((c >> 8) & 0x7, t);
    lemma_row_grows(vht_row0(c), p5, t);
    let s5 = vht_row0(c) + p5;
    let p6 = tag(c & 0x0800 != 0, "[SU-BEAMFORMER]"@);
    lemma_vht_tag(c & 0x0800 != 0, "[SU-BEAMFORMER]"@, t);
    lemma_row_grows(s5, p6, t);
    let s6 = s5 + p6;
    let p7 = tag(c & 0x1000 != 0, "[SU-BEAMFORMEE]"@);
    lemma_vht_tag(c & 0x1000 != 0, "[SU-BEAMFORMEE]"@, t);
    lemma_row_grows(s6, p7, t);
    let s7 = s6 + p7;
}

/// The flags of 802.11ac, up to some.
#[verifier::opaque]
spec fn vht_row2(c: u32) -> Seq<char> {
    vht_row1(c)
        + antenna_flag((c >> 13) & 0x7)
        + tag(c & 0x0008_0000 != 0, "[MU-BEAMFORMER]"@)
        + tag(c & 0x0010_0000 != 0, "[MU-BEAMFORMEE]"@)
}

proof fn lemma_vht_row2(c: u32, t: Seq<char>)
    requires
        is_flag(t),
    ensures
        is_flag_row(vht_row2(c)),
        flag_in(vht_row2(c), t) == {
            ||| flag_in(vht_row1(c), t)
            ||| (c >> 13) & 0x7 == 1 && vht_number(t) == 12
            ||| (c >> 13) & 0x7 == 2 && vht_number(t) == 13
            ||| (c >> 13) & 0x7 == 3 && vht_number(t) == 14
            ||| c & 0x0008_0000 != 0 && vht_number(t) == 15
            ||| c & 0x0010_0000 != 0 && vht_number(t) == 16
        },
{
    assert(t.len() > 0) by {
        reveal(is_flag);
    }
    reveal(vht_row2);
    lemma_vht_row1(c, t);
    lemma_vht_numbers();
    let p8 = antenna_flag((c >> 13) & 0x7);
    lemma_antenna_tag((c >> 13) & 0x7, t);
    lemma_row_grows(vht_row1(c), p8, t);
    let s8 = vht_row1(c) + p8;
    let p9 = tag(c & 0x0008_0000 != 0, "[MU-BEAMFORMER]"@);
    lemma_vht_tag(c & 0x0008_0000 != 0, "[MU-BEAMFORMER]"@, t);
    lemma_row_grows(s8, p9, t);
    let s9 = s8 + p9;
    let p10 = tag(c & 0x0010_0000 != 0, "[MU-BEAMFORMEE]"@);
    lemma_vht_tag(c & 0x0010_0000 != 0, "[MU-BEAMFORMEE]"@, t);
    lemma_row_grows(s9, p10, t);
    let s10 = s9 + p10;
}

/// The flags of 802.11ac, up to some.
#[verifier::opaque]
spec fn vht_row3(c: u32) -> Seq<char> {
    vht_row2(c)
        + tag(c & 0x0020_0000 != 0, "[VHT-TXOP-PS]"@)
        + tag(c & 0x0040_0000 != 0, "[HTC-VHT]"@)
        + tag(c & 0x1000_0000 != 0, "[RX-ANTENNA-PATTERN]"@)
        + tag(c & 0x2000_0000 != 0, "[TX-ANTENNA-PATTERN]"@)
}

proof fn lemma_vht_row3(c: u32, t: Seq<char>)
    requires
        is_flag(t),
    ensures
        is_flag_row(vht_row3(c)),
        flag_in(vht_row3(c), t) == {
            ||| flag_in(vht_row2(c), t)
            ||| c & 0x0020_0000 != 0 && vht_number(t) == 17
            ||| c & 0x0040_0000 != 0 && vht_number(t) == 18
            ||| c & 0x1000_0000 != 0 && vht_number(t) == 19
            ||| c & 0x2000_0000 != 0 && vht_number(t) == 20
        },
{
    assert(t.len() > 0) by {
        reveal(is_flag);
    }
    reveal(vht_row3);
    lemma_vht_row2(c, t);
    lemma_vht_numbers();
    let p11 = tag(c & 0x0020_0000 != 0, "[VHT-TXOP-PS]"@);
    lemma_vht_tag(c & 0x0020_0000 != 0, "[VHT-TXOP-PS]"@, t);
    lemma_row_grows(vht_row2(c), p11, t);
    let s11 = vht_row2(c) + p11;
    let p12 = tag(c & 0x0040_0000 != 0, "[HTC-VHT]"@);
    lemma_vht_tag(c & 0x0040_0000 != 0, "[HTC-VHT]"@, t);
    lemma_row_grows(s11, p12, t);
    let s12 = s11 + p12;
    let p13 = tag(c & 0x1000_0000 != 0, "[RX-ANTENNA-PATTERN]"@);
    lemma_vht_tag(c & 0x1000_0000 != 0, "[RX-ANTENNA-PATTERN]"@, t);
    lemma_row_grows(s12, p13, t);
    let s13 = s12 + p13;
    let p14 = tag(c & 0x2000_0000 != 0, "[TX-ANTENNA-PATTERN]"@);
    lemma_vht_tag(c & 0x2000_0000 != 0, "[TX-ANTENNA-PATTERN]"@, t);
    lemma_row_grows(s13, p14, t);
    let s14 = s13 + p14;
}

/// A flag stands in those of 802.11ac if it is one of them and its bits are set so.
proof fn lemma_vht_row(c: u32, t: Seq<char>)
    requires
        is_flag(t),
    ensures
        flag_in(vht_flags(c), t) == {
            ||| c & 0x3 == 1 && vht_number(t) == 0
            ||| c & 0x3 == 2 && vht_number(t) == 1
            ||| c & 0x0010 != 0 && vht_number(t) == 2
            ||| c & 0x0020 != 0 && vht_number(t) == 3
            ||| c & 0x0040 != 0 && vht_number(t) == 4
            ||| c & 0x0080 != 0 && vht_number(t) == 5
            ||| (c >> 8) & 0x7 == 1 && vht_number(t) == 6
            ||| (c >> 8) & 0x7 == 2 && vht_number(t) == 7
            ||| (c >> 8) & 0x7 == 3 && vht_number(t) == 8
            ||| (c >> 8) & 0x7 == 4 && vht_number(t) == 9
            ||| c & 0x0800 != 0 && vht_number(t) == 10
            ||| c & 0x1000 != 0 && vht_number(t) == 11
            ||| (c >> 13) & 0x7 == 1 && vht_number(t) == 12
            ||| (c >> 13) & 0x7 == 2 && vht_number(t) == 13
            ||| (c >> 13) & 0x7 == 3 && vht_number(t) == 14
            ||| c & 0x0008_0000 != 0 && vht_number(t) == 15
            ||| c & 0x0010_0000 != 0 && vht_number(t) == 16
            ||| c & 0x0020_0000 != 0 && vht_number(t) == 17
            ||| c & 0x0040_0000 != 0 && vht_number(t) == 18
            ||| c & 0x1000_0000 != 0 && vht_number(t) == 19
            ||| c & 0x2000_0000 != 0 && vht_number(t) == 20
        },
{
    lemma_vht_row0(c, t);
    lemma_vht_row1(c, t);
    lemma_vht_row2(c, t);
    lemma_vht_row3(c, t);
    assert(vht_row3(c) == vht_flags(c)) by {
        reveal(vht_row0);
        reveal(vht_row1);
        reveal(vht_row2);
        reveal(vht_row3);
    }
}

/// Only the flags of 802.11ac have a number.
proof fn lemma_vht_named(t: Seq<char>)
    requires
        vht_number(t) >= 0,
    ensures
        vht_flag_names().contains(t),
{
    let names = vht_flag_names();
    reveal(vht_number);
    assert(names[0] == "[MAX-MPDU-7991]"@);
    assert(names[1] == "[MAX-MPDU-11454]"@);
    assert(names[2] == "[RXLDPC]"@);
    assert(names[3] == "[SHORT-GI-80]"@);
    assert(names[4] == "[SHORT-GI-160]"@);
    assert(names[5] == "[TX-STBC-2BY1]"@);
    assert(names[6] == "[RX-STBC-1]"@);
    assert(names[7] == "[RX-STBC-12]"@);
    assert(names[8] == "[RX-STBC-123]"@);
    assert(names[9] == "[RX-STBC-1234]"@);
    assert(names[10] == "[SU-BEAMFORMER]"@);
    assert(names[11] == "[SU-BEAMFORMEE]"@);
    assert(names[12] == "[BF-ANTENNA-2]"@);
    assert(names[13] == "[BF-ANTENNA-3]"@);
    assert(names[14] == "[BF-ANTENNA-4]"@);
    assert(names[15] == "[MU-BEAMFORMER]"@);
    assert(names[16] == "[MU-BEAMFORMEE]"@);
    assert(names[17] == "[VHT-TXOP-PS]"@);
    assert(names[18] == "[HTC-VHT]"@);
    assert(names[19] == "[RX-ANTENNA-PATTERN]"@);
    assert(names[20] == "[TX-ANTENNA-PATTERN]"@);
    assert(names[vht_number(t)] == t);
}

/// Each flag of 802.11n stands in the text exactly if the bits that it is for
/// say so, by the numbering of 802.11n; that of a channel of 40 MHz, if bit 1 is
/// set and the channel has its second half there. No other flag stands in it.
pub proof fn law_ht_flags_follow_bits(c: u16, channel: u8)
    ensures
        occurs_in(ht_flags(c, channel), "[LDPC]"@) == ((c >> 0) & 1 == 1),
        occurs_in(ht_flags(c, channel), "[HT40+]"@)
            == ((c >> 1) & 1 == 1 && bonding_flags(channel) == "[HT40+]"@),
        occurs_in(ht_flags(c, channel), "[HT40-]"@)
            == ((c >> 1) & 1 == 1 && bonding_flags(channel) == "[HT40-]"@),
        occurs_in(ht_flags(c, channel), "[SMPS-STATIC]"@)
            == ((c >> 3) & 1 == 0 && (c >> 2) & 1 == 0),
        occurs_in(ht_flags(c, channel), "[SMPS-DYNAMIC]"@)
            == ((c >> 3) & 1 == 0 && (c >> 2) & 1 == 1),
        occurs_in(ht_flags(c, channel), "[GF]"@) == ((c >> 4) & 1 == 1),
        occurs_in(ht_flags(c, channel), "[SHORT-GI-20]"@) == ((c >> 5) & 1 == 1),
        occurs_in(ht_flags(c, channel), "[SHORT-GI-40]"@) == ((c >> 6) & 1 == 1),
        occurs_in(ht_flags(c, channel), "[TX-STBC]"@) == ((c >> 7) & 1 == 1),
        occurs_in(ht_flags(c, channel), "[RX-STBC1]"@) == ((c >> 9) & 1 == 0 && (c >> 8) & 1 == 1),
        occurs_in(ht_flags(c, channel), "[RX-STBC12]"@) == ((c >> 9) & 1 == 1 && (c >> 8) & 1 == 0),
        occurs_in(ht_flags(c, channel), "[RX-STBC123]"@)
            == ((c >> 9) & 1 == 1 && (c >> 8) & 1 == 1),
        occurs_in(ht_flags(c, channel), "[MAX-AMSDU-7935]"@) == ((c >> 11) & 1 == 1),
        occurs_in(ht_flags(c, channel), "[DSSS_CCK-40]"@) == ((c >> 12) & 1 == 0),
        forall|t: Seq<char>| #[trigger]
            is_flag(t) && occurs_in(ht_flags(c, channel), t) ==> ht_flag_names().contains(t),
{
    assert({
        &&& (c & 0x0001 != 0) == ((c >> 0) & 1 == 1)
        &&& (c & 0x0002 != 0) == ((c >> 1) & 1 == 1)
        &&& (c & 0x0010 != 0) == ((c >> 4) & 1 == 1)
        &&& (c & 0x0020 != 0) == ((c >> 5) & 1 == 1)
        &&& (c & 0x0040 != 0) == ((c >> 6) & 1 == 1)
        &&& (c & 0x0080 != 0) == ((c >> 7) & 1 == 1)
        &&& (c & 0x0800 != 0) == ((c >> 11) & 1 == 1)
        &&& (c & 0x1000 == 0) == ((c >> 12) & 1 == 0)
        &&& ((c >> 2) & 0x3 == 0) == ((c >> 3) & 1 == 0 && (c >> 2) & 1 == 0)
        &&& ((c >> 2) & 0x3 == 1) == ((c >> 3) & 1 == 0 && (c >> 2) & 1 == 1)
        &&& ((c >> 8) & 0x3 == 1) == ((c >> 9) & 1 == 0 && (c >> 8) & 1 == 1)
        &&& ((c >> 8) & 0x3 == 2) == ((c >> 9) & 1 == 1 && (c >> 8) & 1 == 0)
        &&& ((c >> 8) & 0x3 == 3) == ((c >> 9) & 1 == 1 && (c >> 8) & 1 == 1)
    }) by (bit_vector);
    lemma_ht_numbers();
    lemma_ht_row(c, channel, "[LDPC]"@);
    lemma_ht_row(c, channel, "[HT40+]"@);
    lemma_ht_row(c, channel, "[HT40-]"@);
    lemma_ht_row(c, channel, "[SMPS-STATIC]"@);
    lemma_ht_row(c, channel, "[SMPS-DYNAMIC]"@);
    lemma_ht_row(c, channel, "[GF]"@);
    lemma_ht_row(c, channel, "[SHORT-GI-20]"@);
    lemma_ht_row(c, channel, "[SHORT-GI-40]"@);
    lemma_ht_row(c, channel, "[TX-STBC]"@);
    lemma_ht_row(c, channel, "[RX-STBC1]"@);
    lemma_ht_row(c, channel, "[RX-STBC12]"@);
    lemma_ht_row(c, channel, "[RX-STBC123]"@);
    lemma_ht_row(c, channel, "[MAX-AMSDU-7935]"@);
    lemma_ht_row(c, channel, "[DSSS_CCK-40]"@);
    reveal(flag_in);
    assert forall|t: Seq<char>| #[trigger]
        is_flag(t) && occurs_in(ht_flags(c, channel), t) implies ht_flag_names().contains(t) by {
        lemma_ht_row(c, channel, t);
        lemma_ht_named(t);
    }
}

/// Each flag of 802.11ac stands in the text exactly if the bits that it is for
/// say so, by the numbering of 802.11ac. No other flag stands in it.
#[verifier::rlimit(60)]
pub proof fn law_vht_flags_follow_bits(c: u32)
    ensures
        occurs_in(vht_flags(c), "[MAX-MPDU-7991]"@) == ((c >> 1) & 1 == 0 && (c >> 0) & 1 == 1),
        occurs_in(vht_flags(c), "[MAX-MPDU-11454]"@) == ((c >> 1) & 1 == 1 && (c >> 0) & 1 == 0),
        occurs_in(vht_flags(c), "[RXLDPC]"@) == ((c >> 4) & 1 == 1),
        occurs_in(vht_flags(c), "[SHORT-GI-80]"@) == ((c >> 5) & 1 == 1),
        occurs_in(vht_flags(c), "[SHORT-GI-160]"@) == ((c >> 6) & 1 == 1),
        occurs_in(vht_flags(c), "[TX-STBC-2BY1]"@) == ((c >> 7) & 1 == 1),
        occurs_in(vht_flags(c), "[RX-STBC-1]"@) == (c / 0x100 % 8 == 1),
        occurs_in(vht_flags(c), "[RX-STBC-12]"@) == (c / 0x100 % 8 == 2),
        occurs_in(vht_flags(c), "[RX-STBC-123]"@) == (c / 0x100 % 8 == 3),
        occurs_in(vht_flags(c), "[RX-STBC-1234]"@) == (c / 0x100 % 8 == 4),
        occurs_in(vht_flags(c), "[SU-BEAMFORMER]"@) == ((c >> 11) & 1 == 1),
        occurs_in(vht_flags(c), "[SU-BEAMFORMEE]"@) == ((c >> 12) & 1 == 1),
        occurs_in(vht_flags(c), "[BF-ANTENNA-2]"@) == (c / 0x2000 % 8 == 1),
        occurs_in(vht_flags(c), "[BF-ANTENNA-3]"@) == (c / 0x2000 % 8 == 2),
        occurs_in(vht_flags(c), "[BF-ANTENNA-4]"@) == (c / 0x2000 % 8 == 3),
        occurs_in(vht_flags(c), "[MU-BEAMFORMER]"@) == ((c >> 19) & 1 == 1),
        occurs_in(vht_flags(c), "[MU-BEAMFORMEE]"@) == ((c >> 20) & 1 == 1),
        occurs_in(vht_flags(c), "[VHT-TXOP-PS]"@) == ((c >> 21) & 1 == 1),
        occurs_in(vht_flags(c), "[HTC-VHT]"@) == ((c >> 22) & 1 == 1),
        occurs_in(vht_flags(c), "[RX-ANTENNA-PATTERN]"@) == ((c >> 28) & 1 == 1),
        occurs_in(vht_flags(c), "[TX-ANTENNA-PATTERN]"@) == ((c >> 29) & 1 == 1),
        forall|t: Seq<char>| #[trigger]
            is_flag(t) && occurs_in(vht_flags(c), t) ==> vht_flag_names().contains(t),
{
    assert({
        &&& (c & 0x0010 != 0) == ((c >> 4) & 1 == 1)
        &&& (c & 0x0020 != 0) == ((c >> 5) & 1 == 1)
        &&& (c & 0x0040 != 0) == ((c >> 6) & 1 == 1)
        &&& (c & 0x0080 != 0) == ((c >> 7) & 1 == 1)
        &&& (c & 0x0800 != 0) == ((c >> 11) & 1 == 1)
        &&& (c & 0x1000 != 0) == ((c >> 12) & 1 == 1)
        &&& (c & 0x0008_0000 != 0) == ((c >> 19) & 1 == 1)
        &&& (c & 0x0010_0000 != 0) == ((c >> 20) & 1 == 1)
        &&& (c & 0x0020_0000 != 0) == ((c >> 21) & 1 == 1)
        &&& (c & 0x0040_0000 != 0) == ((c >> 22) & 1 == 1)
        &&& (c & 0x1000_0000 != 0) == ((c >> 28) & 1 == 1)
        &&& (c & 0x2000_0000 != 0) == ((c >> 29) & 1 == 1)
        &&& (c & 0x3 == 1) == ((c >> 1) & 1 == 0 && (c >> 0) & 1 == 1)
        &&& (c & 0x3 == 2) == ((c >> 1) & 1 == 1 && (c >> 0) & 1 == 0)
        &&& (c >> 8) & 0x7 == c / 0x100 % 8
        &&& (c >> 13) & 0x7 == c / 0x2000 % 8
    }) by (bit_vector);
    lemma_vht_numbers();
    lemma_vht_row(c, "[MAX-MPDU-7991]"@);
    lemma_vht_row(c, "[MAX-MPDU-11454]"@);
    lemma_vht_row(c, "[RXLDPC]"@);
    lemma_vht_row(c, "[SHORT-GI-80]"@);
    lemma_vht_row(c, "[SHORT-GI-160]"@);
    lemma_vht_row(c, "[TX-STBC-2BY1]"@);
    lemma_vht_row(c, "[RX-STBC-1]"@);
    lemma_vht_row(c, "[RX-STBC-12]"@);
    lemma_vht_row(c, "[RX-STBC-123]"@);
    lemma_vht_row(c, "[RX-STBC-1234]"@);
    lemma_vht_row(c, "[SU-BEAMFORMER]"@);
    lemma_vht_row(c, "[SU-BEAMFORMEE]"@);
    lemma_vht_row(c, "[BF-ANTENNA-2]"@);
    lemma_vht_row(c, "[BF-ANTENNA-3]"@);
    lemma_vht_row(c, "[BF-ANTENNA-4]"@);
    lemma_vht_row(c, "[MU-BEAMFORMER]"@);
    lemma_vht_row(c, "[MU-BEAMFORMEE]"@);
    lemma_vht_row(c, "[VHT-TXOP-PS]"@);
    lemma_vht_row(c, "[HTC-VHT]"@);
    lemma_vht_row(c, "[RX-ANTENNA-PATTERN]"@);
    lemma_vht_row(c, "[TX-ANTENNA-PATTERN]"@);
    reveal(flag_in);
    assert forall|t: Seq<char>| #[trigger]
        is_flag(t) && occurs_in(vht_flags(c), t) implies vht_flag_names().contains(t) by {
        lemma_vht_row(c, t);
        lemma_vht_named(t);
    }
}

/// The length of a flag where it stands in `s`, else nothing.
#[verifier::opaque]
pub open spec fn length_in(s: Seq<char>, flag: Seq<char>) -> nat {
    if flag_in(s, flag) {
        flag.len()
    } else {
        0
    }
}

/// Nothing stands between, before or behind the flags of 802.11n, and none stands
/// there twice: the text is as long as the flags in it together.
#[verifier::rlimit(40)]
pub proof fn law_ht_text_is_flags_alone(c: u16, channel: u8)
    ensures
        ht_flags(c, channel).len() == length_in(ht_flags(c, channel), "[LDPC]"@)
            + length_in(ht_flags(c, channel), "[HT40+]"@)
            + length_in(ht_flags(c, channel), "[HT40-]"@)
            + length_in(ht_flags(c, channel), "[SMPS-STATIC]"@)
            + length_in(ht_flags(c, channel), "[SMPS-DYNAMIC]"@)
            + length_in(ht_flags(c, channel), "[GF]"@)
            + length_in(ht_flags(c, channel), "[SHORT-GI-20]"@)
            + length_in(ht_flags(c, channel), "[SHORT-GI-40]"@)
            + length_in(ht_flags(c, channel), "[TX-STBC]"@)
            + length_in(ht_flags(c, channel), "[RX-STBC1]"@)
            + length_in(ht_flags(c, channel), "[RX-STBC12]"@)
            + length_in(ht_flags(c, channel), "[RX-STBC123]"@)
            + length_in(ht_flags(c, channel), "[MAX-AMSDU-7935]"@)
            + length_in(ht_flags(c, channel), "[DSSS_CCK-40]"@),
{
    let s = ht_flags(c, channel);
    let p0 = tag(c & 0x0001 != 0, "[LDPC]"@);
    assert(p0.len() == length_in(s, "[LDPC]"@)) by {
        lemma_ht_numbers();
        reveal(length_in);
        lemma_ht_row(c, channel, "[LDPC]"@);
        reveal_strlit("[LDPC]");
    }
    let p1 = tag(c & 0x0002 != 0, bonding_flags(channel));
    assert(p1.len() == {
        length_in(s, "[HT40+]"@)
            + length_in(s, "[HT40-]"@)
    }) by {
        lemma_ht_numbers();
        reveal(length_in);
        lemma_ht_row(c, channel, "[HT40+]"@);
        reveal_strlit("[HT40+]");
        lemma_ht_row(c, channel, "[HT40-]"@);
        reveal_strlit("[HT40-]");
    }
    let p2 = smps_flag((c >> 2) & 0x3);
    assert(p2.len() == {
        length_in(s, "[SMPS-STATIC]"@)
            + length_in(s, "[SMPS-DYNAMIC]"@)
    }) by {
        lemma_ht_numbers();
        reveal(length_in);
        lemma_ht_row(c, channel, "[SMPS-STATIC]"@);
        reveal_strlit("[SMPS-STATIC]");
        lemma_ht_row(c, channel, "[SMPS-DYNAMIC]"@);
        reveal_strlit("[SMPS-DYNAMIC]");
    }
    let p3 = tag(c & 0x0010 != 0, "[GF]"@);
    assert(p3.len() == length_in(s, "[GF]"@)) by {
        lemma_ht_numbers();
        reveal(length_in);
        lemma_ht_row(c, channel, "[GF]"@);
        reveal_strlit("[GF]");
    }
    let p4 = tag(c & 0x0020 != 0, "[SHORT-GI-20]"@);
    assert(p4.len() == length_in(s, "[SHORT-GI-20]"@)) by {
        lemma_ht_numbers();
        reveal(length_in);
        lemma_ht_row(c, channel, "[SHORT-GI-20]"@);
        reveal_strlit("[SHORT-GI-20]");
    }
    let p5 = tag(c & 0x0040 != 0, "[SHORT-GI-40]"@);
    assert(p5.len() == length_in(s, "[SHORT-GI-40]"@)) by {
        lemma_ht_numbers();
        reveal(length_in);
        lemma_ht_row(c, channel, "[SHORT-GI-40]"@);
        reveal_strlit("[SHORT-GI-40]");
    }
    let p6 = tag(c & 0x0080 != 0, "[TX-STBC]"@);
    assert(p6.len() == length_in(s, "[TX-STBC]"@)) by {
        lemma_ht_numbers();
        reveal(length_in);
        lemma_ht_row(c, channel, "[TX-STBC]"@);
        reveal_strlit("[TX-STBC]");
    }
    let p7 = ht_rx_stbc_flag((c >> 8) & 0x3);
    assert(p7.len() == {
        length_in(s, "[RX-STBC1]"@)
            + length_in(s, "[RX-STBC12]"@)
            + length_in(s, "[RX-STBC123]"@)
    }) by {
        lemma_ht_numbers();
        reveal(length_in);
        lemma_ht_row(c, channel, "[RX-STBC1]"@);
        reveal_strlit("[RX-STBC1]");
        lemma_ht_row(c, channel, "[RX-STBC12]"@);
        reveal_strlit("[RX-STBC12]");
        lemma_ht_row(c, channel, "[RX-STBC123]"@);
        reveal_strlit("[RX-STBC123]");
    }
    let p8 = tag(c & 0x0800 != 0, "[MAX-AMSDU-7935]"@);
    assert(p8.len() == length_in(s, "[MAX-AMSDU-7935]"@)) by {
        lemma_ht_numbers();
        reveal(length_in);
        lemma_ht_row(c, channel, "[MAX-AMSDU-7935]"@);
        reveal_strlit("[MAX-AMSDU-7935]");
    }
    let p9 = tag(c & 0x1000 == 0, "[DSSS_CCK-40]"@);
    assert(p9.len() == length_in(s, "[DSSS_CCK-40]"@)) by {
        lemma_ht_numbers();
        reveal(length_in);
        lemma_ht_row(c, channel, "[DSSS_CCK-40]"@);
        reveal_strlit("[DSSS_CCK-40]");
    }
    assert(s.len() == p0.len() + p1.len() + p2.len() + p3.len() + p4.len()
        + p5.len() + p6.len() + p7.len() + p8.len() + p9.len());
}

/// The length of what is said of the longest frame.
proof fn lemma_vht_lengths_0(c: u32)
    ensures
        mpdu_flag(c & 0x3).len() == length_in(vht_flags(c), "[MAX-MPDU-7991]"@)
            + length_in(vht_flags(c), "[MAX-MPDU-11454]"@),
{
    lemma_vht_numbers();
    reveal(length_in);
    lemma_vht_row(c, "[MAX-MPDU-7991]"@);
    reveal_strlit("[MAX-MPDU-7991]");
    lemma_vht_row(c, "[MAX-MPDU-11454]"@);
    reveal_strlit("[MAX-MPDU-11454]");
}

/// The length of what is said of coding, short guard intervals and sending in blocks.
proof fn lemma_vht_lengths_1(c: u32)
    ensures
        tag(c & 0x0010 != 0, "[RXLDPC]"@).len() == length_in(vht_flags(c), "[RXLDPC]"@),
        tag(c & 0x0020 != 0, "[SHORT-GI-80]"@).len() == length_in(vht_flags(c), "[SHORT-GI-80]"@),
        tag(c & 0x0040 != 0, "[SHORT-GI-160]"@).len() == length_in(vht_flags(c), "[SHORT-GI-160]"@),
        tag(c & 0x0080 != 0, "[TX-STBC-2BY1]"@).len() == length_in(vht_flags(c), "[TX-STBC-2BY1]"@),
{
    assert(tag(c & 0x0010 != 0, "[RXLDPC]"@).len() == length_in(vht_flags(c), "[RXLDPC]"@)) by {
        lemma_vht_numbers();
        reveal(length_in);
        lemma_vht_row(c, "[RXLDPC]"@);
        reveal_strlit("[RXLDPC]");
    }
    assert(tag(c & 0x0020 != 0, "[SHORT-GI-80]"@).len()
        == length_in(vht_flags(c), "[SHORT-GI-80]"@)) by {
        lemma_vht_numbers();
        reveal(length_in);
        lemma_vht_row(c, "[SHORT-GI-80]"@);
        reveal_strlit("[SHORT-GI-80]");
    }
    assert(tag(c & 0x0040 != 0, "[SHORT-GI-160]"@).len()
        == length_in(vht_flags(c), "[SHORT-GI-160]"@)) by {
        lemma_vht_numbers();
        reveal(length_in);
        lemma_vht_row(c, "[SHORT-GI-160]"@);
        reveal_strlit("[SHORT-GI-160]");
    }
    assert(tag(c & 0x0080 != 0, "[TX-STBC-2BY1]"@).len()
        == length_in(vht_flags(c), "[TX-STBC-2BY1]"@)) by {
        lemma_vht_numbers();
        reveal(length_in);
        lemma_vht_row(c, "[TX-STBC-2BY1]"@);
        reveal_strlit("[TX-STBC-2BY1]");
    }
}

/// The length of what is said of receiving in blocks.
proof fn lemma_vht_lengths_2(c: u32)
    ensures
        vht_rx_stbc_flag((c >> 8) & 0x7).len() == length_in(vht_flags(c), "[RX-STBC-1]"@)
            + length_in(vht_flags(c), "[RX-STBC-12]"@)
            + length_in(vht_flags(c), "[RX-STBC-123]"@)
            + length_in(vht_flags(c), "[RX-STBC-1234]"@),
{
    lemma_vht_numbers();
    reveal(length_in);
    lemma_vht_row(c, "[RX-STBC-1]"@);
    reveal_strlit("[RX-STBC-1]");
    lemma_vht_row(c, "[RX-STBC-12]"@);
    reveal_strlit("[RX-STBC-12]");
    lemma_vht_row(c, "[RX-STBC-123]"@);
    reveal_strlit("[RX-STBC-123]");
    lemma_vht_row(c, "[RX-STBC-1234]"@);
    reveal_strlit("[RX-STBC-1234]");
}

/// The length of what is said of beams to one station.
proof fn lemma_vht_lengths_3(c: u32)
    ensures
        tag(c & 0x0800 != 0, "[SU-BEAMFORMER]"@).len()
            == length_in(vht_flags(c), "[SU-BEAMFORMER]"@),
        tag(c & 0x1000 != 0, "[SU-BEAMFORMEE]"@).len()
            == length_in(vht_flags(c), "[SU-BEAMFORMEE]"@),
{
    assert(tag(c & 0x0800 != 0, "[SU-BEAMFORMER]"@).len()
        == length_in(vht_flags(c), "[SU-BEAMFORMER]"@)) by {
        lemma_vht_numbers();
        reveal(length_in);
        lemma_vht_row(c, "[SU-BEAMFORMER]"@);
        reveal_strlit("[SU-BEAMFORMER]");
    }
    assert(tag(c & 0x1000 != 0, "[SU-BEAMFORMEE]"@).len()
        == length_in(vht_flags(c), "[SU-BEAMFORMEE]"@)) by {
        lemma_vht_numbers();
        reveal(length_in);
        lemma_vht_row(c, "[SU-BEAMFORMEE]"@);
        reveal_strlit("[SU-BEAMFORMEE]");
    }
}

/// The length of what is said of sounding antennas.
proof fn lemma_vht_lengths_4(c: u32)
    ensures
        antenna_flag((c >> 13) & 0x7).len() == length_in(vht_flags(c), "[BF-ANTENNA-2]"@)
            + length_in(vht_flags(c), "[BF-ANTENNA-3]"@)
            + length_in(vht_flags(c), "[BF-ANTENNA-4]"@),
{
    lemma_vht_numbers();
    reveal(length_in);
    lemma_vht_row(c, "[BF-ANTENNA-2]"@);
    reveal_strlit("[BF-ANTENNA-2]");
    lemma_vht_row(c, "[BF-ANTENNA-3]"@);
    reveal_strlit("[BF-ANTENNA-3]");
    lemma_vht_row(c, "[BF-ANTENNA-4]"@);
    reveal_strlit("[BF-ANTENNA-4]");
    reveal_strlit("[BF-ANTENNA-");
    reveal_strlit("]");
}

/// The length of what is said of beams to many stations and saving power.
proof fn lemma_vht_lengths_5(c: u32)
    ensures
        tag(c & 0x0008_0000 != 0, "[MU-BEAMFORMER]"@).len()
            == length_in(vht_flags(c), "[MU-BEAMFORMER]"@),
        tag(c & 0x0010_0000 != 0, "[MU-BEAMFORMEE]"@).len()
            == length_in(vht_flags(c), "[MU-BEAMFORMEE]"@),
        tag(c & 0x0020_0000 != 0, "[VHT-TXOP-PS]"@).len()
            == length_in(vht_flags(c), "[VHT-TXOP-PS]"@),
{
    assert(tag(c & 0x0008_0000 != 0, "[MU-BEAMFORMER]"@).len()
        == length_in(vht_flags(c), "[MU-BEAMFORMER]"@)) by {
        lemma_vht_numbers();
        reveal(length_in);
        lemma_vht_row(c, "[MU-BEAMFORMER]"@);
        reveal_strlit("[MU-BEAMFORMER]");
    }
    assert(tag(c & 0x0010_0000 != 0, "[MU-BEAMFORMEE]"@).len()
        == length_in(vht_flags(c), "[MU-BEAMFORMEE]"@)) by {
        lemma_vht_numbers();
        reveal(length_in);
        lemma_vht_row(c, "[MU-BEAMFORMEE]"@);
        reveal_strlit("[MU-BEAMFORMEE]");
    }
    assert(tag(c & 0x0020_0000 != 0, "[VHT-TXOP-PS]"@).len()
        == length_in(vht_flags(c), "[VHT-TXOP-PS]"@)) by {
        lemma_vht_numbers();
        reveal(length_in);
        lemma_vht_row(c, "[VHT-TXOP-PS]"@);
        reveal_strlit("[VHT-TXOP-PS]");
    }
}

/// The length of what is said of the control field and the antenna patterns.
proof fn lemma_vht_lengths_6(c: u32)
    ensures
        tag(c & 0x0040_0000 != 0, "[HTC-VHT]"@).len() == length_in(vht_flags(c), "[HTC-VHT]"@),
        tag(c & 0x1000_0000 != 0, "[RX-ANTENNA-PATTERN]"@).len()
            == length_in(vht_flags(c), "[RX-ANTENNA-PATTERN]"@),
        tag(c & 0x2000_0000 != 0, "[TX-ANTENNA-PATTERN]"@).len()
            == length_in(vht_flags(c), "[TX-ANTENNA-PATTERN]"@),
{
    assert(tag(c & 0x0040_0000 != 0, "[HTC-VHT]"@).len()
        == length_in(vht_flags(c), "[HTC-VHT]"@)) by {
        lemma_vht_numbers();
        reveal(length_in);
        lemma_vht_row(c, "[HTC-VHT]"@);
        reveal_strlit("[HTC-VHT]");
    }
    assert(tag(c & 0x1000_0000 != 0, "[RX-ANTENNA-PATTERN]"@).len()
        == length_in(vht_flags(c), "[RX-ANTENNA-PATTERN]"@)) by {
        lemma_vht_numbers();
        reveal(length_in);
        lemma_vht_row(c, "[RX-ANTENNA-PATTERN]"@);
        reveal_strlit("[RX-ANTENNA-PATTERN]");
    }
    assert(tag(c & 0x2000_0000 != 0, "[TX-ANTENNA-PATTERN]"@).len()
        == length_in(vht_flags(c), "[TX-ANTENNA-PATTERN]"@)) by {
        lemma_vht_numbers();
        reveal(length_in);
        lemma_vht_row(c, "[TX-ANTENNA-PATTERN]"@);
        reveal_strlit("[TX-ANTENNA-PATTERN]");
    }
}

/// Nothing stands between, before or behind the flags of 802.11ac, and none stands
/// there twice: the text is as long as the flags in it together.
pub proof fn law_vht_text_is_flags_alone(c: u32)
    ensures
        vht_flags(c).len() == length_in(vht_flags(c), "[MAX-MPDU-7991]"@)
            + length_in(vht_flags(c), "[MAX-MPDU-11454]"@)
            + length_in(vht_flags(c), "[RXLDPC]"@)
            + length_in(vht_flags(c), "[SHORT-GI-80]"@)
            + length_in(vht_flags(c), "[SHORT-GI-160]"@)
            + length_in(vht_flags(c), "[TX-STBC-2BY1]"@)
            + length_in(vht_flags(c), "[RX-STBC-1]"@)
            + length_in(vht_flags(c), "[RX-STBC-12]"@)
            + length_in(vht_flags(c), "[RX-STBC-123]"@)
            + length_in(vht_flags(c), "[RX-STBC-1234]"@)
            + length_in(vht_flags(c), "[SU-BEAMFORMER]"@)
            + length_in(vht_flags(c), "[SU-BEAMFORMEE]"@)
            + length_in(vht_flags(c), "[BF-ANTENNA-2]"@)
            + length_in(vht_flags(c), "[BF-ANTENNA-3]"@)
            + length_in(vht_flags(c), "[BF-ANTENNA-4]"@)
            + length_in(vht_flags(c), "[MU-BEAMFORMER]"@)
            + length_in(vht_flags(c), "[MU-BEAMFORMEE]"@)
            + length_in(vht_flags(c), "[VHT-TXOP-PS]"@)
            + length_in(vht_flags(c), "[HTC-VHT]"@)
            + length_in(vht_flags(c), "[RX-ANTENNA-PATTERN]"@)
            + length_in(vht_flags(c), "[TX-ANTENNA-PATTERN]"@),
{
    let s = vht_flags(c);
    let p0 = mpdu_flag(c & 0x3);
    let p1 = tag(c & 0x0010 != 0, "[RXLDPC]"@);
    let p2 = tag(c & 0x0020 != 0, "[SHORT-GI-80]"@);
    let p3 = tag(c & 0x0040 != 0, "[SHORT-GI-160]"@);
    let p4 = tag(c & 0x0080 != 0, "[TX-STBC-2BY1]"@);
    let p5 = vht_rx_stbc_flag((c >> 8) & 0x7);
    let p6 = tag(c & 0x0800 != 0, "[SU-BEAMFORMER]"@);
    let p7 = tag(c & 0x1000 != 0, "[SU-BEAMFORMEE]"@);
    let p8 = antenna_flag((c >> 13) & 0x7);
    let p9 = tag(c & 0x0008_0000 != 0, "[MU-BEAMFORMER]"@);
    let p10 = tag(c & 0x0010_0000 != 0, "[MU-BEAMFORMEE]"@);
    let p11 = tag(c & 0x0020_0000 != 0, "[VHT-TXOP-PS]"@);
    let p12 = tag(c & 0x0040_0000 != 0, "[HTC-VHT]"@);
    let p13 = tag(c & 0x1000_0000 != 0, "[RX-ANTENNA-PATTERN]"@);
    let p14 = tag(c & 0x2000_0000 != 0, "[TX-ANTENNA-PATTERN]"@);
    lemma_vht_lengths_0(c);
    lemma_vht_lengths_1(c);
    lemma_vht_lengths_2(c);
    lemma_vht_lengths_3(c);
    lemma_vht_lengths_4(c);
    lemma_vht_lengths_5(c);
    lemma_vht_lengths_6(c);
    assert(s.len() == p0.len() + p1.len() + p2.len() + p3.len() + p4.len() + p5.len() + p6.len()
        + p7.len() + p8.len() + p9.len() + p10.len() + p11.len()
        + p12.len() + p13.len() + p14.len());
}

/// A listing is read line by line, from nothing known.
pub proof fn law_listing_line_by_line(lines: Seq<Seq<char>>, line: Seq<char>)
    ensures
        listing_of(lines.push(line)) == listing_after(listing_of(lines), line),
        listing_of(Seq::empty()) == (Listing {
            in_band2: false,
            caps: PhyCaps {
                ht_caps: 0,
                vht_caps: 0,
                has_vht: false,
                max_vht_width: VhtWidth::W80,
            },
        }),
{
    assert(lines.push(line).drop_last() =~= lines);
}

/// What a listing says is what its lines say.
pub proof fn law_listing_of_lines(lines: Seq<Seq<char>>)
    requires
        forall|i: int| 0 <= i < lines.len() ==> !(#[trigger] lines[i]).contains('\n'),
        forall|i: int|
            0 <= i < lines.len() && (#[trigger] lines[i]).len() > 0 ==> lines[i].last() != '\r',
    ensures
        listed_caps(unlines(lines)) == listing_of(lines).caps,
{
    law_lines_undo_unlines(lines);
}

/// All channels of a wide channel have the same middle. A wide channel of 80 MHz
/// starts at 36, 52, 100, 116, 132 or 149 and has its middle 6 above; one of
/// 160 MHz starts at 36 or 100 and has it 14 above.
pub proof fn law_wide_channels_have_one_middle(start: u8, channel: u8)
    ensures
        (start == 36 || start == 52 || start == 100 || start == 116 || start == 132 || start == 149)
            && start <= channel <= start + 12 ==> center_channel(channel, VhtWidth::W80)
            == start + 6,
        (start == 36 || start == 100) && start <= channel <= start + 28 ==> center_channel(
            channel,
            VhtWidth::W160,
        ) == start + 14,
        center_channel(channel, VhtWidth::W80P80) == center_channel(channel, VhtWidth::W160),
{
}

/// A channel that is part of no wide channel is taken for the first of one, as
/// far as there are numbers.
pub proof fn law_other_channels_start_their_own(channel: u8)
    ensures
        !(36 <= channel <= 48 || 52 <= channel <= 64 || 100 <= channel <= 112 || 116 <= channel
            <= 128 || 132 <= channel <= 144 || 149 <= channel <= 161) ==> {
            let middle = center_channel(channel, VhtWidth::W80);
            middle - channel == 6 || (middle == 255 && channel > 249)
        },
        !(36 <= channel <= 64 || 100 <= channel <= 128) ==> {
            let middle = center_channel(channel, VhtWidth::W160);
            middle - channel == 14 || (middle == 255 && channel > 241)
        },
{
}

/// In the 5 GHz band, the two halves of a channel of 40 MHz name each other.
pub proof fn law_bonded_channels_agree(channel: u8)
    requires
        bonds_in_5ghz(channel),
    ensures
        channel % 8 == 4 ==> bonding_flags(channel) == "[HT40+]"@ && bonding_flags(
            (channel + 4) as u8,
        ) == "[HT40-]"@,
        channel % 8 == 0 ==> bonding_flags(channel) == "[HT40-]"@ && bonding_flags(
            (channel - 4) as u8,
        ) == "[HT40+]"@,
{
}

/// Channels are bonded in pairs four apart from 36 to 64 and from 100 to 144, the
/// lower with the one above. In the 2.4 GHz band the lower half bonds upwards and
/// the upper half downwards, and no other channel bonds.
pub proof fn law_channels_bond_in_pairs(lower: u8, channel: u8)
    ensures
        (36 <= lower <= 60 || 100 <= lower <= 140) && (lower - 36) % 8 == 0 ==> bonding_flags(lower)
            == "[HT40+]"@ && bonding_flags((lower + 4) as u8) == "[HT40-]"@,
        1 <= channel <= 7 ==> bonding_flags(channel) == "[HT40+]"@,
        8 <= channel <= 13 ==> bonding_flags(channel) == "[HT40-]"@,
        channel == 0 || 14 <= channel < 36 || 64 < channel < 100 || channel > 144 || (channel > 13
            && channel % 4 != 0) ==> bonding_flags(channel).len() == 0,
{
}

/// The widest channel is told by bits 2 and 3 of the 802.11ac capabilities: 1 is
/// 160 MHz, 2 is twice 80 MHz, and otherwise it is 80 MHz.
pub proof fn law_width_is_told_by_two_bits(vht_caps: u32)
    ensures
        vht_caps / 4 % 4 == 1 ==> width_of(vht_caps) == VhtWidth::W160,
        vht_caps / 4 % 4 == 2 ==> width_of(vht_caps) == VhtWidth::W80P80,
        vht_caps / 4 % 4 == 0 || vht_caps / 4 % 4 == 3 ==> width_of(vht_caps) == VhtWidth::W80,
{
    assert((vht_caps >> 2) & 0x3 == vht_caps / 4 % 4) by (bit_vector);
}

/// How the marks of a listing start, by which they are told apart.
proof fn lemma_marks(t: Seq<char>)
    ensures
        has_prefix(t, "Capabilities: 0x"@) ==> t[0] == 'C',
        has_prefix(t, "VHT Capabilities (0x"@) ==> t[0] == 'V',
        has_prefix(t, "Band 1:"@) ==> t[0] == 'B' && t[5] == '1',
        has_prefix(t, "Band 2:"@) ==> t[0] == 'B' && t[5] == '2',
        has_prefix(t, "Band 3:"@) ==> t[0] == 'B' && t[5] == '3',
        has_prefix(t, "Band 4:"@) ==> t[0] == 'B' && t[5] == '4',
{
    reveal_strlit("Capabilities: 0x");
    reveal_strlit("VHT Capabilities (0x");
    reveal_strlit("Band 1:");
    reveal_strlit("Band 2:");
    reveal_strlit("Band 3:");
    reveal_strlit("Band 4:");
    if t.len() >= 16 {
        assert(t.subrange(0, 16)[0] == t[0]);
    }
    if t.len() >= 20 {
        assert(t.subrange(0, 20)[0] == t[0]);
    }
    if t.len() >= 7 {
        assert(t.subrange(0, 7)[0] == t[0]);
        assert(t.subrange(0, 7)[5] == t[5]);
    }
}

/// Digits hold no white space and no bracket.
proof fn lemma_numeral_is_plain(n: nat, upper: bool)
    ensures
        trimmed(numeral(n, 16, upper)) == numeral(n, 16, upper),
        !numeral(n, 16, upper).contains(')'),
{
    let s = numeral(n, 16, upper);
    law_numeral_reads_back(n, 16, upper);
    assert(digit_value(s[0], 16) is Some);
    assert(digit_value(s[s.len() - 1], 16) is Some);
    let none = Seq::<char>::empty();
    law_trimming(none, s, none);
    assert(none + s + none =~= s);
    if s.contains(')') {
        let i = choose|i: int| 0 <= i < s.len() && s[i] == ')';
        assert(digit_value(s[i], 16) is Some);
    }
}

/// A heading of a band says whether what follows is about the second one, and
/// nothing about capabilities.
pub proof fn law_band_heading(l: Listing, line: Seq<char>, rest: Seq<char>)
    ensures
        trimmed(line) == "Band 2:"@ + rest ==> listing_after(l, line) == (Listing {
            in_band2: true,
            caps: l.caps,
        }),
        trimmed(line) == "Band 1:"@ + rest || trimmed(line) == "Band 3:"@ + rest || trimmed(line)
            == "Band 4:"@ + rest ==> listing_after(l, line) == (Listing {
            in_band2: false,
            caps: l.caps,
        }),
{
    let t = trimmed(line);
    law_prefix(t, "Band 1:"@, rest);
    law_prefix(t, "Band 2:"@, rest);
    law_prefix(t, "Band 3:"@, rest);
    law_prefix(t, "Band 4:"@, rest);
    lemma_marks(t);
}

/// In the part on the second band, the line on 802.11n capabilities gives those
/// in hexadecimal, and changes nothing else.
pub proof fn law_ht_line_is_read(l: Listing, line: Seq<char>, ht_caps: u16, upper: bool)
    requires
        l.in_band2,
        trimmed(line) == "Capabilities: 0x"@ + numeral(ht_caps as nat, 16, upper),
    ensures
        listing_after(l, line) == (Listing {
            in_band2: true,
            caps: PhyCaps { ht_caps, ..l.caps },
        }),
{
    let t = trimmed(line);
    let mark = "Capabilities: 0x"@;
    let hex = numeral(ht_caps as nat, 16, upper);
    law_prefix(t, mark, hex);
    lemma_marks(t);
    lemma_numeral_is_plain(ht_caps as nat, upper);
    law_numeral_reads_back(ht_caps as nat, 16, upper);
    assert(t.skip(mark.len() as int) =~= hex);
    assert(unsigned_value(hex, 16, 0xffff) == Some(ht_caps as nat));
}

/// In the part on the second band, the line on 802.11ac capabilities gives
/// those, up to the bracket, that the radio has 802.11ac, and its widest
/// channel; it changes nothing else.
pub proof fn law_vht_line_is_read(
    l: Listing,
    line: Seq<char>,
    vht_caps: u32,
    upper: bool,
    rest: Seq<char>,
)
    requires
        l.in_band2,
        trimmed(line) == "VHT Capabilities (0x"@ + (numeral(vht_caps as nat, 16, upper) + seq![')']
            + rest),
    ensures
        listing_after(l, line) == (Listing {
            in_band2: true,
            caps: PhyCaps {
                ht_caps: l.caps.ht_caps,
                vht_caps,
                has_vht: true,
                max_vht_width: width_of(vht_caps),
            },
        }),
{
    let t = trimmed(line);
    let mark = "VHT Capabilities (0x"@;
    let hex = numeral(vht_caps as nat, 16, upper);
    let tail = hex + seq![')'] + rest;
    law_prefix(t, mark, tail);
    lemma_marks(t);
    lemma_numeral_is_plain(vht_caps as nat, upper);
    law_numeral_reads_back(vht_caps as nat, 16, upper);
    assert(t.skip(mark.len() as int) =~= tail);
    lemma_split_first(hex, rest, ')');
    assert(unsigned_value(hex, 16, 0xffff_ffff) == Some(vht_caps as nat));
}

/// The first piece of a text is what stands before the first separator.
proof fn lemma_split_first(a: Seq<char>, b: Seq<char>, sep: char)
    requires
        !a.contains(sep),
    ensures
        split_on(a + seq![sep] + b, sep)[0] == a,
        split_on(a + seq![sep] + b, sep).len() >= 2,
    decreases b.len(),
{
    let s = a + seq![sep] + b;
    if b.len() == 0 {
        assert(s.drop_last() =~= a);
        lemma_split_single(a, sep);
    } else {
        lemma_split_first(a, b.drop_last(), sep);
        assert(s.drop_last() =~= a + seq![sep] + b.drop_last());
    }
}

/// Outside the part on the second band nothing counts, and inside it only lines
/// on capabilities.
pub proof fn law_other_lines_say_nothing(l: Listing, line: Seq<char>)
    requires
        !has_prefix(trimmed(line), "Band 2:"@),
        !l.in_band2 || (!has_prefix(trimmed(line), "Capabilities: 0x"@) && !has_prefix(
            trimmed(line),
            "VHT Capabilities (0x"@,
        )),
    ensures
        listing_after(l, line).caps == l.caps,
        !l.in_band2 ==> !listing_after(l, line).in_band2,
{
}

/// A radio is named by the part behind the last separator of the path to it,
/// and a separator more at the end does not matter.
pub proof fn law_radio_is_the_last_part(dir: Seq<char>, name: Seq<char>)
    requires
        !name.contains('/'),
        name.len() > 0,
        name != "."@,
        name != ".."@,
    ensures
        last_part(split_on(dir.push('/') + name, '/')) == Some(name),
        last_part(split_on((dir.push('/') + name).push('/'), '/')) == Some(name),
        last_part(split_on(name, '/')) == Some(name),
{
    let path = dir.push('/') + name;
    let none = Seq::<char>::empty();
    lemma_split_last(dir, name, '/');
    lemma_split_last(path, none, '/');
    assert(path.push('/') + none =~= path.push('/'));
    lemma_split_single(name, '/');
    let parts = split_on(path, '/');
    assert(parts.push(none).drop_last() =~= parts);
}

/// A listing without a second band gives no capabilities.
pub proof fn law_only_band_2_counts(lines: Seq<Seq<char>>)
    requires
        forall|i: int|
            0 <= i < lines.len() ==> !has_prefix(trimmed(#[trigger] lines[i]), "Band 2:"@),
    ensures
        listing_of(lines) == (Listing { in_band2: false, caps: no_caps() }),
    decreases lines.len(),
{
    if lines.len() > 0 {
        let init = lines.drop_last();
        assert forall|i: int| 0 <= i < init.len() implies !has_prefix(
            trimmed(#[trigger] init[i]),
            "Band 2:"@,
        ) by {
            assert(init[i] == lines[i]);
        }
        law_only_band_2_counts(init);
    }
}

/// The widest channel is the one that the 802.11ac capabilities speak of, and
/// without any it is 80 MHz.
pub proof fn law_width_follows_capabilities(lines: Seq<Seq<char>>)
    ensures
        ({
            let caps = listing_of(lines).caps;
            &&& caps.has_vht ==> caps.max_vht_width == width_of(caps.vht_caps)
            &&& !caps.has_vht ==> caps.vht_caps == 0 && caps.max_vht_width == VhtWidth::W80
        }),
    decreases lines.len(),
{
    if lines.len() > 0 {
        law_width_follows_capabilities(lines.drop_last());
    }
}

// ---------------------------------------------------------------------------
// Operations
// ---------------------------------------------------------------------------

impl Default for VhtWidth {
    fn default() -> (res: Self)
        ensures
            res == VhtWidth::W80,
    {
        VhtWidth::W80
    }
}

impl Default for PhyCaps {
    fn default() -> (res: Self)
        ensures
            res == no_caps(),
    {
        PhyCaps { ht_caps: 0, vht_caps: 0, has_vht: false, max_vht_width: VhtWidth::W80 }
    }
}

/// Adds `flag` to the end of `out` where `present`.
fn push_tag(out: &mut String, present: bool, flag: &str)
    ensures
        final(out)@ == old(out)@ + tag(present, flag@),
{
    if present {
        out.append(flag);
    } else {
        assert(out@ + Seq::empty() =~= out@);
    }
}

/// The empty text.
fn no_flag() -> (res: &'static str)
    ensures
        res@ == Seq::<char>::empty(),
{
    proof {
        reveal_strlit("");
    }
    assert(""@ =~= Seq::<char>::empty());
    ""
}

/// Where the second half of a channel of 40 MHz is.
pub fn ht_40mhz_flags(channel: u8) -> (res: &'static str)
    ensures
        res@ == bonding_flags(channel),
{
    let bonds: bool = channel % 4 == 0 && ((36 <= channel && channel <= 64) || (100 <= channel
        && channel <= 144));
    if (1 <= channel && channel <= 7) || (bonds && channel % 8 == 4) {
        "[HT40+]"
    } else if (8 <= channel && channel <= 13) || (bonds && channel % 8 == 0) {
        "[HT40-]"
    } else {
        no_flag()
    }
}

/// The channel in the middle of the wide channel that `channel` is part of.
pub fn vht_center_freq_idx(channel: u8, width: VhtWidth) -> (res: u8)
    ensures
        res == center_channel(channel, width),
{
    match width {
        VhtWidth::W80 => match channel {
            36..=48 => 42,
            52..=64 => 58,
            100..=112 => 106,
            116..=128 => 122,
            132..=144 => 138,
            149..=161 => 155,
            _ => if channel <= 249 {
                channel + 6
            } else {
                255
            },
        },
        VhtWidth::W160 | VhtWidth::W80P80 => match channel {
            36..=64 => 50,
            100..=128 => 114,
            _ => if channel <= 241 {
                channel + 14
            } else {
                255
            },
        },
    }
}

fn smps_text(mode: u16) -> (res: &'static str)
    ensures
        res@ == smps_flag(mode),
{
    match mode {
        0 => "[SMPS-STATIC]",
        1 => "[SMPS-DYNAMIC]",
        _ => no_flag(),
    }
}

fn ht_rx_stbc_text(streams: u16) -> (res: &'static str)
    ensures
        res@ == ht_rx_stbc_flag(streams),
{
    match streams {
        1 => "[RX-STBC1]",
        2 => "[RX-STBC12]",
        3 => "[RX-STBC123]",
        _ => no_flag(),
    }
}

fn mpdu_text(length: u32) -> (res: &'static str)
    ensures
        res@ == mpdu_flag(length),
{
    match length {
        1 => "[MAX-MPDU-7991]",
        2 => "[MAX-MPDU-11454]",
        _ => no_flag(),
    }
}

fn vht_rx_stbc_text(streams: u32) -> (res: &'static str)
    ensures
        res@ == vht_rx_stbc_flag(streams),
{
    match streams {
        1 => "[RX-STBC-1]",
        2 => "[RX-STBC-12]",
        3 => "[RX-STBC-123]",
        4 => "[RX-STBC-1234]",
        _ => no_flag(),
    }
}

fn antenna_text(field: u32) -> (res: &'static str)
    ensures
        res@ == antenna_flag(field),
{
    proof {
        reveal_strlit("[BF-ANTENNA-");
        reveal_strlit("]");
        reveal_strlit("[BF-ANTENNA-2]");
        reveal_strlit("[BF-ANTENNA-3]");
        reveal_strlit("[BF-ANTENNA-4]");
        reveal(is_flag);
    }
    let res: &'static str = match field {
        1 => "[BF-ANTENNA-2]",
        2 => "[BF-ANTENNA-3]",
        3 => "[BF-ANTENNA-4]",
        _ => no_flag(),
    };
    assert(res@ =~= antenna_flag(field));
    res
}

impl PhyCaps {
    /// The capabilities that the output of `iw` gives.
    pub fn query(stdout: &[u8]) -> (res: Self)
        ensures
            res == listed_caps(lossy_text(stdout@)),
            vstd::utf8::valid_utf8(stdout@) ==> res == listed_caps(
                vstd::utf8::decode_utf8(stdout@),
            ),
    {
        let text: String = from_utf8_lossy(stdout);
        parse_iw_output(text.as_str())
    }

    /// The 802.11n capabilities as flags, for a channel.
    pub fn ht_capab_string(&self, channel: u8) -> (res: String)
        ensures
            res@ == ht_flags(self.ht_caps, channel),
    {
        let c: u16 = self.ht_caps;
        let mut s: String = String::new();
        push_tag(&mut s, c & 0x0001 != 0, "[LDPC]");
        assert(s@ =~= tag(c & 0x0001 != 0, "[LDPC]"@));
        push_tag(&mut s, c & 0x0002 != 0, ht_40mhz_flags(channel));
        s.append(smps_text((c >> 2) & 0x3));
        push_tag(&mut s, c & 0x0010 != 0, "[GF]");
        push_tag(&mut s, c & 0x0020 != 0, "[SHORT-GI-20]");
        push_tag(&mut s, c & 0x0040 != 0, "[SHORT-GI-40]");
        push_tag(&mut s, c & 0x0080 != 0, "[TX-STBC]");
        s.append(ht_rx_stbc_text((c >> 8) & 0x3));
        push_tag(&mut s, c & 0x0800 != 0, "[MAX-AMSDU-7935]");
        push_tag(&mut s, c & 0x1000 == 0, "[DSSS_CCK-40]");
        s
    }

    /// The 802.11ac capabilities as flags.
    pub fn vht_capab_string(&self) -> (res: String)
        ensures
            res@ == vht_flags(self.vht_caps),
    {
        let c: u32 = self.vht_caps;
        let mut s: String = String::new();
        s.append(mpdu_text(c & 0x3));
        assert(s@ =~= mpdu_flag(c & 0x3));
        push_tag(&mut s, c & 0x0010 != 0, "[RXLDPC]");
        push_tag(&mut s, c & 0x0020 != 0, "[SHORT-GI-80]");
        push_tag(&mut s, c & 0x0040 != 0, "[SHORT-GI-160]");
        push_tag(&mut s, c & 0x0080 != 0, "[TX-STBC-2BY1]");
        s.append(vht_rx_stbc_text((c >> 8) & 0x7));
        push_tag(&mut s, c & 0x0800 != 0, "[SU-BEAMFORMER]");
        push_tag(&mut s, c & 0x1000 != 0, "[SU-BEAMFORMEE]");
        s.append(antenna_text((c >> 13) & 0x7));
        push_tag(&mut s, c & 0x0008_0000 != 0, "[MU-BEAMFORMER]");
        push_tag(&mut s, c & 0x0010_0000 != 0, "[MU-BEAMFORMEE]");
        push_tag(&mut s, c & 0x0020_0000 != 0, "[VHT-TXOP-PS]");
        push_tag(&mut s, c & 0x0040_0000 != 0, "[HTC-VHT]");
        push_tag(&mut s, c & 0x1000_0000 != 0, "[RX-ANTENNA-PATTERN]");
        push_tag(&mut s, c & 0x2000_0000 != 0, "[TX-ANTENNA-PATTERN]");
        s
    }

    /// The number that `hostapd` knows the widest channel by.
    pub fn vht_oper_chwidth(&self) -> (res: u8)
        ensures
            res == width_number(self.max_vht_width),
    {
        match self.max_vht_width {
            VhtWidth::W80 => 1,
            VhtWidth::W160 => 2,
            VhtWidth::W80P80 => 3,
        }
    }
}

/// Whether what follows the line `t` is about the second band.
fn next_in_band2(in_band2: bool, t: &str) -> (res: bool)
    ensures
        res == band2_after(in_band2, t@),
{
    if starts_with(t, "Band 2:") {
        true
    } else if starts_with(t, "Band 1:") || starts_with(t, "Band 3:") || starts_with(t, "Band 4:") {
        false
    } else {
        in_band2
    }
}

/// The 802.11n capabilities that the line `t` gives.
fn read_ht_line(t: &str) -> (res: Option<u16>)
    ensures
        match ht_line(t@) {
            Some(v) => res == Some(v as u16),
            None => res is None,
        },
{
    match strip_prefix(t, "Capabilities: 0x") {
        Some(rest) => {
            let hex: String = trim(rest.as_str());
            match parse_unsigned(hex.as_str(), 16, 0xffff) {
                Some(v) => Some(v as u16),
                None => None,
            }
        },
        None => None,
    }
}

/// The 802.11ac capabilities that the line `t` gives.
fn read_vht_line(t: &str) -> (res: Option<u32>)
    ensures
        match vht_line(t@) {
            Some(v) => res == Some(v as u32),
            None => res is None,
        },
{
    match strip_prefix(t, "VHT Capabilities (0x") {
        Some(rest) => {
            let parts: Vec<String> = split(rest.as_str(), ')');
            proof {
                crate::text::lemma_split_pieces(rest@, ')');
                assert(texts(parts@)[0] == parts@[0]@);
            }
            let hex: String = trim(parts[0].as_str());
            parse_unsigned(hex.as_str(), 16, 0xffff_ffff)
        },
        None => None,
    }
}

/// The widest channel that 802.11ac capabilities speak of.
fn read_width(vht_caps: u32) -> (res: VhtWidth)
    ensures
        res == width_of(vht_caps),
{
    match (vht_caps >> 2) & 0x3 {
        1 => VhtWidth::W160,
        2 => VhtWidth::W80P80,
        _ => VhtWidth::W80,
    }
}

/// The capabilities that a listing of `iw` gives.
pub fn parse_iw_output(text: &str) -> (res: PhyCaps)
    ensures
        res == listed_caps(text@),
{
    let all: Vec<String> = lines(text);
    let n: usize = all.len();
    let ghost rows = lines_of(text@);
    let mut caps: PhyCaps = PhyCaps::default();
    let mut in_band2: bool = false;
    let mut i: usize = 0;
    assert(rows.take(0).len() == 0);
    while i < n
        invariant
            i <= n,
            n == all@.len(),
            rows == texts(all@),
            listing_of(rows.take(i as int)) == (Listing { in_band2, caps }),
        decreases n - i,
    {
        assert(rows.take(i + 1).drop_last() =~= rows.take(i as int));
        assert(rows.take(i + 1).last() == all@[i as int]@);
        let line: String = trim(all[i].as_str());
        in_band2 = next_in_band2(in_band2, line.as_str());
        if in_band2 {
            if let Some(v) = read_ht_line(line.as_str()) {
                caps.ht_caps = v;
            }
            if let Some(v) = read_vht_line(line.as_str()) {
                caps.vht_caps = v;
                caps.has_vht = true;
                caps.max_vht_width = read_width(v);
            }
        }
        i = i + 1;
    }
    assert(rows.take(n as int) =~= rows);
    caps
}

/// The name of the radio that the link of an interface leads to: the last part
/// of the path.
pub fn phy_name(target: &str) -> (res: Option<String>)
    ensures
        match last_part(split_on(target@, '/')) {
            Some(name) => res matches Some(s) && s@ == name,
            None => res is None,
        },
{
    let parts: Vec<String> = split(target, '/');
    let ghost all = split_on(target@, '/');
    let mut n: usize = parts.len();
    assert(all.take(n as int) =~= all);
    while n > 0
        invariant
            n <= parts@.len(),
            all == texts(parts@),
            all == split_on(target@, '/'),
            last_part(all) == last_part(all.take(n as int)),
        decreases n,
    {
        let part: &str = parts[n - 1].as_str();
        assert(all.take(n as int).last() == part@);
        assert(all.take(n as int).drop_last() =~= all.take(n - 1));
        if !part.is_empty() && !str_eq(part, ".") {
            if str_eq(part, "..") {
                return None;
            }
            return Some(part.to_owned());
        }
        n = n - 1;
    }
    None
}

} // verus!
