//! The guest's volume, applied to its samples.

use vstd::prelude::*;

use super::format::bytes_per_sample;
use super::format::sample_bytes;
use super::format::PCMInfo;

verus! {

/// How loud the guest wants its channels: the last level also counts for the channels beyond it.
#[derive(Debug)]
pub struct Volume {
    pub mute: bool,
    pub volume: Vec<u8>,
}

/// The level of a channel. Full volume is 255.
pub open spec fn level_for(levels: Seq<u8>, channel: int) -> u8 {
    if channel < levels.len() {
        levels[channel]
    } else if levels.len() > 0 {
        levels.last()
    } else {
        255
    }
}

/// How many values a number of bytes can take.
pub open spec fn range(bytes: nat) -> nat
    decreases bytes,
{
    if bytes == 0 {
        1
    } else {
        256 * range((bytes - 1) as nat)
    }
}

/// The number that bytes stand for, the lowest first.
pub open spec fn number(bytes: Seq<u8>) -> nat
    decreases bytes.len(),
{
    if bytes.len() == 0 {
        0
    } else {
        bytes[0] as nat + 256 * number(bytes.drop_first())
    }
}

/// The bytes of a sample, the lowest first.
pub open spec fn ranked(sample: Seq<u8>, be: bool) -> Seq<u8> {
    if be {
        sample.reverse()
    } else {
        sample
    }
}

/// How far a sample is from silence.
pub open spec fn deflection(info: PCMInfo, sample: Seq<u8>) -> int {
    let raw = number(ranked(sample, info.be));
    let full = range(sample.len());
    if !info.is_signed {
        raw - full / 2
    } else if raw < full / 2 {
        raw as int
    } else {
        raw - full
    }
}

/// A deflection at a level: the integer closest to its product with `level / 255`.
pub open spec fn scaled(deflection: int, level: u8) -> int {
    (2 * (deflection * level) + 255) / 510
}

/// The samples are whole numbers of a width that can be scaled.
pub open spec fn scales(info: PCMInfo, width: int) -> bool {
    &&& !info.is_float
    &&& (width == 1 && info.bits == 8) || (width == 2 && info.bits == 16) || (width == 4
        && info.bits == 32)
}

/// A silent sample. Unsigned samples have their silence in the middle of their range.
pub open spec fn silence(info: PCMInfo, width: nat) -> Seq<u8> {
    let top = if info.be {
        0
    } else {
        width - 1
    };
    Seq::new(
        width,
        |i: int|
            if !info.is_float && !info.is_signed && width <= 4 && i == top {
                0x80u8
            } else {
                0u8
            },
    )
}

/// The samples are floating-point numbers of a width that can be scaled.
pub open spec fn scales_as_float(info: PCMInfo, width: int) -> bool {
    info.is_float && ((width == 4 && info.bits == 32) || (width == 8 && info.bits == 64))
}

/// What becomes of a sample, unless it is a floating-point number that has to be scaled. Samples of
/// other widths are left as they are unless they are muted.
pub open spec fn plays_as(
    info: PCMInfo,
    mute: bool,
    level: u8,
    before: Seq<u8>,
    after: Seq<u8>,
) -> bool {
    &&& after.len() == before.len()
    &&& if mute {
        after == silence(info, before.len())
    } else if scales(info, before.len() as int) {
        deflection(info, after) == scaled(deflection(info, before), level)
    } else if scales_as_float(info, before.len() as int) {
        level == 255 && after == before
    } else {
        after == before
    }
}

/// The sample number `index` of a stream.
pub open spec fn sample(data: Seq<u8>, width: int, index: int) -> Seq<u8> {
    data.subrange(index * width, index * width + width)
}

/// How many samples the whole frames of a chunk hold.
pub open spec fn whole_samples(info: PCMInfo, bytes: int) -> int {
    (bytes / info.bytes_per_frame as int) * info.nchannels
}

/// What becomes of a chunk: its whole frames sample by sample, and the rest of it unchanged.
pub open spec fn chunk_plays_as(
    info: PCMInfo,
    mute: bool,
    levels: Seq<u8>,
    before: Seq<u8>,
    after: Seq<u8>,
) -> bool {
    match sample_bytes(info) {
        Some(width) if width > 0 => {
            &&& after.len() == before.len()
            &&& forall|index: int|
                0 <= index < whole_samples(info, before.len() as int) ==> plays_as(
                    info,
                    mute,
                    level_for(levels, index % info.nchannels as int),
                    sample(before, width as int, index),
                    #[trigger] sample(after, width as int, index),
                )
            &&& forall|at: int|
                whole_samples(info, before.len() as int) * width <= at < before.len()
                    ==> #[trigger] after[at] == before[at]
        },
        _ => after == before,
    }
}

proof fn number_is_in_range(bytes: Seq<u8>)
    ensures
        number(bytes) < range(bytes.len()),
    decreases bytes.len(),
{
    if bytes.len() > 0 {
        number_is_in_range(bytes.drop_first());
    }
}

proof fn number_with_top(bytes: Seq<u8>, top: u8)
    ensures
        number(bytes.push(top)) == number(bytes) + range(bytes.len()) * top,
    decreases bytes.len(),
{
    if bytes.len() == 0 {
        assert(bytes.push(top).drop_first() =~= Seq::<u8>::empty());
        assert(number(bytes.push(top).drop_first()) == 0);
        assert(range(0) == 1);
    } else {
        let rest = bytes.drop_first();
        number_with_top(rest, top);
        assert(bytes.push(top).drop_first() =~= rest.push(top));
        assert(256 * (range(rest.len()) * top) == (256 * range(rest.len())) * top)
            by (nonlinear_arith);
    }
}

/// Bytes are fixed by the number they stand for.
proof fn numbers_are_distinct(left: Seq<u8>, right: Seq<u8>)
    requires
        left.len() == right.len(),
        number(left) == number(right),
    ensures
        left == right,
    decreases left.len(),
{
    if left.len() > 0 {
        assert(left[0] == right[0]);
        numbers_are_distinct(left.drop_first(), right.drop_first());
        assert(left =~= seq![left[0]] + left.drop_first());
        assert(right =~= seq![right[0]] + right.drop_first());
    } else {
        assert(left =~= right);
    }
}

proof fn ranges()
    ensures
        range(0) == 1,
        range(1) == 0x100,
        range(2) == 0x1_0000,
        range(3) == 0x100_0000,
        range(4) == 0x1_0000_0000,
{
    reveal_with_fuel(range, 5);
}

/// A sample is fixed by its deflection.
pub proof fn deflections_are_distinct(info: PCMInfo, left: Seq<u8>, right: Seq<u8>)
    requires
        left.len() == right.len(),
        deflection(info, left) == deflection(info, right),
    ensures
        left == right,
{
    number_is_in_range(ranked(left, info.be));
    number_is_in_range(ranked(right, info.be));
    numbers_are_distinct(ranked(left, info.be), ranked(right, info.be));
    if info.be {
        assert(left =~= left.reverse().reverse());
        assert(right =~= right.reverse().reverse());
    }
}

proof fn scaled_bounds(deflection: int, level: u8)
    ensures
        deflection >= 0 ==> 0 <= scaled(deflection, level) <= deflection,
        deflection <= 0 ==> deflection <= scaled(deflection, level) <= 0,
        level == 255 ==> scaled(deflection, level) == deflection,
{
    let product = deflection * level;
    assert(deflection >= 0 ==> 0 <= product <= 255 * deflection) by (nonlinear_arith)
        requires
            product == deflection * level,
            level <= 255,
    ;
    assert(deflection <= 0 ==> 255 * deflection <= product <= 0) by (nonlinear_arith)
        requires
            product == deflection * level,
            level <= 255,
    ;
    assert(level == 255 ==> product == 255 * deflection) by (nonlinear_arith)
        requires
            product == deflection * level,
    ;
}

/// The scaled deflection is the integer closest to the product: it is less than half off, and there
/// are no ties.
pub proof fn scaled_is_closest(deflection: int, level: u8)
    ensures
        -255 < 2 * (255 * scaled(deflection, level) - deflection * level) < 255,
{
    let product = deflection * level;
    let twice = 2 * product + 255;
    assert(twice == 510 * (twice / 510) + twice % 510);
    assert(twice % 510 != 0) by {
        assert(twice % 2 == 1);
    }
}

/// No level makes a sample louder.
pub proof fn samples_never_get_louder(
    info: PCMInfo,
    mute: bool,
    level: u8,
    before: Seq<u8>,
    after: Seq<u8>,
)
    requires
        scales(info, before.len() as int),
        plays_as(info, mute, level, before, after),
    ensures
        deflection(info, before) >= 0 ==> 0 <= deflection(info, after) <= deflection(info, before),
        deflection(info, before) <= 0 ==> deflection(info, before) <= deflection(info, after) <= 0,
{
    scaled_bounds(deflection(info, before), level);
    if mute {
        silence_does_not_deflect(info, before.len());
    }
}

/// At full volume, and without levels, a chunk is played as it is.
pub proof fn full_volume_changes_nothing(
    info: PCMInfo,
    levels: Seq<u8>,
    before: Seq<u8>,
    after: Seq<u8>,
)
    requires
        forall|i: int| 0 <= i < levels.len() ==> levels[i] == 255,
        chunk_plays_as(info, false, levels, before, after),
    ensures
        after == before,
{
    match sample_bytes(info) {
        Some(width) if width > 0 => {
            let count = whole_samples(info, before.len() as int);
            assert forall|at: int| 0 <= at < before.len() implies after[at] == before[at] by {
                if at < count * width {
                    let index = at / width as int;
                    sample_of_byte(at, width as int, count);
                    whole_samples_fit(info, before.len() as int);
                    sample_fits(index, width as int, count);
                    let one = sample(before, width as int, index);
                    let other = sample(after, width as int, index);
                    assert(plays_as(
                        info,
                        false,
                        level_for(levels, index % info.nchannels as int),
                        one,
                        other,
                    ));
                    assert(level_for(levels, index % info.nchannels as int) == 255);
                    if scales(info, width as int) {
                        scaled_bounds(deflection(info, one), 255);
                        deflections_are_distinct(info, one, other);
                    }
                    assert(one[at - index * width] == before[at]);
                    assert(other[at - index * width] == after[at]);
                }
            }
            assert(after =~= before);
        },
        _ => {},
    }
}

/// A muted sample of one to four bytes does not deflect.
pub proof fn silence_does_not_deflect(info: PCMInfo, width: nat)
    requires
        1 <= width <= 4,
        !info.is_float,
    ensures
        deflection(info, silence(info, width)) == 0,
{
    let quiet = ranked(silence(info, width), info.be);
    ranges();
    reveal_with_fuel(number, 6);
    let q1 = quiet.drop_first();
    let q2 = q1.drop_first();
    let q3 = q2.drop_first();
    let q4 = q3.drop_first();
    if width >= 2 {
        assert(q1[0] == quiet[1]);
    }
    if width >= 3 {
        assert(q2[0] == quiet[2]);
    }
    if width >= 4 {
        assert(q3[0] == quiet[3]);
    }
    assert(quiet[width - 1] == if info.is_signed {
        0u8
    } else {
        0x80u8
    });
    assert(forall|i: int| 0 <= i < width - 1 ==> quiet[i] == 0);
}

/// Muting a chunk twice is muting it once.
pub proof fn muting_is_idempotent(
    info: PCMInfo,
    levels: Seq<u8>,
    before: Seq<u8>,
    once: Seq<u8>,
    twice: Seq<u8>,
)
    requires
        chunk_plays_as(info, true, levels, before, once),
        chunk_plays_as(info, true, levels, once, twice),
    ensures
        twice == once,
{
    match sample_bytes(info) {
        Some(width) if width > 0 => {
            let count = whole_samples(info, before.len() as int);
            assert forall|at: int| 0 <= at < once.len() implies twice[at] == once[at] by {
                if at < count * width {
                    let index = at / width as int;
                    sample_of_byte(at, width as int, count);
                    whole_samples_fit(info, before.len() as int);
                    sample_fits(index, width as int, count);
                    let one = sample(once, width as int, index);
                    let other = sample(twice, width as int, index);
                    assert(one == silence(info, width));
                    assert(other == silence(info, width));
                    assert(one[at - index * width] == once[at]);
                    assert(other[at - index * width] == twice[at]);
                }
            }
            assert(twice =~= once);
        },
        _ => {},
    }
}

proof fn sample_of_byte(at: int, width: int, count: int)
    requires
        0 <= at < count * width,
        width > 0,
    ensures
        0 <= at / width < count,
        (at / width) * width <= at < (at / width) * width + width,
{
    assert(0 <= at / width && (at / width) * width <= at < (at / width) * width + width)
        by (nonlinear_arith)
        requires
            0 <= at,
            width > 0,
    ;
    assert(at / width < count) by (nonlinear_arith)
        requires
            (at / width) * width <= at,
            at < count * width,
            width > 0,
    ;
}

proof fn sample_fits(index: int, width: int, count: int)
    requires
        0 <= index < count,
        width > 0,
    ensures
        0 <= index * width,
        index * width + width == (index + 1) * width,
        index * width + width <= count * width,
{
    assert(0 <= index * width) by (nonlinear_arith)
        requires
            0 <= index,
            width > 0,
    ;
    assert(index * width + width == (index + 1) * width) by (nonlinear_arith);
    assert((index + 1) * width <= count * width) by (nonlinear_arith)
        requires
            index + 1 <= count,
            width > 0,
    ;
}

proof fn whole_samples_fit(info: PCMInfo, bytes: int)
    requires
        0 <= bytes,
        sample_bytes(info) matches Some(width) && width > 0,
    ensures
        0 <= whole_samples(info, bytes),
        whole_samples(info, bytes) * sample_bytes(info)->0 <= bytes,
        info.bytes_per_frame > 0,
        info.nchannels > 0,
{
    let width = sample_bytes(info)->0 as int;
    let frame = info.bytes_per_frame as int;
    let channels = info.nchannels as int;
    assert(frame == channels * width && frame > 0) by (nonlinear_arith)
        requires
            channels > 0,
            frame >= 0,
            frame % channels == 0,
            width == frame / channels,
            width > 0,
    ;
    let frames = bytes / frame;
    assert(0 <= frames && frames * frame <= bytes) by (nonlinear_arith)
        requires
            frames == bytes / frame,
            frame > 0,
            0 <= bytes,
    ;
    assert((frames * channels) * width == frames * frame) by (nonlinear_arith)
        requires
            frame == channels * width,
    ;
    assert(0 <= frames * channels) by (nonlinear_arith)
        requires
            0 <= frames,
            channels > 0,
    ;
}

/// The place of the byte of a rank.
fn place(at: usize, width: usize, be: bool, rank: usize) -> (place: usize)
    requires
        rank < width,
        at + width <= usize::MAX,
    ensures
        place == if be {
            at + (width - 1 - rank)
        } else {
            at + rank
        },
{
    if be {
        at + (width - 1 - rank)
    } else {
        at + rank
    }
}

/// The number that a sample of up to four bytes stands for.
fn read_number(data: &Vec<u8>, at: usize, width: usize, be: bool) -> (value: u32)
    requires
        at + width <= data.len(),
        width <= 4,
    ensures
        value == number(ranked(data@.subrange(at as int, at + width), be)),
{
    let ghost bytes = ranked(data@.subrange(at as int, at + width), be);
    let mut value: u64 = 0;
    let mut left: usize = width;
    assert(bytes.skip(width as int) =~= Seq::<u8>::empty());
    while left > 0
        invariant
            left <= width <= 4,
            at + width <= data.len(),
            bytes == ranked(data@.subrange(at as int, at + width), be),
            bytes.len() == width,
            value == number(bytes.skip(left as int)),
        decreases left,
    {
        left = left - 1;
        proof {
            number_is_in_range(bytes.skip(left + 1));
            ranges();
            assert(bytes.skip(left as int).drop_first() =~= bytes.skip(left + 1));
        }
        let from: usize = place(at, width, be, left);
        assert(data@[from as int] == bytes[left as int]);
        value = value * 256 + data[from] as u64;
    }
    proof {
        assert(bytes.skip(0) =~= bytes);
        number_is_in_range(bytes);
        ranges();
    }
    value as u32
}

/// Makes a sample of up to four bytes stand for a number.
fn write_number(data: &mut Vec<u8>, at: usize, width: usize, be: bool, value: u32)
    requires
        at + width <= old(data).len(),
        width <= 4,
        value < range(width as nat),
    ensures
        final(data).len() == old(data).len(),
        number(ranked(final(data)@.subrange(at as int, at + width), be)) == value,
        forall|i: int|
            (0 <= i < at || at + width <= i < old(data).len()) ==> #[trigger] final(data)@[i]
                == old(data)@[i],
{
    let ghost before = data@;
    let mut rest: u32 = value;
    let mut rank: usize = 0;
    assert(ranked(data@.subrange(at as int, at + width), be).take(0) =~= Seq::<u8>::empty());
    assert(range(0) == 1);
    assert(1 * rest == rest) by (nonlinear_arith);
    while rank < width
        invariant
            rank <= width <= 4,
            at + width <= data.len(),
            data.len() == before.len(),
            number(ranked(data@.subrange(at as int, at + width), be).take(rank as int)) + range(
                rank as nat,
            ) * rest == value,
            forall|i: int|
                (0 <= i < at || at + width <= i < before.len()) ==> #[trigger] data@[i]
                    == before[i],
        decreases width - rank,
    {
        let ghost bytes = ranked(data@.subrange(at as int, at + width), be);
        let low: u8 = (rest % 256) as u8;
        let to: usize = place(at, width, be, rank);
        data.set(to, low);
        proof {
            let written = ranked(data@.subrange(at as int, at + width), be);
            assert(written.take(rank + 1) =~= bytes.take(rank as int).push(low));
            number_with_top(bytes.take(rank as int), low);
            let step = range(rank as nat);
            assert(range((rank + 1) as nat) == 256 * step);
            assert(step * rest == step * low + (256 * step) * (rest / 256)) by (nonlinear_arith)
                requires
                    rest == 256 * (rest / 256) + low,
            ;
        }
        rest = rest / 256;
        rank = rank + 1;
    }
    proof {
        let bytes = ranked(data@.subrange(at as int, at + width), be);
        assert(bytes.take(width as int) =~= bytes);
        number_is_in_range(bytes);
        assert(rest == 0) by (nonlinear_arith)
            requires
                number(bytes) + range(width as nat) * rest == value,
                value < range(width as nat),
        ;
        assert(range(width as nat) * 0 == 0) by (nonlinear_arith);
    }
}

fn scale(deflection: i64, level: u8) -> (value: i64)
    requires
        -0x8000_0000 <= deflection <= 0x8000_0000,
    ensures
        value == scaled(deflection as int, level),
{
    assert(-0x8000_0000 * 255 <= deflection * level <= 0x8000_0000 * 255) by (nonlinear_arith)
        requires
            -0x8000_0000 <= deflection <= 0x8000_0000,
            0 <= level <= 255,
    ;
    let shifted: i64 = 2 * (deflection * level as i64) + 255 + 510 * 0x8000_0000;
    shifted / 510 - 0x8000_0000
}

/// Scales one sample.
fn scale_sample(info: &PCMInfo, data: &mut Vec<u8>, at: usize, width: usize, level: u8)
    requires
        at + width <= old(data).len(),
        scales(*info, width as int),
    ensures
        final(data).len() == old(data).len(),
        deflection(*info, final(data)@.subrange(at as int, at + width)) == scaled(
            deflection(*info, old(data)@.subrange(at as int, at + width)),
            level,
        ),
        forall|i: int|
            (0 <= i < at || at + width <= i < old(data).len()) ==> #[trigger] final(data)@[i]
                == old(data)@[i],
{
    let half: i64 = if width == 1 {
        0x80
    } else if width == 2 {
        0x8000
    } else {
        0x8000_0000
    };
    let raw: i64 = read_number(data, at, width, info.be) as i64;
    proof {
        ranges();
        assert(range(width as nat) == 2 * half);
        number_is_in_range(ranked(data@.subrange(at as int, at + width), info.be));
    }
    let before: i64 = if !info.is_signed {
        raw - half
    } else if raw < half {
        raw
    } else {
        raw - 2 * half
    };
    assert(before == deflection(*info, data@.subrange(at as int, at + width)));
    proof {
        scaled_bounds(before as int, level);
    }
    let after: i64 = scale(before, level);
    let value: i64 = if !info.is_signed {
        after + half
    } else if after >= 0 {
        after
    } else {
        after + 2 * half
    };
    write_number(data, at, width, info.be, value as u32);
}

/// Silences one sample.
fn silence_sample(info: &PCMInfo, data: &mut Vec<u8>, at: usize, width: usize)
    requires
        at + width <= old(data).len(),
        width > 0,
    ensures
        final(data).len() == old(data).len(),
        final(data)@.subrange(at as int, at + width) == silence(*info, width as nat),
        forall|i: int|
            (0 <= i < at || at + width <= i < old(data).len()) ==> #[trigger] final(data)@[i]
                == old(data)@[i],
{
    let ghost before = data@;
    let mut i: usize = 0;
    while i < width
        invariant
            i <= width,
            at + width <= data.len(),
            data.len() == before.len(),
            forall|j: int| at <= j < at + i ==> #[trigger] data@[j] == 0,
            forall|j: int|
                (0 <= j < at || at + width <= j < before.len()) ==> #[trigger] data@[j]
                    == before[j],
        decreases width - i,
    {
        data.set(at + i, 0);
        i = i + 1;
    }
    if !info.is_float && !info.is_signed && width <= 4 {
        let top: usize = place(at, width, info.be, width - 1);
        data.set(top, 0x80);
    }
    assert(data@.subrange(at as int, at + width) =~= silence(*info, width as nat));
}

/// The level of a channel.
fn channel_level(levels: &Vec<u8>, channel: usize) -> (level: u8)
    ensures
        level == level_for(levels@, channel as int),
{
    if channel < levels.len() {
        levels[channel]
    } else if levels.len() > 0 {
        levels[levels.len() - 1]
    } else {
        255
    }
}

fn can_scale(info: &PCMInfo, width: usize) -> (can: bool)
    ensures
        can == scales(*info, width as int),
{
    !info.is_float && ((width == 1 && info.bits == 8) || (width == 2 && info.bits == 16) || (width
        == 4 && info.bits == 32))
}

/// A floating-point sample of a chunk that is to be multiplied by `level / 255`.
#[derive(Copy, Clone, Debug, PartialEq, Eq, Structural)]
pub struct FloatSample {
    pub at: usize,
    pub width: usize,
    pub level: u8,
}

/// Every level is full.
pub open spec fn all_full(levels: Seq<u8>) -> bool {
    forall|i: int| 0 <= i < levels.len() ==> levels[i] == 255
}

/// The samples of a chunk that are to be scaled as floating-point numbers.
pub open spec fn float_plan(info: PCMInfo, mute: bool, levels: Seq<u8>, bytes: int) -> Seq<
    FloatSample,
> {
    match sample_bytes(info) {
        Some(width) if scales_as_float(info, width as int) && !mute && !all_full(levels) => {
            Seq::new(
                whole_samples(info, bytes) as nat,
                |index: int|
                    FloatSample {
                        at: (index * width) as usize,
                        width: width as usize,
                        level: level_for(levels, index % info.nchannels as int),
                    },
            )
        },
        _ => Seq::empty(),
    }
}

fn levels_are_full(levels: &Vec<u8>) -> (full: bool)
    ensures
        full == all_full(levels@),
{
    for i in 0..levels.len()
        invariant
            forall|j: int| 0 <= j < i ==> levels@[j] == 255,
    {
        if levels[i] != 255 {
            return false;
        }
    }
    true
}

/// The samples of a chunk of so many bytes that are to be scaled as floating-point numbers.
pub fn float_samples(info: &PCMInfo, volume: &Volume, bytes: usize) -> (plan: Vec<FloatSample>)
    ensures
        plan@ == float_plan(*info, volume.mute, volume.volume@, bytes as int),
{
    let mut plan: Vec<FloatSample> = Vec::new();
    let width: usize = match bytes_per_sample(info) {
        Some(bytes) => bytes,
        None => 0,
    };
    let scalable = info.is_float && ((width == 4 && info.bits == 32) || (width == 8 && info.bits
        == 64));
    if !scalable || volume.mute || levels_are_full(&volume.volume) {
        assert(plan@ =~= float_plan(*info, volume.mute, volume.volume@, bytes as int));
        return plan;
    }
    proof {
        whole_samples_fit(*info, bytes as int);
    }
    let channels: usize = info.nchannels as usize;
    let ghost total = whole_samples(*info, bytes as int);
    let frames: usize = bytes / (info.bytes_per_frame as usize);
    assert(total <= bytes) by (nonlinear_arith)
        requires
            total * width <= bytes,
            width >= 1,
            total >= 0,
    ;
    let count: usize = frames * channels;
    let mut index: usize = 0;
    let mut at: usize = 0;
    assert(0 * width == 0) by (nonlinear_arith);
    while index < count
        invariant
            index <= count,
            count == total,
            total * width <= bytes,
            at == index * width,
            width > 0,
            channels == info.nchannels,
            channels > 0,
            plan.len() == index,
            forall|k: int|
                0 <= k < index ==> #[trigger] plan@[k] == (FloatSample {
                    at: (k * width) as usize,
                    width,
                    level: level_for(volume.volume@, k % channels as int),
                }),
        decreases count - index,
    {
        proof {
            sample_fits(index as int, width as int, total);
        }
        plan.push(
            FloatSample {
                at,
                width,
                level: channel_level(&volume.volume, index % channels),
            },
        );
        at = at + width;
        index = index + 1;
    }
    assert(plan@ =~= float_plan(*info, volume.mute, volume.volume@, bytes as int));
    plan
}

/// A chunk of sound at the guest's volume.
#[derive(Debug, PartialEq, Eq)]
pub enum Played {
    /// The chunk as it is played.
    Done(Vec<u8>),
    /// The chunk is played once each of these floating-point samples, in its place, has been
    /// multiplied by `level / 255`. There is nothing else to do to it.
    Multiply { data: Vec<u8>, samples: Vec<FloatSample> },
}

/// Applies the guest's volume to a chunk of sound. The product of floating-point samples with their
/// levels is left to the caller, who is told of every one of them.
pub fn apply_volume(info: &PCMInfo, volume: &Volume, data: Vec<u8>) -> (played: Played)
    ensures
        ({
            let plan = float_plan(*info, volume.mute, volume.volume@, data@.len() as int);
            match played {
                Played::Done(after) => {
                    &&& plan.len() == 0
                    &&& chunk_plays_as(*info, volume.mute, volume.volume@, data@, after@)
                },
                Played::Multiply { data: kept, samples } => {
                    &&& plan.len() > 0
                    &&& kept@ == data@
                    &&& samples@ == plan
                },
            }
        }),
{
    let samples = float_samples(info, volume, data.len());
    if samples.len() > 0 {
        return Played::Multiply { data, samples };
    }
    let width: usize = match bytes_per_sample(info) {
        Some(bytes) => bytes,
        None => 0,
    };
    if width == 0 {
        return Played::Done(data);
    }
    proof {
        whole_samples_fit(*info, data@.len() as int);
    }
    let mut played = data;
    let channels: usize = info.nchannels as usize;
    let scalable = can_scale(info, width);
    let ghost total = whole_samples(*info, data@.len() as int);
    let frames: usize = played.len() / (info.bytes_per_frame as usize);
    assert(total <= data@.len()) by (nonlinear_arith)
        requires
            total * width <= data@.len(),
            width >= 1,
            total >= 0,
    ;
    let count: usize = frames * channels;
    let mut index: usize = 0;
    let mut at: usize = 0;
    assert(0 * width == 0) by (nonlinear_arith);
    while index < count
        invariant
            index <= count,
            count == total,
            total * width <= data@.len(),
            played.len() == data@.len(),
            at == index * width,
            width > 0,
            channels == info.nchannels,
            channels > 0,
            scalable == scales(*info, width as int),
            total > 0 && scales_as_float(*info, width as int) && !volume.mute ==> all_full(
                volume.volume@,
            ),
            forall|k: int|
                0 <= k < index ==> plays_as(
                    *info,
                    volume.mute,
                    level_for(volume.volume@, k % channels as int),
                    sample(data@, width as int, k),
                    #[trigger] sample(played@, width as int, k),
                ),
            forall|i: int| at <= i < data@.len() ==> #[trigger] played@[i] == data@[i],
        decreases count - index,
    {
        proof {
            sample_fits(index as int, width as int, total);
        }
        let ghost before = played@;
        assert(sample(before, width as int, index as int) =~= sample(
            data@,
            width as int,
            index as int,
        ));
        let channel: usize = index % channels;
        if volume.mute {
            silence_sample(info, &mut played, at, width);
        } else if scalable {
            scale_sample(info, &mut played, at, width, channel_level(&volume.volume, channel));
        }
        proof {
            assert forall|k: int| 0 <= k < index + 1 implies plays_as(
                *info,
                volume.mute,
                level_for(volume.volume@, k % channels as int),
                sample(data@, width as int, k),
                #[trigger] sample(played@, width as int, k),
            ) by {
                if k == index {
                    assert(all_full(volume.volume@) ==> level_for(
                        volume.volume@,
                        channel as int,
                    ) == 255);
                } else {
                    sample_fits(k, width as int, index as int);
                    assert(sample(played@, width as int, k) =~= sample(before, width as int, k));
                }
            }
        }
        at = at + width;
        index = index + 1;
    }
    Played::Done(played)
}

/// The floating-point samples of a chunk stand within it, one after the other.
pub proof fn float_samples_fit(info: PCMInfo, mute: bool, levels: Seq<u8>, bytes: usize, index: int)
    requires
        0 <= index < float_plan(info, mute, levels, bytes as int).len(),
    ensures
        ({
            let plan = float_plan(info, mute, levels, bytes as int);
            &&& plan[index].at + plan[index].width <= bytes
            &&& index > 0 ==> plan[index].at == plan[index - 1].at + plan[index - 1].width
        }),
{
    let width = sample_bytes(info)->0 as int;
    whole_samples_fit(info, bytes as int);
    sample_fits(index, width, whole_samples(info, bytes as int));
    if index > 0 {
        sample_fits(index - 1, width, whole_samples(info, bytes as int));
    }
}

/// What is heard of the sample at `at`: how far it is from silence, read from its bytes.
pub open spec fn heard(info: PCMInfo, data: Seq<u8>, at: int) -> int {
    let (raw, full): (int, int) = if info.bits == 8 {
        (data[at] as int, 0x100)
    } else if info.bits == 16 {
        (
            if info.be {
                0x100 * data[at] + data[at + 1]
            } else {
                0x100 * data[at + 1] + data[at]
            },
            0x1_0000,
        )
    } else {
        (
            if info.be {
                0x100_0000 * data[at] + 0x1_0000 * data[at + 1] + 0x100 * data[at + 2] + data[at
                    + 3]
            } else {
                0x100_0000 * data[at + 3] + 0x1_0000 * data[at + 2] + 0x100 * data[at + 1]
                    + data[at]
            },
            0x1_0000_0000,
        )
    };
    if !info.is_signed {
        raw - full / 2
    } else if raw < full / 2 {
        raw
    } else {
        raw - full
    }
}

proof fn heard_is_the_deflection(info: PCMInfo, data: Seq<u8>, at: int, width: int)
    requires
        scales(info, width),
        0 <= at,
        at + width <= data.len(),
    ensures
        deflection(info, data.subrange(at, at + width)) == heard(info, data, at),
{
    let bytes = data.subrange(at, at + width);
    let order = ranked(bytes, info.be);
    ranges();
    reveal_with_fuel(number, 5);
    let rest = order.drop_first();
    assert(order.len() == width);
    if width >= 2 {
        assert(rest[0] == order[1]);
    }
    if width == 4 {
        assert(rest.drop_first()[0] == order[2]);
        assert(rest.drop_first().drop_first()[0] == order[3]);
    }
    if info.be {
        assert(order[0] == bytes[width - 1]);
        assert(width >= 2 ==> order[1] == bytes[width - 2]);
        assert(width == 4 ==> order[2] == bytes[1] && order[3] == bytes[0]);
    }
}

proof fn sample_in_its_frame(info: PCMInfo, bytes: int, width: int, frame: int, channel: int)
    requires
        info.nchannels > 0,
        width > 0,
        info.bytes_per_frame == width * info.nchannels,
        0 <= bytes,
        0 <= channel < info.nchannels,
        0 <= frame,
        (frame + 1) * info.bytes_per_frame <= bytes,
    ensures
        ({
            let index = frame * info.nchannels + channel;
            &&& sample_bytes(info) == Some(width as nat)
            &&& 0 <= index < whole_samples(info, bytes)
            &&& index % (info.nchannels as int) == channel
            &&& index * width == frame * info.bytes_per_frame + channel * width
            &&& 0 <= index * width
            &&& index * width + width <= bytes
        }),
{
    let channels = info.nchannels as int;
    let size = info.bytes_per_frame as int;
    let index = frame * channels + channel;
    vstd::arithmetic::div_mod::lemma_fundamental_div_mod_converse(size, channels, width, 0);
    vstd::arithmetic::div_mod::lemma_fundamental_div_mod_converse(index, channels, frame, channel);
    vstd::arithmetic::div_mod::lemma_fundamental_div_mod(bytes, size);
    let frames = bytes / size;
    assert(size > 0) by (nonlinear_arith)
        requires
            size == width * channels,
            width > 0,
            channels > 0,
    ;
    vstd::arithmetic::div_mod::lemma_mod_bound(bytes, size);
    assert(frame < frames) by (nonlinear_arith)
        requires
            (frame + 1) * size <= bytes,
            bytes == size * frames + bytes % size,
            0 <= bytes % size < size,
            size > 0,
    ;
    assert(index < frames * channels) by (nonlinear_arith)
        requires
            frame < frames,
            channel < channels,
            0 < channels,
            index == frame * channels + channel,
    ;
    assert(index * width == frame * size + channel * width) by (nonlinear_arith)
        requires
            size == width * channels,
            index == frame * channels + channel,
    ;
    assert(0 <= frame * size && 0 <= channel * width && channel * width + width <= size && (frame
        + 1) * size == frame * size + size && 0 <= index) by (nonlinear_arith)
        requires
            size == width * channels,
            0 <= frame,
            0 <= channel < channels,
            0 < width,
            index == frame * channels + channel,
    ;
}

/// The volume of a channel is applied to each of its samples: in every whole frame, what is heard of
/// a sample is the whole number closest to what was heard before, times the level of its channel
/// out of 255, and nothing where the stream is muted. A channel without a level of its own has the
/// last one, or full volume where there is none. Bytes after the last whole frame stay.
pub proof fn channels_are_heard_at_their_levels(
    info: PCMInfo,
    volume: Volume,
    data: Vec<u8>,
    played: Played,
    width: int,
    frame: int,
    channel: int,
)
    requires
        !info.is_float,
        info.bits == 8 || info.bits == 16 || info.bits == 32,
        width == info.bits as int / 8,
        info.nchannels > 0,
        info.bytes_per_frame == width * info.nchannels,
        0 <= channel < info.nchannels,
        0 <= frame,
        (frame + 1) * info.bytes_per_frame <= data@.len(),
        call_ensures(apply_volume, (&info, &volume, data), played),
    ensures
        played matches Played::Done(after) && {
            let at = frame * info.bytes_per_frame + channel * width;
            let before = heard(info, data@, at);
            let now = heard(info, after@, at);
            let level: int = if channel < volume.volume.len() {
                volume.volume@[channel] as int
            } else if volume.volume.len() > 0 {
                volume.volume@[volume.volume.len() - 1] as int
            } else {
                255
            };
            &&& after.len() == data.len()
            &&& volume.mute ==> now == 0
            &&& !volume.mute ==> -255 < 2 * (255 * now - before * level) < 255
        },
{
    let index = frame * info.nchannels + channel;
    sample_in_its_frame(info, data@.len() as int, width, frame, channel);
    if let Played::Done(after) = played {
        let old_sample = sample(data@, width, index);
        let new_sample = sample(after@, width, index);
        let level = level_for(volume.volume@, channel);
        assert(plays_as(info, volume.mute, level, old_sample, new_sample));
        heard_is_the_deflection(info, data@, index * width, width);
        heard_is_the_deflection(info, after@, index * width, width);
        if volume.mute {
            silence_does_not_deflect(info, width as nat);
        } else {
            scaled_is_closest(deflection(info, old_sample), level);
        }
    }
}

/// The bytes after the last whole frame of a chunk are played as they are, and a chunk keeps its
/// length.
pub proof fn parts_of_frames_are_kept(
    info: PCMInfo,
    volume: Volume,
    data: Vec<u8>,
    played: Played,
    width: int,
    frames: int,
    at: int,
)
    requires
        info.nchannels > 0,
        width > 0,
        info.bytes_per_frame == width * info.nchannels,
        0 <= frames,
        frames * info.bytes_per_frame <= at < data@.len() < (frames + 1) * info.bytes_per_frame,
        call_ensures(apply_volume, (&info, &volume, data), played),
    ensures
        played matches Played::Done(after) ==> after.len() == data.len() && after@[at] == data@[at],
        played matches Played::Multiply { data: kept, samples } ==> kept@ == data@,
{
    let channels = info.nchannels as int;
    let size = info.bytes_per_frame as int;
    let bytes = data@.len() as int;
    vstd::arithmetic::div_mod::lemma_fundamental_div_mod_converse(size, channels, width, 0);
    assert((frames + 1) * size == frames * size + size) by (nonlinear_arith);
    vstd::arithmetic::div_mod::lemma_fundamental_div_mod_converse(
        bytes,
        size,
        frames,
        bytes - frames * size,
    );
    assert((frames * channels) * width == frames * size) by (nonlinear_arith)
        requires
            size == width * channels,
    ;
}

/// Where floating-point samples have to be multiplied, the caller is told of every sample of every
/// whole frame, in its place and with the level of its channel, and of nothing else. That is so
/// exactly where the stream is not muted and some level is not full.
pub proof fn float_samples_are_all_told(
    info: PCMInfo,
    volume: Volume,
    data: Vec<u8>,
    played: Played,
    width: int,
    frame: int,
    channel: int,
)
    requires
        info.is_float,
        info.bits == 32 || info.bits == 64,
        width == info.bits as int / 8,
        info.nchannels > 0,
        info.bytes_per_frame == width * info.nchannels,
        0 <= channel < info.nchannels,
        0 <= frame,
        (frame + 1) * info.bytes_per_frame <= data@.len(),
        call_ensures(apply_volume, (&info, &volume, data), played),
    ensures
        played is Multiply <==> !volume.mute && exists|i: int|
            0 <= i < volume.volume.len() && #[trigger] volume.volume@[i] != 255,
        played matches Played::Done(after) ==> (!volume.mute ==> after@ == data@),
        played matches Played::Multiply { data: kept, samples } ==> {
            let index = frame * info.nchannels + channel;
            &&& kept@ == data@
            &&& index < samples.len()
            &&& samples.len() * width <= data@.len()
            &&& samples[index].at == frame * info.bytes_per_frame + channel * width
            &&& samples[index].width == width
            &&& samples[index].level == if channel < volume.volume.len() {
                volume.volume@[channel]
            } else {
                volume.volume@[volume.volume.len() - 1]
            }
        },
{
    let index = frame * info.nchannels + channel;
    sample_in_its_frame(info, data@.len() as int, width, frame, channel);
    whole_samples_fit(info, data@.len() as int);
    assert(data@.len() == data.len());
    if let Played::Done(after) = played {
        if !volume.mute {
            assert(all_full(volume.volume@));
            full_volume_changes_nothing(info, volume.volume@, data@, after@);
        }
    }
}

/// Silence is zero in every byte, but for unsigned samples of up to four bytes, which have the top
/// bit of their highest byte set.
pub proof fn silence_is_mostly_zero(info: PCMInfo, width: nat, at: int)
    requires
        0 <= at < width,
    ensures
        silence(info, width).len() == width,
        info.is_float || info.is_signed || width > 4 ==> silence(info, width)[at] == 0,
        !info.is_float && !info.is_signed && width <= 4 ==> silence(info, width)[at] == if at == (
        if info.be {
            0
        } else {
            width - 1
        }) {
            128u8
        } else {
            0u8
        },
{
}

}
