//! Sample formats, and the programs that play them.

use vstd::prelude::*;

use crate::error::Failure;
use crate::text::concat2;
use crate::text::concat3;
use crate::text::concat8;
use crate::text::no_texts;
use crate::text::number::decimal;
use crate::text::number::decimal_is_injective;
use crate::text::number::decimal_reads_back;
use crate::text::number::decimal_value;
use crate::text::number::to_decimal;
use crate::text::push_text;
use crate::text::texts;
use crate::viewer::pixel::ByteOrder;

verus! {

/// The format of a stream of samples.
#[derive(Copy, Clone, Debug, PartialEq, Eq, Structural)]
pub struct PCMInfo {
    pub bits: u8,
    pub is_signed: bool,
    pub is_float: bool,
    pub freq: u32,
    pub nchannels: u8,
    pub bytes_per_frame: u32,
    pub bytes_per_second: u32,
    /// The high byte of a sample comes first.
    pub be: bool,
}

/// The size of one sample, where the channels share a frame evenly.
pub open spec fn sample_bytes(info: PCMInfo) -> Option<nat> {
    if info.nchannels == 0 || info.bytes_per_frame as nat % info.nchannels as nat != 0 {
        None
    } else {
        Some(info.bytes_per_frame as nat / info.nchannels as nat)
    }
}

/// The size of one sample, where the channels share a frame evenly.
pub fn bytes_per_sample(info: &PCMInfo) -> (bytes: Option<usize>)
    ensures
        bytes matches Some(size) ==> sample_bytes(*info) == Some(size as nat),
        bytes is None ==> sample_bytes(*info) is None,
{
    if info.nchannels == 0 {
        return None;
    }
    let channels: u32 = info.nchannels as u32;
    if info.bytes_per_frame % channels != 0 {
        return None;
    }
    Some((info.bytes_per_frame / channels) as usize)
}

/// A program that plays samples from its standard input.
#[derive(Copy, Clone, Debug, PartialEq, Eq, Structural)]
pub enum AudioBackend {
    PwPlay,
    Aplay,
}

/// What `pw-play` calls a format. It plays samples in the machine's own byte order only.
pub open spec fn pw_play_name(info: PCMInfo, native: ByteOrder) -> Option<Seq<char>> {
    if info.be != (native == ByteOrder::Big) && info.bits > 8 {
        None
    } else if info.is_float {
        if info.bits == 32 {
            Some("f32"@)
        } else if info.bits == 64 {
            Some("f64"@)
        } else {
            None
        }
    } else if info.bits == 8 {
        if info.is_signed {
            Some("s8"@)
        } else {
            Some("u8"@)
        }
    } else if info.is_signed && info.bits == 16 {
        Some("s16"@)
    } else if info.is_signed && info.bits == 32 {
        Some("s32"@)
    } else {
        None
    }
}

/// What `pw-play` calls a format on a machine of the given byte order.
pub fn pw_play_format(info: &PCMInfo, native: ByteOrder) -> (name: Option<&'static str>)
    ensures
        name is Some == pw_play_name(*info, native) is Some,
        name matches Some(text) ==> pw_play_name(*info, native) == Some(text@),
{
    if info.be != (native == ByteOrder::Big) && info.bits > 8 {
        return None;
    }
    match (info.is_float, info.is_signed, info.bits) {
        (false, false, 8) => Some("u8"),
        (false, true, 8) => Some("s8"),
        (false, true, 16) => Some("s16"),
        (false, true, 32) => Some("s32"),
        (true, _, 32) => Some("f32"),
        (true, _, 64) => Some("f64"),
        _ => None,
    }
}

/// The middle of what `aplay` calls a format, between its kind and its byte order.
pub open spec fn aplay_width(info: PCMInfo) -> Option<Seq<char>> {
    let bytes = sample_bytes(info);
    if info.is_float {
        if info.bits == 32 && bytes == Some(4nat) {
            Some("_"@)
        } else if info.bits == 64 && bytes == Some(8nat) {
            Some("64_"@)
        } else {
            None
        }
    } else if info.bits == 16 && bytes == Some(2nat) {
        Some("16_"@)
    } else if info.bits == 24 && bytes == Some(3nat) {
        Some("24_3"@)
    } else if info.bits == 24 && bytes == Some(4nat) {
        Some("24_"@)
    } else if info.bits == 32 && bytes == Some(4nat) {
        Some("32_"@)
    } else {
        None
    }
}

/// What `aplay` calls a kind of sample.
pub open spec fn aplay_kind(info: PCMInfo) -> Seq<char> {
    if info.is_float {
        "FLOAT"@
    } else if info.is_signed {
        "S"@
    } else {
        "U"@
    }
}

/// What `aplay` calls a byte order.
pub open spec fn aplay_order(info: PCMInfo) -> Seq<char> {
    if info.be {
        "BE"@
    } else {
        "LE"@
    }
}

/// What `aplay` calls a format. Single bytes have no byte order.
pub open spec fn aplay_name(info: PCMInfo) -> Option<Seq<char>> {
    if !info.is_float && info.bits == 8 && sample_bytes(info) == Some(1nat) {
        if info.is_signed {
            Some("S8"@)
        } else {
            Some("U8"@)
        }
    } else {
        match aplay_width(info) {
            Some(width) => Some(aplay_kind(info) + width + aplay_order(info)),
            None => None,
        }
    }
}

/// What `aplay` calls a format.
pub fn aplay_format(info: &PCMInfo) -> (name: Option<String>)
    ensures
        name is Some == aplay_name(*info) is Some,
        name matches Some(text) ==> aplay_name(*info) == Some(text@),
{
    let bytes: usize = match bytes_per_sample(info) {
        Some(bytes) => bytes,
        None => return None,
    };
    let order = if info.be {
        "BE"
    } else {
        "LE"
    };
    let kind = if info.is_float {
        "FLOAT"
    } else if info.is_signed {
        "S"
    } else {
        "U"
    };
    match (info.is_float, info.is_signed, info.bits, bytes) {
        (false, false, 8, 1) => Some("U8".to_owned()),
        (false, true, 8, 1) => Some("S8".to_owned()),
        (false, _, 16, 2) => Some(concat3(kind, "16_", order)),
        (false, _, 24, 3) => Some(concat3(kind, "24_3", order)),
        (false, _, 24, 4) => Some(concat3(kind, "24_", order)),
        (false, _, 32, 4) => Some(concat3(kind, "32_", order)),
        (true, _, 32, 4) => Some(concat3(kind, "_", order)),
        (true, _, 64, 8) => Some(concat3(kind, "64_", order)),
        _ => None,
    }
}

/// The program plays the format.
pub open spec fn plays(backend: AudioBackend, info: PCMInfo, native: ByteOrder) -> bool {
    match backend {
        AudioBackend::PwPlay => pw_play_name(info, native) is Some,
        AudioBackend::Aplay => aplay_name(info) is Some,
    }
}

/// The programs that play a format, the preferred one first.
pub open spec fn backends_for(info: PCMInfo, native: ByteOrder) -> Seq<AudioBackend> {
    seq![AudioBackend::PwPlay, AudioBackend::Aplay].filter(
        |backend: AudioBackend| plays(backend, info, native),
    )
}

/// The programs that play a format, the preferred one first.
pub fn preferred_backends(info: &PCMInfo, native: ByteOrder) -> (backends: Vec<AudioBackend>)
    ensures
        backends@ == backends_for(*info, native),
{
    let mut backends: Vec<AudioBackend> = Vec::new();
    let ghost wanted = |backend: AudioBackend| plays(backend, *info, native);
    let ghost none = Seq::<AudioBackend>::empty();
    let ghost first = none.push(AudioBackend::PwPlay);
    let ghost both = first.push(AudioBackend::Aplay);
    proof {
        reveal(Seq::filter);
        assert(first.drop_last() =~= none);
        assert(both.drop_last() =~= first);
        assert(both =~= seq![AudioBackend::PwPlay, AudioBackend::Aplay]);
        assert(none.filter(wanted) =~= none);
    }
    if pw_play_format(info, native).is_some() {
        backends.push(AudioBackend::PwPlay);
    }
    assert(backends@ =~= first.filter(wanted));
    if aplay_format(info).is_some() {
        backends.push(AudioBackend::Aplay);
    }
    assert(backends@ =~= both.filter(wanted));
    backends
}

/// How a program is started.
#[derive(Debug)]
pub struct AudioCommand {
    pub program: String,
    pub arguments: Vec<String>,
    /// Names and values of the variables to set.
    pub environment: Vec<(String, String)>,
}

impl AudioBackend {
    /// The program's name.
    pub open spec fn title(self) -> Seq<char> {
        match self {
            AudioBackend::PwPlay => "pw-play"@,
            AudioBackend::Aplay => "aplay"@,
        }
    }

    /// The program's arguments, where it plays the format.
    pub open spec fn arguments(self, info: PCMInfo, native: ByteOrder) -> Option<Seq<Seq<char>>> {
        let rate = decimal(info.freq as nat);
        let channels = decimal(info.nchannels as nat);
        match self {
            AudioBackend::PwPlay => match pw_play_name(info, native) {
                Some(format) => Some(
                    seq![
                        "--raw"@,
                        "--rate"@,
                        rate,
                        "--channels"@,
                        channels,
                        "--format"@,
                        format,
                        "--media-role"@,
                        "Game"@,
                        "-"@,
                    ],
                ),
                None => None,
            },
            AudioBackend::Aplay => match aplay_name(info) {
                Some(format) => Some(
                    seq!["-q"@, "-t"@, "raw"@, "-r"@, rate, "-c"@, channels, "-f"@, format],
                ),
                None => None,
            },
        }
    }

    /// The program's name.
    pub fn name(self) -> (name: &'static str)
        ensures
            name@ == self.title(),
    {
        match self {
            AudioBackend::PwPlay => "pw-play",
            AudioBackend::Aplay => "aplay",
        }
    }

    /// How the program is started for a stream.
    pub fn command(self, info: &PCMInfo, stream_label: &str, native: ByteOrder) -> (result: Result<
        AudioCommand,
        Failure,
    >)
        ensures
            match result {
                Ok(command) => {
                    &&& plays(self, *info, native)
                    &&& command.program@ == self.title()
                    &&& self.arguments(*info, native) == Some(texts(command.arguments@))
                    &&& pairs(command.environment@) == player_environment(stream_label@)
                },
                Err(failure) => {
                    &&& !plays(self, *info, native)
                    &&& failure@ == seq![
                        "`"@ + self.title() + "` does not support this PCM format"@,
                    ]
                },
            },
    {
        let rate = to_decimal(info.freq as u64);
        let channels = to_decimal(info.nchannels as u64);
        let mut arguments = no_texts();
        match self {
            AudioBackend::PwPlay => {
                let format = match pw_play_format(info, native) {
                    Some(format) => format,
                    None => return Err(unsupported(self)),
                };
                push_text(&mut arguments, "--raw".to_owned());
                push_text(&mut arguments, "--rate".to_owned());
                push_text(&mut arguments, rate);
                push_text(&mut arguments, "--channels".to_owned());
                push_text(&mut arguments, channels);
                push_text(&mut arguments, "--format".to_owned());
                push_text(&mut arguments, format.to_owned());
                push_text(&mut arguments, "--media-role".to_owned());
                push_text(&mut arguments, "Game".to_owned());
                push_text(&mut arguments, "-".to_owned());
            },
            AudioBackend::Aplay => {
                let format = match aplay_format(info) {
                    Some(format) => format,
                    None => return Err(unsupported(self)),
                };
                push_text(&mut arguments, "-q".to_owned());
                push_text(&mut arguments, "-t".to_owned());
                push_text(&mut arguments, "raw".to_owned());
                push_text(&mut arguments, "-r".to_owned());
                push_text(&mut arguments, rate);
                push_text(&mut arguments, "-c".to_owned());
                push_text(&mut arguments, channels);
                push_text(&mut arguments, "-f".to_owned());
                push_text(&mut arguments, format);
            },
        }
        assert(texts(arguments@) =~= self.arguments(*info, native)->0);
        let mut environment: Vec<(String, String)> = Vec::new();
        environment.push(("PIPEWIRE_LATENCY".to_owned(), "256/48000".to_owned()));
        environment.push(("PULSE_PROP_media.role".to_owned(), "game".to_owned()));
        environment.push(("PULSE_PROP_application.name".to_owned(), "QD2".to_owned()));
        environment.push(("PULSE_PROP_media.name".to_owned(), stream_label.to_owned()));
        assert(pairs(environment@) =~= player_environment(stream_label@));
        Ok(AudioCommand { program: self.name().to_owned(), arguments, environment })
    }
}

fn unsupported(backend: AudioBackend) -> (failure: Failure)
    ensures
        failure@ == seq!["`"@ + backend.title() + "` does not support this PCM format"@],
{
    Failure::new(concat3("`", backend.name(), "` does not support this PCM format"))
}

/// Names and values as texts.
pub open spec fn pairs(list: Seq<(String, String)>) -> Seq<(Seq<char>, Seq<char>)> {
    list.map_values(|pair: (String, String)| (pair.0@, pair.1@))
}

/// The variables that a player is started with.
pub open spec fn player_environment(stream_label: Seq<char>) -> Seq<(Seq<char>, Seq<char>)> {
    seq![
        ("PIPEWIRE_LATENCY"@, "256/48000"@),
        ("PULSE_PROP_media.role"@, "game"@),
        ("PULSE_PROP_application.name"@, "QD2"@),
        ("PULSE_PROP_media.name"@, stream_label),
    ]
}

/// The description of a format.
pub open spec fn pcm_text(info: PCMInfo) -> Seq<char> {
    let kind = if info.is_float {
        "float"@
    } else if info.is_signed {
        "signed"@
    } else {
        "unsigned"@
    };
    let order = if info.bits <= 8 {
        ""@
    } else if info.be {
        " BE"@
    } else {
        " LE"@
    };
    decimal(info.bits as nat) + "-bit "@ + kind + order + " "@ + decimal(info.freq as nat)
        + " Hz, "@ + decimal(info.nchannels as nat) + " channel(s)"@
}

/// The description of a format.
pub fn describe_pcm_info(info: &PCMInfo) -> (text: String)
    ensures
        text@ == pcm_text(*info),
{
    let kind = if info.is_float {
        "float"
    } else if info.is_signed {
        "signed"
    } else {
        "unsigned"
    };
    let order = if info.bits <= 8 {
        ""
    } else if info.be {
        " BE"
    } else {
        " LE"
    };
    let bits = to_decimal(info.bits as u64);
    let rate = to_decimal(info.freq as u64);
    let channels = to_decimal(info.nchannels as u64);
    let head = concat8(
        bits.as_str(),
        "-bit ",
        kind,
        order,
        " ",
        rate.as_str(),
        " Hz, ",
        channels.as_str(),
    );
    concat2(head.as_str(), " channel(s)")
}

/// The option with which a program is told the sample rate.
pub open spec fn rate_option(backend: AudioBackend) -> Seq<char> {
    match backend {
        AudioBackend::PwPlay => "--rate"@,
        AudioBackend::Aplay => "-r"@,
    }
}

/// The option with which a program is told how many channels there are.
pub open spec fn channels_option(backend: AudioBackend) -> Seq<char> {
    match backend {
        AudioBackend::PwPlay => "--channels"@,
        AudioBackend::Aplay => "-c"@,
    }
}

/// The option with which a program is told the format.
pub open spec fn format_option(backend: AudioBackend) -> Seq<char> {
    match backend {
        AudioBackend::PwPlay => "--format"@,
        AudioBackend::Aplay => "-f"@,
    }
}

/// The option is given, and what stands behind it is always `value`.
pub open spec fn told(arguments: Seq<String>, option: Seq<char>, value: Seq<char>) -> bool {
    &&& exists|i: int| 0 <= i < arguments.len() && (#[trigger] arguments[i])@ == option
    &&& forall|i: int|
        0 <= i < arguments.len() && (#[trigger] arguments[i])@ == option ==> i + 1
            < arguments.len() && arguments[i + 1]@ == value
}

/// The option is given, and what stands behind it always reads back as `number`.
pub open spec fn told_number(arguments: Seq<String>, option: Seq<char>, number: nat) -> bool {
    &&& exists|i: int| 0 <= i < arguments.len() && (#[trigger] arguments[i])@ == option
    &&& forall|i: int|
        0 <= i < arguments.len() && (#[trigger] arguments[i])@ == option ==> i + 1
            < arguments.len() && decimal_value(arguments[i + 1]@) == number
}

/// A program that plays a format is told the rate and the channels of the stream, as numbers that
/// read back, and its own name of the format. It is started exactly where it is one of the programs
/// for the format, and it shows the name of the stream.
pub proof fn players_are_told_the_format(
    backend: AudioBackend,
    info: PCMInfo,
    stream_label: &str,
    native: ByteOrder,
    result: Result<AudioCommand, Failure>,
    backends: Vec<AudioBackend>,
    pw_play: Option<&'static str>,
    aplay: Option<String>,
)
    requires
        call_ensures(AudioBackend::command, (backend, &info, stream_label, native), result),
        call_ensures(preferred_backends, (&info, native), backends),
        call_ensures(pw_play_format, (&info, native), pw_play),
        call_ensures(aplay_format, (&info,), aplay),
    ensures
        result is Ok <==> backends@.contains(backend),
        backends@.contains(AudioBackend::PwPlay) <==> pw_play is Some,
        backends@.contains(AudioBackend::Aplay) <==> aplay is Some,
        pw_play is Some ==> backends@[0] == AudioBackend::PwPlay,
        result matches Ok(command) ==> {
            &&& told_number(command.arguments@, rate_option(backend), info.freq as nat)
            &&& told_number(command.arguments@, channels_option(backend), info.nchannels as nat)
            &&& told(
                command.arguments@,
                format_option(backend),
                match backend {
                    AudioBackend::PwPlay => pw_play->0@,
                    AudioBackend::Aplay => aplay->0@,
                },
            )
            &&& command.program@ == match backend {
                AudioBackend::PwPlay => "pw-play"@,
                AudioBackend::Aplay => "aplay"@,
            }
            &&& exists|i: int|
                0 <= i < command.environment@.len() && (#[trigger] command.environment@[i]).0@
                    == "PULSE_PROP_media.name"@ && command.environment@[i].1@ == stream_label@
        },
{
    reveal_with_fuel(Seq::filter, 3);
    let all = seq![AudioBackend::PwPlay, AudioBackend::Aplay];
    assert(all.drop_last() =~= seq![AudioBackend::PwPlay]);
    assert(all.drop_last().drop_last() =~= Seq::<AudioBackend>::empty());
    let both = plays(AudioBackend::PwPlay, info, native) && plays(
        AudioBackend::Aplay,
        info,
        native,
    );
    assert(plays(AudioBackend::PwPlay, info, native) ==> backends@[0] == AudioBackend::PwPlay);
    assert(both ==> backends@[1] == AudioBackend::Aplay);
    assert(!both && plays(AudioBackend::Aplay, info, native) ==> backends@[0]
        == AudioBackend::Aplay);
    if result is Ok {
        let command = result->Ok_0;
        let arguments = texts(command.arguments@);
        assert(arguments == backend.arguments(info, native)->0);
        assert(arguments.len() == command.arguments@.len());
        assert(pairs(command.environment@).len() == command.environment@.len());
        assert(forall|i: int|
            0 <= i < command.arguments@.len() ==> arguments[i] == (
            #[trigger] command.arguments@[i])@);
        decimal_reads_back(info.freq as nat);
        decimal_reads_back(info.nchannels as nat);
        assert(pairs(command.environment@)[3] == ("PULSE_PROP_media.name"@, stream_label@));
        assert(command.environment@[3].0@ == "PULSE_PROP_media.name"@);
        names_are_no_options(info, native);
        match backend {
            AudioBackend::PwPlay => {
                reveal_strlit("--raw");
                reveal_strlit("--rate");
                reveal_strlit("--channels");
                reveal_strlit("--format");
                reveal_strlit("--media-role");
                reveal_strlit("Game");
                reveal_strlit("-");
                assert(command.arguments@[1]@ == "--rate"@);
                assert(command.arguments@[3]@ == "--channels"@);
                assert(command.arguments@[5]@ == "--format"@);
                assert("--raw"@.len() == 5 && "--rate"@.len() == 6 && "--channels"@.len() == 10
                    && "--format"@.len() == 8 && "--media-role"@.len() == 12 && "Game"@[0] == 'G'
                    && "-"@.len() == 1);
                assert("--rate"@[0] == '-' && "--channels"@[0] == '-' && "--format"@[0] == '-');
            },
            AudioBackend::Aplay => {
                reveal_strlit("-q");
                reveal_strlit("-t");
                reveal_strlit("raw");
                reveal_strlit("-r");
                reveal_strlit("-c");
                reveal_strlit("-f");
                assert(command.arguments@[3]@ == "-r"@);
                assert(command.arguments@[5]@ == "-c"@);
                assert(command.arguments@[7]@ == "-f"@);
                assert("-q"@[1] == 'q' && "-t"@[1] == 't' && "-r"@[1] == 'r' && "-c"@[1] == 'c'
                    && "-f"@[1] == 'f' && "raw"@[0] == 'r');
                assert("-r"@[0] == '-' && "-c"@[0] == '-' && "-f"@[0] == '-');
            },
        }
    }
}

proof fn names_are_no_options(info: PCMInfo, native: ByteOrder)
    ensures
        pw_play_name(info, native) matches Some(name) ==> name.len() > 0 && name[0] != '-',
        aplay_name(info) matches Some(name) ==> name.len() > 0 && name[0] != '-',
{
    reveal_strlit("f32");
    reveal_strlit("f64");
    reveal_strlit("s8");
    reveal_strlit("u8");
    reveal_strlit("s16");
    reveal_strlit("s32");
    reveal_strlit("S8");
    reveal_strlit("U8");
    reveal_strlit("S");
    reveal_strlit("U");
    reveal_strlit("FLOAT");
}

/// Two streams of different rates are played with different arguments, and so are two with
/// different numbers of channels.
pub proof fn arguments_tell_streams_apart(
    backend: AudioBackend,
    left: PCMInfo,
    right: PCMInfo,
    native: ByteOrder,
)
    requires
        backend.arguments(left, native) is Some,
        backend.arguments(left, native) == backend.arguments(right, native),
    ensures
        left.freq == right.freq,
        left.nchannels == right.nchannels,
{
    let arguments = backend.arguments(left, native)->0;
    let others = backend.arguments(right, native)->0;
    assert(forall|i: int| arguments[i] == others[i]);
    let at: int = match backend {
        AudioBackend::PwPlay => 2,
        AudioBackend::Aplay => 4,
    };
    assert(arguments[at] == decimal(left.freq as nat));
    assert(others[at] == decimal(right.freq as nat));
    assert(arguments[at + 2] == decimal(left.nchannels as nat));
    assert(others[at + 2] == decimal(right.nchannels as nat));
    decimal_is_injective(left.freq as nat, right.freq as nat);
    decimal_is_injective(left.nchannels as nat, right.nchannels as nat);
}

/// The samples of a frame fill it: there is a sample size exactly where some number of bytes, once
/// for each channel, makes up a frame, and it is that number.
pub proof fn samples_fill_the_frame(info: PCMInfo, bytes: Option<usize>)
    requires
        call_ensures(bytes_per_sample, (&info,), bytes),
    ensures
        bytes matches Some(size) ==> info.nchannels > 0 && size * info.nchannels
            == info.bytes_per_frame,
        forall|size: nat|
            info.nchannels > 0 && #[trigger] (size * info.nchannels) == info.bytes_per_frame
                ==> bytes == Some(size as usize) && size <= usize::MAX,
{
    let frame = info.bytes_per_frame as int;
    let channels = info.nchannels as int;
    if channels > 0 {
        vstd::arithmetic::div_mod::lemma_fundamental_div_mod(frame, channels);
        assert(channels * (frame / channels) == (frame / channels) * channels)
            by (nonlinear_arith);
        assert forall|size: nat| #[trigger] (size * info.nchannels) == info.bytes_per_frame implies
            bytes == Some(size as usize) && size <= usize::MAX by {
            vstd::arithmetic::div_mod::lemma_fundamental_div_mod_converse(
                frame,
                channels,
                size as int,
                0,
            );
        }
    }
}

/// The names of formats say what they stand for. `pw-play` plays bytes, and wider samples only in
/// the machine's own byte order: its name is a letter for the kind and the number of bits. `aplay`
/// plays samples that fill their bytes, and 24 bits in four: its name is the kind, the number of
/// bits but for the common float, and the byte order.
pub proof fn names_say_what_they_stand_for(
    info: PCMInfo,
    native: ByteOrder,
    pw_play: Option<&'static str>,
    aplay: Option<String>,
)
    requires
        call_ensures(pw_play_format, (&info, native), pw_play),
        call_ensures(aplay_format, (&info,), aplay),
    ensures
        pw_play is Some <==> {
            &&& info.bits > 8 ==> info.be == (native is Big)
            &&& if info.is_float {
                info.bits == 32 || info.bits == 64
            } else {
                info.bits == 8 || info.is_signed && (info.bits == 16 || info.bits == 32)
            }
        },
        pw_play matches Some(name) ==> {
            &&& name@.len() > 1
            &&& decimal_value(name@.drop_first()) == info.bits
            &&& name@[0] == if info.is_float {
                'f'
            } else if info.is_signed {
                's'
            } else {
                'u'
            }
        },
        aplay is Some <==> {
            let frame = info.bytes_per_frame as int;
            let channels = info.nchannels as int;
            &&& channels > 0
            &&& if info.is_float {
                ||| info.bits == 32 && frame == 4 * channels
                ||| info.bits == 64 && frame == 8 * channels
            } else {
                ||| info.bits == 8 && frame == channels
                ||| info.bits == 16 && frame == 2 * channels
                ||| info.bits == 24 && frame == 3 * channels
                ||| info.bits == 24 && frame == 4 * channels
                ||| info.bits == 32 && frame == 4 * channels
            }
        },
        aplay matches Some(name) ==> if info.is_float {
            &&& name@.len() >= 8
            &&& name@.take(5) == seq!['F', 'L', 'O', 'A', 'T']
            &&& info.bits == 32 ==> name@[5] == '_'
            &&& info.bits == 64 ==> name@.subrange(5, 8) == seq!['6', '4', '_']
        } else {
            &&& name@.len() >= 2
            &&& name@[0] == if info.is_signed {
                'S'
            } else {
                'U'
            }
            &&& info.bits == 8 ==> name@ == seq![name@[0], '8']
            &&& info.bits > 8 ==> {
                &&& name@.len() >= 6
                &&& decimal_value(name@.subrange(1, 3)) == info.bits
                &&& name@[3] == '_'
                &&& (name@[4] == '3' <==> info.bytes_per_frame == 3 * info.nchannels)
            }
        },
        aplay matches Some(name) ==> (info.bits > 8 ==> {
            &&& name@.len() > 2
            &&& name@.skip(name@.len() - 2) == if info.be {
                seq!['B', 'E']
            } else {
                seq!['L', 'E']
            }
        }),
{
    reveal_strlit("f32");
    reveal_strlit("f64");
    reveal_strlit("s8");
    reveal_strlit("u8");
    reveal_strlit("s16");
    reveal_strlit("s32");
    reveal_strlit("S8");
    reveal_strlit("U8");
    reveal_strlit("S");
    reveal_strlit("U");
    reveal_strlit("FLOAT");
    reveal_strlit("_");
    reveal_strlit("64_");
    reveal_strlit("16_");
    reveal_strlit("24_3");
    reveal_strlit("24_");
    reveal_strlit("32_");
    reveal_strlit("LE");
    reveal_strlit("BE");
    digits_read_back();
    frame_divides(info, 1);
    frame_divides(info, 2);
    frame_divides(info, 3);
    frame_divides(info, 4);
    frame_divides(info, 8);
    if pw_play is Some {
        let name = pw_play->0@;
        if info.bits == 8 {
            assert(name.drop_first() =~= seq!['8']);
        } else if info.bits == 16 {
            assert(name.drop_first() =~= seq!['1', '6']);
        } else if info.bits == 32 {
            assert(name.drop_first() =~= seq!['3', '2']);
        } else {
            assert(name.drop_first() =~= seq!['6', '4']);
        }
    }
    if aplay is Some {
        let name = aplay->0@;
        if info.bits > 8 {
            assert(name.skip(name.len() - 2) =~= aplay_order(info));
            if info.is_float {
                assert(name.take(5) =~= seq!['F', 'L', 'O', 'A', 'T']);
                if info.bits == 64 {
                    assert(name.subrange(5, 8) =~= seq!['6', '4', '_']);
                }
            } else if info.bits == 16 {
                assert(name.subrange(1, 3) =~= seq!['1', '6']);
            } else if info.bits == 24 {
                assert(name.subrange(1, 3) =~= seq!['2', '4']);
            } else {
                assert(name.subrange(1, 3) =~= seq!['3', '2']);
            }
        }
    }
}

proof fn digits_read_back()
    ensures
        decimal_value(seq!['8']) == 8,
        decimal_value(seq!['1', '6']) == 16,
        decimal_value(seq!['2', '4']) == 24,
        decimal_value(seq!['3', '2']) == 32,
        decimal_value(seq!['6', '4']) == 64,
{
    reveal_with_fuel(decimal_value, 3);
    assert(seq!['8'].drop_last() =~= Seq::<char>::empty());
    assert(seq!['1', '6'].drop_last() =~= seq!['1']);
    assert(seq!['2', '4'].drop_last() =~= seq!['2']);
    assert(seq!['3', '2'].drop_last() =~= seq!['3']);
    assert(seq!['6', '4'].drop_last() =~= seq!['6']);
    assert(seq!['1'].drop_last() =~= Seq::<char>::empty());
    assert(seq!['2'].drop_last() =~= Seq::<char>::empty());
    assert(seq!['3'].drop_last() =~= Seq::<char>::empty());
    assert(seq!['6'].drop_last() =~= Seq::<char>::empty());
}

proof fn frame_divides(info: PCMInfo, size: nat)
    ensures
        sample_bytes(info) == Some(size) <==> info.nchannels > 0 && info.bytes_per_frame == size
            * info.nchannels,
{
    let frame = info.bytes_per_frame as int;
    let channels = info.nchannels as int;
    if channels > 0 {
        vstd::arithmetic::div_mod::lemma_fundamental_div_mod(frame, channels);
        assert(channels * (frame / channels) == (frame / channels) * channels)
            by (nonlinear_arith);
        if frame == size * info.nchannels {
            vstd::arithmetic::div_mod::lemma_fundamental_div_mod_converse(
                frame,
                channels,
                size as int,
                0,
            );
        }
    }
}

}
