use qd2::viewer::audio::format::aplay_format;
use qd2::viewer::audio::format::preferred_backends;
use qd2::viewer::audio::format::pw_play_format;
use qd2::viewer::audio::format::PCMInfo;
use qd2::viewer::audio::volume::apply_volume;
use qd2::viewer::audio::volume::Played;
use qd2::viewer::audio::volume::Volume;
use qd2::viewer::pixel::ByteOrder;

fn pcm_info(bits: u8, is_signed: bool, is_float: bool, bytes_per_frame: u32) -> PCMInfo {
    PCMInfo {
        bits,
        is_signed,
        is_float,
        freq: 48_000,
        nchannels: 2,
        bytes_per_frame,
        bytes_per_second: 96_000,
        be: false,
    }
}

#[test]
fn native_s16_prefers_pw_play_and_aplay() {
    let info = pcm_info(16, true, false, 4);
    let backends = preferred_backends(&info, ByteOrder::Little);

    assert_eq!(backends.len(), 2);
    assert_eq!(pw_play_format(&info, ByteOrder::Little), Some("s16"));
}

#[test]
fn packed_24_bit_uses_aplay_only() {
    let mut info = pcm_info(24, true, false, 6);
    info.be = false;

    assert_eq!(pw_play_format(&info, ByteOrder::Little), None);
    assert_eq!(aplay_format(&info).as_deref(), Some("S24_3LE"));
}

#[test]
fn muting_unsigned_audio_writes_midpoint_silence() {
    let info = pcm_info(8, false, false, 2);
    let volume = Volume {
        mute: true,
        volume: vec![255, 255],
    };

    assert_eq!(
        apply_volume(&info, &volume, vec![0x00, 0xff]),
        Played::Done(vec![0x80, 0x80])
    );
}

#[test]
fn signed_16_volume_is_scaled_per_channel() {
    let info = pcm_info(16, true, false, 4);
    let volume = Volume {
        mute: false,
        volume: vec![128, 255],
    };
    let left = 1_000i16.to_le_bytes();
    let right = 2_000i16.to_le_bytes();
    let input = vec![left[0], left[1], right[0], right[1]];

    let Played::Done(output) = apply_volume(&info, &volume, input) else {
        panic!("whole numbers are scaled at once");
    };
    let scaled_left = i16::from_le_bytes([output[0], output[1]]);
    let scaled_right = i16::from_le_bytes([output[2], output[3]]);

    assert!(scaled_left < 1_000);
    assert!(scaled_left > 400);
    assert_eq!(scaled_right, 2_000);
}
