use qd2::diagnostics::SessionEnvironment;
use qd2::error::Failure;
use qd2::viewer::audio::format::aplay_format;
use qd2::viewer::audio::format::bytes_per_sample;
use qd2::viewer::audio::format::describe_pcm_info;
use qd2::viewer::audio::format::preferred_backends;
use qd2::viewer::audio::format::pw_play_format;
use qd2::viewer::audio::format::AudioBackend;
use qd2::viewer::audio::format::PCMInfo;
use qd2::viewer::audio::playback::backend_line;
use qd2::viewer::audio::playback::AudioHint;
use qd2::viewer::audio::playback::AudioStep;
use qd2::viewer::audio::playback::AudioStreamWorker;
use qd2::viewer::audio::volume::apply_volume;
use qd2::viewer::audio::volume::float_samples;
use qd2::viewer::audio::volume::FloatSample;
use qd2::viewer::audio::volume::Played;
use qd2::viewer::audio::volume::Volume;
use qd2::viewer::pixel::ByteOrder;

fn info(bits: u8, is_signed: bool, is_float: bool, nchannels: u8, bytes_per_frame: u32) -> PCMInfo {
    PCMInfo {
        bits,
        is_signed,
        is_float,
        freq: 44_100,
        nchannels,
        bytes_per_frame,
        bytes_per_second: 44_100 * bytes_per_frame,
        be: false,
    }
}

fn at_level(level: u8) -> Volume {
    Volume {
        mute: false,
        volume: vec![level],
    }
}

fn played(info: &PCMInfo, volume: &Volume, data: Vec<u8>) -> Vec<u8> {
    match apply_volume(info, volume, data) {
        Played::Done(played) => played,
        Played::Multiply { .. } => panic!("there is something left to multiply"),
    }
}

#[test]
fn whole_numbers_scale_as_real_ones_do() {
    for level in [0u8, 1, 2, 64, 127, 128, 200, 254, 255] {
        let factor = f64::from(level) / 255.0;
        for value in 0..=255u8 {
            let signed = (f64::from(value as i8) * factor).round() as i8;
            assert_eq!(
                played(&info(8, true, false, 1, 1), &at_level(level), vec![value]),
                vec![signed as u8]
            );
            let unsigned = ((f64::from(value) - 128.0) * factor + 128.0)
                .round()
                .clamp(0.0, 255.0) as u8;
            assert_eq!(
                played(&info(8, false, false, 1, 1), &at_level(level), vec![value]),
                vec![unsigned]
            );
        }
        for value in (i16::MIN..=i16::MAX).step_by(97) {
            let expected = (f64::from(value) * factor).round() as i16;
            assert_eq!(
                played(
                    &info(16, true, false, 1, 2),
                    &at_level(level),
                    value.to_le_bytes().to_vec()
                ),
                expected.to_le_bytes().to_vec()
            );
            let raw = value as u16;
            let expected = ((f64::from(raw) - 32768.0) * factor + 32768.0)
                .round()
                .clamp(0.0, 65535.0) as u16;
            let mut big = info(16, false, false, 1, 2);
            big.be = true;
            assert_eq!(
                played(&big, &at_level(level), raw.to_be_bytes().to_vec()),
                expected.to_be_bytes().to_vec()
            );
        }
        for value in (i32::MIN..=i32::MAX).step_by(99_999_989) {
            let expected = (f64::from(value) * factor).round() as i32;
            assert_eq!(
                played(
                    &info(32, true, false, 1, 4),
                    &at_level(level),
                    value.to_le_bytes().to_vec()
                ),
                expected.to_le_bytes().to_vec()
            );
            let raw = value as u32;
            let expected = ((raw as f64 - 2_147_483_648.0) * factor + 2_147_483_648.0)
                .round()
                .clamp(0.0, 4_294_967_295.0) as u32;
            assert_eq!(
                played(
                    &info(32, false, false, 1, 4),
                    &at_level(level),
                    raw.to_le_bytes().to_vec()
                ),
                expected.to_le_bytes().to_vec()
            );
        }
    }
}

#[test]
fn silence_is_in_the_middle_of_unsigned_ranges() {
    let mute = Volume {
        mute: true,
        volume: Vec::new(),
    };
    assert_eq!(
        played(&info(16, false, false, 1, 2), &mute, vec![1, 2]),
        vec![0x00, 0x80]
    );
    assert_eq!(
        played(&info(24, false, false, 1, 3), &mute, vec![1, 2, 3]),
        vec![0x00, 0x00, 0x80]
    );
    let mut big = info(32, false, false, 1, 4);
    big.be = true;
    assert_eq!(
        played(&big, &mute, vec![1, 2, 3, 4]),
        vec![0x80, 0x00, 0x00, 0x00]
    );
    assert_eq!(
        played(&info(16, true, false, 1, 2), &mute, vec![1, 2]),
        vec![0, 0]
    );
    assert_eq!(
        played(&info(64, false, true, 1, 8), &mute, vec![9; 8]),
        vec![0; 8]
    );
    let once = played(&info(8, false, false, 2, 2), &mute, vec![1, 2, 3, 4, 5]);
    assert_eq!(once, vec![0x80, 0x80, 0x80, 0x80, 5]);
    assert_eq!(
        played(&info(8, false, false, 2, 2), &mute, once.clone()),
        once
    );
}

#[test]
fn other_samples_are_left_alone() {
    let half = at_level(128);
    let packed = vec![1, 2, 3, 4, 5, 6];
    assert_eq!(
        played(&info(24, true, false, 2, 6), &half, packed.clone()),
        packed
    );
    assert_eq!(
        played(&info(16, true, false, 0, 2), &half, packed.clone()),
        packed
    );
    assert_eq!(
        played(&info(16, true, false, 2, 3), &half, packed.clone()),
        packed
    );
    assert_eq!(
        played(&info(16, true, false, 2, 0), &half, packed.clone()),
        packed
    );
    assert_eq!(
        played(&info(16, true, false, 1, 2), &at_level(255), packed.clone()),
        packed
    );
}

#[test]
fn the_last_level_counts_for_further_channels() {
    let volume = Volume {
        mute: false,
        volume: vec![255, 0],
    };
    assert_eq!(
        played(&info(8, true, false, 3, 3), &volume, vec![10, 20, 30, 40]),
        vec![10, 0, 0, 40]
    );
}

#[test]
fn floating_point_samples_are_listed_with_their_levels() {
    let volume = Volume {
        mute: false,
        volume: vec![10, 20],
    };
    let format = info(32, false, true, 2, 8);
    assert_eq!(
        float_samples(&format, &volume, 17),
        vec![
            FloatSample { at: 0, width: 4, level: 10 },
            FloatSample { at: 4, width: 4, level: 20 },
            FloatSample { at: 8, width: 4, level: 10 },
            FloatSample { at: 12, width: 4, level: 20 },
        ]
    );
    assert!(float_samples(&format, &at_level(255), 16).is_empty());
    assert!(float_samples(&info(16, true, false, 2, 4), &volume, 16).is_empty());
    let muted = Volume {
        mute: true,
        volume: vec![10],
    };
    assert!(float_samples(&format, &muted, 16).is_empty());
}

#[test]
fn floating_point_chunks_are_handed_back_with_what_is_left_to_multiply() {
    let volume = Volume {
        mute: false,
        volume: vec![10, 255],
    };
    let format = info(32, false, true, 2, 8);
    let chunk: Vec<u8> = (0..11).collect();
    assert_eq!(
        apply_volume(&format, &volume, chunk.clone()),
        Played::Multiply {
            data: chunk.clone(),
            samples: vec![
                FloatSample { at: 0, width: 4, level: 10 },
                FloatSample { at: 4, width: 4, level: 255 },
            ],
        }
    );
    assert_eq!(played(&format, &at_level(255), chunk.clone()), chunk);
    assert_eq!(played(&format, &volume, vec![1; 7]), vec![1; 7]);
    let packed = info(16, false, true, 2, 4);
    assert_eq!(played(&packed, &volume, chunk.clone()), chunk);
}

#[test]
fn players_are_told_the_format() {
    let mut big = info(16, true, false, 2, 4);
    big.be = true;
    assert_eq!(pw_play_format(&big, ByteOrder::Little), None);
    assert_eq!(pw_play_format(&big, ByteOrder::Big), Some("s16"));
    assert_eq!(aplay_format(&big).as_deref(), Some("S16_BE"));
    assert_eq!(
        preferred_backends(&big, ByteOrder::Little),
        vec![AudioBackend::Aplay]
    );

    let names = [
        (info(8, false, false, 1, 1), Some("u8"), Some("U8")),
        (info(8, true, false, 1, 1), Some("s8"), Some("S8")),
        (info(16, false, false, 1, 2), None, Some("U16_LE")),
        (info(24, false, false, 1, 4), None, Some("U24_LE")),
        (info(32, true, false, 1, 4), Some("s32"), Some("S32_LE")),
        (info(32, true, true, 1, 4), Some("f32"), Some("FLOAT_LE")),
        (info(64, false, true, 1, 8), Some("f64"), Some("FLOAT64_LE")),
        (info(32, true, false, 1, 8), Some("s32"), None),
        (info(12, true, false, 1, 2), None, None),
    ];
    for (format, pw_play, aplay) in names {
        assert_eq!(pw_play_format(&format, ByteOrder::Little), pw_play);
        assert_eq!(aplay_format(&format).as_deref(), aplay);
    }
    assert_eq!(bytes_per_sample(&info(16, true, false, 2, 4)), Some(2));
    assert_eq!(bytes_per_sample(&info(16, true, false, 0, 4)), None);

    assert_eq!(
        describe_pcm_info(&big),
        "16-bit signed BE 44100 Hz, 2 channel(s)"
    );
    assert_eq!(
        describe_pcm_info(&info(8, false, false, 1, 1)),
        "8-bit unsigned 44100 Hz, 1 channel(s)"
    );
}

#[test]
fn players_are_started_with_their_arguments() {
    let format = info(16, true, false, 2, 4);
    let command = AudioBackend::PwPlay
        .command(&format, "demo audio stream 1", ByteOrder::Little)
        .expect("pw-play knows the format");
    assert_eq!(command.program, "pw-play");
    assert_eq!(
        command.arguments,
        vec![
            "--raw", "--rate", "44100", "--channels", "2", "--format", "s16", "--media-role",
            "Game", "-"
        ]
    );
    assert_eq!(
        command.environment[3],
        (
            "PULSE_PROP_media.name".to_owned(),
            "demo audio stream 1".to_owned()
        )
    );

    let command = AudioBackend::Aplay
        .command(&format, "x", ByteOrder::Little)
        .expect("aplay knows the format");
    assert_eq!(
        command.arguments,
        vec!["-q", "-t", "raw", "-r", "44100", "-c", "2", "-f", "S16_LE"]
    );

    let odd = info(24, true, false, 1, 3);
    assert_eq!(
        AudioBackend::PwPlay
            .command(&odd, "x", ByteOrder::Little)
            .expect_err("pw-play does not know the format")
            .to_string(),
        "`pw-play` does not support this PCM format"
    );
}

#[test]
fn a_failing_player_is_replaced_once() {
    let format = info(16, true, false, 2, 4);
    let (mut worker, message) = AudioStreamWorker::new("demo", 7, format, ByteOrder::Little);
    assert_eq!(message, None);
    assert_eq!(worker.label(), "demo audio stream 7");

    assert_eq!(worker.chunk(), AudioStep::Start(AudioBackend::PwPlay));
    let (line, step) = worker.started(Ok(()));
    assert_eq!(
        line,
        "QD2 audio: demo audio stream 7 using `pw-play` for 16-bit signed LE 44100 Hz, 2 channel(s)"
    );
    assert_eq!(step, AudioStep::Write);
    assert_eq!(worker.wrote(Ok(())), (None, AudioStep::Finish));

    assert_eq!(worker.chunk(), AudioStep::Write);
    let (line, step) = worker.wrote(Err(Failure::of("pipe").context("broken".to_owned())));
    assert_eq!(
        line.as_deref(),
        Some("QD2 audio: demo audio stream 7 backend `pw-play` failed: broken")
    );
    assert_eq!(step, AudioStep::Replace(AudioBackend::Aplay));
    assert_eq!(worker.started(Ok(())).1, AudioStep::Write);
    let (line, step) = worker.wrote(Err(Failure::of("broken")));
    assert_eq!(
        line.as_deref(),
        Some("QD2 audio: demo audio stream 7 backend `aplay` failed after fallback: broken")
    );
    assert_eq!(step, AudioStep::Abandon);
    assert_eq!(worker.chunk(), AudioStep::Finish);
}

#[test]
fn a_player_that_does_not_start_is_passed_over() {
    let format = info(16, true, false, 2, 4);
    let (mut worker, _) = AudioStreamWorker::new("demo", 7, format, ByteOrder::Little);
    worker.set_enabled(false);
    assert_eq!(worker.chunk(), AudioStep::Finish);
    worker.set_enabled(true);
    assert_eq!(worker.chunk(), AudioStep::Start(AudioBackend::PwPlay));
    let (line, step) = worker.started(Err(Failure::of("missing").context("no spawn".to_owned())));
    assert_eq!(
        line,
        "QD2 audio: could not start `pw-play` for demo audio stream 7: no spawn: missing"
    );
    assert_eq!(step, AudioStep::Start(AudioBackend::Aplay));
    assert_eq!(worker.started(Err(Failure::of("missing"))).1, AudioStep::Finish);
    assert_eq!(worker.chunk(), AudioStep::Finish);
}

#[test]
fn streams_that_no_player_knows_are_reported() {
    let odd = info(12, true, false, 1, 2);
    let (mut worker, message) = AudioStreamWorker::new("demo", 7, odd, ByteOrder::Little);
    assert_eq!(
        message.as_deref(),
        Some("QD2 audio: demo stream 7 uses an unsupported PCM format (12-bit signed LE 44100 Hz, 1 channel(s))")
    );
    assert_eq!(worker.chunk(), AudioStep::Finish);
    worker.set_volume(at_level(3));
    assert_eq!(worker.volume().volume, vec![3]);
    assert_eq!(worker.info().bits, 12);
}

#[test]
fn the_hint_about_sudo_is_given_once() {
    let environment = SessionEnvironment {
        wayland_display: None,
        display: None,
        session_type: None,
        runtime_dir: Some("/run/user/0".to_owned()),
        sudo_user: Some("alice".to_owned()),
        sudo_uid: Some("1000".to_owned()),
        dbus_session_bus: None,
    };
    let mut hint = AudioHint::default();
    assert_eq!(
        hint.hint_for(AudioBackend::Aplay, Some("Host is down"), &environment),
        None
    );
    assert_eq!(
        hint.hint_for(AudioBackend::PwPlay, Some("all is well"), &environment),
        None
    );
    let text = hint
        .hint_for(
            AudioBackend::PwPlay,
            Some("error: Host is down"),
            &environment,
        )
        .expect("the hint is due");
    assert!(text.contains("alice"));
    assert_eq!(hint.hint_for(AudioBackend::PwPlay, None, &environment), None);
    assert_eq!(
        backend_line(AudioBackend::PwPlay, "demo", "oops"),
        "QD2 audio backend `pw-play` (demo): oops"
    );
}
