use qd2::diagnostics::pipewire_sudo_environment_hint_from;

#[test]
fn diagnostics_sudo_pipewire_hint_is_suppressed_with_preserved_user_session_env() {
    assert_eq!(
        pipewire_sudo_environment_hint_from(
            Some("alice"),
            Some("1000"),
            Some("/run/user/1000"),
            Some("unix:path=/run/user/1000/bus"),
        ),
        None
    );
}

#[test]
fn diagnostics_sudo_pipewire_hint_is_emitted_when_root_session_env_is_used() {
    let hint =
        pipewire_sudo_environment_hint_from(Some("alice"), Some("1000"), Some("/run/user/0"), None)
            .expect("expected a sudo + PipeWire hint");

    assert!(hint.contains("alice"));
    assert!(hint.contains("--preserve-env"));
    assert!(hint.contains("QEMU D-Bus socket"));
}

#[test]
fn audio_sudo_pipewire_hint_is_suppressed_with_preserved_user_session_env() {
    assert_eq!(
        pipewire_sudo_environment_hint_from(
            Some("alice"),
            Some("1000"),
            Some("/run/user/1000"),
            Some("unix:path=/run/user/1000/bus"),
        ),
        None
    );
}

#[test]
fn audio_sudo_pipewire_hint_is_emitted_when_root_session_env_is_used() {
    let hint =
        pipewire_sudo_environment_hint_from(Some("alice"), Some("1000"), Some("/run/user/0"), None)
            .expect("expected a sudo + PipeWire hint");

    assert!(hint.contains("alice"));
    assert!(hint.contains("--preserve-env"));
    assert!(hint.contains("QEMU D-Bus socket"));
}
