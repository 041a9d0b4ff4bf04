use wyrd_shell::audio::{
    default_channels, is_source_target, keeps_source, request_plan, AudioCommand, AudioDeviceInfo,
    AudioRequestPlan, AudioStatus, FreshOverrides, OverrideUpdate, QueryGate, ServerRequest,
};

#[test]
fn test_is_source_target_detection() {
    assert!(is_source_target("@DEFAULT_AUDIO_SOURCE@"));
    assert!(is_source_target("mic"));
    assert!(is_source_target("built-in_microphone"));
    assert!(is_source_target("alsa_input.source.1"));

    assert!(!is_source_target("@DEFAULT_AUDIO_SINK@"));
    assert!(!is_source_target("speaker"));
    assert!(!is_source_target("headphones"));
    assert!(!is_source_target("alsa_output.pci"));
}

fn dev(name: &str, desc: &str, volume: u8, muted: bool, channels: u8) -> AudioDeviceInfo {
    AudioDeviceInfo {
        name: name.to_string(),
        description: desc.to_string(),
        volume,
        muted,
        is_default: false,
        channels,
    }
}

fn no_overrides() -> FreshOverrides {
    FreshOverrides {
        default_sink: None,
        default_source: None,
        sink_volume: None,
        source_volume: None,
        sink_muted: None,
        source_muted: None,
    }
}

fn sample_status() -> AudioStatus {
    let mut st = AudioStatus::default();
    st.commit_query(
        "speakers".to_string(),
        "mic".to_string(),
        vec![dev("hdmi", "HDMI", 30, false, 2), dev("speakers", "Speakers", 60, true, 6)],
        vec![dev("mic", "Microphone", 80, false, 1)],
        &no_overrides(),
    );
    st
}

#[test]
fn query_marks_the_default_and_copies_its_level() {
    let st = sample_status();
    assert_eq!(st.active_sink_name, "speakers");
    assert_eq!(st.active_sink_desc, "Speakers");
    assert_eq!(st.volume, 60);
    assert!(st.muted);
    assert!(!st.sinks[0].is_default);
    assert!(st.sinks[1].is_default);
    assert_eq!(st.mic_volume, 80);
    assert_eq!(st.active_source_desc, "Microphone");
}

#[test]
fn query_falls_back_to_first_device_and_honours_overrides() {
    let mut st = AudioStatus::default();
    let ov = FreshOverrides { sink_volume: Some(5), sink_muted: Some(false), ..no_overrides() };
    st.commit_query("gone".to_string(), String::new(), vec![dev("a", "A", 40, true, 2), dev("b", "B", 50, false, 2)], vec![], &ov);
    assert_eq!(st.active_sink_name, "a");
    assert!(st.sinks[0].is_default);
    assert_eq!(st.volume, 40);
    let ov2 = FreshOverrides { default_sink: Some("b".to_string()), sink_volume: Some(5), ..no_overrides() };
    st.commit_query("a".to_string(), String::new(), vec![dev("a", "A", 40, true, 2), dev("b", "B", 50, false, 2)], vec![], &ov2);
    assert_eq!(st.active_sink_name, "b");
    assert_eq!(st.volume, 5);
    assert_eq!(st.sinks[1].volume, 5);
}

#[test]
fn commands_change_the_right_device() {
    let mut st = sample_status();
    let e = st.apply(AudioCommand::SetSinkVolume { sink: "@DEFAULT_AUDIO_SINK@".to_string(), volume: 40 });
    assert!(e.announce);
    match e.request {
        ServerRequest::SinkVolume { target, channels } => {
            assert_eq!(target, "speakers");
            assert_eq!(channels, 6);
        }
        other => panic!("unexpected {:?}", other),
    }
    assert!(matches!(e.remember, OverrideUpdate::SinkVolume(40)));
    assert_eq!(st.volume, 40);
    assert!(!st.muted);
    assert_eq!(st.sinks[1].volume, 40);
    assert!(!st.sinks[1].muted);
    assert_eq!(st.sinks[0].volume, 30);

    let t = st.apply(AudioCommand::ToggleSinkMute { sink: String::new() });
    assert!(matches!(t.request, ServerRequest::SinkMute { mute: true, .. }));
    let t2 = st.apply(AudioCommand::ToggleSinkMute { sink: String::new() });
    assert!(matches!(t2.request, ServerRequest::SinkMute { mute: false, .. }));
    assert!(!st.muted);

    let d = st.apply(AudioCommand::SetDefaultSink("hdmi".to_string()));
    assert!(!d.announce);
    assert_eq!(st.active_sink_name, "hdmi");
    assert_eq!(st.active_sink_desc, "HDMI");
    assert!(st.sinks[0].is_default);
    assert!(!st.sinks[1].is_default);

    let v = st.apply(AudioCommand::SetSourceVolume { source: "mic".to_string(), volume: 0 });
    assert!(!v.announce);
    assert!(matches!(v.request, ServerRequest::SourceVolume { channels: 1, .. }));
    assert_eq!(st.mic_volume, 0);
}

#[test]
fn socket_requests_are_routed() {
    match request_plan("set_mute", "mic".to_string(), Some(true), None, 0) {
        AudioRequestPlan::Run(AudioCommand::SetSourceMute { source, mute }) => {
            assert_eq!(source, "mic");
            assert!(mute);
        }
        other => panic!("unexpected {:?}", other),
    }
    assert!(matches!(request_plan("set_volume", String::new(), None, None, 50), AudioRequestPlan::Run(AudioCommand::SetSinkVolume { volume: 50, .. })));
    assert!(matches!(request_plan("set_default", "sink".to_string(), None, Some("x".to_string()), 0), AudioRequestPlan::Run(AudioCommand::SetDefaultSink(_))));
    assert!(matches!(request_plan("set_default", "source".to_string(), None, None, 0), AudioRequestPlan::Run(AudioCommand::SetDefaultSource(_))));
    assert!(matches!(request_plan("status", String::new(), None, None, 0), AudioRequestPlan::Status));
    assert!(matches!(request_plan("bogus", String::new(), None, None, 0), AudioRequestPlan::Unknown));
}

#[test]
fn small_helpers() {
    assert_eq!(default_channels(), 2);
    assert!(keeps_source("alsa_input.usb"));
    assert!(!keeps_source("alsa_output.pci.monitor"));
    let mut g = QueryGate::new();
    assert!(g.begin());
    assert!(!g.begin());
    g.finish();
    assert!(g.take_rerun());
    assert!(!g.take_rerun());
}
