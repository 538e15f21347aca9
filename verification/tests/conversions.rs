//! Conversions between the values of the host and those of the wire.

use arcrelay_protocol::domain::{
    AppVolume,
    ClipboardContentKind,
    ClipboardLabel,
    ClipboardPolicy,
    ClipboardSummary,
    ClipboardSyncChangeKind,
    ConnectionConfig,
    CpuInfo,
    DeviceType,
    DiskInfo,
    GpuInfo,
    LocalDeviceInfo,
    MemoryInfo,
    NetworkStats,
    PlaybackAction,
    PlaybackInfo,
    ProcessInfo,
    ProcessSortBy,
    SpaceInfo,
    SystemSnapshot,
    VolumeInfo,
    WindowInfo,
};
use arcrelay_protocol::float_bits::{
    bounded_load, bounded_nonnegative, bounded_percent, bounded_percent_option, finite_or_none,
};
use arcrelay_protocol::proto;
use arcrelay_protocol::proto_msg::{
    app_volume_to_proto,
    change_kind_from_proto,
    change_kind_to_proto,
    clipboard_kind_from_proto,
    clipboard_kind_to_proto,
    clipboard_label_to_proto,
    clipboard_policy_to_proto,
    clipboard_summary_to_proto,
    connection_config_to_proto,
    device_type_to_proto,
    local_device_info_to_proto,
    playback_action_from_proto,
    playback_action_to_proto,
    playback_info_to_proto,
    process_info_to_proto,
    process_sort_from_proto,
    process_sort_to_proto,
    space_info_to_proto,
    system_snapshot_to_proto,
    volume_info_to_proto,
    window_info_to_proto,
};

fn bits32(value: f32) -> u32 {
    value.to_bits()
}

fn bits64(value: f64) -> u64 {
    value.to_bits()
}

#[test]
fn system_snapshot_conversion_preserves_nested_values() {
    let converted = system_snapshot_to_proto(SystemSnapshot {
        cpu: CpuInfo {
            usage_percent_bits: bits32(12.5),
            core_count: 8,
            temperature_celsius_bits: Some(bits32(61.0)),
            model_name: "Test CPU".into(),
        },
        memory: MemoryInfo {
            used_bytes: 40,
            total_bytes: 100,
            usage_percent_bits: bits32(40.0),
        },
        gpus: vec![GpuInfo {
            name: "GPU".into(),
            usage_percent_bits: Some(bits32(30.0)),
            temperature_celsius_bits: None,
        }],
        disks: vec![DiskInfo {
            name: "/".into(),
            used_bytes: 70,
            total_bytes: 100,
            usage_percent_bits: bits32(70.0),
        }],
        network: NetworkStats {
            download_bytes_per_sec: 123,
            upload_bytes_per_sec: 45,
        },
    });

    let cpu = converted.cpu.unwrap();
    assert_eq!((cpu.model_name.as_str(), cpu.core_count), ("Test CPU", 8));
    assert_eq!(converted.memory.unwrap().used_bytes, 40);
    assert_eq!(converted.gpus[0].name, "GPU");
    assert_eq!(f32::from_bits(converted.disks[0].usage_percent_bits), 70.0);
    assert_eq!(converted.network.unwrap().download_bytes_per_sec, 123);
}

#[test]
fn process_sort_conversion_covers_defaults_and_round_trips() {
    assert!(matches!(
        process_sort_from_proto(proto::ProcessSortBy::Unspecified),
        ProcessSortBy::Cpu
    ));
    for (domain, wire) in [
        (ProcessSortBy::Cpu, proto::ProcessSortBy::Cpu),
        (ProcessSortBy::Memory, proto::ProcessSortBy::Memory),
        (ProcessSortBy::Name, proto::ProcessSortBy::Name),
    ] {
        assert_eq!(process_sort_to_proto(domain), wire);
        assert!(matches!(
            (process_sort_from_proto(wire), domain),
            (ProcessSortBy::Cpu, ProcessSortBy::Cpu)
                | (ProcessSortBy::Memory, ProcessSortBy::Memory)
                | (ProcessSortBy::Name, ProcessSortBy::Name)
        ));
    }
    let process = process_info_to_proto(ProcessInfo {
        pid: 42,
        name: "worker".into(),
        cpu_percent_bits: bits32(1.5),
        memory_bytes: 2048,
    });
    assert_eq!(
        (process.pid, process.name.as_str(), process.memory_bytes),
        (42, "worker", 2048)
    );
}

#[test]
fn media_conversions_cover_all_actions_and_values() {
    assert!(matches!(
        playback_action_from_proto(proto::PlaybackAction::Unspecified),
        PlaybackAction::Play
    ));
    for (domain, wire) in [
        (PlaybackAction::Play, proto::PlaybackAction::Play),
        (PlaybackAction::Pause, proto::PlaybackAction::Pause),
        (PlaybackAction::Next, proto::PlaybackAction::Next),
        (PlaybackAction::Previous, proto::PlaybackAction::Previous),
        (
            PlaybackAction::SeekForward,
            proto::PlaybackAction::SeekForward,
        ),
        (
            PlaybackAction::SeekBackward,
            proto::PlaybackAction::SeekBackward,
        ),
    ] {
        assert_eq!(playback_action_to_proto(domain), wire);
        assert_eq!(
            playback_action_to_proto(playback_action_from_proto(wire)),
            wire
        );
    }
    let playback = playback_info_to_proto(PlaybackInfo {
        title: "Song".into(),
        artist: "Artist".into(),
        source_app: "Player".into(),
        position_secs_bits: bits64(2.5),
        duration_secs_bits: bits64(10.0),
        is_playing: true,
    });
    assert_eq!(
        playback.confidence,
        proto::MediaConfidence::Authoritative
    );
    assert_eq!(playback.title, "Song");
    assert_eq!(
        volume_info_to_proto(VolumeInfo {
            system_volume: 73,
            is_muted: true
        })
        .system_volume,
        73
    );
    assert_eq!(
        app_volume_to_proto(AppVolume {
            app_name: "Player".into(),
            volume: 64
        })
        .volume,
        64
    );
}

#[test]
fn clipboard_conversions_preserve_contract_fields() {
    for (domain, wire) in [
        (
            ClipboardContentKind::Text,
            proto::ClipboardContentKind::Text,
        ),
        (
            ClipboardContentKind::Html,
            proto::ClipboardContentKind::Html,
        ),
        (
            ClipboardContentKind::Image,
            proto::ClipboardContentKind::Image,
        ),
        (
            ClipboardContentKind::Files,
            proto::ClipboardContentKind::Files,
        ),
    ] {
        assert_eq!(clipboard_kind_to_proto(domain), wire);
    }
    let label = clipboard_label_to_proto(ClipboardLabel {
        id: "important".into(),
        name: "Important".into(),
        color: "red".into(),
        revision: 4,
        updated_by_device_id: "device".into(),
        deleted: true,
    });
    assert_eq!(
        (label.id.as_str(), label.revision, label.deleted),
        ("important", 4, true)
    );

    let policy = clipboard_policy_to_proto(ClipboardPolicy {
        history_enabled: false,
        max_items: 12,
        max_bytes: 345,
        retention_days: 6,
        save_sensitive: true,
    });
    assert_eq!(
        (policy.history_enabled, policy.max_items, policy.max_bytes),
        (false, 12, 345)
    );
    assert!(policy.save_sensitive);
}

#[test]
fn device_and_window_conversions_cover_every_variant() {
    for (domain, wire) in [
        (DeviceType::MacBook, proto::DeviceType::Macbook),
        (DeviceType::WindowsPC, proto::DeviceType::WindowsPc),
        (DeviceType::LinuxServer, proto::DeviceType::LinuxServer),
        (DeviceType::IPad, proto::DeviceType::Ipad),
        (DeviceType::IPhone, proto::DeviceType::Iphone),
        (DeviceType::Android, proto::DeviceType::Android),
        (DeviceType::Unknown, proto::DeviceType::Unspecified),
    ] {
        assert_eq!(device_type_to_proto(domain), wire);
    }
    let device = local_device_info_to_proto(LocalDeviceInfo {
        name: "Mac".into(),
        ip: "127.0.0.1".into(),
        app_version: "1.2.3".into(),
        port: 8765,
    });
    assert_eq!((device.name.as_str(), device.port), ("Mac", 8765));
    let config = connection_config_to_proto(ConnectionConfig {
        port: 9999,
        encrypted: true,
        auto_reconnect: false,
    });
    assert_eq!(
        (config.port, config.encrypted, config.auto_reconnect),
        (9999, true, false)
    );

    let window = window_info_to_proto(WindowInfo {
        window_id: 9,
        title: "Editor".into(),
        app_name: "IDE".into(),
        is_focused: true,
        thumbnail_png: vec![1, 2, 3],
        space_id: 2,
    });
    assert_eq!((window.window_id, window.space_id), (9, 2));
    assert!(window.thumbnail.is_none());
    let space = space_info_to_proto(SpaceInfo {
        space_id: 2,
        label: "Desktop 2".into(),
        is_active: true,
    });
    assert_eq!((space.label.as_str(), space.is_active), ("Desktop 2", true));
}

#[test]
fn percentages_are_bounded_and_finite() {
    assert_eq!(bounded_percent(bits32(12.5)), bits32(12.5));
    assert_eq!(bounded_percent(bits32(250.0)), bits32(100.0));
    assert_eq!(bounded_percent(bits32(-3.0)), bits32(0.0));
    assert_eq!(bounded_percent(bits32(f32::NAN)), bits32(0.0));
    assert_eq!(bounded_percent_option(Some(bits32(250.0))), Some(bits32(100.0)));
    assert_eq!(bounded_percent_option(None), None);
}

#[test]
fn loads_and_times_are_never_negative() {
    assert_eq!(bounded_load(bits32(250.0)), bits32(250.0));
    assert_eq!(bounded_load(bits32(-1.0)), bits32(0.0));
    assert_eq!(bounded_nonnegative(bits64(2.5)), bits64(2.5));
    assert_eq!(bounded_nonnegative(bits64(-2.5)), bits64(0.0));
    assert_eq!(bounded_nonnegative(bits64(f64::INFINITY)), bits64(0.0));
    assert_eq!(bounded_nonnegative(bits64(f64::NAN)), bits64(0.0));
}

#[test]
fn temperatures_must_be_finite() {
    assert_eq!(finite_or_none(Some(bits32(-40.0))), Some(bits32(-40.0)));
    assert_eq!(finite_or_none(Some(bits32(f32::INFINITY))), None);
    assert_eq!(finite_or_none(Some(bits32(f32::NAN))), None);
    assert_eq!(finite_or_none(None), None);
}

#[test]
fn clipboard_kinds_travel_both_ways() {
    for kind in [
        ClipboardContentKind::Text,
        ClipboardContentKind::Html,
        ClipboardContentKind::Image,
        ClipboardContentKind::Files,
    ] {
        assert_eq!(clipboard_kind_from_proto(clipboard_kind_to_proto(kind)), Some(kind));
    }
    assert_eq!(clipboard_kind_from_proto(proto::ClipboardContentKind::Unspecified), None);
    for kind in [
        ClipboardSyncChangeKind::Copy,
        ClipboardSyncChangeKind::Edit,
        ClipboardSyncChangeKind::Favorite,
        ClipboardSyncChangeKind::Label,
        ClipboardSyncChangeKind::Delete,
        ClipboardSyncChangeKind::Snapshot,
    ] {
        assert_eq!(change_kind_from_proto(change_kind_to_proto(kind)), Some(kind));
    }
    assert_eq!(change_kind_from_proto(proto::ClipboardSyncChangeKind::Unspecified), None);
}

#[test]
fn a_clipboard_entry_shows_its_summary() {
    let entry = clipboard_summary_to_proto(ClipboardSummary {
        id: 7,
        kind: ClipboardContentKind::Image,
        preview: "shot".into(),
        source_app: Some("Camera".into()),
        captured_at_ms: 99,
        size_bytes: 12,
        item_count: 1,
        width: Some(3),
        height: Some(4),
        sensitive: true,
        favorite: true,
        copy_count: 2,
        available: true,
        labels: vec![],
    });
    assert_eq!((entry.id, entry.timestamp_ms, entry.copy_count), (7, 99, 2));
    assert_eq!(entry.kind, proto::ClipboardContentKind::Image);
    assert_eq!((entry.width, entry.height), (Some(3), Some(4)));
    assert_eq!(entry.source_app.as_deref(), Some("Camera"));
    assert!(entry.sensitive && entry.favorite && entry.available);
}
