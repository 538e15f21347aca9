//! Adapters from what the host tells of itself to what travels.

use vstd::prelude::*;

use crate::domain;
use crate::proto;

verus! {

/// A processor as it travels.
pub open spec fn wire_cpu_info(cpu: domain::CpuInfo) -> proto::CpuInfo {
    proto::CpuInfo {
        usage_percent_bits: cpu.usage_percent_bits,
        core_count: cpu.core_count,
        temperature_celsius_bits: cpu.temperature_celsius_bits,
        model_name: cpu.model_name,
    }
}

/// A processor as it travels.
pub fn cpu_info_to_proto(cpu: domain::CpuInfo) -> (r: proto::CpuInfo)
    ensures
        r == wire_cpu_info(cpu),
{
    proto::CpuInfo {
        usage_percent_bits: cpu.usage_percent_bits,
        core_count: cpu.core_count,
        temperature_celsius_bits: cpu.temperature_celsius_bits,
        model_name: cpu.model_name,
    }
}

/// Memory use as it travels.
pub open spec fn wire_memory_info(memory: domain::MemoryInfo) -> proto::MemoryInfo {
    proto::MemoryInfo {
        used_bytes: memory.used_bytes,
        total_bytes: memory.total_bytes,
        usage_percent_bits: memory.usage_percent_bits,
    }
}

/// Memory use as it travels.
pub fn memory_info_to_proto(memory: domain::MemoryInfo) -> (r: proto::MemoryInfo)
    ensures
        r == wire_memory_info(memory),
{
    proto::MemoryInfo {
        used_bytes: memory.used_bytes,
        total_bytes: memory.total_bytes,
        usage_percent_bits: memory.usage_percent_bits,
    }
}

/// A graphics processor as it travels.
pub open spec fn wire_gpu_info(gpu: domain::GpuInfo) -> proto::GpuInfo {
    proto::GpuInfo {
        name: gpu.name,
        usage_percent_bits: gpu.usage_percent_bits,
        temperature_celsius_bits: gpu.temperature_celsius_bits,
    }
}

/// A graphics processor as it travels.
pub fn gpu_info_to_proto(gpu: domain::GpuInfo) -> (r: proto::GpuInfo)
    ensures
        r == wire_gpu_info(gpu),
{
    proto::GpuInfo {
        name: gpu.name,
        usage_percent_bits: gpu.usage_percent_bits,
        temperature_celsius_bits: gpu.temperature_celsius_bits,
    }
}

/// A disk as it travels.
pub open spec fn wire_disk_info(disk: domain::DiskInfo) -> proto::DiskInfo {
    proto::DiskInfo {
        name: disk.name,
        used_bytes: disk.used_bytes,
        total_bytes: disk.total_bytes,
        usage_percent_bits: disk.usage_percent_bits,
    }
}

/// A disk as it travels.
pub fn disk_info_to_proto(disk: domain::DiskInfo) -> (r: proto::DiskInfo)
    ensures
        r == wire_disk_info(disk),
{
    proto::DiskInfo {
        name: disk.name,
        used_bytes: disk.used_bytes,
        total_bytes: disk.total_bytes,
        usage_percent_bits: disk.usage_percent_bits,
    }
}

/// Network use as it travels.
pub open spec fn wire_network_stats(network: domain::NetworkStats) -> proto::NetworkStats {
    proto::NetworkStats {
        download_bytes_per_sec: network.download_bytes_per_sec,
        upload_bytes_per_sec: network.upload_bytes_per_sec,
    }
}

/// Network use as it travels.
pub fn network_stats_to_proto(network: domain::NetworkStats) -> (r: proto::NetworkStats)
    ensures
        r == wire_network_stats(network),
{
    proto::NetworkStats {
        download_bytes_per_sec: network.download_bytes_per_sec,
        upload_bytes_per_sec: network.upload_bytes_per_sec,
    }
}

/// The state of a system as it travels: every part of it is present.
pub fn system_snapshot_to_proto(snapshot: domain::SystemSnapshot) -> (r: proto::SystemSnapshot)
    ensures
        r.cpu == Some(wire_cpu_info(snapshot.cpu)),
        r.memory == Some(wire_memory_info(snapshot.memory)),
        r.gpus@ == snapshot.gpus@.map_values(|gpu: domain::GpuInfo| wire_gpu_info(gpu)),
        r.disks@ == snapshot.disks@.map_values(|disk: domain::DiskInfo| wire_disk_info(disk)),
        r.network == Some(wire_network_stats(snapshot.network)),
{
    let ghost gpus_in = snapshot.gpus@;
    let ghost disks_in = snapshot.disks@;
    let mut gpus: Vec<proto::GpuInfo> = Vec::new();
    for gpu in it: snapshot.gpus.into_iter()
        invariant
            it.seq() == gpus_in,
            gpus@ == gpus_in.take(it.index()).map_values(
                |gpu: domain::GpuInfo| wire_gpu_info(gpu),
            ),
    {
        gpus.push(gpu_info_to_proto(gpu));
        assert(gpus@ =~= gpus_in.take(it.index() + 1).map_values(
            |gpu: domain::GpuInfo| wire_gpu_info(gpu),
        ));
    }
    let mut disks: Vec<proto::DiskInfo> = Vec::new();
    for disk in it: snapshot.disks.into_iter()
        invariant
            it.seq() == disks_in,
            disks@ == disks_in.take(it.index()).map_values(
                |disk: domain::DiskInfo| wire_disk_info(disk),
            ),
    {
        disks.push(disk_info_to_proto(disk));
        assert(disks@ =~= disks_in.take(it.index() + 1).map_values(
            |disk: domain::DiskInfo| wire_disk_info(disk),
        ));
    }
    proof {
        assert(gpus_in.take(gpus_in.len() as int) =~= gpus_in);
        assert(disks_in.take(disks_in.len() as int) =~= disks_in);
    }
    proto::SystemSnapshot {
        cpu: Some(cpu_info_to_proto(snapshot.cpu)),
        memory: Some(memory_info_to_proto(snapshot.memory)),
        gpus,
        disks,
        network: Some(network_stats_to_proto(snapshot.network)),
    }
}

/// A process as it travels.
pub open spec fn wire_process_info(process: domain::ProcessInfo) -> proto::ProcessInfo {
    proto::ProcessInfo {
        pid: process.pid,
        name: process.name,
        cpu_percent_bits: process.cpu_percent_bits,
        memory_bytes: process.memory_bytes,
    }
}

/// A process as it travels.
pub fn process_info_to_proto(process: domain::ProcessInfo) -> (r: proto::ProcessInfo)
    ensures
        r == wire_process_info(process),
{
    proto::ProcessInfo {
        pid: process.pid,
        name: process.name,
        cpu_percent_bits: process.cpu_percent_bits,
        memory_bytes: process.memory_bytes,
    }
}

/// The order of processes as it travels.
pub open spec fn wire_process_sort(sort: domain::ProcessSortBy) -> proto::ProcessSortBy {
    match sort {
        domain::ProcessSortBy::Cpu => proto::ProcessSortBy::Cpu,
        domain::ProcessSortBy::Memory => proto::ProcessSortBy::Memory,
        domain::ProcessSortBy::Name => proto::ProcessSortBy::Name,
    }
}

/// The order of processes as it is meant: by processor use unless it says
/// otherwise.
pub open spec fn meant_process_sort(sort: proto::ProcessSortBy) -> domain::ProcessSortBy {
    match sort {
        proto::ProcessSortBy::Unspecified | proto::ProcessSortBy::Cpu => domain::ProcessSortBy::Cpu,
        proto::ProcessSortBy::Memory => domain::ProcessSortBy::Memory,
        proto::ProcessSortBy::Name => domain::ProcessSortBy::Name,
    }
}

/// The order of processes as it travels.
pub fn process_sort_to_proto(sort: domain::ProcessSortBy) -> (r: proto::ProcessSortBy)
    ensures
        r == wire_process_sort(sort),
{
    match sort {
        domain::ProcessSortBy::Cpu => proto::ProcessSortBy::Cpu,
        domain::ProcessSortBy::Memory => proto::ProcessSortBy::Memory,
        domain::ProcessSortBy::Name => proto::ProcessSortBy::Name,
    }
}

/// The order of processes as it is meant.
pub fn process_sort_from_proto(sort: proto::ProcessSortBy) -> (r: domain::ProcessSortBy)
    ensures
        r == meant_process_sort(sort),
{
    match sort {
        proto::ProcessSortBy::Unspecified | proto::ProcessSortBy::Cpu => domain::ProcessSortBy::Cpu,
        proto::ProcessSortBy::Memory => domain::ProcessSortBy::Memory,
        proto::ProcessSortBy::Name => domain::ProcessSortBy::Name,
    }
}

/// An order of processes survives its travels.
pub proof fn lemma_process_sort_round_trip(sort: domain::ProcessSortBy)
    ensures
        meant_process_sort(wire_process_sort(sort)) == sort,
{
}

/// What is playing as it travels: what the host tells is authoritative.
pub open spec fn wire_playback_info(playback: domain::PlaybackInfo) -> proto::PlaybackInfo {
    proto::PlaybackInfo {
        title: playback.title,
        artist: playback.artist,
        source_app: playback.source_app,
        position_secs_bits: playback.position_secs_bits,
        duration_secs_bits: playback.duration_secs_bits,
        is_playing: playback.is_playing,
        confidence: proto::MediaConfidence::Authoritative,
    }
}

/// What is playing as it travels.
pub fn playback_info_to_proto(playback: domain::PlaybackInfo) -> (r: proto::PlaybackInfo)
    ensures
        r == wire_playback_info(playback),
{
    proto::PlaybackInfo {
        title: playback.title,
        artist: playback.artist,
        source_app: playback.source_app,
        position_secs_bits: playback.position_secs_bits,
        duration_secs_bits: playback.duration_secs_bits,
        is_playing: playback.is_playing,
        confidence: proto::MediaConfidence::Authoritative,
    }
}

/// A volume as it travels.
pub fn volume_info_to_proto(volume: domain::VolumeInfo) -> (r: proto::VolumeInfo)
    ensures
        r.system_volume == volume.system_volume,
        r.is_muted == volume.is_muted,
{
    proto::VolumeInfo { system_volume: volume.system_volume as u32, is_muted: volume.is_muted }
}

/// The volume of one application as it travels.
pub fn app_volume_to_proto(volume: domain::AppVolume) -> (r: proto::AppVolume)
    ensures
        r.app_name == volume.app_name,
        r.volume == volume.volume,
{
    proto::AppVolume { app_name: volume.app_name, volume: volume.volume as u32 }
}

/// A playback action as it travels.
pub open spec fn wire_playback_action(action: domain::PlaybackAction) -> proto::PlaybackAction {
    match action {
        domain::PlaybackAction::Play => proto::PlaybackAction::Play,
        domain::PlaybackAction::Pause => proto::PlaybackAction::Pause,
        domain::PlaybackAction::Next => proto::PlaybackAction::Next,
        domain::PlaybackAction::Previous => proto::PlaybackAction::Previous,
        domain::PlaybackAction::SeekForward => proto::PlaybackAction::SeekForward,
        domain::PlaybackAction::SeekBackward => proto::PlaybackAction::SeekBackward,
    }
}

/// A playback action as it is meant: to play unless it says otherwise.
pub open spec fn meant_playback_action(action: proto::PlaybackAction) -> domain::PlaybackAction {
    match action {
        proto::PlaybackAction::Unspecified | proto::PlaybackAction::Play => {
            domain::PlaybackAction::Play
        },
        proto::PlaybackAction::Pause => domain::PlaybackAction::Pause,
        proto::PlaybackAction::Next => domain::PlaybackAction::Next,
        proto::PlaybackAction::Previous => domain::PlaybackAction::Previous,
        proto::PlaybackAction::SeekForward => domain::PlaybackAction::SeekForward,
        proto::PlaybackAction::SeekBackward => domain::PlaybackAction::SeekBackward,
    }
}

/// A playback action as it travels.
pub fn playback_action_to_proto(action: domain::PlaybackAction) -> (r: proto::PlaybackAction)
    ensures
        r == wire_playback_action(action),
{
    match action {
        domain::PlaybackAction::Play => proto::PlaybackAction::Play,
        domain::PlaybackAction::Pause => proto::PlaybackAction::Pause,
        domain::PlaybackAction::Next => proto::PlaybackAction::Next,
        domain::PlaybackAction::Previous => proto::PlaybackAction::Previous,
        domain::PlaybackAction::SeekForward => proto::PlaybackAction::SeekForward,
        domain::PlaybackAction::SeekBackward => proto::PlaybackAction::SeekBackward,
    }
}

/// A playback action as it is meant.
pub fn playback_action_from_proto(action: proto::PlaybackAction) -> (r: domain::PlaybackAction)
    ensures
        r == meant_playback_action(action),
{
    match action {
        proto::PlaybackAction::Unspecified | proto::PlaybackAction::Play => {
            domain::PlaybackAction::Play
        },
        proto::PlaybackAction::Pause => domain::PlaybackAction::Pause,
        proto::PlaybackAction::Next => domain::PlaybackAction::Next,
        proto::PlaybackAction::Previous => domain::PlaybackAction::Previous,
        proto::PlaybackAction::SeekForward => domain::PlaybackAction::SeekForward,
        proto::PlaybackAction::SeekBackward => domain::PlaybackAction::SeekBackward,
    }
}

/// A playback action survives its travels.
pub proof fn lemma_playback_action_round_trip(action: domain::PlaybackAction)
    ensures
        meant_playback_action(wire_playback_action(action)) == action,
{
}

/// The kind of a clipboard entry as it travels.
pub open spec fn wire_clipboard_kind(kind: domain::ClipboardContentKind) ->
    proto::ClipboardContentKind {
    match kind {
        domain::ClipboardContentKind::Text => proto::ClipboardContentKind::Text,
        domain::ClipboardContentKind::Html => proto::ClipboardContentKind::Html,
        domain::ClipboardContentKind::Image => proto::ClipboardContentKind::Image,
        domain::ClipboardContentKind::Files => proto::ClipboardContentKind::Files,
    }
}

/// The kind of a clipboard entry as it travels.
pub fn clipboard_kind_to_proto(kind: domain::ClipboardContentKind) -> (r:
    proto::ClipboardContentKind)
    ensures
        r == wire_clipboard_kind(kind),
{
    match kind {
        domain::ClipboardContentKind::Text => proto::ClipboardContentKind::Text,
        domain::ClipboardContentKind::Html => proto::ClipboardContentKind::Html,
        domain::ClipboardContentKind::Image => proto::ClipboardContentKind::Image,
        domain::ClipboardContentKind::Files => proto::ClipboardContentKind::Files,
    }
}

/// The kind of a clipboard entry as it is meant, if it is one.
pub open spec fn meant_clipboard_kind(kind: proto::ClipboardContentKind) -> Option<
    domain::ClipboardContentKind,
> {
    match kind {
        proto::ClipboardContentKind::Text => Some(domain::ClipboardContentKind::Text),
        proto::ClipboardContentKind::Html => Some(domain::ClipboardContentKind::Html),
        proto::ClipboardContentKind::Image => Some(domain::ClipboardContentKind::Image),
        proto::ClipboardContentKind::Files => Some(domain::ClipboardContentKind::Files),
        proto::ClipboardContentKind::Unspecified => None,
    }
}

/// The kind of a clipboard entry as it is meant, if it is one.
pub fn clipboard_kind_from_proto(kind: proto::ClipboardContentKind) -> (r: Option<
    domain::ClipboardContentKind,
>)
    ensures
        r == meant_clipboard_kind(kind),
{
    match kind {
        proto::ClipboardContentKind::Text => Some(domain::ClipboardContentKind::Text),
        proto::ClipboardContentKind::Html => Some(domain::ClipboardContentKind::Html),
        proto::ClipboardContentKind::Image => Some(domain::ClipboardContentKind::Image),
        proto::ClipboardContentKind::Files => Some(domain::ClipboardContentKind::Files),
        proto::ClipboardContentKind::Unspecified => None,
    }
}

/// What happened to a clipboard entry, as it travels.
pub open spec fn wire_change_kind(kind: domain::ClipboardSyncChangeKind) ->
    proto::ClipboardSyncChangeKind {
    match kind {
        domain::ClipboardSyncChangeKind::Copy => proto::ClipboardSyncChangeKind::Copy,
        domain::ClipboardSyncChangeKind::Edit => proto::ClipboardSyncChangeKind::Edit,
        domain::ClipboardSyncChangeKind::Favorite => proto::ClipboardSyncChangeKind::Favorite,
        domain::ClipboardSyncChangeKind::Label => proto::ClipboardSyncChangeKind::Label,
        domain::ClipboardSyncChangeKind::Delete => proto::ClipboardSyncChangeKind::Delete,
        domain::ClipboardSyncChangeKind::Snapshot => proto::ClipboardSyncChangeKind::Snapshot,
    }
}

/// What happened to a clipboard entry, as it is meant.
pub open spec fn meant_change_kind(kind: proto::ClipboardSyncChangeKind) -> Option<
    domain::ClipboardSyncChangeKind,
> {
    match kind {
        proto::ClipboardSyncChangeKind::Copy => Some(domain::ClipboardSyncChangeKind::Copy),
        proto::ClipboardSyncChangeKind::Edit => Some(domain::ClipboardSyncChangeKind::Edit),
        proto::ClipboardSyncChangeKind::Favorite => {
            Some(domain::ClipboardSyncChangeKind::Favorite)
        },
        proto::ClipboardSyncChangeKind::Label => Some(domain::ClipboardSyncChangeKind::Label),
        proto::ClipboardSyncChangeKind::Delete => Some(domain::ClipboardSyncChangeKind::Delete),
        proto::ClipboardSyncChangeKind::Snapshot => {
            Some(domain::ClipboardSyncChangeKind::Snapshot)
        },
        proto::ClipboardSyncChangeKind::Unspecified => None,
    }
}

/// What happened to a clipboard entry, as it travels.
pub fn change_kind_to_proto(kind: domain::ClipboardSyncChangeKind) -> (r:
    proto::ClipboardSyncChangeKind)
    ensures
        r == wire_change_kind(kind),
{
    match kind {
        domain::ClipboardSyncChangeKind::Copy => proto::ClipboardSyncChangeKind::Copy,
        domain::ClipboardSyncChangeKind::Edit => proto::ClipboardSyncChangeKind::Edit,
        domain::ClipboardSyncChangeKind::Favorite => proto::ClipboardSyncChangeKind::Favorite,
        domain::ClipboardSyncChangeKind::Label => proto::ClipboardSyncChangeKind::Label,
        domain::ClipboardSyncChangeKind::Delete => proto::ClipboardSyncChangeKind::Delete,
        domain::ClipboardSyncChangeKind::Snapshot => proto::ClipboardSyncChangeKind::Snapshot,
    }
}

/// What happened to a clipboard entry, as it is meant.
pub fn change_kind_from_proto(kind: proto::ClipboardSyncChangeKind) -> (r: Option<
    domain::ClipboardSyncChangeKind,
>)
    ensures
        r == meant_change_kind(kind),
{
    match kind {
        proto::ClipboardSyncChangeKind::Copy => Some(domain::ClipboardSyncChangeKind::Copy),
        proto::ClipboardSyncChangeKind::Edit => Some(domain::ClipboardSyncChangeKind::Edit),
        proto::ClipboardSyncChangeKind::Favorite => {
            Some(domain::ClipboardSyncChangeKind::Favorite)
        },
        proto::ClipboardSyncChangeKind::Label => Some(domain::ClipboardSyncChangeKind::Label),
        proto::ClipboardSyncChangeKind::Delete => Some(domain::ClipboardSyncChangeKind::Delete),
        proto::ClipboardSyncChangeKind::Snapshot => {
            Some(domain::ClipboardSyncChangeKind::Snapshot)
        },
        proto::ClipboardSyncChangeKind::Unspecified => None,
    }
}

/// A label as it travels.
pub open spec fn wire_clipboard_label(label: domain::ClipboardLabel) -> proto::ClipboardLabel {
    proto::ClipboardLabel {
        id: label.id,
        name: label.name,
        color: label.color,
        revision: label.revision,
        updated_by_device_id: label.updated_by_device_id,
        deleted: label.deleted,
    }
}

/// A label as it travels.
pub fn clipboard_label_to_proto(label: domain::ClipboardLabel) -> (r: proto::ClipboardLabel)
    ensures
        r == wire_clipboard_label(label),
{
    proto::ClipboardLabel {
        id: label.id,
        name: label.name,
        color: label.color,
        revision: label.revision,
        updated_by_device_id: label.updated_by_device_id,
        deleted: label.deleted,
    }
}

/// A list of labels as it travels.
pub open spec fn wire_labels(labels: Seq<domain::ClipboardLabel>) -> Seq<proto::ClipboardLabel> {
    labels.map_values(|label: domain::ClipboardLabel| wire_clipboard_label(label))
}

/// A list of labels as it travels.
pub fn clipboard_labels_to_proto(labels: Vec<domain::ClipboardLabel>) -> (r: Vec<
    proto::ClipboardLabel,
>)
    ensures
        r@ == wire_labels(labels@),
{
    let ghost all = labels@;
    let mut out: Vec<proto::ClipboardLabel> = Vec::new();
    for label in it: labels.into_iter()
        invariant
            it.seq() == all,
            out@ == wire_labels(all.take(it.index())),
    {
        out.push(clipboard_label_to_proto(label));
        assert(out@ =~= wire_labels(all.take(it.index() + 1)));
    }
    proof {
        assert(all.take(all.len() as int) =~= all);
    }
    out
}

/// True when `e` is the clipboard entry `s` as it travels.
pub open spec fn is_wire_summary(e: proto::ClipboardEntry, s: domain::ClipboardSummary) -> bool {
    &&& e.id == s.id
    &&& e.kind == wire_clipboard_kind(s.kind)
    &&& e.preview == s.preview
    &&& e.source_app == s.source_app
    &&& e.timestamp_ms == s.captured_at_ms
    &&& e.size_bytes == s.size_bytes
    &&& e.item_count == s.item_count
    &&& e.width == s.width
    &&& e.height == s.height
    &&& e.sensitive == s.sensitive
    &&& e.favorite == s.favorite
    &&& e.copy_count == s.copy_count
    &&& e.available == s.available
    &&& e.labels@ == wire_labels(s.labels@)
}

/// A clipboard entry as it travels.
pub fn clipboard_summary_to_proto(summary: domain::ClipboardSummary) -> (r: proto::ClipboardEntry)
    ensures
        is_wire_summary(r, summary),
{
    proto::ClipboardEntry {
        id: summary.id,
        kind: clipboard_kind_to_proto(summary.kind),
        preview: summary.preview,
        source_app: summary.source_app,
        timestamp_ms: summary.captured_at_ms,
        size_bytes: summary.size_bytes,
        item_count: summary.item_count,
        width: summary.width,
        height: summary.height,
        sensitive: summary.sensitive,
        favorite: summary.favorite,
        copy_count: summary.copy_count,
        available: summary.available,
        labels: clipboard_labels_to_proto(summary.labels),
    }
}

/// A retention policy as it travels.
pub open spec fn wire_clipboard_policy(policy: domain::ClipboardPolicy) -> proto::ClipboardPolicy {
    proto::ClipboardPolicy {
        history_enabled: policy.history_enabled,
        max_items: policy.max_items,
        max_bytes: policy.max_bytes,
        retention_days: policy.retention_days,
        save_sensitive: policy.save_sensitive,
    }
}

/// A retention policy as it travels.
pub fn clipboard_policy_to_proto(policy: domain::ClipboardPolicy) -> (r: proto::ClipboardPolicy)
    ensures
        r == wire_clipboard_policy(policy),
{
    proto::ClipboardPolicy {
        history_enabled: policy.history_enabled,
        max_items: policy.max_items,
        max_bytes: policy.max_bytes,
        retention_days: policy.retention_days,
        save_sensitive: policy.save_sensitive,
    }
}

/// A kind of device as it travels.
pub open spec fn wire_device_type(device_type: domain::DeviceType) -> proto::DeviceType {
    match device_type {
        domain::DeviceType::MacBook => proto::DeviceType::Macbook,
        domain::DeviceType::WindowsPC => proto::DeviceType::WindowsPc,
        domain::DeviceType::LinuxServer => proto::DeviceType::LinuxServer,
        domain::DeviceType::IPad => proto::DeviceType::Ipad,
        domain::DeviceType::IPhone => proto::DeviceType::Iphone,
        domain::DeviceType::Android => proto::DeviceType::Android,
        domain::DeviceType::Unknown => proto::DeviceType::Unspecified,
    }
}

/// A kind of device as it travels.
pub fn device_type_to_proto(device_type: domain::DeviceType) -> (r: proto::DeviceType)
    ensures
        r == wire_device_type(device_type),
{
    match device_type {
        domain::DeviceType::MacBook => proto::DeviceType::Macbook,
        domain::DeviceType::WindowsPC => proto::DeviceType::WindowsPc,
        domain::DeviceType::LinuxServer => proto::DeviceType::LinuxServer,
        domain::DeviceType::IPad => proto::DeviceType::Ipad,
        domain::DeviceType::IPhone => proto::DeviceType::Iphone,
        domain::DeviceType::Android => proto::DeviceType::Android,
        domain::DeviceType::Unknown => proto::DeviceType::Unspecified,
    }
}

/// This device as it travels.
pub fn local_device_info_to_proto(device: domain::LocalDeviceInfo) -> (r: proto::LocalDeviceInfo)
    ensures
        r.name == device.name,
        r.ip == device.ip,
        r.app_version == device.app_version,
        r.port == device.port,
{
    proto::LocalDeviceInfo {
        name: device.name,
        ip: device.ip,
        app_version: device.app_version,
        port: device.port as u32,
    }
}

/// How to connect, as it travels.
pub fn connection_config_to_proto(config: domain::ConnectionConfig) -> (r: proto::ConnectionConfig)
    ensures
        r.port == config.port,
        r.encrypted == config.encrypted,
        r.auto_reconnect == config.auto_reconnect,
{
    proto::ConnectionConfig {
        port: config.port as u32,
        encrypted: config.encrypted,
        auto_reconnect: config.auto_reconnect,
    }
}

/// A window as it travels, without its thumbnail.
pub fn window_info_to_proto(window: domain::WindowInfo) -> (r: proto::WindowInfo)
    ensures
        r == (proto::WindowInfo {
            window_id: window.window_id,
            title: window.title,
            app_name: window.app_name,
            is_focused: window.is_focused,
            thumbnail: None,
            space_id: window.space_id,
        }),
{
    proto::WindowInfo {
        window_id: window.window_id,
        title: window.title,
        app_name: window.app_name,
        is_focused: window.is_focused,
        thumbnail: None,
        space_id: window.space_id,
    }
}

/// A desktop space as it travels.
pub open spec fn wire_space_info(space: domain::SpaceInfo) -> proto::SpaceInfo {
    proto::SpaceInfo {
        space_id: space.space_id,
        label: space.label,
        is_active: space.is_active,
    }
}

/// A desktop space as it travels.
pub fn space_info_to_proto(space: domain::SpaceInfo) -> (r: proto::SpaceInfo)
    ensures
        r == wire_space_info(space),
{
    proto::SpaceInfo {
        space_id: space.space_id,
        label: space.label,
        is_active: space.is_active,
    }
}

/// A word of the host and the word that travels for it are the same word: an order
/// of processes, a playback action, a kind of entry and a change of one.
pub proof fn lemma_words_keep_their_meaning(
    sort: domain::ProcessSortBy,
    action: domain::PlaybackAction,
    kind: domain::ClipboardContentKind,
    change: domain::ClipboardSyncChangeKind,
)
    ensures
        wire_process_sort(sort) is Cpu <==> sort is Cpu,
        wire_process_sort(sort) is Memory <==> sort is Memory,
        wire_process_sort(sort) is Name <==> sort is Name,
        wire_playback_action(action) is Play <==> action is Play,
        wire_playback_action(action) is Pause <==> action is Pause,
        wire_playback_action(action) is Next <==> action is Next,
        wire_playback_action(action) is Previous <==> action is Previous,
        wire_playback_action(action) is SeekForward <==> action is SeekForward,
        wire_playback_action(action) is SeekBackward <==> action is SeekBackward,
        wire_clipboard_kind(kind) is Text <==> kind is Text,
        wire_clipboard_kind(kind) is Html <==> kind is Html,
        wire_clipboard_kind(kind) is Image <==> kind is Image,
        wire_clipboard_kind(kind) is Files <==> kind is Files,
        wire_change_kind(change) is Copy <==> change is Copy,
        wire_change_kind(change) is Edit <==> change is Edit,
        wire_change_kind(change) is Favorite <==> change is Favorite,
        wire_change_kind(change) is Label <==> change is Label,
        wire_change_kind(change) is Delete <==> change is Delete,
        wire_change_kind(change) is Snapshot <==> change is Snapshot,
        meant_clipboard_kind(wire_clipboard_kind(kind)) == Some(kind),
        meant_change_kind(wire_change_kind(change)) == Some(change),
{
}

/// A word that travelled is read as the same word; one that is not known is read as
/// none, or as the first of its kind where there must be one.
pub proof fn lemma_words_are_read_as_sent(
    sort: proto::ProcessSortBy,
    action: proto::PlaybackAction,
    kind: proto::ClipboardContentKind,
    change: proto::ClipboardSyncChangeKind,
)
    ensures
        meant_process_sort(sort) is Memory <==> sort is Memory,
        meant_process_sort(sort) is Name <==> sort is Name,
        meant_playback_action(action) is Pause <==> action is Pause,
        meant_playback_action(action) is Next <==> action is Next,
        meant_playback_action(action) is Previous <==> action is Previous,
        meant_playback_action(action) is SeekForward <==> action is SeekForward,
        meant_playback_action(action) is SeekBackward <==> action is SeekBackward,
        meant_clipboard_kind(kind) is None <==> kind is Unspecified,
        kind is Text ==> meant_clipboard_kind(kind)->0 is Text,
        kind is Html ==> meant_clipboard_kind(kind)->0 is Html,
        kind is Image ==> meant_clipboard_kind(kind)->0 is Image,
        kind is Files ==> meant_clipboard_kind(kind)->0 is Files,
        meant_change_kind(change) is None <==> change is Unspecified,
        change is Copy ==> meant_change_kind(change)->0 is Copy,
        change is Edit ==> meant_change_kind(change)->0 is Edit,
        change is Favorite ==> meant_change_kind(change)->0 is Favorite,
        change is Label ==> meant_change_kind(change)->0 is Label,
        change is Delete ==> meant_change_kind(change)->0 is Delete,
        change is Snapshot ==> meant_change_kind(change)->0 is Snapshot,
{
}

/// What the host measures travels as it was measured, each number in its place.
pub proof fn lemma_measures_travel_unchanged(
    cpu: domain::CpuInfo,
    memory: domain::MemoryInfo,
    gpu: domain::GpuInfo,
    disk: domain::DiskInfo,
    network: domain::NetworkStats,
    process: domain::ProcessInfo,
)
    ensures
        wire_cpu_info(cpu).usage_percent_bits == cpu.usage_percent_bits,
        wire_cpu_info(cpu).temperature_celsius_bits == cpu.temperature_celsius_bits,
        wire_cpu_info(cpu).core_count == cpu.core_count,
        wire_cpu_info(cpu).model_name@ == cpu.model_name@,
        wire_memory_info(memory).used_bytes == memory.used_bytes,
        wire_memory_info(memory).total_bytes == memory.total_bytes,
        wire_memory_info(memory).usage_percent_bits == memory.usage_percent_bits,
        wire_gpu_info(gpu).name@ == gpu.name@,
        wire_gpu_info(gpu).usage_percent_bits == gpu.usage_percent_bits,
        wire_gpu_info(gpu).temperature_celsius_bits == gpu.temperature_celsius_bits,
        wire_disk_info(disk).name@ == disk.name@,
        wire_disk_info(disk).used_bytes == disk.used_bytes,
        wire_disk_info(disk).total_bytes == disk.total_bytes,
        wire_disk_info(disk).usage_percent_bits == disk.usage_percent_bits,
        wire_network_stats(network).download_bytes_per_sec == network.download_bytes_per_sec,
        wire_network_stats(network).upload_bytes_per_sec == network.upload_bytes_per_sec,
        wire_process_info(process).pid == process.pid,
        wire_process_info(process).name@ == process.name@,
        wire_process_info(process).cpu_percent_bits == process.cpu_percent_bits,
        wire_process_info(process).memory_bytes == process.memory_bytes,
{
}

/// What the host shows of its media, windows and clipboard travels as it is, each
/// fact in its place.
pub proof fn lemma_facts_travel_unchanged(
    playback: domain::PlaybackInfo,
    space: domain::SpaceInfo,
    label: domain::ClipboardLabel,
    policy: domain::ClipboardPolicy,
)
    ensures
        wire_playback_info(playback).title@ == playback.title@,
        wire_playback_info(playback).artist@ == playback.artist@,
        wire_playback_info(playback).source_app@ == playback.source_app@,
        wire_playback_info(playback).position_secs_bits == playback.position_secs_bits,
        wire_playback_info(playback).duration_secs_bits == playback.duration_secs_bits,
        wire_playback_info(playback).is_playing == playback.is_playing,
        wire_space_info(space).space_id == space.space_id,
        wire_space_info(space).label@ == space.label@,
        wire_space_info(space).is_active == space.is_active,
        wire_clipboard_label(label).id@ == label.id@,
        wire_clipboard_label(label).name@ == label.name@,
        wire_clipboard_label(label).color@ == label.color@,
        wire_clipboard_label(label).revision == label.revision,
        wire_clipboard_label(label).updated_by_device_id@ == label.updated_by_device_id@,
        wire_clipboard_label(label).deleted == label.deleted,
        wire_clipboard_policy(policy).history_enabled == policy.history_enabled,
        wire_clipboard_policy(policy).save_sensitive == policy.save_sensitive,
        wire_clipboard_policy(policy).max_items == policy.max_items,
        wire_clipboard_policy(policy).max_bytes == policy.max_bytes,
        wire_clipboard_policy(policy).retention_days == policy.retention_days,
{
}

/// Labels travel one for one.
pub proof fn lemma_labels_travel_one_for_one(labels: Seq<domain::ClipboardLabel>, i: int)
    ensures
        wire_labels(labels).len() == labels.len(),
        0 <= i < labels.len() ==> {
            let (told, label) = (wire_labels(labels)[i], labels[i]);
            &&& told.id@ == label.id@
            &&& told.name@ == label.name@
            &&& told.color@ == label.color@
            &&& told.revision == label.revision
            &&& told.updated_by_device_id@ == label.updated_by_device_id@
            &&& told.deleted == label.deleted
        },
{
}

/// An entry of the clipboard travels as it is, each fact in its place.
pub proof fn lemma_entries_travel_unchanged(
    e: proto::ClipboardEntry,
    s: domain::ClipboardSummary,
)
    requires
        is_wire_summary(e, s),
    ensures
        e.id == s.id,
        e.kind is Text <==> s.kind is Text,
        e.kind is Html <==> s.kind is Html,
        e.kind is Image <==> s.kind is Image,
        e.kind is Files <==> s.kind is Files,
        e.preview == s.preview,
        e.source_app == s.source_app,
        e.timestamp_ms == s.captured_at_ms,
        e.size_bytes == s.size_bytes,
        e.item_count == s.item_count,
        e.width == s.width,
        e.height == s.height,
        e.sensitive == s.sensitive,
        e.favorite == s.favorite,
        e.copy_count == s.copy_count,
        e.available == s.available,
        e.labels@.len() == s.labels@.len(),
{
}

/// A device travels as what it is; what is not known is told as nothing.
pub proof fn lemma_devices_keep_their_kind(device_type: domain::DeviceType)
    ensures
        wire_device_type(device_type) is Macbook <==> device_type is MacBook,
        wire_device_type(device_type) is WindowsPc <==> device_type is WindowsPC,
        wire_device_type(device_type) is LinuxServer <==> device_type is LinuxServer,
        wire_device_type(device_type) is Ipad <==> device_type is IPad,
        wire_device_type(device_type) is Iphone <==> device_type is IPhone,
        wire_device_type(device_type) is Android <==> device_type is Android,
        wire_device_type(device_type) is Unspecified <==> device_type is Unknown,
{
}

} // verus!
