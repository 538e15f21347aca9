//! What the host tells of itself, as plain values. Measured numbers are held
//! as IEEE 754 bit patterns.

use vstd::prelude::*;

verus! {

#[derive(Debug, Clone, PartialEq, Eq)]
pub struct CpuInfo {
    pub usage_percent_bits: u32,
    pub core_count: u32,
    pub temperature_celsius_bits: Option<u32>,
    pub model_name: String,
}

#[derive(Debug, Clone, Copy, PartialEq, Eq, Structural)]
pub struct MemoryInfo {
    pub used_bytes: u64,
    pub total_bytes: u64,
    pub usage_percent_bits: u32,
}

#[derive(Debug, Clone, PartialEq, Eq)]
pub struct GpuInfo {
    pub name: String,
    pub usage_percent_bits: Option<u32>,
    pub temperature_celsius_bits: Option<u32>,
}

#[derive(Debug, Clone, PartialEq, Eq)]
pub struct DiskInfo {
    pub name: String,
    pub used_bytes: u64,
    pub total_bytes: u64,
    pub usage_percent_bits: u32,
}

#[derive(Debug, Clone, Copy, PartialEq, Eq, Structural)]
pub struct NetworkStats {
    pub download_bytes_per_sec: u64,
    pub upload_bytes_per_sec: u64,
}

#[derive(Debug, Clone, PartialEq, Eq)]
pub struct SystemSnapshot {
    pub cpu: CpuInfo,
    pub memory: MemoryInfo,
    pub gpus: Vec<GpuInfo>,
    pub disks: Vec<DiskInfo>,
    pub network: NetworkStats,
}

#[derive(Debug, Clone, PartialEq, Eq)]
pub struct ProcessInfo {
    pub pid: u32,
    pub name: String,
    pub cpu_percent_bits: u32,
    pub memory_bytes: u64,
}

#[derive(Debug, Clone, Copy, PartialEq, Eq, Structural)]
pub enum ProcessSortBy {
    Cpu,
    Memory,
    Name,
}

#[derive(Debug, Clone, PartialEq, Eq)]
pub struct PlaybackInfo {
    pub title: String,
    pub artist: String,
    pub source_app: String,
    pub position_secs_bits: u64,
    pub duration_secs_bits: u64,
    pub is_playing: bool,
}

#[derive(Debug, Clone, Copy, PartialEq, Eq, Structural)]
pub struct VolumeInfo {
    pub system_volume: u8,
    pub is_muted: bool,
}

#[derive(Debug, Clone, PartialEq, Eq)]
pub struct AppVolume {
    pub app_name: String,
    pub volume: u8,
}

#[derive(Debug, Clone, PartialEq, Eq)]
pub struct MediaState {
    pub playback: Option<PlaybackInfo>,
    pub volume: VolumeInfo,
    pub app_volumes: Vec<AppVolume>,
    pub microphone_active: bool,
    pub dnd_active: bool,
}

#[derive(Debug, Clone, Copy, PartialEq, Eq, Structural)]
pub enum PlaybackAction {
    Play,
    Pause,
    Next,
    Previous,
    SeekForward,
    SeekBackward,
}

#[derive(Debug, Clone, Copy, PartialEq, Eq, Structural)]
pub enum ClipboardContentKind {
    Text,
    Html,
    Image,
    Files,
}

#[derive(Debug, Clone, Copy, PartialEq, Eq, Structural)]
pub enum ClipboardSyncChangeKind {
    Copy,
    Edit,
    Favorite,
    Label,
    Delete,
    Snapshot,
}

#[derive(Debug, Clone, PartialEq, Eq)]
pub struct ClipboardLabel {
    pub id: String,
    pub name: String,
    pub color: String,
    pub revision: u64,
    pub updated_by_device_id: String,
    pub deleted: bool,
}

#[derive(Debug, Clone, PartialEq, Eq)]
pub struct ClipboardLabelMembership {
    pub label_id: String,
    pub attached: bool,
    pub revision: u64,
    pub updated_by_device_id: String,
}

#[derive(Debug, Clone, Copy, PartialEq, Eq, Structural)]
pub struct ClipboardPolicy {
    pub history_enabled: bool,
    pub max_items: u32,
    pub max_bytes: u64,
    pub retention_days: u32,
    pub save_sensitive: bool,
}

#[derive(Debug, Clone, PartialEq, Eq)]
pub struct ClipboardSummary {
    pub id: u64,
    pub kind: ClipboardContentKind,
    pub preview: String,
    pub source_app: Option<String>,
    pub captured_at_ms: i64,
    pub size_bytes: u64,
    pub item_count: u32,
    pub width: Option<u32>,
    pub height: Option<u32>,
    pub sensitive: bool,
    pub favorite: bool,
    pub copy_count: u32,
    pub available: bool,
    pub labels: Vec<ClipboardLabel>,
}

/// Where a page of clipboard history ends.
#[derive(Debug, Clone, Copy, PartialEq, Eq, Structural)]
pub struct ClipboardCursor {
    pub sort_at_ms: i64,
    pub id: u64,
}

/// A clipboard entry as it is kept in step between devices. The syntax of its
/// text is held in JSON, and missing when it has no such form.
#[derive(Debug, Clone, PartialEq, Eq)]
pub struct ClipboardSyncRecord {
    pub sync_id: String,
    pub kind: ClipboardContentKind,
    pub text: Option<String>,
    pub html: Option<String>,
    pub rtf: Option<String>,
    pub image_png: Option<Vec<u8>>,
    pub width: Option<u32>,
    pub height: Option<u32>,
    pub preview: String,
    pub source_app: Option<String>,
    pub source_device_id: String,
    pub source_device_name: String,
    pub captured_at_ms: i64,
    pub revision: u64,
    pub updated_by_device_id: String,
    pub favorite: bool,
    pub favorite_revision: u64,
    pub favorite_updated_by_device_id: String,
    pub labels: Vec<ClipboardLabel>,
    pub label_memberships: Vec<ClipboardLabelMembership>,
    pub deleted: bool,
    pub change_kind: ClipboardSyncChangeKind,
    pub live: bool,
    pub text_syntax_json: Option<String>,
}

/// A clipboard entry with what its history adds: when it was first copied, and
/// how often.
#[derive(Debug, Clone, PartialEq, Eq)]
pub struct ClipboardReplicaRecord {
    pub record: ClipboardSyncRecord,
    pub first_captured_at_ms: i64,
    pub copy_count: u32,
}

/// A place in the history of a clipboard, from the newest entry to the oldest.
#[derive(Debug, Clone, PartialEq, Eq)]
pub struct ClipboardReplicaCursor {
    pub captured_at_ms: i64,
    pub sync_id: String,
}

#[derive(Debug, Clone, Copy, PartialEq, Eq, Structural)]
pub enum DeviceType {
    MacBook,
    WindowsPC,
    LinuxServer,
    IPad,
    IPhone,
    Android,
    Unknown,
}

#[derive(Debug, Clone, PartialEq, Eq)]
pub struct LocalDeviceInfo {
    pub name: String,
    pub ip: String,
    pub app_version: String,
    pub port: u16,
}

#[derive(Debug, Clone, Copy, PartialEq, Eq, Structural)]
pub struct ConnectionConfig {
    pub port: u16,
    pub encrypted: bool,
    pub auto_reconnect: bool,
}

#[derive(Debug, Clone, PartialEq, Eq)]
pub struct WindowInfo {
    pub window_id: u32,
    pub title: String,
    pub app_name: String,
    pub is_focused: bool,
    pub thumbnail_png: Vec<u8>,
    pub space_id: u64,
}

#[derive(Debug, Clone, PartialEq, Eq)]
pub struct SpaceInfo {
    pub space_id: u64,
    pub label: String,
    pub is_active: bool,
}

} // verus!
