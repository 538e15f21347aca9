//! The messages that the protocol exchanges, as plain values.

use vstd::prelude::*;

verus! {

/// Copies a byte vector.
pub fn copy_bytes(bytes: &Vec<u8>) -> (r: Vec<u8>)
    ensures
        r@ == bytes@,
{
    vstd::slice::slice_to_vec(bytes.as_slice())
}

/// Points at a blob by the digest of its content.
#[derive(Debug, PartialEq, Eq)]
pub struct BlobRef {
    pub blob_id: Vec<u8>,
    pub size: u64,
    pub media_type: String,
    pub sha256: Vec<u8>,
}

/// A [`BlobRef`] as a mathematical value.
pub struct BlobRefView {
    pub blob_id: Seq<u8>,
    pub size: u64,
    pub media_type: Seq<char>,
    pub sha256: Seq<u8>,
}

impl View for BlobRef {
    type V = BlobRefView;

    open spec fn view(&self) -> BlobRefView {
        BlobRefView {
            blob_id: self.blob_id@,
            size: self.size,
            media_type: self.media_type@,
            sha256: self.sha256@,
        }
    }
}

impl Clone for BlobRef {
    fn clone(&self) -> (r: BlobRef)
        ensures
            r@ == self@,
    {
        BlobRef {
            blob_id: copy_bytes(&self.blob_id),
            size: self.size,
            media_type: self.media_type.clone(),
            sha256: copy_bytes(&self.sha256),
        }
    }
}

/// Permission to fetch one blob once.
#[derive(Debug, PartialEq, Eq)]
pub struct BlobTicket {
    pub transfer_id: u64,
    pub ticket: Vec<u8>,
    pub blob: Option<BlobRef>,
    pub chunk_size: u32,
    pub expires_at_ms: i64,
}

#[derive(Debug, Clone, PartialEq, Eq)]
pub struct CpuInfo {
    pub usage_percent_bits: u32,
    pub core_count: u32,
    pub temperature_celsius_bits: Option<u32>,
    pub model_name: String,
}

#[derive(Debug, Clone, Copy, PartialEq, Eq, Structural)]
pub struct MemoryInfo {
    pub used_bytes: u64,
    pub total_bytes: u64,
    pub usage_percent_bits: u32,
}

#[derive(Debug, Clone, PartialEq, Eq)]
pub struct GpuInfo {
    pub name: String,
    pub usage_percent_bits: Option<u32>,
    pub temperature_celsius_bits: Option<u32>,
}

#[derive(Debug, Clone, PartialEq, Eq)]
pub struct DiskInfo {
    pub name: String,
    pub used_bytes: u64,
    pub total_bytes: u64,
    pub usage_percent_bits: u32,
}

#[derive(Debug, Clone, Copy, PartialEq, Eq, Structural)]
pub struct NetworkStats {
    pub download_bytes_per_sec: u64,
    pub upload_bytes_per_sec: u64,
}

#[derive(Debug, Clone, PartialEq, Eq)]
pub struct SystemSnapshot {
    pub cpu: Option<CpuInfo>,
    pub memory: Option<MemoryInfo>,
    pub gpus: Vec<GpuInfo>,
    pub disks: Vec<DiskInfo>,
    pub network: Option<NetworkStats>,
}

#[derive(Debug, Clone, PartialEq, Eq)]
pub struct ProcessInfo {
    pub pid: u32,
    pub name: String,
    pub cpu_percent_bits: u32,
    pub memory_bytes: u64,
}

#[derive(Debug, Clone, PartialEq, Eq)]
pub struct ProcessListSnapshot {
    pub processes: Vec<ProcessInfo>,
    pub focused_app_name: Option<String>,
}

/// An order of processes; unspecified also stands for one that is not known.
#[derive(Debug, Clone, Copy, PartialEq, Eq, Structural)]
pub enum ProcessSortBy {
    Unspecified,
    Cpu,
    Memory,
    Name,
}

#[derive(Debug, Clone, Copy, PartialEq, Eq, Structural)]
pub enum MediaConfidence {
    Unspecified,
    Authoritative,
}

#[derive(Debug, Clone, PartialEq, Eq)]
pub struct PlaybackInfo {
    pub title: String,
    pub artist: String,
    pub source_app: String,
    pub position_secs_bits: u64,
    pub duration_secs_bits: u64,
    pub is_playing: bool,
    pub confidence: MediaConfidence,
}

#[derive(Debug, Clone, Copy, PartialEq, Eq, Structural)]
pub struct VolumeInfo {
    pub system_volume: u32,
    pub is_muted: bool,
}

#[derive(Debug, Clone, PartialEq, Eq)]
pub struct AppVolume {
    pub app_name: String,
    pub volume: u32,
}

#[derive(Debug, Clone, PartialEq, Eq)]
pub struct MediaStateSnapshot {
    pub playback: Option<PlaybackInfo>,
    pub volume: Option<VolumeInfo>,
    pub app_volumes: Vec<AppVolume>,
    pub microphone_active: bool,
    pub dnd_active: bool,
}

/// What to do with the media player; unspecified also stands for an action that
/// is not known.
#[derive(Debug, Clone, Copy, PartialEq, Eq, Structural)]
pub enum PlaybackAction {
    Unspecified,
    Play,
    Pause,
    Next,
    Previous,
    SeekForward,
    SeekBackward,
}

/// The kind of a clipboard entry; unspecified also stands for a kind that is not
/// known.
#[derive(Debug, Clone, Copy, PartialEq, Eq, Structural)]
pub enum ClipboardContentKind {
    Unspecified,
    Text,
    Html,
    Image,
    Files,
}

/// What happened to a clipboard entry; unspecified also stands for a change that
/// is not known.
#[derive(Debug, Clone, Copy, PartialEq, Eq, Structural)]
pub enum ClipboardSyncChangeKind {
    Unspecified,
    Copy,
    Edit,
    Favorite,
    Delete,
    Snapshot,
    Label,
}

#[derive(Debug, Clone, PartialEq, Eq)]
pub struct ClipboardLabel {
    pub id: String,
    pub name: String,
    pub color: String,
    pub revision: u64,
    pub updated_by_device_id: String,
    pub deleted: bool,
}

#[derive(Debug, Clone, PartialEq, Eq)]
pub struct ClipboardLabelMembership {
    pub label_id: String,
    pub attached: bool,
    pub revision: u64,
    pub updated_by_device_id: String,
}

#[derive(Debug, Clone, Copy, PartialEq, Eq, Structural)]
pub struct ClipboardPolicy {
    pub history_enabled: bool,
    pub max_items: u32,
    pub max_bytes: u64,
    pub retention_days: u32,
    pub save_sensitive: bool,
}

#[derive(Debug, Clone, PartialEq, Eq)]
pub struct ClipboardEntry {
    pub id: u64,
    pub kind: ClipboardContentKind,
    pub preview: String,
    pub source_app: Option<String>,
    pub timestamp_ms: i64,
    pub size_bytes: u64,
    pub item_count: u32,
    pub width: Option<u32>,
    pub height: Option<u32>,
    pub sensitive: bool,
    pub favorite: bool,
    pub copy_count: u32,
    pub available: bool,
    pub labels: Vec<ClipboardLabel>,
}

/// Formatted text: the plain text itself, the rest by reference.
#[derive(Debug, PartialEq, Eq)]
pub struct ClipboardRichTextPayload {
    pub plain_text: String,
    pub html: Option<BlobRef>,
    pub rtf: Option<BlobRef>,
}

/// The content of a clipboard entry.
#[derive(Debug, PartialEq, Eq)]
pub enum ClipboardPayload {
    Text(String),
    RichText(ClipboardRichTextPayload),
    Image(BlobRef),
}

/// A clipboard entry as it travels between devices.
#[derive(Debug, PartialEq, Eq)]
pub struct ClipboardSyncRecord {
    pub sync_id: String,
    pub kind: ClipboardContentKind,
    pub width: Option<u32>,
    pub height: Option<u32>,
    pub preview: String,
    pub source_app: Option<String>,
    pub source_device_id: String,
    pub source_device_name: String,
    pub captured_at_ms: i64,
    pub revision: u64,
    pub updated_by_device_id: String,
    pub favorite: bool,
    pub favorite_revision: u64,
    pub favorite_updated_by_device_id: String,
    pub labels: Vec<ClipboardLabel>,
    pub label_memberships: Vec<ClipboardLabelMembership>,
    pub deleted: bool,
    pub change_kind: ClipboardSyncChangeKind,
    pub live: bool,
    pub text_syntax_json: String,
    pub payload: Option<ClipboardPayload>,
}

/// A clipboard entry as it is replicated: its metadata, and references to the
/// parts of its content, which follow unless the metadata is all.
#[derive(Debug, PartialEq, Eq)]
pub struct ClipboardReplicaRecord {
    pub metadata: Option<ClipboardSyncRecord>,
    pub first_captured_at_ms: i64,
    pub copy_count: u32,
    pub parts: Vec<BlobRef>,
    pub metadata_only: bool,
}

/// A place in the history of a clipboard, as it travels.
#[derive(Debug, Clone, PartialEq, Eq)]
pub struct ClipboardReplicaCursor {
    pub captured_at_ms: i64,
    pub sync_id: String,
}

#[derive(Debug, Clone, Copy, PartialEq, Eq, Structural)]
pub enum DeviceType {
    Unspecified,
    Macbook,
    WindowsPc,
    LinuxServer,
    Ipad,
    Iphone,
    Android,
}

#[derive(Debug, Clone, PartialEq, Eq)]
pub struct LocalDeviceInfo {
    pub name: String,
    pub ip: String,
    pub app_version: String,
    pub port: u32,
}

#[derive(Debug, Clone, Copy, PartialEq, Eq, Structural)]
pub struct ConnectionConfig {
    pub port: u32,
    pub encrypted: bool,
    pub auto_reconnect: bool,
}

#[derive(Debug, PartialEq, Eq)]
pub struct WindowInfo {
    pub window_id: u32,
    pub title: String,
    pub app_name: String,
    pub is_focused: bool,
    pub thumbnail: Option<BlobRef>,
    pub space_id: u64,
}

#[derive(Debug, Clone, PartialEq, Eq)]
pub struct SpaceInfo {
    pub space_id: u64,
    pub label: String,
    pub is_active: bool,
}

} // verus!
