//! The host's state as clients see it: bounded in size, each thing once, and
//! with nothing in it that could not be shown.

use vstd::prelude::*;
use vstd::string::*;

use crate::access::valid_control_identifier;
use crate::blob_store::{BlobStore, BLOB_IDLE_TTL_MS};
use crate::domain;
use crate::float_bits::{
    bounded_load, bounded_nonnegative, bounded_percent, bounded_percent_option, finite_or_none,
};
use crate::host::{AutomationInfo, HostNotificationInfo, QuickActionInfo};
use crate::proto;
use crate::proto_msg::{
    clipboard_policy_to_proto, clipboard_summary_to_proto, playback_info_to_proto,
};
use crate::queries::protocol_u64;
use crate::text::{byte_len, has_control, sanitize_text, str_eq, truncate_utf8};

verus! {

pub const MAX_PROCESS_ITEMS: usize = 4096;

pub const MAX_APP_VOLUME_ITEMS: usize = 2048;

pub const MAX_GPU_ITEMS: usize = 64;

pub const MAX_DISK_ITEMS: usize = 256;

pub const MAX_WINDOW_ITEMS: usize = 1024;

pub const MAX_SPACE_ITEMS: usize = 256;

pub const MAX_ACTION_ITEMS: usize = 512;

pub const MAX_AUTOMATION_ITEMS: usize = 256;

pub const MAX_CLIPBOARD_HISTORY: usize = 200;

pub const MAX_CLIPBOARD_PREVIEW_BYTES: usize = 2048;

/// True when the list holds something with this key.
pub open spec fn has_key<T, K>(list: Seq<T>, key: spec_fn(T) -> K, k: K) -> bool {
    exists|i: int| 0 <= i < list.len() && key(#[trigger] list[i]) == k
}

/// A list and what is shown of it have the same keys, where each shows its key.
proof fn lemma_same_keys<T, W, K>(
    list: Seq<T>,
    key: spec_fn(T) -> K,
    shown: Seq<W>,
    shown_key: spec_fn(W) -> K,
    k: K,
)
    requires
        shown.len() == list.len(),
        forall|i: int| 0 <= i < shown.len() ==> shown_key(#[trigger] shown[i]) == key(list[i]),
    ensures
        has_key(list, key, k) == has_key(shown, shown_key, k),
{
    if has_key(list, key, k) {
        let i = choose|i: int| 0 <= i < list.len() && key(#[trigger] list[i]) == k;
        assert(shown_key(shown[i]) == k);
    }
    if has_key(shown, shown_key, k) {
        let i = choose|i: int| 0 <= i < shown.len() && shown_key(#[trigger] shown[i]) == k;
        assert(key(list[i]) == k);
    }
}

/// The first `maximum` things of a list that can be shown, each key once.
pub open spec fn kept<T, K>(
    list: Seq<T>,
    valid: spec_fn(T) -> bool,
    key: spec_fn(T) -> K,
    maximum: nat,
) -> Seq<T>
    decreases list.len(),
{
    if list.len() == 0 {
        Seq::empty()
    } else {
        let before = kept(list.drop_last(), valid, key, maximum);
        let item = list.last();
        if before.len() >= maximum || !valid(item) || has_key(before, key, key(item)) {
            before
        } else {
            before.push(item)
        }
    }
}

/// What is kept can be shown, is in the list, has distinct keys and is not too
/// much; and nothing that can be shown is missing unless there was no room.
pub proof fn lemma_kept<T, K>(
    list: Seq<T>,
    valid: spec_fn(T) -> bool,
    key: spec_fn(T) -> K,
    maximum: nat,
)
    ensures
        kept(list, valid, key, maximum).len() <= maximum,
        forall|i: int|
            0 <= i < kept(list, valid, key, maximum).len() ==> {
                &&& valid(#[trigger] kept(list, valid, key, maximum)[i])
                &&& list.contains(kept(list, valid, key, maximum)[i])
            },
        forall|i: int, j: int|
            0 <= i < j < kept(list, valid, key, maximum).len() ==> key(
                #[trigger] kept(list, valid, key, maximum)[i],
            ) != key(#[trigger] kept(list, valid, key, maximum)[j]),
        kept(list, valid, key, maximum).len() < maximum ==> forall|i: int|
            0 <= i < list.len() && valid(#[trigger] list[i]) ==> has_key(
                kept(list, valid, key, maximum),
                key,
                key(list[i]),
            ),
    decreases list.len(),
{
    if list.len() > 0 {
        let shorter = list.drop_last();
        lemma_kept(shorter, valid, key, maximum);
        let before = kept(shorter, valid, key, maximum);
        let after = kept(list, valid, key, maximum);
        let item = list.last();
        assert forall|i: int| 0 <= i < after.len() implies {
            &&& valid(#[trigger] kept(list, valid, key, maximum)[i])
            &&& list.contains(kept(list, valid, key, maximum)[i])
        } by {
            if i < before.len() {
                assert(after[i] == before[i]);
                let j = choose|j: int| 0 <= j < shorter.len() && shorter[j] == before[i];
                assert(list[j] == before[i]);
            } else {
                assert(list[list.len() - 1] == item);
            }
        }
        assert forall|i: int, j: int| 0 <= i < j < after.len() implies key(
            #[trigger] kept(list, valid, key, maximum)[i],
        ) != key(#[trigger] kept(list, valid, key, maximum)[j]) by {
            assert(after[i] == before[i]);
            if j < before.len() {
                assert(after[j] == before[j]);
            }
        }
        if after.len() < maximum {
            assert forall|i: int| 0 <= i < list.len() && valid(#[trigger] list[i]) implies has_key(
                after,
                key,
                key(list[i]),
            ) by {
                if i < shorter.len() {
                    assert(shorter[i] == list[i]);
                    assert(has_key(before, key, key(shorter[i])));
                    let j = choose|j: int|
                        0 <= j < before.len() && key(#[trigger] before[j]) == key(shorter[i]);
                    assert(after[j] == before[j]);
                } else if !has_key(before, key, key(item)) {
                    assert(after[before.len() as int] == item);
                } else {
                    assert(after == before);
                }
            }
        }
    }
}

proof fn lemma_kept_step<T, K>(
    list: Seq<T>,
    n: int,
    valid: spec_fn(T) -> bool,
    key: spec_fn(T) -> K,
    maximum: nat,
)
    requires
        0 <= n < list.len(),
    ensures
        ({
            let before = kept(list.take(n), valid, key, maximum);
            kept(list.take(n + 1), valid, key, maximum) == if before.len() >= maximum || !valid(
                list[n],
            ) || has_key(before, key, key(list[n])) {
                before
            } else {
                before.push(list[n])
            }
        }),
{
    assert(list.take(n + 1).drop_last() =~= list.take(n));
    assert(list.take(n + 1).last() == list[n]);
}

/// A number that fits in a signed number of the same size.
pub open spec fn bounded_u64(value: u64) -> u64 {
    if value > i64::MAX {
        i64::MAX as u64
    } else {
        value
    }
}

/// The smaller of two numbers.
pub open spec fn smaller(a: u64, b: u64) -> u64 {
    if a < b {
        a
    } else {
        b
    }
}

/// True when `g` shows the graphics processor `d`.
pub open spec fn shows_gpu(g: proto::GpuInfo, d: domain::GpuInfo) -> bool {
    &&& g.name@ == crate::text::sanitized(d.name@, 256)
    &&& g.usage_percent_bits == match d.usage_percent_bits {
        Some(bits) => Some(crate::float_bits::percent(bits)),
        None => None,
    }
    &&& g.temperature_celsius_bits == crate::float_bits::finite_only(d.temperature_celsius_bits)
}

/// True when `g` shows the disk `d`.
pub open spec fn shows_disk(g: proto::DiskInfo, d: domain::DiskInfo) -> bool {
    &&& g.name@ == crate::text::sanitized(d.name@, 256)
    &&& g.total_bytes == bounded_u64(d.total_bytes)
    &&& g.used_bytes == smaller(bounded_u64(d.used_bytes), g.total_bytes)
    &&& g.usage_percent_bits == crate::float_bits::percent(d.usage_percent_bits)
}

/// True when `r` shows the state of the system `s`.
pub open spec fn shows_system(r: proto::SystemSnapshot, s: domain::SystemSnapshot) -> bool {
    &&& r.cpu is Some
    &&& r.cpu->0.usage_percent_bits == crate::float_bits::percent(s.cpu.usage_percent_bits)
    &&& r.cpu->0.core_count == if s.cpu.core_count > 4096 {
        4096
    } else {
        s.cpu.core_count
    }
    &&& r.cpu->0.temperature_celsius_bits == crate::float_bits::finite_only(
        s.cpu.temperature_celsius_bits,
    )
    &&& r.cpu->0.model_name@ == crate::text::sanitized(s.cpu.model_name@, 256)
    &&& r.memory is Some
    &&& r.memory->0.total_bytes == bounded_u64(s.memory.total_bytes)
    &&& r.memory->0.used_bytes == smaller(
        bounded_u64(s.memory.used_bytes),
        r.memory->0.total_bytes,
    )
    &&& r.memory->0.usage_percent_bits == crate::float_bits::percent(s.memory.usage_percent_bits)
    &&& r.network is Some
    &&& r.network->0.download_bytes_per_sec == bounded_u64(s.network.download_bytes_per_sec)
    &&& r.network->0.upload_bytes_per_sec == bounded_u64(s.network.upload_bytes_per_sec)
    &&& r.gpus@.len() == if s.gpus@.len() > MAX_GPU_ITEMS {
        MAX_GPU_ITEMS as int
    } else {
        s.gpus@.len() as int
    }
    &&& forall|i: int| 0 <= i < r.gpus@.len() ==> shows_gpu(#[trigger] r.gpus@[i], s.gpus@[i])
    &&& r.disks@.len() == if s.disks@.len() > MAX_DISK_ITEMS {
        MAX_DISK_ITEMS as int
    } else {
        s.disks@.len() as int
    }
    &&& forall|i: int| 0 <= i < r.disks@.len() ==> shows_disk(#[trigger] r.disks@[i], s.disks@[i])
}

fn show_gpus(gpus: Vec<domain::GpuInfo>) -> (r: Vec<proto::GpuInfo>)
    ensures
        r@.len() == if gpus@.len() > MAX_GPU_ITEMS {
            MAX_GPU_ITEMS as int
        } else {
            gpus@.len() as int
        },
        forall|i: int| 0 <= i < r@.len() ==> shows_gpu(#[trigger] r@[i], gpus@[i]),
{
    let ghost all = gpus@;
    let mut out: Vec<proto::GpuInfo> = Vec::new();
    for gpu in it: gpus.into_iter()
        invariant
            it.seq() == all,
            out@.len() == if it.index() > MAX_GPU_ITEMS {
                MAX_GPU_ITEMS as int
            } else {
                it.index() as int
            },
            forall|i: int| 0 <= i < out@.len() ==> shows_gpu(#[trigger] out@[i], all[i]),
    {
        if out.len() < MAX_GPU_ITEMS {
            out.push(
                proto::GpuInfo {
                    name: sanitize_text(gpu.name, 256),
                    usage_percent_bits: bounded_percent_option(gpu.usage_percent_bits),
                    temperature_celsius_bits: finite_or_none(gpu.temperature_celsius_bits),
                },
            );
        }
    }
    out
}

fn lesser(a: u64, b: u64) -> (r: u64)
    ensures
        r == smaller(a, b),
{
    if a < b {
        a
    } else {
        b
    }
}

fn show_disks(disks: Vec<domain::DiskInfo>) -> (r: Vec<proto::DiskInfo>)
    ensures
        r@.len() == if disks@.len() > MAX_DISK_ITEMS {
            MAX_DISK_ITEMS as int
        } else {
            disks@.len() as int
        },
        forall|i: int| 0 <= i < r@.len() ==> shows_disk(#[trigger] r@[i], disks@[i]),
{
    let ghost all = disks@;
    let mut out: Vec<proto::DiskInfo> = Vec::new();
    for disk in it: disks.into_iter()
        invariant
            it.seq() == all,
            out@.len() == if it.index() > MAX_DISK_ITEMS {
                MAX_DISK_ITEMS as int
            } else {
                it.index() as int
            },
            forall|i: int| 0 <= i < out@.len() ==> shows_disk(#[trigger] out@[i], all[i]),
    {
        if out.len() < MAX_DISK_ITEMS {
            let total_bytes: u64 = protocol_u64(disk.total_bytes);
            out.push(
                proto::DiskInfo {
                    name: sanitize_text(disk.name, 256),
                    used_bytes: lesser(protocol_u64(disk.used_bytes), total_bytes),
                    total_bytes,
                    usage_percent_bits: bounded_percent(disk.usage_percent_bits),
                },
            );
        }
    }
    out
}

/// Shows the state of the system.
pub fn build_system_snapshot(snapshot: domain::SystemSnapshot) -> (r: proto::SystemSnapshot)
    ensures
        shows_system(r, snapshot),
{
    let total_bytes: u64 = protocol_u64(snapshot.memory.total_bytes);
    proto::SystemSnapshot {
        cpu: Some(
            proto::CpuInfo {
                usage_percent_bits: bounded_percent(snapshot.cpu.usage_percent_bits),
                core_count: if snapshot.cpu.core_count > 4096 {
                    4096
                } else {
                    snapshot.cpu.core_count
                },
                temperature_celsius_bits: finite_or_none(snapshot.cpu.temperature_celsius_bits),
                model_name: sanitize_text(snapshot.cpu.model_name, 256),
            },
        ),
        memory: Some(
            proto::MemoryInfo {
                used_bytes: lesser(protocol_u64(snapshot.memory.used_bytes), total_bytes),
                total_bytes,
                usage_percent_bits: bounded_percent(snapshot.memory.usage_percent_bits),
            },
        ),
        gpus: show_gpus(snapshot.gpus),
        disks: show_disks(snapshot.disks),
        network: Some(
            proto::NetworkStats {
                download_bytes_per_sec: protocol_u64(snapshot.network.download_bytes_per_sec),
                upload_bytes_per_sec: protocol_u64(snapshot.network.upload_bytes_per_sec),
            },
        ),
    }
}

/// What names the volume of an application.
pub open spec fn volume_key() -> spec_fn(domain::AppVolume) -> Seq<char> {
    |v: domain::AppVolume| crate::text::sanitized(v.app_name@, 256)
}

/// The volume of an application can be shown when the application has a name.
pub open spec fn volume_valid() -> spec_fn(domain::AppVolume) -> bool {
    |v: domain::AppVolume| crate::text::sanitized(v.app_name@, 256).len() > 0
}

/// A volume: at most a hundred.
pub open spec fn bounded_volume(volume: u8) -> u32 {
    if volume > 100 {
        100
    } else {
        volume as u32
    }
}

/// The volumes of applications that are shown.
pub open spec fn kept_volumes(volumes: Seq<domain::AppVolume>) -> Seq<domain::AppVolume> {
    kept(volumes, volume_valid(), volume_key(), MAX_APP_VOLUME_ITEMS as nat)
}

/// True when `r` shows what is playing.
pub open spec fn shows_playback(r: proto::PlaybackInfo, p: domain::PlaybackInfo) -> bool {
    &&& r.title@ == crate::text::sanitized(p.title@, 512)
    &&& r.artist@ == crate::text::sanitized(p.artist@, 512)
    &&& r.source_app@ == crate::text::sanitized(p.source_app@, 256)
    &&& r.position_secs_bits == crate::float_bits::nonnegative_64(p.position_secs_bits)
    &&& r.duration_secs_bits == crate::float_bits::nonnegative_64(p.duration_secs_bits)
    &&& r.is_playing == p.is_playing
    &&& r.confidence == proto::MediaConfidence::Authoritative
}

/// True when `r` shows the state of the media player `s`.
pub open spec fn shows_media(r: proto::MediaStateSnapshot, s: domain::MediaState) -> bool {
    &&& match s.playback {
        Some(playback) => r.playback is Some && shows_playback(r.playback->0, playback),
        None => r.playback is None,
    }
    &&& r.volume == Some(
        proto::VolumeInfo {
            system_volume: bounded_volume(s.volume.system_volume),
            is_muted: s.volume.is_muted,
        },
    )
    &&& r.app_volumes@.len() == kept_volumes(s.app_volumes@).len()
    &&& forall|i: int|
        0 <= i < r.app_volumes@.len() ==> {
            &&& (#[trigger] r.app_volumes@[i]).app_name@ == volume_key()(
                kept_volumes(s.app_volumes@)[i],
            )
            &&& r.app_volumes@[i].volume == bounded_volume(kept_volumes(s.app_volumes@)[i].volume)
        }
    &&& r.microphone_active == s.microphone_active
    &&& r.dnd_active == s.dnd_active
}

fn volume_up_to_hundred(volume: u8) -> (r: u32)
    ensures
        r == bounded_volume(volume),
{
    if volume > 100 {
        100
    } else {
        volume as u32
    }
}

fn has_volume(list: &Vec<proto::AppVolume>, name: &str) -> (r: bool)
    ensures
        r == exists|i: int| 0 <= i < list@.len() && (#[trigger] list@[i]).app_name@ == name@,
{
    let mut i: usize = 0;
    while i < list.len()
        invariant
            i <= list@.len(),
            forall|j: int| 0 <= j < i ==> (#[trigger] list@[j]).app_name@ != name@,
        decreases list@.len() - i,
    {
        if str_eq(list[i].app_name.as_str(), name) {
            return true;
        }
        i += 1;
    }
    false
}

/// Shows the state of the media player.
pub fn build_media_snapshot(state: domain::MediaState) -> (r: proto::MediaStateSnapshot)
    ensures
        shows_media(r, state),
{
    let ghost all = state.app_volumes@;
    let mut app_volumes: Vec<proto::AppVolume> = Vec::new();
    for volume in it: state.app_volumes.into_iter()
        invariant
            it.seq() == all,
            app_volumes@.len() == kept_volumes(all.take(it.index())).len(),
            forall|i: int|
                0 <= i < app_volumes@.len() ==> {
                    &&& (#[trigger] app_volumes@[i]).app_name@ == volume_key()(
                        kept_volumes(all.take(it.index()))[i],
                    )
                    &&& app_volumes@[i].volume == bounded_volume(
                        kept_volumes(all.take(it.index()))[i].volume,
                    )
                },
    {
        let ghost before = kept_volumes(all.take(it.index()));
        proof {
            lemma_kept_step(
                all,
                it.index() as int,
                volume_valid(),
                volume_key(),
                MAX_APP_VOLUME_ITEMS as nat,
            );
        }
        let level: u32 = volume_up_to_hundred(volume.volume);
        let app_name = sanitize_text(volume.app_name, 256);
        let seen = has_volume(&app_volumes, app_name.as_str());
        proof {
            lemma_same_keys(
                before,
                volume_key(),
                app_volumes@,
                |shown: proto::AppVolume| shown.app_name@,
                app_name@,
            );
        }
        if app_volumes.len() < MAX_APP_VOLUME_ITEMS && !app_name.as_str().is_empty() && !seen {
            app_volumes.push(proto::AppVolume { app_name, volume: level });
        }
    }
    proof {
        assert(all.take(all.len() as int) =~= all);
    }
    proto::MediaStateSnapshot {
        playback: match state.playback {
            Some(playback) => {
                let told = playback_info_to_proto(playback);
                Some(
                    proto::PlaybackInfo {
                        title: sanitize_text(told.title, 512),
                        artist: sanitize_text(told.artist, 512),
                        source_app: sanitize_text(told.source_app, 256),
                        position_secs_bits: bounded_nonnegative(told.position_secs_bits),
                        duration_secs_bits: bounded_nonnegative(told.duration_secs_bits),
                        is_playing: told.is_playing,
                        confidence: told.confidence,
                    },
                )
            },
            None => None,
        },
        volume: Some(
            proto::VolumeInfo {
                system_volume: volume_up_to_hundred(state.volume.system_volume),
                is_muted: state.volume.is_muted,
            },
        ),
        app_volumes,
        microphone_active: state.microphone_active,
        dnd_active: state.dnd_active,
    }
}

/// What names a process.
pub open spec fn process_key() -> spec_fn(domain::ProcessInfo) -> u32 {
    |p: domain::ProcessInfo| p.pid
}

/// A process can be shown when it has a number and a name.
pub open spec fn process_valid() -> spec_fn(domain::ProcessInfo) -> bool {
    |p: domain::ProcessInfo| p.pid != 0 && crate::text::sanitized(p.name@, 128).len() > 0
}

/// The processes that are shown.
pub open spec fn kept_processes(processes: Seq<domain::ProcessInfo>) -> Seq<domain::ProcessInfo> {
    kept(processes, process_valid(), process_key(), MAX_PROCESS_ITEMS as nat)
}

/// True when `r` shows the process `p`.
pub open spec fn shows_process(r: proto::ProcessInfo, p: domain::ProcessInfo) -> bool {
    &&& r.pid == p.pid
    &&& r.name@ == crate::text::sanitized(p.name@, 128)
    &&& r.cpu_percent_bits == crate::float_bits::nonnegative_32(p.cpu_percent_bits)
    &&& r.memory_bytes == bounded_u64(p.memory_bytes)
}

fn has_process(list: &Vec<proto::ProcessInfo>, pid: u32) -> (r: bool)
    ensures
        r == exists|i: int| 0 <= i < list@.len() && (#[trigger] list@[i]).pid == pid,
{
    let mut i: usize = 0;
    while i < list.len()
        invariant
            i <= list@.len(),
            forall|j: int| 0 <= j < i ==> (#[trigger] list@[j]).pid != pid,
        decreases list@.len() - i,
    {
        if list[i].pid == pid {
            return true;
        }
        i += 1;
    }
    false
}

/// Shows the processes.
pub fn build_process_snapshot(
    processes: Vec<domain::ProcessInfo>,
    focused_app_name: Option<String>,
) -> (r: proto::ProcessListSnapshot)
    ensures
        r.focused_app_name == focused_app_name,
        r.processes@.len() == kept_processes(processes@).len(),
        forall|i: int|
            0 <= i < r.processes@.len() ==> shows_process(
                #[trigger] r.processes@[i],
                kept_processes(processes@)[i],
            ),
{
    let ghost all = processes@;
    let mut bounded: Vec<proto::ProcessInfo> = Vec::new();
    for process in it: processes.into_iter()
        invariant
            it.seq() == all,
            bounded@.len() == kept_processes(all.take(it.index())).len(),
            forall|i: int|
                0 <= i < bounded@.len() ==> shows_process(
                    #[trigger] bounded@[i],
                    kept_processes(all.take(it.index()))[i],
                ),
    {
        let ghost before = kept_processes(all.take(it.index()));
        let ghost pid = process.pid;
        proof {
            lemma_kept_step(
                all,
                it.index() as int,
                process_valid(),
                process_key(),
                MAX_PROCESS_ITEMS as nat,
            );
        }
        let name = sanitize_text(process.name, 128);
        let seen = has_process(&bounded, process.pid);
        proof {
            lemma_same_keys(
                before,
                process_key(),
                bounded@,
                |shown: proto::ProcessInfo| shown.pid,
                pid,
            );
        }
        if bounded.len() < MAX_PROCESS_ITEMS && process.pid != 0 && !name.as_str().is_empty()
            && !seen {
            bounded.push(
                proto::ProcessInfo {
                    pid: process.pid,
                    name,
                    cpu_percent_bits: bounded_load(process.cpu_percent_bits),
                    memory_bytes: protocol_u64(process.memory_bytes),
                },
            );
        }
    }
    proof {
        assert(all.take(all.len() as int) =~= all);
    }
    proto::ProcessListSnapshot { processes: bounded, focused_app_name }
}

/// What names a window.
pub open spec fn window_key() -> spec_fn(domain::WindowInfo) -> u32 {
    |w: domain::WindowInfo| w.window_id
}

/// A window can be shown when it has a number.
pub open spec fn window_valid() -> spec_fn(domain::WindowInfo) -> bool {
    |w: domain::WindowInfo| w.window_id != 0
}

/// The windows that are shown.
pub open spec fn kept_windows(windows: Seq<domain::WindowInfo>) -> Seq<domain::WindowInfo> {
    kept(windows, window_valid(), window_key(), MAX_WINDOW_ITEMS as nat)
}

/// True when `r` shows the window `w`, its thumbnail aside.
pub open spec fn shows_window(r: proto::WindowInfo, w: domain::WindowInfo) -> bool {
    let app_name = crate::text::sanitized(w.app_name@, 256);
    &&& r.window_id == w.window_id
    &&& r.title@ == crate::text::sanitized(w.title@, 512)
    &&& r.app_name@ == if app_name.len() == 0 {
        "Unknown"@
    } else {
        app_name
    }
    &&& r.is_focused == w.is_focused
    &&& r.space_id == bounded_u64(w.space_id)
}

/// The store after the thumbnails of windows were put into it, and where each
/// thumbnail is found.
pub open spec fn stored_thumbnails(
    windows: Seq<domain::WindowInfo>,
    s: crate::blob_store::StoreView,
    owner: Seq<u8>,
    now: u64,
) -> (crate::blob_store::StoreView, Seq<Option<proto::BlobRefView>>)
    decreases windows.len(),
{
    if windows.len() == 0 {
        (s, Seq::empty())
    } else {
        let before = stored_thumbnails(windows.drop_last(), s, owner, now);
        let next = crate::blob_store::inserted(
            before.0,
            owner,
            windows.last().thumbnail_png@,
            "image/png"@,
            now,
        );
        (next.0, before.1.push(next.1))
    }
}

fn show_window(window: domain::WindowInfo, thumbnail: Option<proto::BlobRef>) -> (r:
    proto::WindowInfo)
    ensures
        shows_window(r, window),
        r.thumbnail == thumbnail,
{
    let app_name = sanitize_text(window.app_name, 256);
    proto::WindowInfo {
        window_id: window.window_id,
        title: sanitize_text(window.title, 512),
        app_name: if app_name.as_str().is_empty() {
            "Unknown".to_owned()
        } else {
            app_name
        },
        is_focused: window.is_focused,
        thumbnail,
        space_id: protocol_u64(window.space_id),
    }
}

fn has_window(list: &Vec<proto::WindowInfo>, id: u32) -> (r: bool)
    ensures
        r == exists|i: int| 0 <= i < list@.len() && (#[trigger] list@[i]).window_id == id,
{
    let mut i: usize = 0;
    while i < list.len()
        invariant
            i <= list@.len(),
            forall|j: int| 0 <= j < i ==> (#[trigger] list@[j]).window_id != id,
        decreases list@.len() - i,
    {
        if list[i].window_id == id {
            return true;
        }
        i += 1;
    }
    false
}

/// Shows the windows without their thumbnails.
pub fn build_window_list(windows: Vec<domain::WindowInfo>) -> (r: Vec<proto::WindowInfo>)
    ensures
        r@.len() == kept_windows(windows@).len(),
        forall|i: int|
            0 <= i < r@.len() ==> shows_window(#[trigger] r@[i], kept_windows(windows@)[i])
                && r@[i].thumbnail is None,
{
    let ghost all = windows@;
    let mut bounded: Vec<proto::WindowInfo> = Vec::new();
    for window in it: windows.into_iter()
        invariant
            it.seq() == all,
            bounded@.len() == kept_windows(all.take(it.index())).len(),
            forall|i: int|
                0 <= i < bounded@.len() ==> shows_window(
                    #[trigger] bounded@[i],
                    kept_windows(all.take(it.index()))[i],
                ) && bounded@[i].thumbnail is None,
    {
        proof {
            lemma_kept_step(
                all,
                it.index() as int,
                window_valid(),
                window_key(),
                MAX_WINDOW_ITEMS as nat,
            );
            lemma_same_keys(
                kept_windows(all.take(it.index())),
                window_key(),
                bounded@,
                |shown: proto::WindowInfo| shown.window_id,
                window.window_id,
            );
        }
        if bounded.len() < MAX_WINDOW_ITEMS && window.window_id != 0 && !has_window(
            &bounded,
            window.window_id,
        ) {
            bounded.push(show_window(window, None));
        }
    }
    proof {
        assert(all.take(all.len() as int) =~= all);
    }
    bounded
}

/// Shows the windows with their thumbnails, which go into the blob store.
pub fn build_window_list_with_thumbnails(
    windows: Vec<domain::WindowInfo>,
    store: &mut BlobStore,
    owner: &[u8],
    now: u64,
) -> (r: Vec<proto::WindowInfo>)
    requires
        old(store).wf(),
        now + BLOB_IDLE_TTL_MS <= u64::MAX,
    ensures
        final(store).wf(),
        r@.len() == kept_windows(windows@).len(),
        ({
            let stored = stored_thumbnails(
                kept_windows(windows@),
                old(store)@,
                owner@,
                now,
            );
            &&& final(store)@ == stored.0
            &&& stored.1.len() == r@.len()
            &&& forall|i: int|
                0 <= i < r@.len() ==> shows_window(#[trigger] r@[i], kept_windows(windows@)[i])
                    && crate::blob_store::reference_view(r@[i].thumbnail) == stored.1[i]
        }),
{
    let ghost all = windows@;
    let ghost first = store@;
    let mut bounded: Vec<proto::WindowInfo> = Vec::new();
    for window in it: windows.into_iter()
        invariant
            it.seq() == all,
            store.wf(),
            now + BLOB_IDLE_TTL_MS <= u64::MAX,
            bounded@.len() == kept_windows(all.take(it.index())).len(),
            store@ == stored_thumbnails(
                kept_windows(all.take(it.index())),
                first,
                owner@,
                now,
            ).0,
            stored_thumbnails(kept_windows(all.take(it.index())), first, owner@, now).1.len()
                == bounded@.len(),
            forall|i: int|
                0 <= i < bounded@.len() ==> shows_window(
                    #[trigger] bounded@[i],
                    kept_windows(all.take(it.index()))[i],
                ) && crate::blob_store::reference_view(bounded@[i].thumbnail) == stored_thumbnails(
                    kept_windows(all.take(it.index())),
                    first,
                    owner@,
                    now,
                ).1[i],
    {
        let ghost before = kept_windows(all.take(it.index()));
        let ghost shown = window;
        proof {
            lemma_kept_step(
                all,
                it.index() as int,
                window_valid(),
                window_key(),
                MAX_WINDOW_ITEMS as nat,
            );
            lemma_same_keys(
                before,
                window_key(),
                bounded@,
                |shown: proto::WindowInfo| shown.window_id,
                window.window_id,
            );
        }
        if bounded.len() < MAX_WINDOW_ITEMS && window.window_id != 0 && !has_window(
            &bounded,
            window.window_id,
        ) {
            let mut window = window;
            let mut picture: Vec<u8> = Vec::new();
            std::mem::swap(&mut picture, &mut window.thumbnail_png);
            let thumbnail = store.insert(owner, picture, "image/png", now);
            proof {
                assert(before.push(shown).drop_last() =~= before);
                assert(before.push(shown).last() == shown);
            }
            bounded.push(show_window(window, thumbnail));
        }
    }
    proof {
        assert(all.take(all.len() as int) =~= all);
    }
    bounded
}

/// What names a space.
pub open spec fn space_key() -> spec_fn(domain::SpaceInfo) -> u64 {
    |s: domain::SpaceInfo| s.space_id
}

/// A space can be shown when it has a number that fits in a signed one.
pub open spec fn space_valid() -> spec_fn(domain::SpaceInfo) -> bool {
    |s: domain::SpaceInfo| 0 < s.space_id <= i64::MAX
}

/// The spaces that are shown.
pub open spec fn kept_spaces(spaces: Seq<domain::SpaceInfo>) -> Seq<domain::SpaceInfo> {
    kept(spaces, space_valid(), space_key(), MAX_SPACE_ITEMS as nat)
}

/// True when `r` shows the space `s`.
pub open spec fn shows_space(r: proto::SpaceInfo, s: domain::SpaceInfo) -> bool {
    &&& r.space_id == s.space_id
    &&& r.label@ == crate::text::sanitized(s.label@, 128)
    &&& r.is_active == s.is_active
}

fn has_space(list: &Vec<proto::SpaceInfo>, id: u64) -> (r: bool)
    ensures
        r == exists|i: int| 0 <= i < list@.len() && (#[trigger] list@[i]).space_id == id,
{
    let mut i: usize = 0;
    while i < list.len()
        invariant
            i <= list@.len(),
            forall|j: int| 0 <= j < i ==> (#[trigger] list@[j]).space_id != id,
        decreases list@.len() - i,
    {
        if list[i].space_id == id {
            return true;
        }
        i += 1;
    }
    false
}

/// Shows the spaces.
pub fn build_space_list(spaces: Vec<domain::SpaceInfo>) -> (r: Vec<proto::SpaceInfo>)
    ensures
        r@.len() == kept_spaces(spaces@).len(),
        forall|i: int|
            0 <= i < r@.len() ==> shows_space(#[trigger] r@[i], kept_spaces(spaces@)[i]),
{
    let ghost all = spaces@;
    let mut bounded: Vec<proto::SpaceInfo> = Vec::new();
    for space in it: spaces.into_iter()
        invariant
            it.seq() == all,
            bounded@.len() == kept_spaces(all.take(it.index())).len(),
            forall|i: int|
                0 <= i < bounded@.len() ==> shows_space(
                    #[trigger] bounded@[i],
                    kept_spaces(all.take(it.index()))[i],
                ),
    {
        let ghost before = kept_spaces(all.take(it.index()));
        let ghost id = space.space_id;
        proof {
            lemma_kept_step(
                all,
                it.index() as int,
                space_valid(),
                space_key(),
                MAX_SPACE_ITEMS as nat,
            );
        }
        let seen = has_space(&bounded, space.space_id);
        proof {
            lemma_same_keys(
                before,
                space_key(),
                bounded@,
                |shown: proto::SpaceInfo| shown.space_id,
                id,
            );
        }
        if bounded.len() < MAX_SPACE_ITEMS && space.space_id != 0 && space.space_id
            <= 0x7fff_ffff_ffff_ffff && !seen {
            bounded.push(
                proto::SpaceInfo {
                    space_id: space.space_id,
                    label: sanitize_text(space.label, 128),
                    is_active: space.is_active,
                },
            );
        }
    }
    proof {
        assert(all.take(all.len() as int) =~= all);
    }
    bounded
}

/// What names an action.
pub open spec fn action_key() -> spec_fn(QuickActionInfo) -> Seq<char> {
    |a: QuickActionInfo| a.id@
}

/// An action can be shown when it has a proper name.
pub open spec fn action_valid() -> spec_fn(QuickActionInfo) -> bool {
    |a: QuickActionInfo| crate::access::control_identifier(a.id@)
}

/// The actions that are shown.
pub open spec fn kept_actions(actions: Seq<QuickActionInfo>) -> Seq<QuickActionInfo> {
    kept(actions, action_valid(), action_key(), MAX_ACTION_ITEMS as nat)
}

/// True when `r` shows the action `a`.
pub open spec fn shows_action(r: QuickActionInfo, a: QuickActionInfo) -> bool {
    &&& r.id@ == a.id@
    &&& r.name@ == crate::text::sanitized(a.name@, 256)
    &&& r.icon_id@ == crate::text::sanitized(a.icon_id@, 64)
    &&& r.icon_svg@ == crate::text::sanitized(a.icon_svg@, 16384)
    &&& r.color@ == crate::text::sanitized(a.color@, 64)
    &&& r.group@ == crate::text::sanitized(a.group@, 256)
    &&& r.action_type_label@ == crate::text::sanitized(a.action_type_label@, 128)
    &&& r.sort_order == a.sort_order
    &&& r.is_toggle == a.is_toggle
    &&& r.is_running == a.is_running
    &&& r.requires_confirmation == a.requires_confirmation
}

fn has_action(list: &Vec<QuickActionInfo>, id: &str) -> (r: bool)
    ensures
        r == exists|i: int| 0 <= i < list@.len() && (#[trigger] list@[i]).id@ == id@,
{
    let mut i: usize = 0;
    while i < list.len()
        invariant
            i <= list@.len(),
            forall|j: int| 0 <= j < i ==> (#[trigger] list@[j]).id@ != id@,
        decreases list@.len() - i,
    {
        if str_eq(list[i].id.as_str(), id) {
            return true;
        }
        i += 1;
    }
    false
}

/// Shows the quick actions.
pub fn build_actions(actions: Vec<QuickActionInfo>) -> (r: Vec<QuickActionInfo>)
    ensures
        r@.len() == kept_actions(actions@).len(),
        forall|i: int|
            0 <= i < r@.len() ==> shows_action(#[trigger] r@[i], kept_actions(actions@)[i]),
{
    let ghost all = actions@;
    let mut bounded: Vec<QuickActionInfo> = Vec::new();
    for action in it: actions.into_iter()
        invariant
            it.seq() == all,
            bounded@.len() == kept_actions(all.take(it.index())).len(),
            forall|i: int|
                0 <= i < bounded@.len() ==> shows_action(
                    #[trigger] bounded@[i],
                    kept_actions(all.take(it.index()))[i],
                ),
    {
        let ghost before = kept_actions(all.take(it.index()));
        let ghost id = action.id@;
        proof {
            lemma_kept_step(
                all,
                it.index() as int,
                action_valid(),
                action_key(),
                MAX_ACTION_ITEMS as nat,
            );
        }
        let seen = has_action(&bounded, action.id.as_str());
        proof {
            lemma_same_keys(
                before,
                action_key(),
                bounded@,
                |shown: QuickActionInfo| shown.id@,
                id,
            );
        }
        if bounded.len() < MAX_ACTION_ITEMS && valid_control_identifier(action.id.as_str())
            && !seen {
            bounded.push(
                QuickActionInfo {
                    id: action.id,
                    name: sanitize_text(action.name, 256),
                    icon_id: sanitize_text(action.icon_id, 64),
                    icon_svg: sanitize_text(action.icon_svg, 16384),
                    color: sanitize_text(action.color, 64),
                    group: sanitize_text(action.group, 256),
                    action_type_label: sanitize_text(action.action_type_label, 128),
                    sort_order: action.sort_order,
                    is_toggle: action.is_toggle,
                    is_running: action.is_running,
                    requires_confirmation: action.requires_confirmation,
                },
            );
        }
    }
    proof {
        assert(all.take(all.len() as int) =~= all);
    }
    bounded
}

/// What names an automation.
pub open spec fn automation_key() -> spec_fn(AutomationInfo) -> Seq<char> {
    |a: AutomationInfo| a.id@
}

/// An automation can be shown when it has a proper name.
pub open spec fn automation_valid() -> spec_fn(AutomationInfo) -> bool {
    |a: AutomationInfo| crate::access::control_identifier(a.id@)
}

/// The automations that are shown.
pub open spec fn kept_automations(automations: Seq<AutomationInfo>) -> Seq<AutomationInfo> {
    kept(automations, automation_valid(), automation_key(), MAX_AUTOMATION_ITEMS as nat)
}

/// True when `r` is a text cut down, if there is one.
pub open spec fn shows_text(r: Option<String>, text: Option<String>, maximum: nat) -> bool {
    match text {
        Some(value) => r is Some && r->0@ == crate::text::sanitized(value@, maximum),
        None => r is None,
    }
}

/// True when `r` shows the automation `a`.
pub open spec fn shows_automation(r: AutomationInfo, a: AutomationInfo) -> bool {
    &&& r.id@ == a.id@
    &&& r.name@ == crate::text::sanitized(a.name@, 256)
    &&& r.summary@ == crate::text::sanitized(a.summary@, 2048)
    &&& r.enabled == a.enabled
    &&& match a.latest_activity_id {
        Some(id) => if crate::access::control_identifier(id@) {
            r.latest_activity_id is Some && r.latest_activity_id->0@ == id@
        } else {
            r.latest_activity_id is None
        },
        None => r.latest_activity_id is None,
    }
    &&& shows_text(r.latest_status, a.latest_status, 64)
    &&& shows_text(r.reason, a.reason, 2048)
    &&& r.next_run_at_ms == a.next_run_at_ms
    &&& r.completed_steps == a.completed_steps
    &&& r.total_steps == a.total_steps
}

fn show_text(text: Option<String>, maximum: usize) -> (r: Option<String>)
    ensures
        shows_text(r, text, maximum as nat),
{
    match text {
        Some(value) => Some(sanitize_text(value, maximum)),
        None => None,
    }
}

fn has_automation(list: &Vec<AutomationInfo>, id: &str) -> (r: bool)
    ensures
        r == exists|i: int| 0 <= i < list@.len() && (#[trigger] list@[i]).id@ == id@,
{
    let mut i: usize = 0;
    while i < list.len()
        invariant
            i <= list@.len(),
            forall|j: int| 0 <= j < i ==> (#[trigger] list@[j]).id@ != id@,
        decreases list@.len() - i,
    {
        if str_eq(list[i].id.as_str(), id) {
            return true;
        }
        i += 1;
    }
    false
}

/// Shows the automations.
pub fn build_automations(automations: Vec<AutomationInfo>) -> (r: Vec<AutomationInfo>)
    ensures
        r@.len() == kept_automations(automations@).len(),
        forall|i: int|
            0 <= i < r@.len() ==> shows_automation(
                #[trigger] r@[i],
                kept_automations(automations@)[i],
            ),
{
    let ghost all = automations@;
    let mut bounded: Vec<AutomationInfo> = Vec::new();
    for automation in it: automations.into_iter()
        invariant
            it.seq() == all,
            bounded@.len() == kept_automations(all.take(it.index())).len(),
            forall|i: int|
                0 <= i < bounded@.len() ==> shows_automation(
                    #[trigger] bounded@[i],
                    kept_automations(all.take(it.index()))[i],
                ),
    {
        let ghost before = kept_automations(all.take(it.index()));
        let ghost id = automation.id@;
        proof {
            lemma_kept_step(
                all,
                it.index() as int,
                automation_valid(),
                automation_key(),
                MAX_AUTOMATION_ITEMS as nat,
            );
        }
        let seen = has_automation(&bounded, automation.id.as_str());
        proof {
            lemma_same_keys(
                before,
                automation_key(),
                bounded@,
                |shown: AutomationInfo| shown.id@,
                id,
            );
        }
        if bounded.len() < MAX_AUTOMATION_ITEMS && valid_control_identifier(automation.id.as_str())
            && !seen {
            let latest_activity_id = match automation.latest_activity_id {
                Some(id) => if valid_control_identifier(id.as_str()) {
                    Some(id)
                } else {
                    None
                },
                None => None,
            };
            bounded.push(
                AutomationInfo {
                    id: automation.id,
                    name: sanitize_text(automation.name, 256),
                    summary: sanitize_text(automation.summary, 2048),
                    enabled: automation.enabled,
                    latest_activity_id,
                    latest_status: show_text(automation.latest_status, 64),
                    reason: show_text(automation.reason, 2048),
                    next_run_at_ms: automation.next_run_at_ms,
                    completed_steps: automation.completed_steps,
                    total_steps: automation.total_steps,
                },
            );
        }
    }
    proof {
        assert(all.take(all.len() as int) =~= all);
    }
    bounded
}

/// A time as it is shown: at least one.
pub open spec fn shown_time(value: i64) -> i64 {
    if value > 1 {
        value
    } else {
        1
    }
}

/// True when `r` shows the notification `n`.
pub open spec fn shows_notification(r: HostNotificationInfo, n: HostNotificationInfo) -> bool {
    &&& r.id@ == crate::text::sanitized(n.id@, 256)
    &&& r.title@ == crate::text::sanitized(n.title@, 160)
    &&& r.body@ == crate::text::sanitized(n.body@, 8192)
    &&& r.source@ == crate::text::sanitized(n.source@, 120)
    &&& r.kind == n.kind
    &&& shows_text(r.reference, n.reference, 512)
    &&& r.created_at_ms == shown_time(n.created_at_ms)
    &&& r.read_at_ms == match n.read_at_ms {
        Some(value) => Some(shown_time(value)),
        None => None,
    }
    &&& shows_text(r.read_by_device_name, n.read_by_device_name, 128)
}

/// Shows a notification.
pub fn build_notification_info(notification: HostNotificationInfo) -> (r: HostNotificationInfo)
    ensures
        shows_notification(r, notification),
{
    HostNotificationInfo {
        id: sanitize_text(notification.id, 256),
        title: sanitize_text(notification.title, 160),
        body: sanitize_text(notification.body, 8192),
        source: sanitize_text(notification.source, 120),
        kind: notification.kind,
        reference: show_text(notification.reference, 512),
        created_at_ms: if notification.created_at_ms > 1 {
            notification.created_at_ms
        } else {
            1
        },
        read_at_ms: match notification.read_at_ms {
            Some(value) => Some(
                if value > 1 {
                    value
                } else {
                    1
                },
            ),
            None => None,
        },
        read_by_device_name: show_text(notification.read_by_device_name, 128),
    }
}

/// Shows notifications, in order.
pub fn build_notifications(notifications: Vec<HostNotificationInfo>) -> (r: Vec<
    HostNotificationInfo,
>)
    ensures
        r@.len() == notifications@.len(),
        forall|i: int|
            0 <= i < r@.len() ==> shows_notification(#[trigger] r@[i], notifications@[i]),
{
    let ghost all = notifications@;
    let mut out: Vec<HostNotificationInfo> = Vec::new();
    for notification in it: notifications.into_iter()
        invariant
            it.seq() == all,
            out@.len() == it.index(),
            forall|i: int| 0 <= i < out@.len() ==> shows_notification(#[trigger] out@[i], all[i]),
    {
        out.push(build_notification_info(notification));
    }
    out
}

/// The clipboard history as clients see it.
#[derive(Debug, PartialEq, Eq)]
pub struct ClipboardSnapshot {
    pub history: Vec<proto::ClipboardEntry>,
    pub next_cursor_timestamp_ms: Option<i64>,
    pub next_cursor_id: Option<u64>,
    pub policy: Option<proto::ClipboardPolicy>,
    pub labels: Vec<proto::ClipboardLabel>,
}

/// True when the preview of an entry is too long to be shown.
pub open spec fn oversized(s: domain::ClipboardSummary) -> bool {
    crate::text::utf8_len(s.preview@) > MAX_CLIPBOARD_PREVIEW_BYTES
}

/// What names a clipboard entry.
pub open spec fn entry_key() -> spec_fn(domain::ClipboardSummary) -> u64 {
    |s: domain::ClipboardSummary| s.id
}

/// An entry can be shown when it has a short preview, a number that fits in a
/// signed one and a time.
pub open spec fn entry_valid() -> spec_fn(domain::ClipboardSummary) -> bool {
    |s: domain::ClipboardSummary|
        !oversized(s) && 0 < s.id <= i64::MAX && s.captured_at_ms > 0
}

/// The part of a history that is looked at.
pub open spec fn recent(history: Seq<domain::ClipboardSummary>) -> Seq<domain::ClipboardSummary> {
    if history.len() > MAX_CLIPBOARD_HISTORY {
        history.take(MAX_CLIPBOARD_HISTORY as int)
    } else {
        history
    }
}

/// The entries that are shown.
pub open spec fn kept_entries(history: Seq<domain::ClipboardSummary>) -> Seq<
    domain::ClipboardSummary,
> {
    kept(history, entry_valid(), entry_key(), MAX_CLIPBOARD_HISTORY as nat)
}

/// True when `e` shows the entry `s`. The name of an application with a control
/// character in it is left out.
pub open spec fn shows_entry(e: proto::ClipboardEntry, s: domain::ClipboardSummary) -> bool {
    &&& match s.source_app {
        Some(name) => {
            let cut = crate::text::truncated(name@, 256);
            if crate::text::control_free(cut) {
                e.source_app is Some && e.source_app->0@ == cut
            } else {
                e.source_app is None
            }
        },
        None => e.source_app is None,
    }
    &&& crate::proto_msg::is_wire_summary(
        (proto::ClipboardEntry { source_app: s.source_app, ..e }),
        s,
    )
}

fn show_entry(entry: domain::ClipboardSummary) -> (r: proto::ClipboardEntry)
    ensures
        shows_entry(r, entry),
{
    let mut told = clipboard_summary_to_proto(entry);
    let source_app = told.source_app.take();
    told.source_app = match source_app {
        Some(name) => {
            let cut = truncate_utf8(name, 256);
            if has_control(cut.as_str()) {
                None
            } else {
                Some(cut)
            }
        },
        None => None,
    };
    told
}

fn has_entry(list: &Vec<proto::ClipboardEntry>, id: u64) -> (r: bool)
    ensures
        r == exists|i: int| 0 <= i < list@.len() && (#[trigger] list@[i]).id == id,
{
    let mut i: usize = 0;
    while i < list.len()
        invariant
            i <= list@.len(),
            forall|j: int| 0 <= j < i ==> (#[trigger] list@[j]).id != id,
        decreases list@.len() - i,
    {
        if list[i].id == id {
            return true;
        }
        i += 1;
    }
    false
}

/// True when one of the entries that are looked at is too long to be shown.
pub open spec fn has_oversized(history: Seq<domain::ClipboardSummary>) -> bool {
    exists|i: int| 0 <= i < history.len() && oversized(#[trigger] history[i])
}

fn first_entries(history: Vec<domain::ClipboardSummary>) -> (r: Vec<domain::ClipboardSummary>)
    ensures
        r@ == recent(history@),
{
    let ghost all = history@;
    let mut history = history;
    if history.len() > MAX_CLIPBOARD_HISTORY {
        history.truncate(MAX_CLIPBOARD_HISTORY);
    }
    assert(history@ =~= recent(all));
    history
}

/// Shows the clipboard history. An entry that is too long to be shown is an
/// error unless such entries are to be skipped.
pub fn build_clipboard_snapshot(
    history: Vec<domain::ClipboardSummary>,
    policy: domain::ClipboardPolicy,
    next_cursor: Option<domain::ClipboardCursor>,
    skip_oversized_history: bool,
) -> (r: Result<ClipboardSnapshot, &'static str>)
    ensures
        if !skip_oversized_history && has_oversized(recent(history@)) {
            r is Err && r->Err_0@ == "clipboard summary exceeds the 2 KiB protocol limit"@
        } else {
            let shown = kept_entries(recent(history@));
            &&& r is Ok
            &&& r->Ok_0.history@.len() == shown.len()
            &&& forall|i: int|
                0 <= i < shown.len() ==> shows_entry(#[trigger] r->Ok_0.history@[i], shown[i])
            &&& r->Ok_0.next_cursor_timestamp_ms == match next_cursor {
                Some(cursor) => Some(cursor.sort_at_ms),
                None => None,
            }
            &&& r->Ok_0.next_cursor_id == match next_cursor {
                Some(cursor) => Some(cursor.id),
                None => None,
            }
            &&& r->Ok_0.policy == Some(crate::proto_msg::wire_clipboard_policy(policy))
            &&& r->Ok_0.labels@.len() == 0
        },
{
    let history = first_entries(history);
    let ghost all = history@;
    let mut bounded: Vec<proto::ClipboardEntry> = Vec::new();
    let mut failed = false;
    for entry in it: history.into_iter()
        invariant
            it.seq() == all,
            failed == (!skip_oversized_history && has_oversized(all.take(it.index()))),
            bounded@.len() == kept_entries(all.take(it.index())).len(),
            forall|i: int|
                0 <= i < bounded@.len() ==> shows_entry(
                    #[trigger] bounded@[i],
                    kept_entries(all.take(it.index()))[i],
                ),
    {
        let ghost n = it.index() as int;
        let ghost before = kept_entries(all.take(n));
        let ghost id = entry.id;
        proof {
            lemma_kept_step(
                all,
                n,
                entry_valid(),
                entry_key(),
                MAX_CLIPBOARD_HISTORY as nat,
            );
            assert(has_oversized(all.take(n + 1)) == (has_oversized(all.take(n)) || oversized(
                all[n],
            ))) by {
                if has_oversized(all.take(n)) {
                    let i = choose|i: int| 0 <= i < n && oversized(#[trigger] all.take(n)[i]);
                    assert(all.take(n + 1)[i] == all.take(n)[i]);
                }
                if oversized(all[n]) {
                    assert(all.take(n + 1)[n] == all[n]);
                }
                if has_oversized(all.take(n + 1)) {
                    let i = choose|i: int|
                        0 <= i < n + 1 && oversized(#[trigger] all.take(n + 1)[i]);
                    if i < n {
                        assert(all.take(n)[i] == all.take(n + 1)[i]);
                    }
                }
            }
        }
        let large = byte_len(entry.preview.as_str()) > MAX_CLIPBOARD_PREVIEW_BYTES;
        if large && !skip_oversized_history {
            failed = true;
        }
        let seen = has_entry(&bounded, entry.id);
        proof {
            lemma_same_keys(
                before,
                entry_key(),
                bounded@,
                |shown: proto::ClipboardEntry| shown.id,
                id,
            );
        }
        if bounded.len() < MAX_CLIPBOARD_HISTORY && !large && entry.id != 0 && entry.id
            <= 0x7fff_ffff_ffff_ffff && entry.captured_at_ms > 0 && !seen {
            bounded.push(show_entry(entry));
        }
    }
    proof {
        assert(all.take(all.len() as int) =~= all);
    }
    if failed {
        return Err("clipboard summary exceeds the 2 KiB protocol limit");
    }
    let (next_cursor_timestamp_ms, next_cursor_id) = match next_cursor {
        Some(cursor) => (Some(cursor.sort_at_ms), Some(cursor.id)),
        None => (None, None),
    };
    Ok(
        ClipboardSnapshot {
            history: bounded,
            next_cursor_timestamp_ms,
            next_cursor_id,
            policy: Some(clipboard_policy_to_proto(policy)),
            labels: Vec::new(),
        },
    )
}

/// True when a text is told as it is, if it is clean and not too long.
pub open spec fn keeps_text(told: Seq<char>, text: Seq<char>, maximum: nat) -> bool {
    crate::text::control_free(text) && crate::text::utf8_len(text) <= maximum ==> told == text
}

/// What is shown of the system is what was measured, each number in its place:
/// ordinary values are shown as they are, and no more is used than there is.
pub proof fn lemma_system_is_shown_as_measured(r: proto::SystemSnapshot, s: domain::SystemSnapshot)
    requires
        shows_system(r, s),
    ensures
        r.cpu is Some && r.memory is Some && r.network is Some,
        s.cpu.usage_percent_bits <= 0x42c8_0000 ==> r.cpu->0.usage_percent_bits
            == s.cpu.usage_percent_bits,
        s.cpu.core_count <= 4096 ==> r.cpu->0.core_count == s.cpu.core_count,
        s.cpu.temperature_celsius_bits is None ==> r.cpu->0.temperature_celsius_bits is None,
        s.cpu.temperature_celsius_bits is Some && s.cpu.temperature_celsius_bits->0
            < 0x7f80_0000 ==> r.cpu->0.temperature_celsius_bits == s.cpu.temperature_celsius_bits,
        keeps_text(r.cpu->0.model_name@, s.cpu.model_name@, 256),
        s.memory.total_bytes <= i64::MAX ==> r.memory->0.total_bytes == s.memory.total_bytes,
        r.memory->0.used_bytes <= r.memory->0.total_bytes,
        s.memory.used_bytes <= s.memory.total_bytes <= i64::MAX ==> r.memory->0.used_bytes
            == s.memory.used_bytes,
        s.memory.usage_percent_bits <= 0x42c8_0000 ==> r.memory->0.usage_percent_bits
            == s.memory.usage_percent_bits,
        s.network.download_bytes_per_sec <= i64::MAX ==> r.network->0.download_bytes_per_sec
            == s.network.download_bytes_per_sec,
        s.network.upload_bytes_per_sec <= i64::MAX ==> r.network->0.upload_bytes_per_sec
            == s.network.upload_bytes_per_sec,
        s.gpus@.len() <= 64 ==> r.gpus@.len() == s.gpus@.len(),
        s.disks@.len() <= 256 ==> r.disks@.len() == s.disks@.len(),
        r.gpus@.len() <= 64 && r.gpus@.len() <= s.gpus@.len(),
        r.disks@.len() <= 256 && r.disks@.len() <= s.disks@.len(),
        forall|i: int|
            0 <= i < r.disks@.len() ==> {
                let (told, disk) = (#[trigger] r.disks@[i], s.disks@[i]);
                &&& keeps_text(told.name@, disk.name@, 256)
                &&& disk.total_bytes <= i64::MAX ==> told.total_bytes == disk.total_bytes
                &&& told.used_bytes <= told.total_bytes
                &&& disk.used_bytes <= disk.total_bytes <= i64::MAX ==> told.used_bytes
                    == disk.used_bytes
                &&& disk.usage_percent_bits <= 0x42c8_0000 ==> told.usage_percent_bits
                    == disk.usage_percent_bits
            },
        forall|i: int|
            0 <= i < r.gpus@.len() ==> {
                let (told, gpu) = (#[trigger] r.gpus@[i], s.gpus@[i]);
                &&& keeps_text(told.name@, gpu.name@, 256)
                &&& gpu.usage_percent_bits is None <==> told.usage_percent_bits is None
                &&& gpu.usage_percent_bits is Some && gpu.usage_percent_bits->0 <= 0x42c8_0000
                    ==> told.usage_percent_bits == gpu.usage_percent_bits
                &&& gpu.temperature_celsius_bits is Some && gpu.temperature_celsius_bits->0
                    < 0x7f80_0000 ==> told.temperature_celsius_bits
                    == gpu.temperature_celsius_bits
            },
{
    lemma_keeps(s.cpu.model_name@, 256);
    assert forall|i: int| 0 <= i < r.disks@.len() implies {
        let (told, disk) = (#[trigger] r.disks@[i], s.disks@[i]);
        &&& keeps_text(told.name@, disk.name@, 256)
        &&& disk.total_bytes <= i64::MAX ==> told.total_bytes == disk.total_bytes
        &&& told.used_bytes <= told.total_bytes
        &&& disk.used_bytes <= disk.total_bytes <= i64::MAX ==> told.used_bytes
            == disk.used_bytes
        &&& disk.usage_percent_bits <= 0x42c8_0000 ==> told.usage_percent_bits
            == disk.usage_percent_bits
    } by {
        assert(shows_disk(r.disks@[i], s.disks@[i]));
        lemma_keeps(s.disks@[i].name@, 256);
    }
    assert forall|i: int| 0 <= i < r.gpus@.len() implies {
        let (told, gpu) = (#[trigger] r.gpus@[i], s.gpus@[i]);
        &&& keeps_text(told.name@, gpu.name@, 256)
        &&& gpu.usage_percent_bits is None <==> told.usage_percent_bits is None
        &&& gpu.usage_percent_bits is Some && gpu.usage_percent_bits->0 <= 0x42c8_0000
            ==> told.usage_percent_bits == gpu.usage_percent_bits
        &&& gpu.temperature_celsius_bits is Some && gpu.temperature_celsius_bits->0
            < 0x7f80_0000 ==> told.temperature_celsius_bits == gpu.temperature_celsius_bits
    } by {
        assert(shows_gpu(r.gpus@[i], s.gpus@[i]));
        lemma_keeps(s.gpus@[i].name@, 256);
    }
}

proof fn lemma_keeps(text: Seq<char>, maximum: nat)
    ensures
        keeps_text(crate::text::sanitized(text, maximum), text, maximum),
{
    if crate::text::control_free(text) && crate::text::utf8_len(text) <= maximum {
        crate::text::lemma_short_text_is_kept(text, maximum);
    }
}

/// What is shown of the media player is its state, each fact in its place.
pub proof fn lemma_media_is_shown_as_it_is(r: proto::MediaStateSnapshot, s: domain::MediaState)
    requires
        shows_media(r, s),
    ensures
        r.playback is Some <==> s.playback is Some,
        s.playback is Some ==> {
            let (told, playback) = (r.playback->0, s.playback->0);
            &&& keeps_text(told.title@, playback.title@, 512)
            &&& keeps_text(told.artist@, playback.artist@, 512)
            &&& keeps_text(told.source_app@, playback.source_app@, 256)
            &&& told.is_playing == playback.is_playing
            &&& playback.position_secs_bits < 0x7ff0_0000_0000_0000 ==> told.position_secs_bits
                == playback.position_secs_bits
            &&& playback.duration_secs_bits < 0x7ff0_0000_0000_0000 ==> told.duration_secs_bits
                == playback.duration_secs_bits
        },
        r.volume is Some,
        s.volume.system_volume <= 100 ==> r.volume->0.system_volume == s.volume.system_volume,
        r.volume->0.system_volume <= 100,
        r.volume->0.is_muted == s.volume.is_muted,
        r.microphone_active == s.microphone_active,
        r.dnd_active == s.dnd_active,
        forall|i: int|
            0 <= i < r.app_volumes@.len() ==> (#[trigger] r.app_volumes@[i]).volume <= 100,
{
    if s.playback is Some {
        let playback = s.playback->0;
        lemma_keeps(playback.title@, 512);
        lemma_keeps(playback.artist@, 512);
        lemma_keeps(playback.source_app@, 256);
    }
}

/// A process, a window and a space are shown as they are, each fact in its place.
pub proof fn lemma_desktop_is_shown_as_it_is(
    process: proto::ProcessInfo,
    p: domain::ProcessInfo,
    window: proto::WindowInfo,
    w: domain::WindowInfo,
    space: proto::SpaceInfo,
    s: domain::SpaceInfo,
)
    ensures
        shows_process(process, p) ==> {
            &&& process.pid == p.pid
            &&& keeps_text(process.name@, p.name@, 128)
            &&& p.memory_bytes <= i64::MAX ==> process.memory_bytes == p.memory_bytes
            &&& p.cpu_percent_bits < 0x7f80_0000 ==> process.cpu_percent_bits
                == p.cpu_percent_bits
        },
        shows_window(window, w) ==> {
            &&& window.window_id == w.window_id
            &&& keeps_text(window.title@, w.title@, 512)
            &&& w.app_name@.len() > 0 ==> keeps_text(window.app_name@, w.app_name@, 256)
            &&& window.is_focused == w.is_focused
            &&& w.space_id <= i64::MAX ==> window.space_id == w.space_id
        },
        shows_space(space, s) ==> {
            &&& space.space_id == s.space_id
            &&& keeps_text(space.label@, s.label@, 128)
            &&& space.is_active == s.is_active
        },
{
    lemma_keeps(p.name@, 128);
    lemma_keeps(w.title@, 512);
    lemma_keeps(w.app_name@, 256);
    lemma_keeps(s.label@, 128);
}

/// An action and an automation are shown as they are, each fact in its place.
pub proof fn lemma_actions_are_shown_as_they_are(
    action: QuickActionInfo,
    a: QuickActionInfo,
    automation: AutomationInfo,
    b: AutomationInfo,
)
    ensures
        shows_action(action, a) ==> {
            &&& action.id@ == a.id@
            &&& keeps_text(action.name@, a.name@, 256)
            &&& keeps_text(action.icon_id@, a.icon_id@, 64)
            &&& keeps_text(action.icon_svg@, a.icon_svg@, 16384)
            &&& keeps_text(action.color@, a.color@, 64)
            &&& keeps_text(action.group@, a.group@, 256)
            &&& keeps_text(action.action_type_label@, a.action_type_label@, 128)
            &&& action.sort_order == a.sort_order
            &&& action.is_toggle == a.is_toggle
            &&& action.is_running == a.is_running
            &&& action.requires_confirmation == a.requires_confirmation
        },
        shows_automation(automation, b) ==> {
            &&& automation.id@ == b.id@
            &&& keeps_text(automation.name@, b.name@, 256)
            &&& keeps_text(automation.summary@, b.summary@, 2048)
            &&& automation.enabled == b.enabled
            &&& automation.next_run_at_ms == b.next_run_at_ms
            &&& automation.completed_steps == b.completed_steps
            &&& automation.total_steps == b.total_steps
            &&& automation.latest_status is Some <==> b.latest_status is Some
            &&& automation.reason is Some <==> b.reason is Some
            &&& b.latest_status is Some ==> keeps_text(
                automation.latest_status->0@,
                b.latest_status->0@,
                64,
            )
            &&& b.reason is Some ==> keeps_text(automation.reason->0@, b.reason->0@, 2048)
            &&& automation.latest_activity_id is Some ==> b.latest_activity_id is Some
                && automation.latest_activity_id->0@ == b.latest_activity_id->0@
        },
{
    lemma_keeps(a.name@, 256);
    lemma_keeps(a.icon_id@, 64);
    lemma_keeps(a.icon_svg@, 16384);
    lemma_keeps(a.color@, 64);
    lemma_keeps(a.group@, 256);
    lemma_keeps(a.action_type_label@, 128);
    lemma_keeps(b.name@, 256);
    lemma_keeps(b.summary@, 2048);
    if b.latest_status is Some {
        lemma_keeps(b.latest_status->0@, 64);
    }
    if b.reason is Some {
        lemma_keeps(b.reason->0@, 2048);
    }
}

/// A notification is shown as it is: read only if it was read, and then by whom and
/// when.
pub proof fn lemma_notifications_are_shown_as_they_are(
    r: HostNotificationInfo,
    n: HostNotificationInfo,
)
    requires
        shows_notification(r, n),
    ensures
        keeps_text(r.id@, n.id@, 256),
        keeps_text(r.title@, n.title@, 160),
        keeps_text(r.body@, n.body@, 8192),
        keeps_text(r.source@, n.source@, 120),
        r.kind == n.kind,
        r.reference is Some <==> n.reference is Some,
        n.reference is Some ==> keeps_text(r.reference->0@, n.reference->0@, 512),
        n.created_at_ms > 0 ==> r.created_at_ms == n.created_at_ms,
        r.created_at_ms > 0,
        r.read_at_ms is Some <==> n.read_at_ms is Some,
        n.read_at_ms is Some && n.read_at_ms->0 > 0 ==> r.read_at_ms == n.read_at_ms,
        r.read_by_device_name is Some <==> n.read_by_device_name is Some,
        n.read_by_device_name is Some ==> keeps_text(
            r.read_by_device_name->0@,
            n.read_by_device_name->0@,
            128,
        ),
{
    lemma_keeps(n.id@, 256);
    lemma_keeps(n.title@, 160);
    lemma_keeps(n.body@, 8192);
    lemma_keeps(n.source@, 120);
    if n.reference is Some {
        lemma_keeps(n.reference->0@, 512);
    }
    if n.read_by_device_name is Some {
        lemma_keeps(n.read_by_device_name->0@, 128);
    }
}

/// An entry of the clipboard is shown as it is, with the name of the application
/// that it comes from if that is clean.
pub proof fn lemma_entries_are_shown_as_they_are(
    e: proto::ClipboardEntry,
    s: domain::ClipboardSummary,
)
    requires
        shows_entry(e, s),
    ensures
        e.id == s.id,
        e.kind is Text <==> s.kind is Text,
        e.kind is Html <==> s.kind is Html,
        e.kind is Image <==> s.kind is Image,
        e.kind is Files <==> s.kind is Files,
        e.preview@ == s.preview@,
        e.timestamp_ms == s.captured_at_ms,
        e.size_bytes == s.size_bytes,
        e.item_count == s.item_count,
        e.width == s.width,
        e.height == s.height,
        e.sensitive == s.sensitive,
        e.favorite == s.favorite,
        e.copy_count == s.copy_count,
        e.available == s.available,
        e.labels@.len() == s.labels@.len(),
        s.source_app is None ==> e.source_app is None,
        e.source_app is Some ==> crate::text::control_free(e.source_app->0@)
            && e.source_app->0@.is_prefix_of(s.source_app->0@),
        s.source_app is Some && crate::text::control_free(s.source_app->0@)
            && crate::text::utf8_len(s.source_app->0@) <= 256 ==> e.source_app is Some
            && e.source_app->0@ == s.source_app->0@,
{
    if s.source_app is Some {
        let name = s.source_app->0@;
        crate::text::lemma_truncated(name, 256);
        if crate::text::control_free(name) && crate::text::utf8_len(name) <= 256 {
            crate::text::lemma_short_text_is_kept(name, 256);
        }
    }
}

/// Everything that can be shown is shown once, as long as there is not too much of
/// it: processes and windows with a number, spaces with one that can be told, and
/// entries of the clipboard with a number, a time and a short preview.
pub proof fn lemma_what_can_be_shown_is_shown(
    processes: Seq<domain::ProcessInfo>,
    windows: Seq<domain::WindowInfo>,
    spaces: Seq<domain::SpaceInfo>,
    entries: Seq<domain::ClipboardSummary>,
    i: int,
)
    ensures
        0 <= i < windows.len() && windows.len() <= 1024 && windows[i].window_id > 0
            ==> exists|k: int|
            0 <= k < kept_windows(windows).len() && (#[trigger] kept_windows(windows)[k]).window_id
                == windows[i].window_id,
        0 <= i < spaces.len() && spaces.len() <= 256 && 0 < spaces[i].space_id <= i64::MAX
            ==> exists|k: int|
            0 <= k < kept_spaces(spaces).len() && (#[trigger] kept_spaces(spaces)[k]).space_id
                == spaces[i].space_id,
        0 <= i < entries.len() && entries.len() <= 200 && 0 < entries[i].id <= i64::MAX
            && entries[i].captured_at_ms > 0 && crate::text::utf8_len(entries[i].preview@) <= 2048
            ==> exists|k: int|
            0 <= k < kept_entries(recent(entries)).len() && (#[trigger] kept_entries(
                recent(entries),
            )[k]).id == entries[i].id,
        0 <= i < processes.len() && processes.len() <= 4096 && processes[i].pid > 0
            && crate::text::sanitized(processes[i].name@, 128).len() > 0 ==> exists|k: int|
            0 <= k < kept_processes(processes).len() && (#[trigger] kept_processes(
                processes,
            )[k]).pid == processes[i].pid,
{
    if 0 <= i < windows.len() && windows.len() <= 1024 && windows[i].window_id > 0 {
        let k = lemma_kept_covers(
            windows,
            window_valid(),
            window_key(),
            MAX_WINDOW_ITEMS as nat,
            i,
        );
        assert(kept_windows(windows)[k].window_id == windows[i].window_id);
    }
    if 0 <= i < spaces.len() && spaces.len() <= 256 && 0 < spaces[i].space_id <= i64::MAX {
        let k = lemma_kept_covers(
            spaces,
            space_valid(),
            space_key(),
            MAX_SPACE_ITEMS as nat,
            i,
        );
        assert(kept_spaces(spaces)[k].space_id == spaces[i].space_id);
    }
    if 0 <= i < entries.len() && entries.len() <= 200 && entry_valid()(entries[i]) {
        let k = lemma_kept_covers(
            entries,
            entry_valid(),
            entry_key(),
            MAX_CLIPBOARD_HISTORY as nat,
            i,
        );
        assert(kept_entries(recent(entries))[k].id == entries[i].id);
    }
    if 0 <= i < processes.len() && processes.len() <= 4096 && process_valid()(processes[i]) {
        let k = lemma_kept_covers(
            processes,
            process_valid(),
            process_key(),
            MAX_PROCESS_ITEMS as nat,
            i,
        );
        assert(kept_processes(processes)[k].pid == processes[i].pid);
    }
}

/// What can be shown has its key among what is kept, if the list is not too long.
pub proof fn lemma_kept_covers<T, K>(
    list: Seq<T>,
    valid: spec_fn(T) -> bool,
    key: spec_fn(T) -> K,
    maximum: nat,
    i: int,
) -> (k: int)
    requires
        0 <= i < list.len() <= maximum,
        valid(list[i]),
    ensures
        0 <= k < kept(list, valid, key, maximum).len() <= list.len(),
        key(kept(list, valid, key, maximum)[k]) == key(list[i]),
    decreases list.len(),
{
    let shorter = list.drop_last();
    let before = kept(shorter, valid, key, maximum);
    let after = kept(list, valid, key, maximum);
    lemma_kept_len(shorter, valid, key, maximum);
    if i < shorter.len() {
        let k = lemma_kept_covers(shorter, valid, key, maximum, i);
        assert(after[k] == before[k]);
        assert(shorter[i] == list[i]);
        k
    } else if has_key(before, key, key(list[i])) {
        let k = choose|k: int| 0 <= k < before.len() && key(#[trigger] before[k]) == key(list[i]);
        assert(after[k] == before[k]);
        k
    } else {
        assert(after[before.len() as int] == list[i]);
        before.len() as int
    }
}

proof fn lemma_kept_len<T, K>(
    list: Seq<T>,
    valid: spec_fn(T) -> bool,
    key: spec_fn(T) -> K,
    maximum: nat,
)
    ensures
        kept(list, valid, key, maximum).len() <= list.len(),
    decreases list.len(),
{
    if list.len() > 0 {
        lemma_kept_len(list.drop_last(), valid, key, maximum);
    }
}

/// Measures are shown as they are where they lie in their range, and as its nearer end
/// where they do not.
pub proof fn lemma_measures_are_bounded(value: u64, other: u64, volume: u8, at: i64)
    ensures
        value <= 0x7fff_ffff_ffff_ffff ==> bounded_u64(value) == value,
        value > 0x7fff_ffff_ffff_ffff ==> bounded_u64(value) == 0x7fff_ffff_ffff_ffff,
        smaller(value, other) <= value,
        smaller(value, other) <= other,
        smaller(value, other) == value || smaller(value, other) == other,
        volume <= 100 ==> bounded_volume(volume) == volume,
        volume > 100 ==> bounded_volume(volume) == 100,
        at >= 1 ==> shown_time(at) == at,
        at < 1 ==> shown_time(at) == 1,
{
}

/// Only what can be named is shown: processes, windows, spaces and entries with numbers
/// of their own, and whatever is known by its name with a name that can be shown.
pub proof fn lemma_what_can_be_named(
    p: domain::ProcessInfo,
    w: domain::WindowInfo,
    s: domain::SpaceInfo,
    v: domain::AppVolume,
    e: domain::ClipboardSummary,
)
    ensures
        process_valid()(p) <==> p.pid > 0 && crate::text::sanitized(p.name@, 128).len() > 0,
        window_valid()(w) <==> w.window_id > 0,
        space_valid()(s) <==> 0 < s.space_id <= 0x7fff_ffff_ffff_ffff,
        volume_valid()(v) <==> crate::text::sanitized(v.app_name@, 256).len() > 0,
        entry_valid()(e) <==> 0 < e.id <= 0x7fff_ffff_ffff_ffff && e.captured_at_ms > 0
            && crate::text::utf8_len(e.preview@) <= 2048,
        process_key()(p) == p.pid,
        window_key()(w) == w.window_id,
        space_key()(s) == s.space_id,
        volume_key()(v) == crate::text::sanitized(v.app_name@, 256),
        entry_key()(e) == e.id,
{
}

/// A text is shown where there is one, made plain and short enough, and none where
/// there is none.
pub proof fn lemma_texts_are_shown_where_there_are_some(
    r: Option<String>,
    text: Option<String>,
    maximum: nat,
)
    requires
        shows_text(r, text, maximum),
    ensures
        r is Some <==> text is Some,
        text is Some ==> r->0@ == crate::text::sanitized(text->0@, maximum),
{
}

} // verus!
