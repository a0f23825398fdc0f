//! Host-side capture backend selection.
//!
//! Capture stays in the agent process; this module decides which backend is opened and with what.

use vstd::prelude::*;
pub use crate::platform::Platform;

verus! {

/// Which video path the agent should use when starting media.
#[derive(Debug, Clone, Copy, PartialEq, Eq, Structural)]
pub enum VideoCaptureKind {
    /// Synthetic color bars (default on non-Windows/Linux; tests everywhere).
    Synthetic,
    /// Linux mock frames (deterministic, no compositor).
    LinuxMock,
    /// Linux PipeWire backend (errors until native is linked).
    LinuxPlatform,
    /// Windows DXGI mock frames (desktop-shaped BGRA).
    WindowsMock,
    /// Windows DXGI Desktop Duplication (interactive session; may fail headless).
    WindowsDxgi,
}

impl Default for VideoCaptureKind {
    fn default() -> (r: Self)
        ensures
            r == VideoCaptureKind::Synthetic,
    {
        VideoCaptureKind::Synthetic
    }
}

/// Which audio path the agent should use when starting media.
#[derive(Debug, Clone, Copy, PartialEq, Eq, Structural)]
pub enum AudioCaptureKind {
    /// Synthetic A440 tone (default on non-Windows/Linux; tests everywhere).
    Synthetic,
    /// Linux mock monitor (PCM tone, no PipeWire).
    LinuxMockMonitor,
    /// Prefer native monitor with mock fallback.
    LinuxPreferNative,
    /// Require native monitor (structured error until linked).
    LinuxNativeOnly,
    /// Windows WASAPI loopback stub (synthetic system audio).
    WindowsWasapiStub,
    /// Prefer native WASAPI loopback; fall back to stub when COM is unavailable.
    WindowsWasapiPreferNative,
    /// Require native WASAPI (errors until COM loopback is linked).
    WindowsWasapiNativeOnly,
}

impl Default for AudioCaptureKind {
    fn default() -> (r: Self)
        ensures
            r == AudioCaptureKind::Synthetic,
    {
        AudioCaptureKind::Synthetic
    }
}

/// The video kind of a system.
pub open spec fn system_video(platform: Platform) -> VideoCaptureKind {
    match platform {
        Platform::Linux => VideoCaptureKind::LinuxMock,
        Platform::Windows => VideoCaptureKind::WindowsMock,
        Platform::Other => VideoCaptureKind::Synthetic,
    }
}

/// The audio kind of a system.
pub open spec fn system_audio(platform: Platform) -> AudioCaptureKind {
    match platform {
        Platform::Linux => AudioCaptureKind::LinuxPreferNative,
        Platform::Windows => AudioCaptureKind::WindowsWasapiStub,
        Platform::Other => AudioCaptureKind::Synthetic,
    }
}

/// Default video kind of a system.
///
/// - Linux → mock PipeWire path
/// - Windows → DXGI mock (desktop-shaped BGRA)
/// - Else → synthetic bars
pub fn default_video_kind(platform: Platform) -> (r: VideoCaptureKind)
    ensures
        r == system_video(platform),
{
    match platform {
        Platform::Linux => VideoCaptureKind::LinuxMock,
        Platform::Windows => VideoCaptureKind::WindowsMock,
        Platform::Other => VideoCaptureKind::Synthetic,
    }
}

/// Default audio kind of a system.
///
/// - Linux → prefer native monitor (mock fallback)
/// - Windows → WASAPI stub loopback
/// - Else → synthetic tone
pub fn default_audio_kind(platform: Platform) -> (r: AudioCaptureKind)
    ensures
        r == system_audio(platform),
{
    match platform {
        Platform::Linux => AudioCaptureKind::LinuxPreferNative,
        Platform::Windows => AudioCaptureKind::WindowsWasapiStub,
        Platform::Other => AudioCaptureKind::Synthetic,
    }
}

/// Which video backend to open, and with what.
#[derive(Debug, Clone, Copy, PartialEq, Eq, Structural)]
pub enum VideoOpen {
    /// Synthetic bars.
    Synthetic { width: u32, height: u32, fps: u32 },
    /// Linux display capture.
    Linux { mock: bool, width: u32, height: u32, frame_interval_ms: u32, start_pts_ms: u64 },
    /// Windows mock frames.
    WindowsMock { timeout_ms: u32, width: u32, height: u32, fps: u32, start_pts_ms: u64 },
    /// Windows Desktop Duplication.
    WindowsDxgi { timeout_ms: u32 },
}

/// At least one.
pub open spec fn at_least_one(n: u32) -> u32 {
    if n < 1 {
        1
    } else {
        n
    }
}

fn or_one(n: u32) -> (r: u32)
    ensures
        r == at_least_one(n),
{
    if n < 1 {
        1
    } else {
        n
    }
}

/// The frame interval of a frame rate in milliseconds: 33 where there is no rate, and never zero.
pub open spec fn interval_ms(fps: u32) -> u32 {
    if fps == 0 {
        33
    } else {
        at_least_one(1000u32 / fps)
    }
}

/// Convert fps to frame interval milliseconds (33 ms when fps is 0).
pub fn fps_to_interval_ms(fps: u32) -> (r: u32)
    ensures
        r == interval_ms(fps),
        r >= 1,
{
    if fps == 0 {
        33
    } else {
        or_one(1000 / fps)
    }
}

/// Milliseconds, as far as 64 bits go.
pub fn duration_to_ms(millis: u128) -> (r: u64)
    ensures
        r == (if millis <= u64::MAX {
            millis as int
        } else {
            u64::MAX as int
        }),
{
    if millis <= u64::MAX as u128 {
        millis as u64
    } else {
        u64::MAX
    }
}

/// Which video backend a kind opens.
pub open spec fn video_open(
    kind: VideoCaptureKind,
    width: u32,
    height: u32,
    fps: u32,
    start_pts_ms: u64,
) -> VideoOpen {
    match kind {
        VideoCaptureKind::Synthetic => VideoOpen::Synthetic {
            width: at_least_one(width),
            height: at_least_one(height),
            fps: at_least_one(fps),
        },
        VideoCaptureKind::LinuxMock => VideoOpen::Linux {
            mock: true,
            width: at_least_one(width),
            height: at_least_one(height),
            frame_interval_ms: interval_ms(fps),
            start_pts_ms,
        },
        VideoCaptureKind::LinuxPlatform => VideoOpen::Linux {
            mock: false,
            width,
            height,
            frame_interval_ms: interval_ms(fps),
            start_pts_ms,
        },
        VideoCaptureKind::WindowsMock => VideoOpen::WindowsMock {
            timeout_ms: 16,
            width: at_least_one(width),
            height: at_least_one(height),
            fps: at_least_one(fps),
            start_pts_ms,
        },
        VideoCaptureKind::WindowsDxgi => VideoOpen::WindowsDxgi { timeout_ms: 16 },
    }
}

/// Decide which video backend to open for a kind and geometry.
pub fn open_video_source(
    kind: VideoCaptureKind,
    width: u32,
    height: u32,
    fps: u32,
    start_pts_ms: u64,
) -> (r: VideoOpen)
    ensures
        r == video_open(kind, width, height, fps, start_pts_ms),
{
    match kind {
        VideoCaptureKind::Synthetic => VideoOpen::Synthetic {
            width: or_one(width),
            height: or_one(height),
            fps: or_one(fps),
        },
        VideoCaptureKind::LinuxMock => VideoOpen::Linux {
            mock: true,
            width: or_one(width),
            height: or_one(height),
            frame_interval_ms: fps_to_interval_ms(fps),
            start_pts_ms,
        },
        VideoCaptureKind::LinuxPlatform => VideoOpen::Linux {
            mock: false,
            width,
            height,
            frame_interval_ms: fps_to_interval_ms(fps),
            start_pts_ms,
        },
        VideoCaptureKind::WindowsMock => VideoOpen::WindowsMock {
            timeout_ms: 16,
            width: or_one(width),
            height: or_one(height),
            fps: or_one(fps),
            start_pts_ms,
        },
        VideoCaptureKind::WindowsDxgi => VideoOpen::WindowsDxgi { timeout_ms: 16 },
    }
}

/// How native audio is preferred.
#[derive(Debug, Clone, Copy, PartialEq, Eq, Structural)]
pub enum OpenMode {
    StubOnly,
    PreferNative,
    NativeOnly,
}

/// Which audio backend to open, and with what. `channels` is given where the default is not kept.
#[derive(Debug, Clone, Copy, PartialEq, Eq, Structural)]
pub enum AudioOpen {
    Synthetic,
    Linux { mode: OpenMode, channels: Option<u16>, start_pts_ms: u64 },
    Windows { mode: OpenMode, channels: Option<u16>, start_pts_ms: u64 },
}

/// Which audio backend a kind opens. Stubs are mono.
pub open spec fn audio_open(kind: AudioCaptureKind, start_pts_ms: u64) -> AudioOpen {
    match kind {
        AudioCaptureKind::Synthetic => AudioOpen::Synthetic,
        AudioCaptureKind::LinuxMockMonitor => AudioOpen::Linux {
            mode: OpenMode::StubOnly,
            channels: Some(1),
            start_pts_ms,
        },
        AudioCaptureKind::LinuxPreferNative => AudioOpen::Linux {
            mode: OpenMode::PreferNative,
            channels: None,
            start_pts_ms,
        },
        AudioCaptureKind::LinuxNativeOnly => AudioOpen::Linux {
            mode: OpenMode::NativeOnly,
            channels: None,
            start_pts_ms,
        },
        AudioCaptureKind::WindowsWasapiStub => AudioOpen::Windows {
            mode: OpenMode::StubOnly,
            channels: Some(1),
            start_pts_ms,
        },
        AudioCaptureKind::WindowsWasapiPreferNative => AudioOpen::Windows {
            mode: OpenMode::PreferNative,
            channels: None,
            start_pts_ms,
        },
        AudioCaptureKind::WindowsWasapiNativeOnly => AudioOpen::Windows {
            mode: OpenMode::NativeOnly,
            channels: None,
            start_pts_ms,
        },
    }
}

/// Decide which audio backend to open for a kind.
pub fn open_audio_source(kind: AudioCaptureKind, start_pts_ms: u64) -> (r: AudioOpen)
    ensures
        r == audio_open(kind, start_pts_ms),
{
    match kind {
        AudioCaptureKind::Synthetic => AudioOpen::Synthetic,
        AudioCaptureKind::LinuxMockMonitor => AudioOpen::Linux {
            mode: OpenMode::StubOnly,
            channels: Some(1),
            start_pts_ms,
        },
        AudioCaptureKind::LinuxPreferNative => AudioOpen::Linux {
            mode: OpenMode::PreferNative,
            channels: None,
            start_pts_ms,
        },
        AudioCaptureKind::LinuxNativeOnly => AudioOpen::Linux {
            mode: OpenMode::NativeOnly,
            channels: None,
            start_pts_ms,
        },
        AudioCaptureKind::WindowsWasapiStub => AudioOpen::Windows {
            mode: OpenMode::StubOnly,
            channels: Some(1),
            start_pts_ms,
        },
        AudioCaptureKind::WindowsWasapiPreferNative => AudioOpen::Windows {
            mode: OpenMode::PreferNative,
            channels: None,
            start_pts_ms,
        },
        AudioCaptureKind::WindowsWasapiNativeOnly => AudioOpen::Windows {
            mode: OpenMode::NativeOnly,
            channels: None,
            start_pts_ms,
        },
    }
}

/// Decide the default backends of a system.
pub fn open_default_sources(
    platform: Platform,
    width: u32,
    height: u32,
    fps: u32,
    start_pts_ms: u64,
) -> (r: (VideoOpen, AudioOpen))
    ensures
        r.0 == video_open(
            system_video(platform),
            width,
            height,
            fps,
            start_pts_ms,
        ),
        r.1 == audio_open(
            system_audio(platform),
            start_pts_ms,
        ),
{
    let video = open_video_source(default_video_kind(platform), width, height, fps, start_pts_ms);
    let audio = open_audio_source(default_audio_kind(platform), start_pts_ms);
    (video, audio)
}

/// Pixel layout of a frame.
#[derive(Debug, Clone, Copy, PartialEq, Eq, Structural)]
pub enum PixelFormat {
    Bgra8,
    Rgba8,
    Rgb24,
}

/// Bytes of one pixel.
pub open spec fn pixel_bytes(format: PixelFormat) -> int {
    match format {
        PixelFormat::Bgra8 => 4,
        PixelFormat::Rgba8 => 4,
        PixelFormat::Rgb24 => 3,
    }
}

/// Bytes of one pixel.
pub fn bytes_per_pixel(format: PixelFormat) -> (r: u128)
    ensures
        r == pixel_bytes(format),
{
    match format {
        PixelFormat::Bgra8 => 4,
        PixelFormat::Rgba8 => 4,
        PixelFormat::Rgb24 => 3,
    }
}

/// The first `rows` rows of a frame, without the padding between them.
pub open spec fn packed_rows(data: Seq<u8>, row_bytes: int, stride: int, rows: int) -> Seq<u8>
    decreases rows,
{
    if rows <= 0 {
        Seq::empty()
    } else {
        packed_rows(data, row_bytes, stride, rows - 1) + data.subrange(
            (rows - 1) * stride,
            (rows - 1) * stride + row_bytes,
        )
    }
}

/// Whether all rows of a frame lie within its data.
pub open spec fn rows_fit(data: Seq<u8>, row_bytes: int, stride: int, rows: int) -> bool {
    forall|y: int| 0 <= y < rows ==> #[trigger] (y * stride) + row_bytes <= data.len()
}

/// Tightly packed pixels of a captured frame whose rows are `stride` bytes apart.
pub fn pack_frame(
    well_formed: bool,
    format: PixelFormat,
    width: u32,
    height: u32,
    stride: u32,
    data: &Vec<u8>,
) -> (r: Result<Vec<u8>, &'static str>)
    ensures
        match r {
            Ok(out) => well_formed && rows_fit(
                data@,
                width * pixel_bytes(format),
                stride as int,
                height as int,
            ) && out@ == packed_rows(
                data@,
                width * pixel_bytes(format),
                stride as int,
                height as int,
            ),
            Err(e) => if well_formed {
                !rows_fit(data@, width * pixel_bytes(format), stride as int, height as int) && e@
                    == "windows capture stride overflow"@
            } else {
                e@ == "windows capture frame not well-formed"@
            },
        },
{
    if !well_formed {
        return Err("windows capture frame not well-formed");
    }
    let bpp: u128 = bytes_per_pixel(format);
    assert(width * bpp <= 0xffff_ffff * 4) by (nonlinear_arith)
        requires
            width <= 0xffff_ffff,
            bpp <= 4,
    ;
    let row: u128 = width as u128 * bpp;
    let step: u128 = stride as u128;
    let total: usize = data.len();
    let mut out: Vec<u8> = Vec::new();
    let mut y: u32 = 0;
    while y < height
        invariant
            well_formed,
            y <= height,
            row == width * pixel_bytes(format),
            row <= 0xffff_ffff * 4,
            step == stride,
            total == data@.len(),
            forall|k: int| 0 <= k < y ==> #[trigger] (k * stride) + row <= data@.len(),
            out@ == packed_rows(data@, row as int, stride as int, y as int),
        decreases height - y,
    {
        assert(y * step <= 0xffff_ffff * 0xffff_ffff) by (nonlinear_arith)
            requires
                y <= 0xffff_ffff,
                step <= 0xffff_ffff,
        ;
        let start: u128 = y as u128 * step;
        let end: u128 = start + row;
        assert(start == y * stride);
        if end > total as u128 {
            assert(!rows_fit(data@, row as int, stride as int, height as int));
            return Err("windows capture stride overflow");
        }
        let ghost head = out@;
        let mut k: u128 = start;
        assert(data@.subrange(start as int, start as int) =~= Seq::<u8>::empty());
        while k < end
            invariant
                start <= k <= end <= total,
                total == data@.len(),
                out@ == head + data@.subrange(start as int, k as int),
            decreases end - k,
        {
            out.push(data[k as usize]);
            assert(data@.subrange(start as int, k + 1) == data@.subrange(
                start as int,
                k as int,
            ).push(data@[k as int]));
            k += 1;
        }
        assert(out@ == packed_rows(data@, row as int, stride as int, y + 1));
        y += 1;
    }
    Ok(out)
}

/// A frame interval is never zero, and so many of them as there are frames in a second never take
/// longer than a second, and fall short of it by less than a millisecond a frame.
pub proof fn law_interval_fits_the_rate(fps: u32)
    ensures
        interval_ms(fps) >= 1,
        1 <= fps <= 1000 ==> fps * interval_ms(fps) <= 1000,
        1 <= fps <= 1000 ==> fps * (interval_ms(fps) + 1) > 1000,
        fps > 1000 ==> interval_ms(fps) == 1,
        interval_ms(0) == interval_ms(30),
{
    if fps > 0 {
        let q = 1000u32 / fps;
        assert(fps * q <= 1000 && fps * (q + 1) > 1000) by (nonlinear_arith)
            requires
                fps > 0,
                q == 1000u32 / fps,
        ;
        if fps <= 1000 {
            assert(q >= 1) by (nonlinear_arith)
                requires
                    0 < fps <= 1000,
                    q == 1000u32 / fps,
            ;
        } else {
            assert(q == 0) by (nonlinear_arith)
                requires
                    fps > 1000,
                    q == 1000u32 / fps,
            ;
        }
    }
}

/// Each kind opens a backend of its system, the stand-ins open no real one, and what a stand-in is
/// given has an area and a rate.
pub proof fn law_kind_opens_its_backend(
    kind: VideoCaptureKind,
    width: u32,
    height: u32,
    fps: u32,
    start: u64,
)
    ensures
        ({
            let open = video_open(kind, width, height, fps, start);
            &&& open is Synthetic <==> kind == VideoCaptureKind::Synthetic
            &&& open is WindowsDxgi <==> kind == VideoCaptureKind::WindowsDxgi
            &&& open is WindowsMock <==> kind == VideoCaptureKind::WindowsMock
            &&& open is Linux <==> kind == VideoCaptureKind::LinuxMock || kind
                == VideoCaptureKind::LinuxPlatform
            &&& open matches VideoOpen::Linux { mock, width: w, height: h, frame_interval_ms, .. }
                ==> (mock <==> kind == VideoCaptureKind::LinuxMock) && frame_interval_ms >= 1 && (
            mock ==> w >= 1 && h >= 1) && (width >= 1 ==> w == width) && (height >= 1 ==> h
                == height)
            &&& open matches VideoOpen::Synthetic { width: w, height: h, fps: f } ==> w >= 1 && h
                >= 1 && f >= 1 && (width >= 1 ==> w == width) && (height >= 1 ==> h == height) && (
            fps >= 1 ==> f == fps)
            &&& open matches VideoOpen::WindowsMock { width: w, height: h, fps: f, start_pts_ms, .. }
                ==> w >= 1 && h >= 1 && f >= 1 && start_pts_ms == start && (width >= 1 ==> w
                == width) && (height >= 1 ==> h == height)
        }),
{
    law_interval_fits_the_rate(fps);
}

/// Audio of a system is opened on that system, a stand-in is mono, and whether the real thing is
/// preferred, demanded or left alone is what the kind says.
pub proof fn law_audio_kind_opens_its_backend(kind: AudioCaptureKind, start: u64)
    ensures
        ({
            let open = audio_open(kind, start);
            &&& open is Synthetic <==> kind == AudioCaptureKind::Synthetic
            &&& open is Linux <==> kind == AudioCaptureKind::LinuxMockMonitor || kind
                == AudioCaptureKind::LinuxPreferNative || kind == AudioCaptureKind::LinuxNativeOnly
            &&& open matches AudioOpen::Linux { mode, channels, start_pts_ms } ==> {
                &&& mode == OpenMode::StubOnly <==> kind == AudioCaptureKind::LinuxMockMonitor
                &&& mode == OpenMode::NativeOnly <==> kind == AudioCaptureKind::LinuxNativeOnly
                &&& channels == Some(1u16) <==> mode == OpenMode::StubOnly
                &&& channels is None <==> mode != OpenMode::StubOnly
                &&& start_pts_ms == start
            }
            &&& open matches AudioOpen::Windows { mode, channels, start_pts_ms } ==> {
                &&& mode == OpenMode::StubOnly <==> kind == AudioCaptureKind::WindowsWasapiStub
                &&& mode == OpenMode::NativeOnly <==> kind
                    == AudioCaptureKind::WindowsWasapiNativeOnly
                &&& channels == Some(1u16) <==> mode == OpenMode::StubOnly
                &&& channels is None <==> mode != OpenMode::StubOnly
                &&& start_pts_ms == start
            }
        }),
{
}

/// A system gets backends of its own by default, none of which needs a display.
pub proof fn law_default_backends_need_no_display(
    platform: Platform,
    width: u32,
    height: u32,
    fps: u32,
    start: u64,
)
    ensures
        ({
            let video = video_open(system_video(platform), width, height, fps, start);
            let audio = audio_open(system_audio(platform), start);
            &&& !(video is WindowsDxgi)
            &&& video matches VideoOpen::Linux { mock, .. } ==> mock
            &&& platform == Platform::Linux <==> video is Linux
            &&& platform == Platform::Windows <==> video is WindowsMock
            &&& platform == Platform::Linux <==> audio is Linux
            &&& platform == Platform::Windows <==> audio is Windows
            &&& audio matches AudioOpen::Linux { mode, .. } ==> mode != OpenMode::NativeOnly
            &&& audio matches AudioOpen::Windows { mode, .. } ==> mode != OpenMode::NativeOnly
        }),
{
}

/// A packed frame holds the pixels of each row, one row right after another, and nothing of the
/// padding between them.
pub proof fn law_packed_frame_holds_the_pixels(
    data: Seq<u8>,
    row_bytes: int,
    stride: int,
    rows: int,
)
    requires
        0 <= rows,
        0 <= row_bytes,
        0 <= stride,
        rows_fit(data, row_bytes, stride, rows),
    ensures
        packed_rows(data, row_bytes, stride, rows).len() == rows * row_bytes,
        forall|y: int, x: int|
            0 <= y < rows && 0 <= x < row_bytes ==> #[trigger] packed_rows(
                data,
                row_bytes,
                stride,
                rows,
            )[y * row_bytes + x] == data[y * stride + x],
    decreases rows,
{
    if rows > 0 {
        let n = rows - 1;
        assert forall|y: int| 0 <= y < n implies #[trigger] (y * stride) + row_bytes
            <= data.len() by {
        }
        law_packed_frame_holds_the_pixels(data, row_bytes, stride, n);
        let head = packed_rows(data, row_bytes, stride, n);
        let all = packed_rows(data, row_bytes, stride, rows);
        assert(n * stride + row_bytes <= data.len());
        assert(n * stride >= 0) by (nonlinear_arith)
            requires
                n >= 0,
                stride >= 0,
        ;
        assert(rows * row_bytes == n * row_bytes + row_bytes) by (nonlinear_arith)
            requires
                n == rows - 1,
        ;
        assert(all.len() == rows * row_bytes);
        assert forall|y: int, x: int| 0 <= y < rows && 0 <= x < row_bytes implies #[trigger] all[y
            * row_bytes + x] == data[y * stride + x] by {
            if y < n {
                assert(0 <= y * row_bytes && y * row_bytes + x < n * row_bytes) by (nonlinear_arith)
                    requires
                        0 <= y < n,
                        0 <= x < row_bytes,
                ;
                assert(all[y * row_bytes + x] == head[y * row_bytes + x]);
            } else {
                assert(all[n * row_bytes + x] == data.subrange(
                    n * stride,
                    n * stride + row_bytes,
                )[x]);
            }
        }
    } else {
        assert(rows * row_bytes == 0) by (nonlinear_arith)
            requires
                rows == 0,
        ;
    }
}

} // verus!
