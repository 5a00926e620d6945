//! The plain values of media elements: source, format and state kinds,
//! errors, event kinds, and the renderers, surfaces, decoders and devices
//! with their formats.

use vstd::prelude::*;

verus! {

/// Media source type
#[derive(Debug, Clone, Copy, PartialEq, Eq, Hash)]
pub enum MediaSourceType {
    /// File source
    File,
    /// Stream source
    Stream,
    /// Data URL source
    DataUrl,
    /// Blob source
    Blob,
}

/// Media format
#[allow(non_camel_case_types)]
#[derive(Debug, Clone, Copy, PartialEq, Eq, Hash)]
pub enum MediaFormat {
    /// MP4 format
    MP4,
    /// WebM format
    WebM,
    /// OGG format
    OGG,
    /// AVI format
    AVI,
    /// MOV format
    MOV,
    /// WMV format
    WMV,
    /// FLV format
    FLV,
    /// MKV format
    MKV,
    /// MP3 format
    MP3,
    /// WAV format
    WAV,
    /// AAC format
    AAC,
    /// OGG audio format
    OGG_AUDIO,
    /// FLAC format
    FLAC,
}

/// Ready state
#[derive(Debug, Clone, Copy, PartialEq, Eq, Hash)]
pub enum ReadyState {
    /// Have nothing
    HaveNothing,
    /// Have metadata
    HaveMetadata,
    /// Have current data
    HaveCurrentData,
    /// Have future data
    HaveFutureData,
    /// Have enough data
    HaveEnoughData,
}

/// Network state
#[derive(Debug, Clone, Copy, PartialEq, Eq, Hash)]
pub enum NetworkState {
    /// Empty
    Empty,
    /// Idle
    Idle,
    /// Loading
    Loading,
    /// No source
    NoSource,
}

/// Media error
#[derive(Debug, Clone)]
pub struct MediaError {
    /// Error code
    pub code: MediaErrorCode,
    /// Error message
    pub message: String,
}

/// Media error code
#[derive(Debug, Clone, Copy, PartialEq, Eq, Hash)]
pub enum MediaErrorCode {
    /// Media aborted
    MediaAborted,
    /// Network error
    NetworkError,
    /// Media decode error
    MediaDecodeError,
    /// Media source not supported
    MediaSourceNotSupported,
}

/// Media event type
#[derive(Debug, Clone, Copy, PartialEq, Eq, Hash)]
pub enum MediaEventType {
    /// Load start event
    LoadStart,
    /// Duration change event
    DurationChange,
    /// Loaded metadata event
    LoadedMetadata,
    /// Loaded data event
    LoadedData,
    /// Progress event
    Progress,
    /// Can play event
    CanPlay,
    /// Can play through event
    CanPlayThrough,
    /// Play event
    Play,
    /// Playing event
    Playing,
    /// Pause event
    Pause,
    /// Time update event
    TimeUpdate,
    /// Rate change event
    RateChange,
    /// Volume change event
    VolumeChange,
    /// Seeked event
    Seeked,
    /// Seeking event
    Seeking,
    /// Ended event
    Ended,
    /// Error event
    Error,
    /// Abort event
    Abort,
    /// Emptied event
    Emptied,
    /// Stalled event
    Stalled,
    /// Suspend event
    Suspend,
    /// Waiting event
    Waiting,
}

/// Video renderer
#[derive(Debug, Clone)]
pub struct VideoRenderer {
    /// Renderer surface
    pub surface: VideoSurface,
    /// Renderer format
    pub format: VideoFormat,
    /// Renderer width
    pub width: u32,
    /// Renderer height
    pub height: u32,
}

/// Video surface
#[derive(Debug, Clone)]
pub struct VideoSurface {
    /// Surface data
    pub data: Vec<u8>,
    /// Surface width
    pub width: u32,
    /// Surface height
    pub height: u32,
    /// Surface format
    pub format: VideoFormat,
    /// Surface stride
    pub stride: u32,
}

/// Video format
#[derive(Debug, Clone, Copy, PartialEq, Eq, Hash)]
pub enum VideoFormat {
    /// RGBA8 format
    RGBA8,
    /// BGRA8 format
    BGRA8,
    /// RGB8 format
    RGB8,
    /// BGR8 format
    BGR8,
    /// YUV420P format
    YUV420P,
    /// YUV422P format
    YUV422P,
    /// YUV444P format
    YUV444P,
    /// NV12 format
    NV12,
    /// NV21 format
    NV21,
}

/// Video controls position
#[derive(Debug, Clone, Copy, PartialEq, Eq, Hash)]
pub enum VideoControlsPosition {
    /// Bottom position
    Bottom,
    /// Top position
    Top,
    /// Overlay position
    Overlay,
}

/// Video control button type
#[derive(Debug, Clone, Copy, PartialEq, Eq, Hash)]
pub enum VideoControlButtonType {
    /// Play button
    Play,
    /// Pause button
    Pause,
    /// Stop button
    Stop,
    /// Rewind button
    Rewind,
    /// Fast forward button
    FastForward,
    /// Volume button
    Volume,
    /// Mute button
    Mute,
    /// Fullscreen button
    Fullscreen,
    /// Settings button
    Settings,
}

/// Audio decoder
#[derive(Debug, Clone)]
pub struct AudioDecoder {
    /// Decoder format
    pub format: MediaFormat,
    /// Decoder codec
    pub codec: String,
    /// Decoder sample rate
    pub sample_rate: u32,
    /// Decoder channels
    pub channels: u32,
    /// Decoder bit depth
    pub bit_depth: u32,
    /// Decoder bitrate
    pub bitrate: u32,
}

/// Audio renderer
#[derive(Debug, Clone)]
pub struct AudioRenderer {
    /// Renderer device
    pub device: AudioDevice,
    /// Renderer format
    pub format: AudioFormat,
    /// Renderer sample rate
    pub sample_rate: u32,
    /// Renderer channels
    pub channels: u32,
}

/// Audio device
#[derive(Debug, Clone)]
pub struct AudioDevice {
    /// Device ID
    pub id: String,
    /// Device name
    pub name: String,
    /// Device type
    pub device_type: AudioDeviceType,
    /// Device sample rate
    pub sample_rate: u32,
    /// Device channels
    pub channels: u32,
}

/// Audio device type
#[derive(Debug, Clone, Copy, PartialEq, Eq, Hash)]
pub enum AudioDeviceType {
    /// Default device
    Default,
    /// Output device
    Output,
    /// Input device
    Input,
    /// Communication device
    Communication,
}

/// Audio format
#[derive(Debug, Clone, Copy, PartialEq, Eq, Hash)]
pub enum AudioFormat {
    /// PCM16 format
    PCM16,
    /// PCM24 format
    PCM24,
    /// PCM32 format
    PCM32,
    /// Float32 format
    Float32,
    /// Float64 format
    Float64,
}

/// Audio controls position
#[derive(Debug, Clone, Copy, PartialEq, Eq, Hash)]
pub enum AudioControlsPosition {
    /// Bottom position
    Bottom,
    /// Top position
    Top,
    /// Overlay position
    Overlay,
}

/// Audio control button type
#[derive(Debug, Clone, Copy, PartialEq, Eq, Hash)]
pub enum AudioControlButtonType {
    /// Play button
    Play,
    /// Pause button
    Pause,
    /// Stop button
    Stop,
    /// Rewind button
    Rewind,
    /// Fast forward button
    FastForward,
    /// Volume button
    Volume,
    /// Mute button
    Mute,
    /// Settings button
    Settings,
}

} // verus!
