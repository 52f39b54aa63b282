//! Shared types for video capture.
use crate::text::{copy_text, decimal, hex, push_decimal, push_hex};
use vstd::prelude::*;

verus! {

/// Pixel format of a captured frame.
#[derive(Debug, Clone, Copy, PartialEq, Eq, Structural)]
pub enum PixelFormat {
    /// BGRA 8-bit per channel.
    Bgra8,
    /// RGBA 8-bit per channel.
    Rgba8,
    /// NV12 semi-planar YUV.
    Nv12,
}

impl PixelFormat {
    /// The name of the format.
    pub open spec fn text(self) -> Seq<char> {
        match self {
            PixelFormat::Bgra8 => "BGRA8"@,
            PixelFormat::Rgba8 => "RGBA8"@,
            PixelFormat::Nv12 => "NV12"@,
        }
    }

    /// The name of the variant.
    pub open spec fn variant(self) -> Seq<char> {
        match self {
            PixelFormat::Bgra8 => "Bgra8"@,
            PixelFormat::Rgba8 => "Rgba8"@,
            PixelFormat::Nv12 => "Nv12"@,
        }
    }

    /// The name of the format.
    pub fn to_string(&self) -> (s: String)
        ensures
            s@ == self.text(),
    {
        match self {
            PixelFormat::Bgra8 => copy_text("BGRA8"),
            PixelFormat::Rgba8 => copy_text("RGBA8"),
            PixelFormat::Nv12 => copy_text("NV12"),
        }
    }

    fn variant_name(&self) -> (s: &'static str)
        ensures
            s@ == self.variant(),
    {
        match self {
            PixelFormat::Bgra8 => "Bgra8",
            PixelFormat::Rgba8 => "Rgba8",
            PixelFormat::Nv12 => "Nv12",
        }
    }
}

/// Metadata for a DMA-BUF frame (zero-copy GPU buffer).
#[derive(Clone, Copy, PartialEq, Eq, Structural, Debug)]
pub struct DmaBufInfo {
    /// Number of the DMA-BUF file descriptor, which its owner closes.
    pub fd: u32,
    /// Frame width in pixels.
    pub width: u32,
    /// Frame height in pixels.
    pub height: u32,
    /// Pixel format.
    pub format: PixelFormat,
    /// DRM format modifier (tiling, compression).
    pub modifier: u64,
    /// Bytes per row.
    pub stride: u32,
    /// Offset into the buffer in bytes.
    pub offset: u32,
}

impl DmaBufInfo {
    /// The description for diagnostics, with the modifier in hexadecimal.
    pub open spec fn text(self) -> Seq<char> {
        "DmaBufInfo { fd: "@ + decimal(self.fd as nat) + ", width: "@ + decimal(self.width as nat)
            + ", height: "@ + decimal(self.height as nat) + ", format: "@ + self.format.variant()
            + ", modifier: 0x"@ + hex(self.modifier as nat) + ", stride: "@ + decimal(
            self.stride as nat,
        ) + ", offset: "@ + decimal(self.offset as nat) + " }"@
    }

    /// The description for diagnostics, with the modifier in hexadecimal.
    pub fn to_string(&self) -> (s: String)
        ensures
            s@ == self.text(),
    {
        let mut s = copy_text("DmaBufInfo { fd: ");
        push_decimal(&mut s, self.fd as u64);
        s.append(", width: ");
        push_decimal(&mut s, self.width as u64);
        s.append(", height: ");
        push_decimal(&mut s, self.height as u64);
        s.append(", format: ");
        s.append(self.format.variant_name());
        s.append(", modifier: 0x");
        push_hex(&mut s, self.modifier);
        s.append(", stride: ");
        push_decimal(&mut s, self.stride as u64);
        s.append(", offset: ");
        push_decimal(&mut s, self.offset as u64);
        s.append(" }");
        s
    }
}

/// A captured video frame: either a zero-copy GPU buffer or CPU-mapped data.
#[derive(Debug)]
pub enum Frame {
    /// Zero-copy DMA-BUF frame.
    DmaBuf(DmaBufInfo),
    /// CPU-mapped frame with owned pixel data.
    CpuMapped {
        /// Owned pixel data.
        data: Vec<u8>,
        /// Frame width in pixels.
        width: u32,
        /// Frame height in pixels.
        height: u32,
        /// Bytes per row.
        stride: u32,
        /// Pixel format.
        format: PixelFormat,
    },
}

/// Errors from the video capture subsystem.
#[derive(Debug, PartialEq, Eq)]
pub enum CaptureError {
    /// The xdg-desktop-portal session failed.
    PortalError(String),
    /// A PipeWire connection or stream error occurred.
    PipeWireError(String),
    /// Could not negotiate a supported buffer format.
    NegotiationError(String),
    /// The capture stream ended unexpectedly.
    StreamEnded,
}

impl CaptureError {
    /// The message of the error.
    pub open spec fn text(&self) -> Seq<char> {
        match self {
            CaptureError::PortalError(e) => "Portal session failed: "@ + e@,
            CaptureError::PipeWireError(e) => "PipeWire error: "@ + e@,
            CaptureError::NegotiationError(e) => "Buffer format negotiation failed: "@ + e@,
            CaptureError::StreamEnded => "Capture stream ended unexpectedly"@,
        }
    }

    /// The message of the error.
    pub fn to_string(&self) -> (s: String)
        ensures
            s@ == self.text(),
    {
        let (head, tail) = match self {
            CaptureError::PortalError(e) => ("Portal session failed: ", e.as_str()),
            CaptureError::PipeWireError(e) => ("PipeWire error: ", e.as_str()),
            CaptureError::NegotiationError(e) => (
                "Buffer format negotiation failed: ",
                e.as_str(),
            ),
            CaptureError::StreamEnded => return copy_text("Capture stream ended unexpectedly"),
        };
        let mut s = copy_text(head);
        s.append(tail);
        s
    }
}

} // verus!
