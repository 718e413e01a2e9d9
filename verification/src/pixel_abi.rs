//! Operations, messages and record types of the pixel canvas application.

use vstd::prelude::*;

use crate::kv::Key;
use crate::numtext::byte_hex;
use crate::numtext::push_byte_hex;
use crate::ChainId;

verus! {

/// Marker for the application's operation and response surface.
pub struct PixelChainAbi;

/// An operation that can be executed by the application.
#[derive(Clone, Debug, PartialEq)]
pub enum Operation {
    /// Set a pixel at the specified coordinates with a color.
    SetPixel { x: u32, y: u32, color: PixelColor },
    /// Clear a pixel (set it back to default/transparent).
    ClearPixel { x: u32, y: u32 },
    /// Set multiple pixels at once (batch operation).
    SetPixels { pixels: Vec<PixelUpdate> },
}

/// A pixel color represented as RGB values with an alpha channel.
#[derive(Clone, Copy, Debug, PartialEq, Eq, Hash, Structural)]
pub struct PixelColor {
    pub red: u8,
    pub green: u8,
    pub blue: u8,
    pub alpha: u8,
}

/// The `#rrggbb` rendering of a color, alpha left out.
pub open spec fn color_hex(c: PixelColor) -> Seq<char> {
    seq!['#'] + byte_hex(c.red) + byte_hex(c.green) + byte_hex(c.blue)
}

impl PixelColor {
    pub fn new(red: u8, green: u8, blue: u8, alpha: u8) -> (r: Self)
        ensures
            r == (PixelColor { red, green, blue, alpha }),
    {
        Self { red, green, blue, alpha }
    }

    /// A color with zero alpha stands for a transparent cell.
    pub fn is_transparent(&self) -> (r: bool)
        ensures
            r == (self.alpha == 0),
    {
        self.alpha == 0
    }

    /// Render the color as `#rrggbb` in lower-case hexadecimal.
    pub fn to_hex(&self) -> (r: String)
        ensures
            r@ == color_hex(*self),
    {
        proof {
            reveal_strlit("#");
        }
        let s = String::from_str("#");
        let s = push_byte_hex(s, self.red);
        let s = push_byte_hex(s, self.green);
        let r = push_byte_hex(s, self.blue);
        proof {
            assert(r@ =~= color_hex(*self));
        }
        r
    }
}

impl Default for PixelColor {
    /// The all-zero, transparent color.
    fn default() -> (r: Self)
        ensures
            r == (PixelColor { red: 0, green: 0, blue: 0, alpha: 0 }),
    {
        PixelColor { red: 0, green: 0, blue: 0, alpha: 0 }
    }
}

/// A pixel update operation.
#[derive(Clone, Copy, Debug, PartialEq)]
pub struct PixelUpdate {
    pub x: u32,
    pub y: u32,
    pub color: PixelColor,
}

/// A single pixel on the canvas.
#[derive(Clone, Copy, Debug, PartialEq)]
pub struct Pixel {
    pub x: u32,
    pub y: u32,
    pub color: Option<PixelColor>,
    pub owner: Option<ChainId>,
    pub timestamp: u64,
}

/// Position on the canvas.
#[derive(Clone, Copy, Debug, PartialEq, Eq, Hash, Structural)]
pub struct Position {
    pub x: u32,
    pub y: u32,
}

impl View for Position {
    type V = (u32, u32);

    open spec fn view(&self) -> (u32, u32) {
        (self.x, self.y)
    }
}

impl Key for Position {
    fn key_eq(&self, other: &Self) -> (r: bool)
        ensures
            r == (self@ == other@),
    {
        self.x == other.x && self.y == other.y
    }
}

/// The key-value store addresses a position by eight bytes: the big-endian
/// bytes of `x`, then those of `y`.
pub open spec fn position_bytes(p: Position) -> Seq<u8> {
    seq![
        (p.x / 0x1000000) as u8,
        ((p.x / 0x10000) % 0x100) as u8,
        ((p.x / 0x100) % 0x100) as u8,
        (p.x % 0x100) as u8,
        (p.y / 0x1000000) as u8,
        ((p.y / 0x10000) % 0x100) as u8,
        ((p.y / 0x100) % 0x100) as u8,
        (p.y % 0x100) as u8,
    ]
}

impl Position {
    /// Encode the position for the store, big-endian coordinate pair.
    pub fn to_custom_bytes(&self) -> (r: Vec<u8>)
        ensures
            r@ == position_bytes(*self),
    {
        let mut out: Vec<u8> = Vec::new();
        out.push((self.x >> 24) as u8);
        out.push((self.x >> 16) as u8);
        out.push((self.x >> 8) as u8);
        out.push(self.x as u8);
        out.push((self.y >> 24) as u8);
        out.push((self.y >> 16) as u8);
        out.push((self.y >> 8) as u8);
        out.push(self.y as u8);
        proof {
            let x = self.x;
            let y = self.y;
            assert((x >> 24) as u8 == (x / 0x1000000) as u8) by (bit_vector);
            assert((x >> 16) as u8 == ((x / 0x10000) % 0x100) as u8) by (bit_vector);
            assert((x >> 8) as u8 == ((x / 0x100) % 0x100) as u8) by (bit_vector);
            assert(x as u8 == (x % 0x100) as u8) by (bit_vector);
            assert((y >> 24) as u8 == (y / 0x1000000) as u8) by (bit_vector);
            assert((y >> 16) as u8 == ((y / 0x10000) % 0x100) as u8) by (bit_vector);
            assert((y >> 8) as u8 == ((y / 0x100) % 0x100) as u8) by (bit_vector);
            assert(y as u8 == (y % 0x100) as u8) by (bit_vector);
            assert(out@ =~= position_bytes(*self));
        }
        out
    }

    /// Decode a position from its eight-byte store encoding.
    pub fn from_custom_bytes(bytes: &[u8]) -> (r: Option<Position>)
        ensures
            match r {
                Some(p) => bytes@ == position_bytes(p),
                None => bytes@.len() != 8,
            },
    {
        if bytes.len() != 8 {
            return None;
        }
        let x = ((bytes[0] as u32) << 24) | ((bytes[1] as u32) << 16) | ((bytes[2] as u32) << 8)
            | (bytes[3] as u32);
        let y = ((bytes[4] as u32) << 24) | ((bytes[5] as u32) << 16) | ((bytes[6] as u32) << 8)
            | (bytes[7] as u32);
        let p = Position { x, y };
        proof {
            let b0 = bytes@[0];
            let b1 = bytes@[1];
            let b2 = bytes@[2];
            let b3 = bytes@[3];
            let xx = ((b0 as u32) << 24) | ((b1 as u32) << 16) | ((b2 as u32) << 8) | (b3 as u32);
            assert((xx / 0x1000000) as u8 == b0 && ((xx / 0x10000) % 0x100) as u8 == b1 && ((xx
                / 0x100) % 0x100) as u8 == b2 && (xx % 0x100) as u8 == b3) by (bit_vector)
                requires
                    xx == ((b0 as u32) << 24) | ((b1 as u32) << 16) | ((b2 as u32) << 8) | (
                    b3 as u32),
            ;
            let b4 = bytes@[4];
            let b5 = bytes@[5];
            let b6 = bytes@[6];
            let b7 = bytes@[7];
            let yy = ((b4 as u32) << 24) | ((b5 as u32) << 16) | ((b6 as u32) << 8) | (b7 as u32);
            assert((yy / 0x1000000) as u8 == b4 && ((yy / 0x10000) % 0x100) as u8 == b5 && ((yy
                / 0x100) % 0x100) as u8 == b6 && (yy % 0x100) as u8 == b7) by (bit_vector)
                requires
                    yy == ((b4 as u32) << 24) | ((b5 as u32) << 16) | ((b6 as u32) << 8) | (
                    b7 as u32),
            ;
            assert(bytes@ =~= position_bytes(p));
        }
        Some(p)
    }
}

/// A rectangle area on the canvas.
#[derive(Clone, Copy, Debug, PartialEq, Eq, Structural)]
pub struct CanvasBounds {
    pub x: u32,
    pub y: u32,
    pub width: u32,
    pub height: u32,
}

/// Statistics about the pixel canvas.
#[derive(Clone, Copy, Debug, PartialEq)]
pub struct CanvasStats {
    pub total_pixels: u32,
    pub colored_pixels: u32,
    pub transparent_pixels: u32,
    pub unique_colors: u32,
    pub last_update: Option<u64>,
}

impl Default for CanvasStats {
    /// Statistics of an empty, zero-sized canvas.
    fn default() -> (r: Self)
        ensures
            r == (CanvasStats {
                total_pixels: 0,
                colored_pixels: 0,
                transparent_pixels: 0,
                unique_colors: 0,
                last_update: None::<u64>,
            }),
    {
        CanvasStats {
            total_pixels: 0,
            colored_pixels: 0,
            transparent_pixels: 0,
            unique_colors: 0,
            last_update: None,
        }
    }
}

/// Cross-context messages for pixel ownership notifications.
#[derive(Clone, Debug, PartialEq)]
pub enum Message {
    /// Notify a pixel owner that their pixel was modified by another context.
    PixelModified {
        x: u32,
        y: u32,
        new_color: Option<PixelColor>,
        modified_by: ChainId,
        timestamp: u64,
    },
    /// Notify a pixel owner about batch pixel modifications.
    BatchPixelModified { pixels: Vec<PixelModification>, modified_by: ChainId, timestamp: u64 },
    /// Request to claim or transfer pixel ownership.
    OwnershipClaim { x: u32, y: u32, requested_by: ChainId, timestamp: u64 },
}

/// Information about a single pixel modification.
#[derive(Clone, Copy, Debug, PartialEq)]
pub struct PixelModification {
    pub x: u32,
    pub y: u32,
    pub new_color: Option<PixelColor>,
    pub previous_color: Option<PixelColor>,
}

/// Permission levels for pixel modifications.
#[derive(Clone, Debug, PartialEq)]
pub enum PixelPermission {
    /// Anyone can modify this pixel.
    Public,
    /// Only the owner can modify this pixel.
    OwnerOnly,
    /// Whitelist of context identifiers that can modify this pixel.
    Restricted(Vec<ChainId>),
}

/// Cross-context notification record, appended at the receiving context.
#[derive(Debug, PartialEq)]
pub struct Notification {
    pub notification_type: String,
    pub x: u32,
    pub y: u32,
    pub new_color: Option<PixelColor>,
    pub modified_by: ChainId,
    pub timestamp: u64,
    pub processed: bool,
}

impl Clone for Notification {
    fn clone(&self) -> (r: Self)
        ensures
            r == *self,
    {
        Notification {
            notification_type: self.notification_type.clone(),
            x: self.x,
            y: self.y,
            new_color: self.new_color,
            modified_by: self.modified_by,
            timestamp: self.timestamp,
            processed: self.processed,
        }
    }
}

/// Failure of a notification-log operation.
#[derive(Clone, Copy, Debug, PartialEq, Eq, Structural)]
pub enum NotificationError {
    /// The named notification does not exist.
    NotFound,
}

/// Cross-context notification statistics.
#[derive(Clone, Copy, Debug, PartialEq, Eq, Structural)]
pub struct NotificationStats {
    pub unprocessed_count: usize,
    pub processed_count: usize,
}

/// Canvas initialization parameters.
#[derive(Clone, Copy, Debug, PartialEq, Eq, Structural)]
pub struct CanvasInitialization {
    pub width: u32,
    pub height: u32,
}

/// An event the application emits on its own context.
#[derive(Clone, Debug, PartialEq)]
pub enum Event {
    /// A pixel was changed to a new color.
    PixelChanged { x: u32, y: u32, color: PixelColor },
    /// A pixel was cleared (set to transparent).
    PixelCleared { x: u32, y: u32 },
    /// A batch of pixels was updated.
    BatchUpdate { count: u32 },
    /// Cross-context pixel modification notification.
    CrossChainPixelModified { x: u32, y: u32, color: PixelColor, modified_by: ChainId },
    /// Cross-context pixel clearing notification.
    CrossChainPixelCleared { x: u32, y: u32, modified_by: ChainId },
    /// Cross-context batch modification notification.
    CrossChainBatchModified { count: u32, modified_by: ChainId },
    /// Ownership change notification.
    OwnershipChanged { x: u32, y: u32, new_owner: Option<ChainId>, old_owner: Option<ChainId> },
}

} // verus!
