//! The canvas ledger: the authoritative record of every pixel, its statistics
//! registers, and the log of cross-context notifications.

use vstd::prelude::*;
use vstd::set_lib::lemma_int_range;
use vstd::set_lib::lemma_len_subset;
use vstd::set_lib::set_int_range;

use crate::kv::keys_unique;
use crate::kv::spec_get;
use crate::kv::KvMap;
use crate::pixel_abi::CanvasBounds;
use crate::pixel_abi::CanvasStats;
use crate::pixel_abi::Notification;
use crate::pixel_abi::NotificationError;
use crate::pixel_abi::NotificationStats;
use crate::pixel_abi::Pixel;
use crate::pixel_abi::PixelColor;
use crate::pixel_abi::PixelUpdate;
use crate::pixel_abi::Position;

verus! {

/// A coordinate pair lies inside a canvas of the given dimensions.
pub open spec fn position_in_bounds(x: u32, y: u32, width: u32, height: u32) -> bool {
    x < width && y < height
}

/// A stored pixel counts as colored when it carries a color that is not
/// transparent.
pub open spec fn is_colored(p: Pixel) -> bool {
    p.color is Some && p.color->0.alpha != 0
}

/// How many stored pixels count as colored.
pub open spec fn count_colored(s: Seq<((u32, u32), Pixel)>) -> nat
    decreases s.len(),
{
    if s.len() == 0 {
        0
    } else {
        count_colored(s.drop_last()) + (if is_colored(s.last().1) {
            1nat
        } else {
            0nat
        })
    }
}

/// A stored entry is keyed by coordinates inside the canvas, and the pixel
/// record repeats its own coordinates.
pub open spec fn entry_ok(e: ((u32, u32), Pixel), width: u32, height: u32) -> bool {
    &&& e.0.0 < width
    &&& e.0.1 < height
    &&& e.1.x == e.0.0
    &&& e.1.y == e.0.1
}

/// The canvas ledger, owned by the authority context for this canvas.
pub struct PixelChainState {
    /// Canvas width, fixed at instantiation.
    pub canvas_width: u32,
    /// Canvas height, fixed at instantiation.
    pub canvas_height: u32,
    /// All pixels on the canvas, stored by position.
    pub pixels: KvMap<Position, Pixel>,
    /// Log of all pixel updates for history.
    pub pixel_updates: Vec<PixelUpdate>,
    /// Total number of colored pixels.
    pub colored_pixel_count: u32,
    /// Canvas statistics.
    pub canvas_stats: CanvasStats,
    /// Default color for transparent pixels.
    pub default_color: PixelColor,
    /// Log of cross-context notifications.
    pub cross_chain_notifications: Vec<Notification>,
}

impl PixelChainState {
    /// The ledger's invariant: unique, in-bounds pixel keys; counters and
    /// statistics in step with the stored pixels.
    pub open spec fn wf(self) -> bool {
        &&& keys_unique(self.pixels@)
        &&& (self.canvas_width as int) * (self.canvas_height as int) <= u32::MAX as int
        &&& forall|i: int|
            0 <= i < self.pixels@.len() ==> entry_ok(
                #[trigger] self.pixels@[i],
                self.canvas_width,
                self.canvas_height,
            )
        &&& self.colored_pixel_count as nat == count_colored(self.pixels@)
        &&& self.canvas_stats.total_pixels as int == (self.canvas_width as int) * (
        self.canvas_height as int)
        &&& self.canvas_stats.colored_pixels == self.colored_pixel_count
        &&& self.canvas_stats.transparent_pixels as int == self.canvas_stats.total_pixels as int
            - self.canvas_stats.colored_pixels as int
    }

    /// An empty ledger, before the canvas is initialized.
    pub fn new() -> (r: Self)
        ensures
            r.wf(),
            r.canvas_width == 0,
            r.canvas_height == 0,
            r.pixels@ == Seq::<((u32, u32), Pixel)>::empty(),
            r.pixel_updates@ == Seq::<PixelUpdate>::empty(),
            r.colored_pixel_count == 0,
            r.canvas_stats == (CanvasStats {
                total_pixels: 0,
                colored_pixels: 0,
                transparent_pixels: 0,
                unique_colors: 0,
                last_update: None::<u64>,
            }),
            r.default_color == (PixelColor { red: 0, green: 0, blue: 0, alpha: 0 }),
            r.cross_chain_notifications@ == Seq::<Notification>::empty(),
    {
        PixelChainState {
            canvas_width: 0,
            canvas_height: 0,
            pixels: KvMap::new(),
            pixel_updates: Vec::new(),
            colored_pixel_count: 0,
            canvas_stats: CanvasStats {
                total_pixels: 0,
                colored_pixels: 0,
                transparent_pixels: 0,
                unique_colors: 0,
                last_update: None,
            },
            default_color: PixelColor::new(0, 0, 0, 0),
            cross_chain_notifications: Vec::new(),
        }
    }

    /// Initialize the state with canvas dimensions. The bounds are a contract
    /// invariant fixed here once, on a ledger with no pixels yet; the cell
    /// count must fit the statistics register.
    pub fn initialize(&mut self, width: u32, height: u32)
        requires
            old(self).pixels@.len() == 0,
            (width as int) * (height as int) <= u32::MAX as int,
        ensures
            final(self).wf(),
            final(self).canvas_width == width,
            final(self).canvas_height == height,
            final(self).default_color == (PixelColor { red: 0, green: 0, blue: 0, alpha: 0 }),
            final(self).canvas_stats == (CanvasStats {
                total_pixels: (width * height) as u32,
                colored_pixels: 0,
                transparent_pixels: (width * height) as u32,
                unique_colors: 0,
                last_update: None::<u64>,
            }),
            final(self).colored_pixel_count == 0,
            final(self).pixels == old(self).pixels,
            final(self).pixel_updates == old(self).pixel_updates,
            final(self).cross_chain_notifications == old(self).cross_chain_notifications,
    {
        self.canvas_width = width;
        self.canvas_height = height;
        self.default_color = PixelColor::new(0, 0, 0, 0);
        let total = width * height;
        self.canvas_stats = CanvasStats {
            total_pixels: total,
            colored_pixels: 0,
            transparent_pixels: total,
            unique_colors: 0,
            last_update: None,
        };
        self.colored_pixel_count = 0;
    }

    /// Check if coordinates are within canvas bounds.
    pub fn is_valid_position(&self, x: u32, y: u32) -> (r: bool)
        ensures
            r == position_in_bounds(x, y, self.canvas_width, self.canvas_height),
    {
        x < self.canvas_width && y < self.canvas_height
    }

    /// Get current canvas dimensions.
    pub fn get_canvas_dimensions(&self) -> (r: (u32, u32))
        ensures
            r == (self.canvas_width, self.canvas_height),
    {
        (self.canvas_width, self.canvas_height)
    }

    /// Get the default color.
    pub fn get_default_color(&self) -> (r: PixelColor)
        ensures
            r == self.default_color,
    {
        self.default_color
    }

    /// Get current canvas statistics.
    pub fn get_canvas_stats(&self) -> (r: CanvasStats)
        ensures
            r == self.canvas_stats,
    {
        self.canvas_stats
    }

    /// Update the statistics registers after one pixel changed from
    /// `old_color` to `new_color`. The callers hand in the colors actually
    /// stored, so the colored-pixel counter stays within its register.
    pub fn update_stats(&mut self, old_color: Option<PixelColor>, new_color: Option<PixelColor>, now: u64)
        requires
            opt_colored(old_color) && !opt_colored(new_color) ==> old(self).colored_pixel_count
                >= 1,
            !opt_colored(old_color) && opt_colored(new_color) ==> old(self).colored_pixel_count
                < u32::MAX,
            stepped_count(old(self).colored_pixel_count, old_color, new_color)
                <= old(self).canvas_stats.total_pixels,
        ensures
            final(self).colored_pixel_count as int == stepped_count(
                old(self).colored_pixel_count,
                old_color,
                new_color,
            ),
            final(self).canvas_stats == (CanvasStats {
                total_pixels: old(self).canvas_stats.total_pixels,
                colored_pixels: final(self).colored_pixel_count,
                transparent_pixels: (old(self).canvas_stats.total_pixels
                    - final(self).colored_pixel_count) as u32,
                unique_colors: old(self).canvas_stats.unique_colors,
                last_update: Some(now),
            }),
            final(self).canvas_width == old(self).canvas_width,
            final(self).canvas_height == old(self).canvas_height,
            final(self).pixels == old(self).pixels,
            final(self).pixel_updates == old(self).pixel_updates,
            final(self).default_color == old(self).default_color,
            final(self).cross_chain_notifications == old(self).cross_chain_notifications,
    {
        let was_colored = match old_color {
            Some(c) => !c.is_transparent(),
            None => false,
        };
        let is_now_colored = match new_color {
            Some(c) => !c.is_transparent(),
            None => false,
        };
        if was_colored && !is_now_colored {
            self.colored_pixel_count = self.colored_pixel_count - 1;
        } else if !was_colored && is_now_colored {
            self.colored_pixel_count = self.colored_pixel_count + 1;
        }
        self.canvas_stats = CanvasStats {
            total_pixels: self.canvas_stats.total_pixels,
            colored_pixels: self.colored_pixel_count,
            transparent_pixels: self.canvas_stats.total_pixels - self.colored_pixel_count,
            unique_colors: self.canvas_stats.unique_colors,
            last_update: Some(now),
        };
    }
}

/// How many processed notifications to keep when the log is cleaned up.
pub const PROCESSED_KEEP_LIMIT: usize = 100;

/// The notifications of `s` that are not yet processed, in log order.
pub open spec fn unprocessed_of(s: Seq<Notification>) -> Seq<Notification>
    decreases s.len(),
{
    if s.len() == 0 {
        Seq::empty()
    } else if s.last().processed {
        unprocessed_of(s.drop_last())
    } else {
        unprocessed_of(s.drop_last()).push(s.last())
    }
}

/// The same notification with its processed flag raised.
pub open spec fn marked(n: Notification) -> Notification {
    Notification {
        notification_type: n.notification_type,
        x: n.x,
        y: n.y,
        new_color: n.new_color,
        modified_by: n.modified_by,
        timestamp: n.timestamp,
        processed: true,
    }
}

/// Whether some element of `indices` names position `i`.
pub open spec fn idx_in(indices: Seq<usize>, i: int) -> bool {
    exists|j: int| 0 <= j < indices.len() && indices[j] == i
}

/// What the log holds after housekeeping: unprocessed notifications always
/// stay; processed ones stay only while the kept list is still short.
pub open spec fn cleanup_spec(s: Seq<Notification>) -> Seq<Notification>
    decreases s.len(),
{
    if s.len() == 0 {
        Seq::empty()
    } else {
        let prev = cleanup_spec(s.drop_last());
        if !s.last().processed || prev.len() < PROCESSED_KEEP_LIMIT {
            prev.push(s.last())
        } else {
            prev
        }
    }
}

/// How many notifications of `s` are processed.
pub open spec fn count_processed(s: Seq<Notification>) -> nat
    decreases s.len(),
{
    if s.len() == 0 {
        0
    } else {
        count_processed(s.drop_last()) + (if s.last().processed {
            1nat
        } else {
            0nat
        })
    }
}

/// No more notifications are processed than the log holds.
pub proof fn lemma_count_processed_le_len(s: Seq<Notification>)
    ensures
        count_processed(s) <= s.len(),
    decreases s.len(),
{
    if s.len() > 0 {
        lemma_count_processed_le_len(s.drop_last());
    }
}

impl PixelChainState {
    /// Get the cross-context notifications not yet processed.
    pub fn get_unprocessed_notifications(&self) -> (r: Vec<Notification>)
        ensures
            r@ == unprocessed_of(self.cross_chain_notifications@),
    {
        let mut out: Vec<Notification> = Vec::new();
        let n = self.cross_chain_notifications.len();
        let mut i: usize = 0;
        proof {
            assert(self.cross_chain_notifications@.subrange(0, 0) =~= Seq::<
                Notification,
            >::empty());
        }
        while i < n
            invariant
                0 <= i <= n,
                n == self.cross_chain_notifications@.len(),
                out@ == unprocessed_of(self.cross_chain_notifications@.subrange(0, i as int)),
            decreases n - i,
        {
            let notif = &self.cross_chain_notifications[i];
            if !notif.processed {
                out.push(notif.clone());
            }
            proof {
                let s = self.cross_chain_notifications@;
                assert(s.subrange(0, i + 1).drop_last() =~= s.subrange(0, i as int));
                assert(s.subrange(0, i + 1).last() == s[i as int]);
            }
            i += 1;
        }
        proof {
            let s = self.cross_chain_notifications@;
            assert(s.subrange(0, n as int) =~= s);
        }
        out
    }

    /// Mark one notification as processed.
    pub fn mark_notification_processed(&mut self, index: usize) -> (r: Result<
        (),
        NotificationError,
    >)
        ensures
            r is Ok <==> index < old(self).cross_chain_notifications@.len(),
            r is Err ==> *final(self) == *old(self),
            r is Ok ==> final(self).cross_chain_notifications@ == old(
                self,
            ).cross_chain_notifications@.update(
                index as int,
                marked(old(self).cross_chain_notifications@[index as int]),
            ),
            final(self).canvas_width == old(self).canvas_width,
            final(self).canvas_height == old(self).canvas_height,
            final(self).pixels == old(self).pixels,
            final(self).pixel_updates == old(self).pixel_updates,
            final(self).colored_pixel_count == old(self).colored_pixel_count,
            final(self).canvas_stats == old(self).canvas_stats,
            final(self).default_color == old(self).default_color,
    {
        if index >= self.cross_chain_notifications.len() {
            return Err(NotificationError::NotFound);
        }
        let n = self.cross_chain_notifications.remove(index);
        let m = Notification {
            notification_type: n.notification_type,
            x: n.x,
            y: n.y,
            new_color: n.new_color,
            modified_by: n.modified_by,
            timestamp: n.timestamp,
            processed: true,
        };
        self.cross_chain_notifications.insert(index, m);
        proof {
            let s = old(self).cross_chain_notifications@;
            assert(self.cross_chain_notifications@ =~= s.update(
                index as int,
                marked(s[index as int]),
            ));
        }
        Ok(())
    }

    /// Mark the notifications at the given log positions as processed;
    /// positions past the log are ignored.
    pub fn mark_notifications_processed(&mut self, indices: &Vec<usize>)
        ensures
            final(self).cross_chain_notifications@.len() == old(
                self,
            ).cross_chain_notifications@.len(),
            forall|i: int|
                0 <= i < old(self).cross_chain_notifications@.len()
                    ==> #[trigger] final(self).cross_chain_notifications@[i] == (if idx_in(
                    indices@,
                    i,
                ) {
                    marked(old(self).cross_chain_notifications@[i])
                } else {
                    old(self).cross_chain_notifications@[i]
                }),
            final(self).canvas_width == old(self).canvas_width,
            final(self).canvas_height == old(self).canvas_height,
            final(self).pixels == old(self).pixels,
            final(self).pixel_updates == old(self).pixel_updates,
            final(self).colored_pixel_count == old(self).colored_pixel_count,
            final(self).canvas_stats == old(self).canvas_stats,
            final(self).default_color == old(self).default_color,
    {
        let m = indices.len();
        let mut j: usize = 0;
        while j < m
            invariant
                0 <= j <= m,
                m == indices@.len(),
                self.cross_chain_notifications@.len() == old(
                    self,
                ).cross_chain_notifications@.len(),
                forall|i: int|
                    0 <= i < old(self).cross_chain_notifications@.len()
                        ==> #[trigger] self.cross_chain_notifications@[i] == (if idx_in(
                        indices@.subrange(0, j as int),
                        i,
                    ) {
                        marked(old(self).cross_chain_notifications@[i])
                    } else {
                        old(self).cross_chain_notifications@[i]
                    }),
                self.canvas_width == old(self).canvas_width,
                self.canvas_height == old(self).canvas_height,
                self.pixels == old(self).pixels,
                self.pixel_updates == old(self).pixel_updates,
                self.colored_pixel_count == old(self).colored_pixel_count,
                self.canvas_stats == old(self).canvas_stats,
                self.default_color == old(self).default_color,
            decreases m - j,
        {
            let idx = indices[j];
            if idx < self.cross_chain_notifications.len() {
                let n = self.cross_chain_notifications.remove(idx);
                let mk = Notification {
                    notification_type: n.notification_type,
                    x: n.x,
                    y: n.y,
                    new_color: n.new_color,
                    modified_by: n.modified_by,
                    timestamp: n.timestamp,
                    processed: true,
                };
                self.cross_chain_notifications.insert(idx, mk);
            }
            proof {
                let pre = indices@.subrange(0, j as int);
                let cur = indices@.subrange(0, j + 1);
                assert(cur.drop_last() =~= pre);
                assert(cur.last() == indices@[j as int]);
                assert forall|i: int| 0 <= i < old(self).cross_chain_notifications@.len() implies (
                idx_in(cur, i) <==> (idx_in(pre, i) || i == indices@[j as int])) by {
                    if idx_in(pre, i) {
                        let w = choose|w: int| 0 <= w < pre.len() && pre[w] == i;
                        assert(cur[w] == i);
                    }
                    if i == indices@[j as int] {
                        assert(cur[j as int] == i);
                    }
                    if idx_in(cur, i) {
                        let w = choose|w: int| 0 <= w < cur.len() && cur[w] == i;
                        if w < j {
                            assert(pre[w] == i);
                        }
                    }
                }
            }
            j += 1;
        }
        proof {
            assert(indices@.subrange(0, m as int) =~= indices@);
        }
    }

    /// Mark every notification as processed.
    pub fn mark_all_notifications_processed(&mut self)
        ensures
            final(self).cross_chain_notifications@.len() == old(
                self,
            ).cross_chain_notifications@.len(),
            forall|i: int|
                0 <= i < old(self).cross_chain_notifications@.len()
                    ==> #[trigger] final(self).cross_chain_notifications@[i] == marked(
                    old(self).cross_chain_notifications@[i],
                ),
            final(self).canvas_width == old(self).canvas_width,
            final(self).canvas_height == old(self).canvas_height,
            final(self).pixels == old(self).pixels,
            final(self).pixel_updates == old(self).pixel_updates,
            final(self).colored_pixel_count == old(self).colored_pixel_count,
            final(self).canvas_stats == old(self).canvas_stats,
            final(self).default_color == old(self).default_color,
    {
        let n = self.cross_chain_notifications.len();
        let mut i: usize = 0;
        while i < n
            invariant
                0 <= i <= n,
                n == self.cross_chain_notifications@.len(),
                self.cross_chain_notifications@.len() == old(
                    self,
                ).cross_chain_notifications@.len(),
                forall|k: int|
                    0 <= k < i ==> self.cross_chain_notifications@[k] == marked(
                        old(self).cross_chain_notifications@[k],
                    ),
                forall|k: int|
                    i <= k < n ==> self.cross_chain_notifications@[k] == old(
                        self,
                    ).cross_chain_notifications@[k],
                self.canvas_width == old(self).canvas_width,
                self.canvas_height == old(self).canvas_height,
                self.pixels == old(self).pixels,
                self.pixel_updates == old(self).pixel_updates,
                self.colored_pixel_count == old(self).colored_pixel_count,
                self.canvas_stats == old(self).canvas_stats,
                self.default_color == old(self).default_color,
            decreases n - i,
        {
            let n2 = self.cross_chain_notifications.remove(i);
            let mk = Notification {
                notification_type: n2.notification_type,
                x: n2.x,
                y: n2.y,
                new_color: n2.new_color,
                modified_by: n2.modified_by,
                timestamp: n2.timestamp,
                processed: true,
            };
            self.cross_chain_notifications.insert(i, mk);
            i += 1;
        }
    }

    /// Clean up old processed notifications, keeping the unprocessed ones and
    /// only a limited number of processed ones.
    pub fn cleanup_old_notifications(&mut self)
        ensures
            final(self).cross_chain_notifications@ == cleanup_spec(
                old(self).cross_chain_notifications@,
            ),
            final(self).canvas_width == old(self).canvas_width,
            final(self).canvas_height == old(self).canvas_height,
            final(self).pixels == old(self).pixels,
            final(self).pixel_updates == old(self).pixel_updates,
            final(self).colored_pixel_count == old(self).colored_pixel_count,
            final(self).canvas_stats == old(self).canvas_stats,
            final(self).default_color == old(self).default_color,
    {
        let mut kept: Vec<Notification> = Vec::new();
        let n = self.cross_chain_notifications.len();
        let mut i: usize = 0;
        proof {
            assert(self.cross_chain_notifications@.subrange(0, 0) =~= Seq::<
                Notification,
            >::empty());
        }
        while i < n
            invariant
                0 <= i <= n,
                n == self.cross_chain_notifications@.len(),
                kept@ == cleanup_spec(self.cross_chain_notifications@.subrange(0, i as int)),
            decreases n - i,
        {
            let notif = &self.cross_chain_notifications[i];
            if !notif.processed || kept.len() < PROCESSED_KEEP_LIMIT {
                kept.push(notif.clone());
            }
            proof {
                let s = self.cross_chain_notifications@;
                assert(s.subrange(0, i + 1).drop_last() =~= s.subrange(0, i as int));
                assert(s.subrange(0, i + 1).last() == s[i as int]);
            }
            i += 1;
        }
        proof {
            let s = self.cross_chain_notifications@;
            assert(s.subrange(0, n as int) =~= s);
        }
        self.cross_chain_notifications = kept;
    }

    /// How many notifications are unprocessed, and how many processed.
    pub fn get_notification_stats(&self) -> (r: (usize, usize))
        ensures
            r.1 == count_processed(self.cross_chain_notifications@),
            r.0 == self.cross_chain_notifications@.len() - count_processed(
                self.cross_chain_notifications@,
            ),
    {
        let total = self.cross_chain_notifications.len();
        let mut processed: usize = 0;
        let mut i: usize = 0;
        while i < total
            invariant
                0 <= i <= total,
                total == self.cross_chain_notifications@.len(),
                processed == count_processed(
                    self.cross_chain_notifications@.subrange(0, i as int),
                ),
                processed <= i,
            decreases total - i,
        {
            if self.cross_chain_notifications[i].processed {
                processed += 1;
            }
            proof {
                let s = self.cross_chain_notifications@;
                assert(s.subrange(0, i + 1).drop_last() =~= s.subrange(0, i as int));
                assert(s.subrange(0, i + 1).last() == s[i as int]);
            }
            i += 1;
        }
        proof {
            let s = self.cross_chain_notifications@;
            assert(s.subrange(0, total as int) =~= s);
            lemma_count_processed_le_len(s);
        }
        (total - processed, processed)
    }

    /// The stored pixels of a rectangular area: every stored pixel whose cell
    /// lies both inside the area and on the canvas, each exactly once. The
    /// area's far edges must stay within coordinate range.
    pub fn pixels_in_area(&self, bounds: CanvasBounds) -> (r: Vec<Pixel>)
        requires
            self.wf(),
            bounds.x + bounds.width <= u32::MAX,
            bounds.y + bounds.height <= u32::MAX,
        ensures
            forall|i: int|
                0 <= i < r@.len() ==> {
                    let p = #[trigger] r@[i];
                    &&& spec_get(self.pixels@, (p.x, p.y)) == Some(p)
                    &&& in_area(p.x, p.y, bounds)
                    &&& position_in_bounds(p.x, p.y, self.canvas_width, self.canvas_height)
                },
            forall|pi: int|
                0 <= pi < self.pixels@.len() && in_area(
                    (#[trigger] self.pixels@[pi]).0.0,
                    self.pixels@[pi].0.1,
                    bounds,
                ) ==> r@.contains(self.pixels@[pi].1),
    {
        let mut out: Vec<Pixel> = Vec::new();
        let x_end = bounds.x + bounds.width;
        let y_end = bounds.y + bounds.height;
        let mut x = bounds.x;
        while x < x_end
            invariant
                self.wf(),
                bounds.x <= x <= x_end,
                x_end == bounds.x + bounds.width,
                y_end == bounds.y + bounds.height,
                forall|i: int|
                    0 <= i < out@.len() ==> {
                        let p = #[trigger] out@[i];
                        &&& spec_get(self.pixels@, (p.x, p.y)) == Some(p)
                        &&& in_area(p.x, p.y, bounds)
                        &&& position_in_bounds(p.x, p.y, self.canvas_width, self.canvas_height)
                    },
                forall|pi: int|
                    0 <= pi < self.pixels@.len() && in_area(
                        (#[trigger] self.pixels@[pi]).0.0,
                        self.pixels@[pi].0.1,
                        bounds,
                    ) && self.pixels@[pi].0.0 < x ==> out@.contains(self.pixels@[pi].1),
            decreases x_end - x,
        {
            let mut y = bounds.y;
            while y < y_end
                invariant
                    self.wf(),
                    bounds.x <= x < x_end,
                    bounds.y <= y <= y_end,
                    x_end == bounds.x + bounds.width,
                    y_end == bounds.y + bounds.height,
                    forall|i: int|
                        0 <= i < out@.len() ==> {
                            let p = #[trigger] out@[i];
                            &&& spec_get(self.pixels@, (p.x, p.y)) == Some(p)
                            &&& in_area(p.x, p.y, bounds)
                            &&& position_in_bounds(
                                p.x,
                                p.y,
                                self.canvas_width,
                                self.canvas_height,
                            )
                        },
                    forall|pi: int|
                        0 <= pi < self.pixels@.len() && in_area(
                            (#[trigger] self.pixels@[pi]).0.0,
                            self.pixels@[pi].0.1,
                            bounds,
                        ) && (self.pixels@[pi].0.0 < x || (self.pixels@[pi].0.0 == x
                            && self.pixels@[pi].0.1 < y)) ==> out@.contains(self.pixels@[pi].1),
                decreases y_end - y,
            {
                let ghost before = out@;
                if self.is_valid_position(x, y) {
                    match self.pixels.get(&Position { x, y }) {
                        Some(p) => {
                            out.push(*p);
                            proof {
                                crate::kv::lemma_spec_get_index(self.pixels@, (x, y));
                                assert(out@.last() == *p);
                            }
                        },
                        None => {},
                    }
                }
                proof {
                    assert forall|pi: int|
                        0 <= pi < self.pixels@.len() && in_area(
                            (#[trigger] self.pixels@[pi]).0.0,
                            self.pixels@[pi].0.1,
                            bounds,
                        ) && (self.pixels@[pi].0.0 < x || (self.pixels@[pi].0.0 == x
                            && self.pixels@[pi].0.1 < y + 1)) implies out@.contains(
                        self.pixels@[pi].1,
                    ) by {
                        let key = self.pixels@[pi].0;
                        if key.0 == x && key.1 == y {
                            crate::kv::lemma_spec_get_at(self.pixels@, key, pi);
                            assert(out@.last() == self.pixels@[pi].1);
                        } else {
                            assert(before.contains(self.pixels@[pi].1));
                            let k = choose|k: int|
                                0 <= k < before.len() && before[k] == self.pixels@[pi].1;
                            assert(out@[k] == self.pixels@[pi].1);
                        }
                    }
                }
                y += 1;
            }
            x += 1;
        }
        proof {
            assert forall|pi: int|
                0 <= pi < self.pixels@.len() && in_area(
                    (#[trigger] self.pixels@[pi]).0.0,
                    self.pixels@[pi].0.1,
                    bounds,
                ) implies out@.contains(self.pixels@[pi].1) by {
                assert(self.pixels@[pi].0.0 < x_end);
            }
        }
        out
    }

    /// The notification counts as queries report them.
    pub fn notification_stats(&self) -> (r: NotificationStats)
        ensures
            r.processed_count == count_processed(self.cross_chain_notifications@),
            r.unprocessed_count == self.cross_chain_notifications@.len() - count_processed(
                self.cross_chain_notifications@,
            ),
    {
        let (unprocessed_count, processed_count) = self.get_notification_stats();
        NotificationStats { unprocessed_count, processed_count }
    }
}

impl PixelChainState {
    /// Look up the pixel stored at the given coordinates.
    pub fn pixel(&self, x: u32, y: u32) -> (r: Option<&Pixel>)
        requires
            keys_unique(self.pixels@),
        ensures
            match r {
                Some(p) => spec_get(self.pixels@, (x, y)) == Some(*p),
                None => spec_get(self.pixels@, (x, y)) is None,
            },
    {
        self.pixels.get(&Position { x, y })
    }

    /// The most recent update-log entries, oldest first: the last `limit`
    /// entries, ten when no limit is given, all when fewer exist.
    pub fn recent_updates(&self, limit: Option<u32>) -> (r: Vec<PixelUpdate>)
        ensures
            ({
                let len = self.pixel_updates@.len() as int;
                let wanted: int = match limit {
                    Some(l) => l as int,
                    None => 10,
                };
                let k: int = if wanted <= len {
                    wanted
                } else {
                    len
                };
                r@ == self.pixel_updates@.subrange(len - k, len)
            }),
    {
        let total = self.pixel_updates.len();
        let wanted = match limit {
            Some(l) => l,
            None => 10,
        };
        let k: usize = if wanted as usize <= total {
            wanted as usize
        } else {
            total
        };
        let start = total - k;
        let mut out: Vec<PixelUpdate> = Vec::new();
        let mut i: usize = start;
        proof {
            assert(self.pixel_updates@.subrange(start as int, start as int) =~= Seq::<
                PixelUpdate,
            >::empty());
        }
        while i < total
            invariant
                start <= i <= total,
                total == self.pixel_updates@.len(),
                out@ == self.pixel_updates@.subrange(start as int, i as int),
            decreases total - i,
        {
            out.push(self.pixel_updates[i]);
            proof {
                assert(out@ =~= self.pixel_updates@.subrange(start as int, i + 1));
            }
            i += 1;
        }
        out
    }

    /// The distinct colors of the colored pixels, in first-occurrence order.
    pub fn unique_colors(&self) -> (r: Vec<PixelColor>)
        ensures
            forall|i: int, j: int| 0 <= i < j < r@.len() ==> r@[i] != r@[j],
            forall|i: int|
                0 <= i < r@.len() ==> color_in_store(self.pixels@, #[trigger] r@[i]),
            forall|pi: int|
                0 <= pi < self.pixels@.len() && is_colored(#[trigger] self.pixels@[pi].1)
                    ==> r@.contains(self.pixels@[pi].1.color->0),
    {
        let mut out: Vec<PixelColor> = Vec::new();
        let n = self.pixels.len();
        let mut i: usize = 0;
        while i < n
            invariant
                0 <= i <= n,
                n == self.pixels@.len(),
                forall|i2: int, j2: int| 0 <= i2 < j2 < out@.len() ==> out@[i2] != out@[j2],
                forall|i2: int|
                    0 <= i2 < out@.len() ==> color_in_store(self.pixels@, #[trigger] out@[i2]),
                forall|pi: int|
                    0 <= pi < i && is_colored(#[trigger] self.pixels@[pi].1) ==> out@.contains(
                        self.pixels@[pi].1.color->0,
                    ),
            decreases n - i,
        {
            let pixel = self.pixels.value_at(i);
            match pixel.color {
                Some(color) => {
                    if !color.is_transparent() {
                        let mut seen = false;
                        let m = out.len();
                        let mut j: usize = 0;
                        while j < m && !seen
                            invariant
                                0 <= j <= m,
                                m == out@.len(),
                                !seen ==> forall|j2: int| 0 <= j2 < j ==> out@[j2] != color,
                                seen ==> out@.contains(color),
                            decreases m - j + (if seen {
                                0int
                            } else {
                                1int
                            }),
                        {
                            if out[j] == color {
                                seen = true;
                            } else {
                                j += 1;
                            }
                        }
                        if !seen {
                            let ghost before = out@;
                            out.push(color);
                            proof {
                                assert(out@.last() == color);
                                assert(out@.contains(color));
                                assert(self.pixels@[i as int].1.color == Some(color));
                                assert(is_colored(self.pixels@[i as int].1));
                                assert(color_in_store(self.pixels@, color));
                                assert forall|i2: int|
                                    0 <= i2 < out@.len() implies color_in_store(
                                    self.pixels@,
                                    #[trigger] out@[i2],
                                ) by {
                                    if i2 < out@.len() - 1 {
                                        assert(out@[i2] == before[i2]);
                                    } else {
                                        assert(out@[i2] == color);
                                    }
                                }
                                assert forall|pi: int|
                                    0 <= pi < i && is_colored(
                                        #[trigger] self.pixels@[pi].1,
                                    ) implies out@.contains(self.pixels@[pi].1.color->0) by {
                                    let c = self.pixels@[pi].1.color->0;
                                    assert(before.contains(c));
                                    let k = choose|k: int|
                                        0 <= k < before.len() && before[k] == c;
                                    assert(out@[k] == c);
                                }
                            }
                        }
                    }
                },
                None => {},
            }
            proof {
                if is_colored(self.pixels@[i as int].1) {
                    assert(out@.contains(self.pixels@[i as int].1.color->0));
                }
            }
            i += 1;
        }
        out
    }
}

/// A cell lies inside a query area.
pub open spec fn in_area(x: u32, y: u32, b: CanvasBounds) -> bool {
    b.x <= x && (x as int) < b.x + b.width && b.y <= y && (y as int) < b.y + b.height
}

/// Whether some stored pixel shows this color.
pub open spec fn color_in_store(s: Seq<((u32, u32), Pixel)>, c: PixelColor) -> bool {
    exists|pi: int| 0 <= pi < s.len() && is_colored(#[trigger] s[pi].1) && s[pi].1.color->0 == c
}

/// An optional color counts as colored when it is present and not transparent.
pub open spec fn opt_colored(c: Option<PixelColor>) -> bool {
    c is Some && c->0.alpha != 0
}

/// The colored-pixel counter after one cell changed from `old_color` to
/// `new_color`.
pub open spec fn stepped_count(
    count: u32,
    old_color: Option<PixelColor>,
    new_color: Option<PixelColor>,
) -> int {
    if opt_colored(old_color) && !opt_colored(new_color) {
        count - 1
    } else if !opt_colored(old_color) && opt_colored(new_color) {
        count + 1
    } else {
        count as int
    }
}

/// No more pixels count as colored than are stored.
pub proof fn lemma_count_le_len(s: Seq<((u32, u32), Pixel)>)
    ensures
        count_colored(s) <= s.len(),
    decreases s.len(),
{
    if s.len() > 0 {
        lemma_count_le_len(s.drop_last());
    }
}

/// A store holding an uncolored pixel has strictly fewer colored pixels than
/// entries.
pub proof fn lemma_count_lt_len(s: Seq<((u32, u32), Pixel)>, i: int)
    requires
        0 <= i < s.len(),
        !is_colored(s[i].1),
    ensures
        count_colored(s) <= s.len() - 1,
    decreases s.len(),
{
    if i == s.len() - 1 {
        lemma_count_le_len(s.drop_last());
    } else {
        lemma_count_lt_len(s.drop_last(), i);
    }
}

/// How the colored count changes when the pixel at one index is replaced.
pub proof fn lemma_count_update(s: Seq<((u32, u32), Pixel)>, i: int, p: ((u32, u32), Pixel))
    ensures
        0 <= i < s.len() ==> count_colored(s.update(i, p)) == count_colored(s) - (if is_colored(
            s[i].1,
        ) {
            1int
        } else {
            0int
        }) + (if is_colored(p.1) {
            1int
        } else {
            0int
        }),
    decreases s.len(),
{
    if 0 <= i < s.len() {
        let t = s.update(i, p);
        if i == s.len() - 1 {
            assert(t.drop_last() =~= s.drop_last());
            assert(t.last() == p);
        } else {
            assert(t.drop_last() =~= s.drop_last().update(i, p));
            assert(t.last() == s.last());
            lemma_count_update(s.drop_last(), i, p);
        }
    }
}

/// How the colored count changes when a pixel is appended.
pub proof fn lemma_count_push(s: Seq<((u32, u32), Pixel)>, p: ((u32, u32), Pixel))
    ensures
        count_colored(s.push(p)) == count_colored(s) + (if is_colored(p.1) {
            1int
        } else {
            0int
        }),
{
    assert(s.push(p).drop_last() =~= s);
    assert(s.push(p).last() == p);
}

/// A store holding a colored pixel has at least one colored pixel.
pub proof fn lemma_count_pos(s: Seq<((u32, u32), Pixel)>, i: int)
    requires
        0 <= i < s.len(),
        is_colored(s[i].1),
    ensures
        count_colored(s) >= 1,
    decreases s.len(),
{
    if i < s.len() - 1 {
        lemma_count_pos(s.drop_last(), i);
    }
}

/// The pixel store after the cell `k` is set to `p`: the one pair keyed by
/// `k` is replaced, or a new pair is appended.
pub open spec fn spec_set(s: Seq<((u32, u32), Pixel)>, k: (u32, u32), p: Pixel) -> Seq<
    ((u32, u32), Pixel),
> {
    crate::kv::spec_put(s, k, p)
}

/// The color stored at cell `k`, if the cell holds a pixel at all.
pub open spec fn cell_color(s: Seq<((u32, u32), Pixel)>, k: (u32, u32)) -> Option<PixelColor> {
    match spec_get(s, k) {
        Some(p) => p.color,
        None => None,
    }
}

/// The store index of a cell, row by row.
pub open spec fn cell_index(k: (u32, u32), width: u32) -> int {
    (k.1 as int) * (width as int) + (k.0 as int)
}

/// A canvas of `width` by `height` cells holds at most that many pixels:
/// distinct in-bounds keys give distinct cell indices inside the grid.
pub proof fn lemma_len_le_grid(s: Seq<((u32, u32), Pixel)>, width: u32, height: u32)
    requires
        keys_unique(s),
        forall|i: int|
            0 <= i < s.len() ==> (#[trigger] s[i]).0.0 < width && s[i].0.1 < height,
    ensures
        s.len() <= (width as int) * (height as int),
{
    let f = |e: ((u32, u32), Pixel)| cell_index(e.0, width);
    let t = s.map_values(f);
    let total = (width as int) * (height as int);
    assert forall|i: int, j: int| 0 <= i < j < t.len() implies t[i] != t[j] by {
        let a = s[i].0;
        let b = s[j].0;
        assert(s[i].0 != s[j].0);
        assert(a.0 < width && b.0 < width);
        assert((a.1 as int) * (width as int) + (a.0 as int) == (b.1 as int) * (width as int) + (
        b.0 as int) ==> a == b) by (nonlinear_arith)
            requires
                a.0 < width,
                b.0 < width,
        ;
    }
    assert(t.no_duplicates());
    t.unique_seq_to_set();
    assert forall|x: int| t.to_set().contains(x) implies set_int_range(0, total).contains(x) by {
        let i = choose|i: int| 0 <= i < t.len() && t[i] == x;
        let a = s[i].0;
        assert(0 <= (a.1 as int) * (width as int) + (a.0 as int) < total) by (nonlinear_arith)
            requires
                a.0 < width,
                a.1 < height,
                total == (width as int) * (height as int),
        ;
    }
    lemma_int_range(0, total);
    lemma_len_subset(t.to_set(), set_int_range(0, total));
}

} // verus!
