//! The canvas mutation engine: validated transitions for every operation and
//! inbound message, applied against the canvas ledger. Outbound messages and
//! events are returned as values; the caller dispatches them.

use vstd::prelude::*;

use crate::kv::has_key;
use crate::kv::lemma_spec_get_at;
use crate::kv::spec_get;
use crate::pixel_abi::CanvasStats;
use crate::pixel_abi::Event;
use crate::pixel_abi::Message;
use crate::pixel_abi::Notification;
use crate::pixel_abi::Pixel;
use crate::pixel_abi::PixelColor;
use crate::pixel_abi::PixelModification;
use crate::pixel_abi::PixelUpdate;
use crate::pixel_abi::Position;
use crate::pixel_state::cell_color;
use crate::pixel_state::count_colored;
use crate::pixel_state::entry_ok;
use crate::pixel_state::is_colored;
use crate::pixel_state::lemma_count_le_len;
use crate::pixel_state::lemma_count_pos;
use crate::pixel_state::lemma_count_push;
use crate::pixel_state::lemma_count_update;
use crate::pixel_state::lemma_len_le_grid;
use crate::pixel_state::opt_colored;
use crate::pixel_state::position_in_bounds;
use crate::pixel_state::spec_set;
use crate::pixel_state::PixelChainState;
use crate::ChainId;

verus! {

/// The pixel record placed by a set or clear at `(x, y)`: the writing context
/// becomes the owner.
pub open spec fn placed_pixel(
    x: u32,
    y: u32,
    stored: Option<PixelColor>,
    chain_id: ChainId,
    now: u64,
) -> Pixel {
    Pixel { x, y, color: stored, owner: Some(chain_id), timestamp: now }
}

/// The message a write at cell `k` sends: the previous owner, if it is
/// another context, is told the new color.
pub open spec fn modification_notice(
    s: Seq<((u32, u32), Pixel)>,
    k: (u32, u32),
    color: PixelColor,
    chain_id: ChainId,
    now: u64,
) -> Option<(ChainId, Message)> {
    match spec_get(s, k) {
        Some(p) => match p.owner {
            Some(o) => if o != chain_id {
                Some(
                    (
                        o,
                        Message::PixelModified {
                            x: k.0,
                            y: k.1,
                            new_color: Some(color),
                            modified_by: chain_id,
                            timestamp: now,
                        },
                    ),
                )
            } else {
                None
            },
            None => None,
        },
        None => None,
    }
}

/// The pixel store after a batch of updates: each update sets its cell in
/// turn, later updates overwriting earlier ones.
pub open spec fn apply_batch(
    s: Seq<((u32, u32), Pixel)>,
    updates: Seq<PixelUpdate>,
    chain_id: ChainId,
    now: u64,
) -> Seq<((u32, u32), Pixel)>
    decreases updates.len(),
{
    if updates.len() == 0 {
        s
    } else {
        let prev = apply_batch(s, updates.drop_last(), chain_id, now);
        let u = updates.last();
        spec_set(prev, (u.x, u.y), placed_pixel(u.x, u.y, Some(u.color), chain_id, now))
    }
}

/// The owner notices a batch sends: for each update in order, the message to
/// the cell's owner at that point of the batch, if another context owned it.
pub open spec fn batch_notices(
    s: Seq<((u32, u32), Pixel)>,
    updates: Seq<PixelUpdate>,
    chain_id: ChainId,
    now: u64,
) -> Seq<(ChainId, Message)>
    decreases updates.len(),
{
    if updates.len() == 0 {
        Seq::empty()
    } else {
        let prev_state = apply_batch(s, updates.drop_last(), chain_id, now);
        let u = updates.last();
        let prior = batch_notices(s, updates.drop_last(), chain_id, now);
        match modification_notice(prev_state, (u.x, u.y), u.color, chain_id, now) {
            Some(m) => prior.push(m),
            None => prior,
        }
    }
}

/// What a set-pixel operation hands back to its caller.
pub struct SetPixelOutcome {
    /// A message for the cell's previous owner, if another context owned it.
    pub notification: Option<(ChainId, Message)>,
    /// The event the executing context emits.
    pub event: Event,
}

/// What a batch set hands back to its caller.
pub struct BatchOutcome {
    /// Messages for the cells' previous owners, in update order.
    pub notifications: Vec<(ChainId, Message)>,
    /// The event the executing context emits.
    pub event: Event,
}

/// What an ownership claim hands back to its caller.
pub struct ClaimOutcome {
    /// The reply sent to the requesting context.
    pub reply: Option<(ChainId, Message)>,
    /// The event the executing context emits, if ownership changed.
    pub event: Option<Event>,
}

impl PixelChainState {
    /// Place `stored` at `(x, y)`, owned by `chain_id`, log `logged`, and
    /// bring the statistics registers back in step.
    fn put_pixel(
        &mut self,
        x: u32,
        y: u32,
        stored: Option<PixelColor>,
        logged: PixelColor,
        chain_id: ChainId,
        now: u64,
    )
        requires
            old(self).wf(),
            position_in_bounds(x, y, old(self).canvas_width, old(self).canvas_height),
        ensures
            final(self).wf(),
            final(self).pixels@ == spec_set(
                old(self).pixels@,
                (x, y),
                placed_pixel(x, y, stored, chain_id, now),
            ),
            spec_get(final(self).pixels@, (x, y)) == Some(
                placed_pixel(x, y, stored, chain_id, now),
            ),
            forall|k2: (u32, u32)|
                k2 != (x, y) ==> spec_get(final(self).pixels@, k2) == spec_get(
                    old(self).pixels@,
                    k2,
                ),
            final(self).pixel_updates@ == old(self).pixel_updates@.push(
                PixelUpdate { x, y, color: logged },
            ),
            final(self).colored_pixel_count as int == crate::pixel_state::stepped_count(
                old(self).colored_pixel_count,
                cell_color(old(self).pixels@, (x, y)),
                stored,
            ),
            final(self).canvas_stats == (CanvasStats {
                total_pixels: old(self).canvas_stats.total_pixels,
                colored_pixels: final(self).colored_pixel_count,
                transparent_pixels: (old(self).canvas_stats.total_pixels - final(self).colored_pixel_count) as u32,
                unique_colors: old(self).canvas_stats.unique_colors,
                last_update: Some(now),
            }),
            final(self).canvas_width == old(self).canvas_width,
            final(self).canvas_height == old(self).canvas_height,
            final(self).default_color == old(self).default_color,
            final(self).cross_chain_notifications == old(self).cross_chain_notifications,
    {
        let position = Position { x, y };
        let old_pixel: Option<Pixel> = match self.pixels.get(&position) {
            Some(p) => Some(*p),
            None => None,
        };
        let pixel = Pixel { x, y, color: stored, owner: Some(chain_id), timestamp: now };
        self.pixels.insert(position, pixel);
        proof {
            let k = (x, y);
            let s_old = old(self).pixels@;
            let s_new = self.pixels@;
            let w = old(self).canvas_width;
            let h = old(self).canvas_height;
            if spec_get(s_old, k) is Some {
                let i = choose|i: int| 0 <= i < s_old.len() && #[trigger] s_old[i].0 == k;
                lemma_spec_get_at(s_old, k, i);
                assert forall|j: int|
                    0 <= j < s_old.len() && j != i implies s_old[j].0 != k by {
                    if j < i {
                        assert(s_old[j].0 != s_old[i].0);
                    } else {
                        assert(s_old[i].0 != s_old[j].0);
                    }
                }
                assert(s_new =~= s_old.update(i, (k, pixel)));
                lemma_count_update(s_old, i, (k, pixel));
                assert(is_colored(s_old[i].1) == opt_colored(cell_color(s_old, k)));
                if opt_colored(cell_color(s_old, k)) {
                    lemma_count_pos(s_old, i);
                }
            } else {
                assert(s_new =~= s_old.push((k, pixel)));
                lemma_count_push(s_old, (k, pixel));
            }
            assert(s_new == spec_set(s_old, k, pixel));
            assert forall|j: int| 0 <= j < s_new.len() implies entry_ok(
                #[trigger] s_new[j],
                w,
                h,
            ) by {
                if s_new[j] != (k, pixel) {
                    assert(s_new[j] == s_old[j]);
                }
            }
            lemma_len_le_grid(s_new, w, h);
            lemma_count_le_len(s_new);
        }
        self.pixel_updates.push(PixelUpdate { x, y, color: logged });
        let old_color: Option<PixelColor> = match old_pixel {
            Some(p) => p.color,
            None => None,
        };
        self.update_stats(old_color, stored, now);
    }

    /// Set a pixel: store the color, take ownership for the writing context,
    /// and report the change to the previous owner if that was another
    /// context. Coordinates outside the canvas are a contract violation.
    pub fn execute_set_pixel(
        &mut self,
        x: u32,
        y: u32,
        color: PixelColor,
        chain_id: ChainId,
        now: u64,
    ) -> (outcome: SetPixelOutcome)
        requires
            old(self).wf(),
            position_in_bounds(x, y, old(self).canvas_width, old(self).canvas_height),
        ensures
            final(self).wf(),
            final(self).pixels@ == spec_set(
                old(self).pixels@,
                (x, y),
                placed_pixel(x, y, Some(color), chain_id, now),
            ),
            spec_get(final(self).pixels@, (x, y)) == Some(
                placed_pixel(x, y, Some(color), chain_id, now),
            ),
            forall|k2: (u32, u32)|
                k2 != (x, y) ==> spec_get(final(self).pixels@, k2) == spec_get(
                    old(self).pixels@,
                    k2,
                ),
            final(self).pixel_updates@ == old(self).pixel_updates@.push(
                PixelUpdate { x, y, color },
            ),
            final(self).colored_pixel_count as int == crate::pixel_state::stepped_count(
                old(self).colored_pixel_count,
                cell_color(old(self).pixels@, (x, y)),
                Some(color),
            ),
            final(self).canvas_stats.last_update == Some(now),
            final(self).canvas_stats.unique_colors == old(self).canvas_stats.unique_colors,
            final(self).canvas_width == old(self).canvas_width,
            final(self).canvas_height == old(self).canvas_height,
            final(self).default_color == old(self).default_color,
            final(self).cross_chain_notifications == old(self).cross_chain_notifications,
            outcome.event == (Event::PixelChanged { x, y, color }),
            outcome.notification == modification_notice(
                old(self).pixels@,
                (x, y),
                color,
                chain_id,
                now,
            ),
    {
        let position = Position { x, y };
        let notification: Option<(ChainId, Message)> = match self.pixels.get(&position) {
            Some(p) => match p.owner {
                Some(o) => if o != chain_id {
                    Some(
                        (
                            o,
                            Message::PixelModified {
                                x,
                                y,
                                new_color: Some(color),
                                modified_by: chain_id,
                                timestamp: now,
                            },
                        ),
                    )
                } else {
                    None
                },
                None => None,
            },
            None => None,
        };
        self.put_pixel(x, y, Some(color), color, chain_id, now);
        SetPixelOutcome { notification, event: Event::PixelChanged { x, y, color } }
    }

    /// Clear a pixel back to transparent: the cell stays owned, now by the
    /// clearing context, and the update log records the default color.
    pub fn execute_clear_pixel(&mut self, x: u32, y: u32, chain_id: ChainId, now: u64) -> (event:
        Event)
        requires
            old(self).wf(),
            position_in_bounds(x, y, old(self).canvas_width, old(self).canvas_height),
        ensures
            final(self).wf(),
            final(self).pixels@ == spec_set(
                old(self).pixels@,
                (x, y),
                placed_pixel(x, y, None, chain_id, now),
            ),
            spec_get(final(self).pixels@, (x, y)) == Some(
                placed_pixel(x, y, None, chain_id, now),
            ),
            forall|k2: (u32, u32)|
                k2 != (x, y) ==> spec_get(final(self).pixels@, k2) == spec_get(
                    old(self).pixels@,
                    k2,
                ),
            final(self).pixel_updates@ == old(self).pixel_updates@.push(
                PixelUpdate { x, y, color: old(self).default_color },
            ),
            final(self).colored_pixel_count as int == crate::pixel_state::stepped_count(
                old(self).colored_pixel_count,
                cell_color(old(self).pixels@, (x, y)),
                None,
            ),
            final(self).canvas_stats.last_update == Some(now),
            final(self).canvas_stats.unique_colors == old(self).canvas_stats.unique_colors,
            final(self).canvas_width == old(self).canvas_width,
            final(self).canvas_height == old(self).canvas_height,
            final(self).default_color == old(self).default_color,
            final(self).cross_chain_notifications == old(self).cross_chain_notifications,
            event == (Event::PixelCleared { x, y }),
    {
        let cleared_color = self.default_color;
        self.put_pixel(x, y, None, cleared_color, chain_id, now);
        Event::PixelCleared { x, y }
    }

    /// Apply a batch of pixel updates: each update is set as by a single
    /// set-pixel, in order, and every cell whose previous owner was another
    /// context yields a notice for that owner. Coordinates outside the canvas
    /// are a contract violation.
    #[verifier::loop_isolation(false)]
    pub fn execute_set_pixels(
        &mut self,
        pixels: &Vec<PixelUpdate>,
        chain_id: ChainId,
        now: u64,
    ) -> (outcome: BatchOutcome)
        requires
            old(self).wf(),
            pixels@.len() <= u32::MAX,
            forall|j: int|
                0 <= j < pixels@.len() ==> position_in_bounds(
                    (#[trigger] pixels@[j]).x,
                    pixels@[j].y,
                    old(self).canvas_width,
                    old(self).canvas_height,
                ),
        ensures
            final(self).wf(),
            final(self).pixels@ == apply_batch(old(self).pixels@, pixels@, chain_id, now),
            final(self).pixel_updates@ == old(self).pixel_updates@ + pixels@,
            final(self).canvas_width == old(self).canvas_width,
            final(self).canvas_height == old(self).canvas_height,
            final(self).default_color == old(self).default_color,
            final(self).cross_chain_notifications == old(self).cross_chain_notifications,
            final(self).canvas_stats.total_pixels == old(self).canvas_stats.total_pixels,
            final(self).canvas_stats.unique_colors == old(self).canvas_stats.unique_colors,
            pixels@.len() == 0 ==> final(self).canvas_stats == old(self).canvas_stats
                && final(self).colored_pixel_count == old(self).colored_pixel_count,
            pixels@.len() > 0 ==> final(self).canvas_stats.last_update == Some(now),
            outcome.notifications@ == batch_notices(old(self).pixels@, pixels@, chain_id, now),
            outcome.event == (Event::BatchUpdate { count: pixels@.len() as u32 }),
    {
        let count = pixels.len() as u32;
        let n = pixels.len();
        let mut notifications: Vec<(ChainId, Message)> = Vec::new();
        let mut i: usize = 0;
        proof {
            assert(pixels@.subrange(0, 0) =~= Seq::<PixelUpdate>::empty());
            assert(old(self).pixel_updates@ + pixels@.subrange(0, 0) =~= old(
                self,
            ).pixel_updates@);
        }
        while i < n
            invariant
                0 <= i <= n,
                self.wf(),
                self.canvas_width == old(self).canvas_width,
                self.canvas_height == old(self).canvas_height,
                self.default_color == old(self).default_color,
                self.cross_chain_notifications == old(self).cross_chain_notifications,
                self.canvas_stats.total_pixels == old(self).canvas_stats.total_pixels,
                self.canvas_stats.unique_colors == old(self).canvas_stats.unique_colors,
                self.pixels@ == apply_batch(
                    old(self).pixels@,
                    pixels@.subrange(0, i as int),
                    chain_id,
                    now,
                ),
                self.pixel_updates@ == old(self).pixel_updates@ + pixels@.subrange(0, i as int),
                notifications@ == batch_notices(
                    old(self).pixels@,
                    pixels@.subrange(0, i as int),
                    chain_id,
                    now,
                ),
                i == 0 ==> self.canvas_stats == old(self).canvas_stats
                    && self.colored_pixel_count == old(self).colored_pixel_count,
                i > 0 ==> self.canvas_stats.last_update == Some(now),
            decreases n - i,
        {
            let u = pixels[i];
            proof {
                assert(pixels@.subrange(0, i + 1).drop_last() =~= pixels@.subrange(0, i as int));
                assert(pixels@.subrange(0, i + 1).last() == pixels@[i as int]);
            }
            let notice: Option<(ChainId, Message)> = match self.pixels.get(
                &Position { x: u.x, y: u.y },
            ) {
                Some(p) => match p.owner {
                    Some(o) => if o != chain_id {
                        Some(
                            (
                                o,
                                Message::PixelModified {
                                    x: u.x,
                                    y: u.y,
                                    new_color: Some(u.color),
                                    modified_by: chain_id,
                                    timestamp: now,
                                },
                            ),
                        )
                    } else {
                        None
                    },
                    None => None,
                },
                None => None,
            };
            proof {
                assert(notice == modification_notice(
                    self.pixels@,
                    (u.x, u.y),
                    u.color,
                    chain_id,
                    now,
                ));
            }
            let ghost notices_before = notifications@;
            match notice {
                Some(nt) => {
                    notifications.push(nt);
                },
                None => {},
            }
            self.put_pixel(u.x, u.y, Some(u.color), u.color, chain_id, now);
            proof {
                assert(self.pixel_updates@ =~= old(self).pixel_updates@ + pixels@.subrange(
                    0,
                    i + 1,
                ));
            }
            i += 1;
        }
        proof {
            assert(pixels@.subrange(0, n as int) =~= pixels@);
        }
        BatchOutcome { notifications, event: Event::BatchUpdate { count } }
    }

    /// Record an inbound modification notification and name the event the
    /// receiving context emits for its local subscribers.
    pub fn handle_pixel_modification_notification(
        &mut self,
        x: u32,
        y: u32,
        new_color: Option<PixelColor>,
        modified_by: ChainId,
        timestamp: u64,
    ) -> (event: Event)
        ensures
            final(self).cross_chain_notifications@.len() == old(
                self,
            ).cross_chain_notifications@.len() + 1,
            final(self).cross_chain_notifications@.drop_last() == old(
                self,
            ).cross_chain_notifications@,
            ({
                let n = final(self).cross_chain_notifications@.last();
                &&& n.notification_type@ == "pixel_modified"@
                &&& n.x == x
                &&& n.y == y
                &&& n.new_color == new_color
                &&& n.modified_by == modified_by
                &&& n.timestamp == timestamp
                &&& n.processed == false
            }),
            final(self).canvas_width == old(self).canvas_width,
            final(self).canvas_height == old(self).canvas_height,
            final(self).pixels == old(self).pixels,
            final(self).pixel_updates == old(self).pixel_updates,
            final(self).colored_pixel_count == old(self).colored_pixel_count,
            final(self).canvas_stats == old(self).canvas_stats,
            final(self).default_color == old(self).default_color,
            old(self).wf() ==> final(self).wf(),
            event == (match new_color {
                Some(color) => Event::CrossChainPixelModified { x, y, color, modified_by },
                None => Event::CrossChainPixelCleared { x, y, modified_by },
            }),
    {
        proof {
            reveal_strlit("pixel_modified");
        }
        self.cross_chain_notifications.push(
            Notification {
                notification_type: String::from_str("pixel_modified"),
                x,
                y,
                new_color,
                modified_by,
                timestamp,
                processed: false,
            },
        );
        proof {
            assert(self.cross_chain_notifications@.drop_last() =~= old(
                self,
            ).cross_chain_notifications@);
        }
        match new_color {
            Some(color) => Event::CrossChainPixelModified { x, y, color, modified_by },
            None => Event::CrossChainPixelCleared { x, y, modified_by },
        }
    }

    /// Record one inbound notification per modified pixel of a batch and name
    /// the batch event the receiving context emits.
    pub fn handle_batch_pixel_modification_notification(
        &mut self,
        pixels: &Vec<PixelModification>,
        modified_by: ChainId,
        timestamp: u64,
    ) -> (event: Event)
        requires
            pixels@.len() <= u32::MAX,
        ensures
            final(self).cross_chain_notifications@.len() == old(
                self,
            ).cross_chain_notifications@.len() + pixels@.len(),
            forall|j: int|
                0 <= j < old(self).cross_chain_notifications@.len() ==> final(self).cross_chain_notifications@[j] == old(self).cross_chain_notifications@[j],
            forall|j: int|
                0 <= j < pixels@.len() ==> ({
                    let n = final(self).cross_chain_notifications@[old(
                        self,
                    ).cross_chain_notifications@.len() + j];
                    &&& n.notification_type@ == "batch_pixel_modified"@
                    &&& n.x == (#[trigger] pixels@[j]).x
                    &&& n.y == pixels@[j].y
                    &&& n.new_color == pixels@[j].new_color
                    &&& n.modified_by == modified_by
                    &&& n.timestamp == timestamp
                    &&& n.processed == false
                }),
            final(self).canvas_width == old(self).canvas_width,
            final(self).canvas_height == old(self).canvas_height,
            final(self).pixels == old(self).pixels,
            final(self).pixel_updates == old(self).pixel_updates,
            final(self).colored_pixel_count == old(self).colored_pixel_count,
            final(self).canvas_stats == old(self).canvas_stats,
            final(self).default_color == old(self).default_color,
            old(self).wf() ==> final(self).wf(),
            event == (Event::CrossChainBatchModified {
                count: pixels@.len() as u32,
                modified_by,
            }),
    {
        proof {
            reveal_strlit("batch_pixel_modified");
        }
        let count = pixels.len() as u32;
        let n = pixels.len();
        let mut j: usize = 0;
        while j < n
            invariant
                0 <= j <= n,
                n == pixels@.len(),
                self.cross_chain_notifications@.len() == old(
                    self,
                ).cross_chain_notifications@.len() + j,
                forall|k: int|
                    0 <= k < old(self).cross_chain_notifications@.len()
                        ==> self.cross_chain_notifications@[k] == old(
                        self,
                    ).cross_chain_notifications@[k],
                forall|k: int|
                    0 <= k < j ==> ({
                        let nn = self.cross_chain_notifications@[old(
                            self,
                        ).cross_chain_notifications@.len() + k];
                        &&& nn.notification_type@ == "batch_pixel_modified"@
                        &&& nn.x == (#[trigger] pixels@[k]).x
                        &&& nn.y == pixels@[k].y
                        &&& nn.new_color == pixels@[k].new_color
                        &&& nn.modified_by == modified_by
                        &&& nn.timestamp == timestamp
                        &&& nn.processed == false
                    }),
                self.canvas_width == old(self).canvas_width,
                self.canvas_height == old(self).canvas_height,
                self.pixels == old(self).pixels,
                self.pixel_updates == old(self).pixel_updates,
                self.colored_pixel_count == old(self).colored_pixel_count,
                self.canvas_stats == old(self).canvas_stats,
                self.default_color == old(self).default_color,
            decreases n - j,
        {
            let pixel_mod = pixels[j];
            self.cross_chain_notifications.push(
                Notification {
                    notification_type: String::from_str("batch_pixel_modified"),
                    x: pixel_mod.x,
                    y: pixel_mod.y,
                    new_color: pixel_mod.new_color,
                    modified_by,
                    timestamp,
                    processed: false,
                },
            );
            j += 1;
        }
        Event::CrossChainBatchModified { count, modified_by }
    }

    /// Negotiate an ownership claim from `requested_by`, as the authority for
    /// this canvas. An unclaimed in-bounds cell goes to the requester, who is
    /// sent a confirming claim echo; a re-claim by the current owner is
    /// answered with the same echo and no state change; a claim on another
    /// context's cell is answered with the cell's current color and owner.
    /// Every claim is logged as a notification first.
    pub fn handle_ownership_claim(
        &mut self,
        x: u32,
        y: u32,
        requested_by: ChainId,
        timestamp: u64,
        now: u64,
    ) -> (outcome: ClaimOutcome)
        requires
            old(self).wf(),
        ensures
            final(self).wf(),
            final(self).cross_chain_notifications@.len() == old(
                self,
            ).cross_chain_notifications@.len() + 1,
            final(self).cross_chain_notifications@.drop_last() == old(
                self,
            ).cross_chain_notifications@,
            ({
                let n = final(self).cross_chain_notifications@.last();
                &&& n.notification_type@ == "ownership_claim"@
                &&& n.x == x
                &&& n.y == y
                &&& n.new_color is None
                &&& n.modified_by == requested_by
                &&& n.timestamp == timestamp
                &&& n.processed == false
            }),
            !position_in_bounds(x, y, old(self).canvas_width, old(self).canvas_height) ==> {
                &&& final(self).pixels == old(self).pixels
                &&& outcome.reply is None
                &&& outcome.event is None
            },
            position_in_bounds(x, y, old(self).canvas_width, old(self).canvas_height) ==> (
            match spec_get(old(self).pixels@, (x, y)) {
                Some(p) => {
                    &&& final(self).pixels == old(self).pixels
                    &&& outcome.event is None
                    &&& outcome.reply == Some(
                        (
                            requested_by,
                            if p.owner == Some(requested_by) {
                                Message::OwnershipClaim { x, y, requested_by, timestamp: now }
                            } else {
                                Message::PixelModified {
                                    x,
                                    y,
                                    new_color: p.color,
                                    modified_by: (if p.owner is Some {
                                        p.owner->0
                                    } else {
                                        requested_by
                                    }),
                                    timestamp: p.timestamp,
                                }
                            },
                        ),
                    )
                },
                None => {
                    &&& final(self).pixels@ == old(self).pixels@.push(
                        ((x, y), Pixel { x, y, color: None, owner: Some(requested_by), timestamp }),
                    )
                    &&& spec_get(final(self).pixels@, (x, y)) == Some(
                        Pixel { x, y, color: None, owner: Some(requested_by), timestamp },
                    )
                    &&& (forall|k2: (u32, u32)|
                        k2 != (x, y) ==> spec_get(final(self).pixels@, k2) == spec_get(
                            old(self).pixels@,
                            k2,
                        ))
                    &&& outcome.reply == Some(
                        (
                            requested_by,
                            Message::OwnershipClaim { x, y, requested_by, timestamp: now },
                        ),
                    )
                    &&& outcome.event == Some(
                        Event::OwnershipChanged {
                            x,
                            y,
                            new_owner: Some(requested_by),
                            old_owner: None::<ChainId>,
                        },
                    )
                },
            }),
            final(self).canvas_width == old(self).canvas_width,
            final(self).canvas_height == old(self).canvas_height,
            final(self).pixel_updates == old(self).pixel_updates,
            final(self).colored_pixel_count == old(self).colored_pixel_count,
            final(self).canvas_stats == old(self).canvas_stats,
            final(self).default_color == old(self).default_color,
    {
        proof {
            reveal_strlit("ownership_claim");
        }
        self.cross_chain_notifications.push(
            Notification {
                notification_type: String::from_str("ownership_claim"),
                x,
                y,
                new_color: None,
                modified_by: requested_by,
                timestamp,
                processed: false,
            },
        );
        proof {
            assert(self.cross_chain_notifications@.drop_last() =~= old(
                self,
            ).cross_chain_notifications@);
        }
        if !self.is_valid_position(x, y) {
            return ClaimOutcome { reply: None, event: None };
        }
        let position = Position { x, y };
        let current: Option<Pixel> = match self.pixels.get(&position) {
            Some(p) => Some(*p),
            None => None,
        };
        match current {
            Some(pixel) => {
                let already_owned = match pixel.owner {
                    Some(o) => o == requested_by,
                    None => false,
                };
                let response = if already_owned {
                    Message::OwnershipClaim { x, y, requested_by, timestamp: now }
                } else {
                    let reported_owner = match pixel.owner {
                        Some(o) => o,
                        None => requested_by,
                    };
                    Message::PixelModified {
                        x,
                        y,
                        new_color: pixel.color,
                        modified_by: reported_owner,
                        timestamp: pixel.timestamp,
                    }
                };
                ClaimOutcome { reply: Some((requested_by, response)), event: None }
            },
            None => {
                let pixel = Pixel { x, y, color: None, owner: Some(requested_by), timestamp };
                self.pixels.insert(position, pixel);
                proof {
                    let k = (x, y);
                    let s_old = old(self).pixels@;
                    let s_new = self.pixels@;
                    assert(s_new =~= s_old.push((k, pixel)));
                    lemma_count_push(s_old, (k, pixel));
                    assert forall|j: int| 0 <= j < s_new.len() implies entry_ok(
                        #[trigger] s_new[j],
                        old(self).canvas_width,
                        old(self).canvas_height,
                    ) by {
                        if j < s_new.len() - 1 {
                            assert(s_new[j] == s_old[j]);
                        }
                    }
                }
                let confirmation = Message::OwnershipClaim { x, y, requested_by, timestamp: now };
                ClaimOutcome {
                    reply: Some((requested_by, confirmation)),
                    event: Some(
                        Event::OwnershipChanged {
                            x,
                            y,
                            new_owner: Some(requested_by),
                            old_owner: None,
                        },
                    ),
                }
            },
        }
    }
}

/// Law: setting a cell and then clearing it leaves the cell owned by the
/// clearing context with the transparent color, and, when the set color was
/// not transparent, the colored-pixel counter one below its value right
/// after the set. The two intermediate states are related to their
/// predecessors exactly as the contracts of `execute_set_pixel` and
/// `execute_clear_pixel` state.
pub proof fn lemma_set_then_clear(
    s0: PixelChainState,
    s1: PixelChainState,
    s2: PixelChainState,
    x: u32,
    y: u32,
    color: PixelColor,
    setter: ChainId,
    clearer: ChainId,
    t1: u64,
    t2: u64,
)
    requires
        s0.wf(),
        position_in_bounds(x, y, s0.canvas_width, s0.canvas_height),
        s1.wf(),
        s1.pixels@ == spec_set(s0.pixels@, (x, y), placed_pixel(x, y, Some(color), setter, t1)),
        s1.colored_pixel_count as int == crate::pixel_state::stepped_count(
            s0.colored_pixel_count,
            cell_color(s0.pixels@, (x, y)),
            Some(color),
        ),
        s2.pixels@ == spec_set(s1.pixels@, (x, y), placed_pixel(x, y, None, clearer, t2)),
        s2.colored_pixel_count as int == crate::pixel_state::stepped_count(
            s1.colored_pixel_count,
            cell_color(s1.pixels@, (x, y)),
            None,
        ),
    ensures
        spec_get(s2.pixels@, (x, y)) == Some(
            (Pixel { x, y, color: None::<PixelColor>, owner: Some(clearer), timestamp: t2 }),
        ),
        color.alpha != 0 ==> s2.colored_pixel_count == s1.colored_pixel_count - 1,
{
    let k = (x, y);
    crate::kv::lemma_spec_put(s0.pixels@, k, placed_pixel(x, y, Some(color), setter, t1));
    crate::kv::lemma_spec_put(s1.pixels@, k, placed_pixel(x, y, None, clearer, t2));
    assert(cell_color(s1.pixels@, k) == Some(color));
}

/// Law: an ownership claim on an unclaimed cell followed by a second claim
/// from the same requester is idempotent. The cell stays owned by the
/// requester with the first claim's timestamp, and both claims are logged
/// individually as unprocessed notifications. The two intermediate states are
/// related to their predecessors exactly as the contract of
/// `handle_ownership_claim` states.
pub proof fn lemma_reclaim_idempotent(
    s0: PixelChainState,
    s1: PixelChainState,
    s2: PixelChainState,
    x: u32,
    y: u32,
    requested_by: ChainId,
    t1: u64,
    t2: u64,
)
    requires
        s0.wf(),
        s1.wf(),
        position_in_bounds(x, y, s0.canvas_width, s0.canvas_height),
        s1.canvas_width == s0.canvas_width,
        s1.canvas_height == s0.canvas_height,
        spec_get(s0.pixels@, (x, y)) is None,
        s1.pixels@ == s0.pixels@.push(
            ((x, y), Pixel { x, y, color: None, owner: Some(requested_by), timestamp: t1 }),
        ),
        s1.cross_chain_notifications@.len() == s0.cross_chain_notifications@.len() + 1,
        s1.cross_chain_notifications@.drop_last() == s0.cross_chain_notifications@,
        s1.cross_chain_notifications@.last().notification_type@ == "ownership_claim"@,
        s1.cross_chain_notifications@.last().processed == false,
        spec_get(s1.pixels@, (x, y)) is Some ==> s2.pixels == s1.pixels,
        s2.cross_chain_notifications@.len() == s1.cross_chain_notifications@.len() + 1,
        s2.cross_chain_notifications@.drop_last() == s1.cross_chain_notifications@,
        s2.cross_chain_notifications@.last().notification_type@ == "ownership_claim"@,
        s2.cross_chain_notifications@.last().processed == false,
    ensures
        spec_get(s2.pixels@, (x, y)) == Some(
            (Pixel { x, y, color: None::<PixelColor>, owner: Some(requested_by), timestamp: t1 }),
        ),
        s2.cross_chain_notifications@.len() == s0.cross_chain_notifications@.len() + 2,
        forall|i: int|
            s0.cross_chain_notifications@.len() <= i < s2.cross_chain_notifications@.len()
                ==> (#[trigger] s2.cross_chain_notifications@[i]).notification_type@
                == "ownership_claim"@ && !s2.cross_chain_notifications@[i].processed,
{
    let k = (x, y);
    crate::kv::lemma_spec_get_at(s1.pixels@, k, s1.pixels@.len() - 1);
    assert forall|i: int|
        s0.cross_chain_notifications@.len() <= i < s2.cross_chain_notifications@.len() implies (
    #[trigger] s2.cross_chain_notifications@[i]).notification_type@ == "ownership_claim"@
        && !s2.cross_chain_notifications@[i].processed by {
        if i == s2.cross_chain_notifications@.len() - 1 {
            assert(s2.cross_chain_notifications@[i] == s2.cross_chain_notifications@.last());
        } else {
            assert(s2.cross_chain_notifications@[i] == s2.cross_chain_notifications@.drop_last()[i]);
            assert(s1.cross_chain_notifications@[i] == s1.cross_chain_notifications@.last());
        }
    }
}

} // verus!
