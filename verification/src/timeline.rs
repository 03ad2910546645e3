//! The zoomable, pannable view of the media timeline.
//!
//! Times are in the crate's time unit; the zoom is kept in billionths
//! (`ZOOM_ONE` shows the whole media), so a zoom factor of 1.5 is written
//! `1_500_000_000`. Scaled values are rounded towards zero to whole units.
//!
//! Zooming stops where one view column would cover less than one time unit
//! on the widest view a terminal can have (`u16::MAX` columns), so that every
//! column keeps a time of its own.

use vstd::prelude::*;

verus! {

/// The zoom that shows the whole media, in billionths.
pub const ZOOM_ONE: u64 = 1_000_000_000;

pub struct TimelineState {
    /// Zoom in billionths; `ZOOM_ONE` shows the whole media.
    pub zoom_level: u64,
    /// Time at the left edge of the view, in nanoseconds.
    pub pan_offset: i64,
    /// Length of the media, in nanoseconds.
    pub duration: i64,
}

/// How much of the media the view spans at a zoom.
pub open spec fn visible_of(duration: int, zoom_level: int) -> int {
    scale_toward_zero(duration, ZOOM_ONE as int, zoom_level)
}

/// The furthest the view can be panned: its right edge at the media's end.
pub open spec fn max_pan_of(duration: int, zoom_level: int) -> int {
    let m = duration - visible_of(duration, zoom_level);
    if m > 0 {
        m
    } else {
        0
    }
}

/// The deepest zoom for a media of length `duration`: where a view of
/// `u16::MAX` columns still spans that many time units (the whole media when
/// it is shorter), and never beyond what a `u64` holds.
pub open spec fn zoom_cap(duration: int) -> int {
    let m = if duration < 0 {
        -duration
    } else {
        duration
    };
    clamp_int(m * ZOOM_ONE / 65535, ZOOM_ONE as int, u64::MAX as int)
}

/// `x` limited to `[lo, hi]`.
pub open spec fn clamp_int(x: int, lo: int, hi: int) -> int {
    if x < lo {
        lo
    } else if x > hi {
        hi
    } else {
        x
    }
}

/// `x` scaled by `num / den`, rounded towards zero.
pub open spec fn scale_toward_zero(x: int, num: int, den: int) -> int {
    if x < 0 {
        -((-x) * num / den)
    } else {
        x * num / den
    }
}

proof fn lemma_visible_bounds(duration: int, zoom_level: int)
    requires
        ZOOM_ONE <= zoom_level,
    ensures
        duration >= 0 ==> 0 <= visible_of(duration, zoom_level) <= duration,
        duration < 0 ==> duration <= visible_of(duration, zoom_level) <= 0,
        max_pan_of(duration, zoom_level) >= 0,
        duration < 0 ==> max_pan_of(duration, zoom_level) == 0,
{
    let m = if duration < 0 {
        -duration
    } else {
        duration
    };
    assert(m * 1_000_000_000 / zoom_level <= m) by (nonlinear_arith)
        requires
            0 <= m,
            1_000_000_000 <= zoom_level,
    ;
    assert(0 <= m * 1_000_000_000 / zoom_level) by (nonlinear_arith)
        requires
            0 <= m,
            1_000_000_000 <= zoom_level,
    ;
}

/// The view after zooming in by `factor` billionths around `anchor`.
pub open spec fn zoom_in_result(t: TimelineState, factor: u64, anchor: i64) -> TimelineState {
    let z = clamp_int(t.zoom_level * factor / ZOOM_ONE as int, ZOOM_ONE as int, zoom_cap(t.duration as int));
    TimelineState {
        zoom_level: z as u64,
        pan_offset: clamp_int(
            anchor - scale_toward_zero(anchor - t.pan_offset, t.zoom_level as int, z),
            0,
            max_pan_of(t.duration as int, z),
        ) as i64,
        duration: t.duration,
    }
}

/// The view after zooming out by `factor` billionths around `anchor`,
/// never showing less than the whole media at the widest.
pub open spec fn zoom_out_result(t: TimelineState, factor: u64, anchor: i64) -> TimelineState {
    let z = if factor == 0 {
        zoom_cap(t.duration as int)
    } else {
        clamp_int(t.zoom_level * ZOOM_ONE / factor as int, ZOOM_ONE as int, zoom_cap(t.duration as int))
    };
    TimelineState {
        zoom_level: z as u64,
        pan_offset: clamp_int(
            anchor - scale_toward_zero(anchor - t.pan_offset, t.zoom_level as int, z),
            0,
            max_pan_of(t.duration as int, z),
        ) as i64,
        duration: t.duration,
    }
}

/// The view after shifting it by `delta` columns of a view `width` wide.
pub open spec fn pan_result(t: TimelineState, delta: i16, width: u16) -> TimelineState {
    if width == 0 {
        t
    } else {
        TimelineState {
            pan_offset: clamp_int(
                t.pan_offset + scale_toward_zero(delta as int, t.visible(), width as int),
                0,
                max_pan_of(t.duration as int, t.zoom_level as int),
            ) as i64,
            ..t
        }
    }
}

/// How much of the media the view spans, computed.
fn visible_exec(duration: i64, zoom_level: u64) -> (v: i64)
    requires
        ZOOM_ONE <= zoom_level,
    ensures
        v == visible_of(duration as int, zoom_level as int),
        duration >= 0 ==> 0 <= v <= duration,
        duration < 0 ==> duration <= v <= 0,
{
    proof {
        lemma_visible_bounds(duration as int, zoom_level as int);
    }
    let d = duration as i128;
    let m: i128 = if d < 0 {
        -d
    } else {
        d
    };
    assert(0 <= m * 1_000_000_000 <= 9_223_372_036_854_775_808 * 1_000_000_000) by (nonlinear_arith)
        requires
            0 <= m <= 9_223_372_036_854_775_808,
    ;
    let q = m * 1_000_000_000 / zoom_level as i128;
    let v = if d < 0 {
        -q
    } else {
        q
    };
    v as i64
}

/// The deepest zoom for a media of length `duration`, computed.
fn zoom_cap_exec(duration: i64) -> (c: u64)
    ensures
        c == zoom_cap(duration as int),
        ZOOM_ONE <= c,
{
    let d = duration as i128;
    let m: u128 = if d < 0 {
        (-d) as u128
    } else {
        d as u128
    };
    assert(m * 1_000_000_000 <= 9_223_372_036_854_775_808 * 1_000_000_000) by (nonlinear_arith)
        requires
            m <= 9_223_372_036_854_775_808,
    ;
    let c = m * 1_000_000_000 / 65535;
    if c < 1_000_000_000 {
        ZOOM_ONE
    } else if c > u64::MAX as u128 {
        u64::MAX
    } else {
        c as u64
    }
}

impl TimelineState {
    /// The zoom is at least one and at most the cap, and the view lies within
    /// the media (at its start when the length is not positive).
    pub open spec fn wf(&self) -> bool {
        &&& ZOOM_ONE <= self.zoom_level <= zoom_cap(self.duration as int)
        &&& 0 <= self.pan_offset <= max_pan_of(self.duration as int, self.zoom_level as int)
    }

    pub open spec fn visible(&self) -> int {
        visible_of(self.duration as int, self.zoom_level as int)
    }

    /// The whole media in view.
    pub open spec fn new_spec(duration: i64) -> TimelineState {
        TimelineState { zoom_level: ZOOM_ONE, pan_offset: 0, duration }
    }

    /// The whole media in view.
    pub fn new(duration: i64) -> (t: Self)
        ensures
            t.wf(),
            t == Self::new_spec(duration),
    {
        proof {
            lemma_visible_bounds(duration as int, ZOOM_ONE as int);
        }
        TimelineState { zoom_level: ZOOM_ONE, pan_offset: 0, duration }
    }

    fn visible_duration(&self) -> (v: i64)
        requires
            self.wf(),
        ensures
            v == self.visible(),
            self.duration >= 0 ==> 0 <= v <= self.duration,
            self.duration < 0 ==> self.duration <= v <= 0,
    {
        visible_exec(self.duration, self.zoom_level)
    }

    /// The time under column `pixel_x` of a view `timeline_width` columns
    /// wide, rounded to the nearest nanosecond (the pan offset when the width
    /// is zero); `i64::MAX` past that.
    pub open spec fn time_at(&self, pixel_x: int, timeline_width: int) -> int {
        if timeline_width == 0 {
            self.pan_offset as int
        } else {
            let v = self.visible();
            let off = if v >= 0 {
                (2 * pixel_x * v + timeline_width) / (2 * timeline_width)
            } else {
                -((2 * pixel_x * (-v) + timeline_width) / (2 * timeline_width))
            };
            let t = self.pan_offset + off;
            if t > i64::MAX {
                i64::MAX as int
            } else if t < i64::MIN {
                i64::MIN as int
            } else {
                t
            }
        }
    }

    pub fn pixel_to_time(&self, pixel_x: u16, timeline_width: u16) -> (t: i64)
        requires
            self.wf(),
        ensures
            t == self.time_at(pixel_x as int, timeline_width as int),
            self.duration >= 0 ==> t >= self.pan_offset,
    {
        if timeline_width == 0 {
            return self.pan_offset;
        }
        let v = self.visible_duration();
        let m: i128 = if v < 0 {
            -(v as i128)
        } else {
            v as i128
        };
        assert(0 <= pixel_x as int * m as int <= 65535 * 9_223_372_036_854_775_808) by (
        nonlinear_arith)
            requires
                0 <= pixel_x <= 65535,
                0 <= m <= 9_223_372_036_854_775_808,
        ;
        let q = (2 * (pixel_x as i128 * m) + timeline_width as i128) / (2 * timeline_width as i128);
        assert(q >= 0) by (nonlinear_arith)
            requires
                q == (2 * (pixel_x as int * m as int) + timeline_width) / (2 * timeline_width as int),
                pixel_x as int * m as int >= 0,
                timeline_width > 0,
        ;
        assert(2 * pixel_x * m + timeline_width == 2 * (pixel_x as int * m as int) + timeline_width)
            by (nonlinear_arith);
        let off = if v < 0 {
            -q
        } else {
            q
        };
        let t = self.pan_offset as i128 + off;
        if t > i64::MAX as i128 {
            i64::MAX
        } else if t < i64::MIN as i128 {
            i64::MIN
        } else {
            t as i64
        }
    }

    /// The column at which time `time` shows, rounded to the nearest column
    /// and limited to `0..=u16::MAX` (a time the view's direction puts before
    /// its left edge at 0); 0 when the width is zero.
    pub open spec fn column_of(&self, time: int, timeline_width: int) -> int {
        let n = (time - self.pan_offset) * timeline_width;
        let v = self.visible();
        if timeline_width == 0 {
            0
        } else if v == 0 {
            if n > 0 {
                65535
            } else {
                0
            }
        } else {
            let r = if v > 0 {
                if n <= 0 {
                    0
                } else {
                    (2 * n + v) / (2 * v)
                }
            } else {
                if n >= 0 {
                    0
                } else {
                    (2 * (-n) + (-v)) / (2 * (-v))
                }
            };
            if r > 65535 {
                65535
            } else {
                r
            }
        }
    }

    pub fn time_to_pixel(&self, time: i64, timeline_width: u16) -> (p: u16)
        requires
            self.wf(),
        ensures
            p == self.column_of(time as int, timeline_width as int),
    {
        if timeline_width == 0 {
            return 0;
        }
        let v = self.visible_duration();
        let d = time as i128 - self.pan_offset as i128;
        assert(-18_446_744_073_709_551_616 * 65535 <= d * timeline_width <= 18_446_744_073_709_551_616
            * 65535) by (nonlinear_arith)
            requires
                -18_446_744_073_709_551_616 <= d <= 18_446_744_073_709_551_616,
                0 < timeline_width <= 65535,
        ;
        let n = d * timeline_width as i128;
        if v == 0 {
            return if n > 0 {
                65535
            } else {
                0
            };
        }
        let (nn, vv): (i128, i128) = if v > 0 {
            (n, v as i128)
        } else {
            (-n, -(v as i128))
        };
        if nn <= 0 {
            return 0;
        }
        let r = (2 * nn + vv) / (2 * vv);
        assert(r >= 0) by (nonlinear_arith)
            requires
                r == (2 * nn + vv) / (2 * vv),
                nn > 0,
                vv > 0,
        ;
        if r > 65535 {
            65535
        } else {
            r as u16
        }
    }

    /// A pan offset limited to the view's range.
    fn clamped_pan(&self, candidate: i128) -> (p: i64)
        requires
            ZOOM_ONE <= self.zoom_level,
        ensures
            p == clamp_int(
                candidate as int,
                0,
                max_pan_of(self.duration as int, self.zoom_level as int),
            ),
    {
        proof {
            lemma_visible_bounds(self.duration as int, self.zoom_level as int);
        }
        let v = visible_exec(self.duration, self.zoom_level);
        let max_pan: i64 = if self.duration - v > 0 {
            self.duration - v
        } else {
            0
        };
        if candidate < 0 {
            0
        } else if candidate > max_pan as i128 {
            max_pan
        } else {
            candidate as i64
        }
    }

    /// Zooms in by `factor` billionths (1_500_000_000 for 1.5), keeping `anchor_time`
    /// at the same place in the view as far as the media's ends allow.
    pub fn zoom_in(&mut self, factor: u64, anchor_time: i64)
        requires
            old(self).wf(),
        ensures
            final(self).wf(),
            *final(self) == zoom_in_result(*old(self), factor, anchor_time),
    {
        let old_zoom = self.zoom_level;
        assert(old_zoom as int * factor as int <= 18_446_744_073_709_551_615 * 18_446_744_073_709_551_615)
            by (nonlinear_arith)
            requires
                old_zoom <= 18_446_744_073_709_551_615,
                factor <= 18_446_744_073_709_551_615,
        ;
        let z = old_zoom as u128 * factor as u128 / 1_000_000_000;
        let cap = zoom_cap_exec(self.duration);
        self.zoom_level = if z > cap as u128 {
            cap
        } else if z < 1_000_000_000 {
            ZOOM_ONE
        } else {
            z as u64
        };
        let candidate = self.anchored_pan(anchor_time, old_zoom);
        self.pan_offset = self.clamped_pan(candidate);
    }

    /// Zooms out by `factor` billionths, never below showing the whole media,
    /// keeping `anchor_time` in place as far as the media's ends allow.
    pub fn zoom_out(&mut self, factor: u64, anchor_time: i64)
        requires
            old(self).wf(),
        ensures
            final(self).wf(),
            *final(self) == zoom_out_result(*old(self), factor, anchor_time),
    {
        let old_zoom = self.zoom_level;
        let cap = zoom_cap_exec(self.duration);
        if factor == 0 {
            self.zoom_level = cap;
        } else {
            assert(old_zoom as int * 1_000_000_000 <= 18_446_744_073_709_551_615 * 1_000_000_000)
                by (nonlinear_arith)
                requires
                    old_zoom <= 18_446_744_073_709_551_615,
            ;
            let z = old_zoom as u128 * 1_000_000_000 / factor as u128;
            self.zoom_level = if z > cap as u128 {
                cap
            } else if z < 1_000_000_000 {
                ZOOM_ONE
            } else {
                z as u64
            };
        }
        let candidate = self.anchored_pan(anchor_time, old_zoom);
        self.pan_offset = self.clamped_pan(candidate);
    }

    /// The offset that keeps `anchor` where it was when the zoom moved from `old_zoom`.
    fn anchored_pan(&self, anchor: i64, old_zoom: u64) -> (c: i128)
        requires
            ZOOM_ONE <= old_zoom,
            ZOOM_ONE <= self.zoom_level,
            0 <= self.pan_offset,
        ensures
            c == anchor - scale_toward_zero(
                anchor - self.pan_offset,
                old_zoom as int,
                self.zoom_level as int,
            ),
    {
        let d = anchor as i128 - self.pan_offset as i128;
        let m: u128 = if d < 0 {
            (-d) as u128
        } else {
            d as u128
        };
        assert(m * old_zoom <= 18_446_744_073_709_551_616 * 18_446_744_073_709_551_615) by (nonlinear_arith)
            requires
                m <= 18_446_744_073_709_551_616,
                old_zoom <= 18_446_744_073_709_551_615,
        ;
        let s = m * old_zoom as u128 / self.zoom_level as u128;
        assert(s <= 18_446_744_073_709_551_616 * 18_446_744_073_709_551_615 / 1_000_000_000) by (nonlinear_arith)
            requires
                s == m * old_zoom / self.zoom_level as int,
                m * old_zoom <= 18_446_744_073_709_551_616 * 18_446_744_073_709_551_615,
                self.zoom_level >= 1_000_000_000,
        ;
        if d < 0 {
            anchor as i128 + s as i128
        } else {
            anchor as i128 - s as i128
        }
    }

    /// Shifts the view by `delta_pixels` columns of a view `timeline_width`
    /// wide, within the media's ends; nothing happens for a zero width.
    pub fn pan(&mut self, delta_pixels: i16, timeline_width: u16)
        requires
            old(self).wf(),
        ensures
            final(self).wf(),
            *final(self) == pan_result(*old(self), delta_pixels, timeline_width),
    {
        if timeline_width == 0 {
            return;
        }
        let v = self.visible_duration();
        if v < 0 {
            proof {
                lemma_visible_bounds(self.duration as int, self.zoom_level as int);
            }
            self.pan_offset = self.clamped_pan(0);
            return;
        }
        let m: i128 = if delta_pixels < 0 {
            -(delta_pixels as i128)
        } else {
            delta_pixels as i128
        };
        assert(0 <= m * v <= 32768 * 9_223_372_036_854_775_807) by (nonlinear_arith)
            requires
                0 <= m <= 32768,
                0 <= v <= 9_223_372_036_854_775_807,
        ;
        let s = m * v as i128 / timeline_width as i128;
        assert(0 <= s <= 32768 * 9_223_372_036_854_775_807) by (nonlinear_arith)
            requires
                s == m * v / timeline_width as int,
                0 <= m * v <= 32768 * 9_223_372_036_854_775_807,
                timeline_width >= 1,
        ;
        let delta = if delta_pixels < 0 {
            -s
        } else {
            s
        };
        let candidate = self.pan_offset as i128 + delta;
        self.pan_offset = self.clamped_pan(candidate);
    }

    /// The times at the left and right edges of a view `timeline_width` wide.
    pub fn visible_range(&self, timeline_width: u16) -> (r: (i64, i64))
        requires
            self.wf(),
        ensures
            r.0 == self.time_at(0, timeline_width as int),
            r.1 == self.time_at(timeline_width as int, timeline_width as int),
    {
        let start = self.pixel_to_time(0, timeline_width);
        let end = self.pixel_to_time(timeline_width, timeline_width);
        (start, end)
    }
}

/// Further to the right in the view is never earlier in the media.
pub proof fn lemma_time_at_monotone(t: TimelineState, a: int, b: int, width: int)
    requires
        t.wf(),
        t.duration >= 0,
        0 <= a <= b,
        0 <= width,
    ensures
        t.time_at(a, width) <= t.time_at(b, width),
{
    if width > 0 {
        lemma_visible_bounds(t.duration as int, t.zoom_level as int);
        let v = t.visible();
        assert((2 * a * v + width) / (2 * width) <= (2 * b * v + width) / (2 * width)) by (nonlinear_arith)
            requires
                0 <= a <= b,
                0 <= v,
                width > 0,
        ;
    }
}

/// The left edge of the view is the pan offset.
pub proof fn lemma_time_at_left_edge(t: TimelineState, width: int)
    requires
        t.wf(),
        0 <= width,
    ensures
        t.time_at(0, width) == t.pan_offset,
{
    if width > 0 {
        assert((2 * 0 * t.visible() + width) / (2 * width) == 0) by (nonlinear_arith)
            requires
                width > 0,
        ;
        assert((2 * 0 * (-t.visible()) + width) / (2 * width) == 0) by (nonlinear_arith)
            requires
                width > 0,
        ;
    }
}

proof fn lemma_round_trip_when_wide(t: TimelineState, px: int, w: int)
    requires
        t.wf(),
        0 < w <= 65535,
        0 <= px <= w,
        t.visible() >= w,
    ensures
        t.column_of(t.time_at(px, w), w) == px,
{
    lemma_visible_bounds(t.duration as int, t.zoom_level as int);
    let v = t.visible();
    let q = (2 * px * v + w) / (2 * w);
    assert(2 * w * q <= 2 * px * v + w < 2 * w * q + 2 * w) by (nonlinear_arith)
        requires
            q == (2 * px * v + w) / (2 * w),
            w > 0,
    ;
    assert(q <= v) by (nonlinear_arith)
        requires
            2 * w * q <= 2 * px * v + w,
            px <= w,
            w > 0,
            v >= 0,
    ;
    assert(0 <= q) by (nonlinear_arith)
        requires
            2 * px * v + w < 2 * w * q + 2 * w,
            px >= 0,
            v >= 0,
            w > 0,
    ;
    assert(t.time_at(px, w) == t.pan_offset + q);
    let n = q * w;
    if px == 0 {
        assert(q == 0) by (nonlinear_arith)
            requires
                2 * w * q <= 2 * px * v + w,
                px == 0,
                q >= 0,
                w > 0,
        ;
        assert(n == 0) by (nonlinear_arith)
            requires
                n == q * w,
                q == 0,
        ;
    } else {
        assert(q >= 1) by (nonlinear_arith)
            requires
                2 * px * v + w < 2 * w * q + 2 * w,
                px >= 1,
                v >= w,
                w > 0,
        ;
        assert(n > 0) by (nonlinear_arith)
            requires
                n == q * w,
                q >= 1,
                w > 0,
        ;
        assert(2 * v * px <= 2 * n + v) by (nonlinear_arith)
            requires
                n == q * w,
                2 * px * v + w < 2 * w * q + 2 * w,
                v >= w,
        ;
        if w < v {
            assert(2 * n + v < 2 * v * px + 2 * v) by (nonlinear_arith)
                requires
                    n == q * w,
                    2 * w * q <= 2 * px * v + w,
                    w < v,
            ;
        } else {
            assert(q <= px) by (nonlinear_arith)
                requires
                    2 * w * q <= 2 * px * v + w,
                    v == w,
                    w > 0,
            ;
            assert(2 * n + v < 2 * v * px + 2 * v) by (nonlinear_arith)
                requires
                    n == q * w,
                    q <= px,
                    v == w,
                    w > 0,
            ;
        }
        let r = (2 * n + v) / (2 * v);
        assert(r == px) by (nonlinear_arith)
            requires
                r == (2 * n + v) / (2 * v),
                2 * v * px <= 2 * n + v < 2 * v * px + 2 * v,
                v > 0,
        ;
    }
}

/// At the deepest zoom a media at least `u16::MAX` units long still shows
/// that many units; a shorter one cannot be zoomed at all.
proof fn lemma_cap_keeps_units(t: TimelineState)
    requires
        t.wf(),
    ensures
        t.duration >= 65535 ==> t.visible() >= 65535,
        0 <= t.duration < 65535 ==> t.visible() == t.duration,
{
    let d = t.duration as int;
    let z = t.zoom_level as int;
    if d >= 65535 {
        assert(d * 1_000_000_000 / 65535 >= 1_000_000_000) by (nonlinear_arith)
            requires
                d >= 65535,
        ;
        assert(z * 65535 <= d * 1_000_000_000) by (nonlinear_arith)
            requires
                z <= d * 1_000_000_000 / 65535,
        ;
        assert(d * 1_000_000_000 / z >= 65535) by (nonlinear_arith)
            requires
                z * 65535 <= d * 1_000_000_000,
                z >= 1_000_000_000,
        ;
    } else if d >= 0 {
        assert(d * 1_000_000_000 / 65535 < 1_000_000_000) by (nonlinear_arith)
            requires
                0 <= d < 65535,
        ;
        assert(z == 1_000_000_000);
        assert(d * 1_000_000_000 / 1_000_000_000 == d) by (nonlinear_arith);
    }
}

/// A column's time shows again at that column, on every view of a media at
/// least as many time units long as the view is columns wide: the zoom never
/// goes deep enough for a column to cover less than one unit.
pub proof fn law_column_time_round_trip(t: TimelineState, px: int, w: int)
    requires
        t.wf(),
        0 < w <= 65535,
        0 <= px <= w,
        t.duration >= w,
    ensures
        t.column_of(t.time_at(px, w), w) == px,
{
    lemma_cap_keeps_units(t);
    lemma_round_trip_when_wide(t, px, w);
}

} // verus!
