use vstd::prelude::*;

use crate::canvas::{Canvas, PIN_COUNT};
use vstd::string::StringSliceAdditionalSpecFns;

verus! {

/// Fixed vertical gap inserted below every rendered line.
pub const LINE_SPACING: u32 = 10;

/// Hard ceiling for the font-scale search, so the search always ends even on
/// degenerate metrics that never grow.
pub const MAX_SCALE: u32 = 4096;

/// Text cannot be laid out within the given constraints: even the smallest
/// scale violates a bound.
#[derive(Clone, Copy, PartialEq, Eq, Structural, Debug)]
pub enum LayoutError {
    Infeasible,
}

/// A measured extent `(w, h)` at some scale fits the paper: the rendered
/// width does not exceed one bound and the stacked height of all lines (each
/// line plus the fixed spacing) does not exceed the other. In portrait mode
/// (`rotate`) the width runs across the head and the stack along the paper
/// length; in landscape mode it is the other way around.
pub open spec fn fits(w: int, h: int, n_lines: int, max_len: int, rotate: bool) -> bool {
    let bound_w = if rotate {
        PIN_COUNT as int
    } else {
        max_len
    };
    let bound_h = if rotate {
        max_len
    } else {
        PIN_COUNT as int
    };
    w <= bound_w && h * n_lines + (LINE_SPACING as int) * n_lines <= bound_h
}

/// How many leading extents of `offers` fit: the scale search accepts scales
/// `1, 2, 3, ...` while their extents fit and stops at the first that does
/// not, so this is the scale it settles on (before the hard ceiling).
pub open spec fn fit_count(offers: Seq<(int, int)>, n_lines: int, max_len: int, rotate: bool) -> int
    decreases offers.len(),
{
    if offers.len() == 0 {
        0
    } else if !fits(offers[0].0, offers[0].1, n_lines, max_len, rotate) {
        0
    } else {
        1 + fit_count(offers.drop_first(), n_lines, max_len, rotate)
    }
}

/// The fit count never leaves `0..=len`.
pub proof fn lemma_fit_count_bounds(offers: Seq<(int, int)>, n_lines: int, max_len: int, rotate: bool)
    ensures
        0 <= fit_count(offers, n_lines, max_len, rotate) <= offers.len(),
    decreases offers.len(),
{
    if offers.len() > 0 && fits(offers[0].0, offers[0].1, n_lines, max_len, rotate) {
        lemma_fit_count_bounds(offers.drop_first(), n_lines, max_len, rotate);
    }
}

/// Every extent before the fit count fits, and the extent at the fit count
/// (when there is one) does not: the search keeps the last scale whose whole
/// prefix fits.
pub proof fn lemma_fit_count_prefix(offers: Seq<(int, int)>, n_lines: int, max_len: int, rotate: bool)
    ensures
        forall|k: int|
            0 <= k < fit_count(offers, n_lines, max_len, rotate) ==> fits(
                (#[trigger] offers[k]).0,
                offers[k].1,
                n_lines,
                max_len,
                rotate,
            ),
        fit_count(offers, n_lines, max_len, rotate) < offers.len() ==> !fits(
            offers[fit_count(offers, n_lines, max_len, rotate)].0,
            offers[fit_count(offers, n_lines, max_len, rotate)].1,
            n_lines,
            max_len,
            rotate,
        ),
    decreases offers.len(),
{
    lemma_fit_count_bounds(offers, n_lines, max_len, rotate);
    if offers.len() > 0 && fits(offers[0].0, offers[0].1, n_lines, max_len, rotate) {
        lemma_fit_count_bounds(offers.drop_first(), n_lines, max_len, rotate);
        lemma_fit_count_prefix(offers.drop_first(), n_lines, max_len, rotate);
        let fc = fit_count(offers, n_lines, max_len, rotate);
        assert(fc == 1 + fit_count(offers.drop_first(), n_lines, max_len, rotate));
        assert forall|k: int| 0 <= k < fc implies fits(
            (#[trigger] offers[k]).0,
            offers[k].1,
            n_lines,
            max_len,
            rotate,
        ) by {
            if k > 0 {
                assert(offers.drop_first()[k - 1] == offers[k]);
            }
        }
        if fc < offers.len() {
            assert(fc >= 1);
            assert(offers.drop_first()[fc - 1] == offers[fc]);
            assert(fit_count(offers.drop_first(), n_lines, max_len, rotate) == fc - 1);
        }
    }
}

/// Appending an extent to a fully fitting history extends the fit count by
/// one exactly when the new extent fits.
proof fn lemma_fit_count_snoc(
    offers: Seq<(int, int)>,
    e: (int, int),
    n_lines: int,
    max_len: int,
    rotate: bool,
)
    requires
        fit_count(offers, n_lines, max_len, rotate) == offers.len(),
    ensures
        fit_count(offers.push(e), n_lines, max_len, rotate) == offers.len() + (if fits(
            e.0,
            e.1,
            n_lines,
            max_len,
            rotate,
        ) {
            1int
        } else {
            0int
        }),
    decreases offers.len(),
{
    if offers.len() == 0 {
        reveal_with_fuel(fit_count, 3);
        assert(offers.push(e)[0] == e);
        assert(offers.push(e).drop_first() =~= Seq::<(int, int)>::empty());
    } else {
        lemma_fit_count_bounds(offers.drop_first(), n_lines, max_len, rotate);
        assert(fits(offers[0].0, offers[0].1, n_lines, max_len, rotate));
        assert(fit_count(offers.drop_first(), n_lines, max_len, rotate) == offers.len() - 1);
        assert(offers.push(e)[0] == offers[0]);
        assert(offers.push(e).drop_first() =~= offers.drop_first().push(e));
        lemma_fit_count_snoc(offers.drop_first(), e, n_lines, max_len, rotate);
        assert(fit_count(offers.push(e), n_lines, max_len, rotate) == 1 + fit_count(
            offers.drop_first().push(e),
            n_lines,
            max_len,
            rotate,
        ));
    }
}

/// Monotonicity law: with the same measured extents, shrinking the length
/// constraint never increases the scale the search settles on.
pub proof fn lemma_scale_monotone(
    offers: Seq<(int, int)>,
    n_lines: int,
    len_small: int,
    len_large: int,
    rotate: bool,
)
    requires
        len_small <= len_large,
    ensures
        fit_count(offers, n_lines, len_small, rotate) <= fit_count(offers, n_lines, len_large, rotate),
    decreases offers.len(),
{
    if offers.len() > 0 && fits(offers[0].0, offers[0].1, n_lines, len_small, rotate) {
        lemma_scale_monotone(offers.drop_first(), n_lines, len_small, len_large, rotate);
    } else if offers.len() > 0 {
        lemma_fit_count_bounds(offers.drop_first(), n_lines, len_large, rotate);
    }
}

/// Maximality law: when fitting is downward closed over the history (an
/// extent that fits at some scale also fits at every smaller scale, as holds
/// for fonts whose extents grow with the scale), the scale the search settles
/// on is the largest whose extent fits: every later extent violates a bound.
pub proof fn lemma_chosen_is_max(
    offers: Seq<(int, int)>,
    n_lines: int,
    max_len: int,
    rotate: bool,
)
    requires
        forall|k1: int, k2: int|
            #![trigger offers[k1], offers[k2]]
            0 <= k1 <= k2 < offers.len() && fits(offers[k2].0, offers[k2].1, n_lines, max_len, rotate)
                ==> fits(offers[k1].0, offers[k1].1, n_lines, max_len, rotate),
    ensures
        forall|k: int|
            fit_count(offers, n_lines, max_len, rotate) <= k < offers.len() ==> !fits(
                (#[trigger] offers[k]).0,
                offers[k].1,
                n_lines,
                max_len,
                rotate,
            ),
{
    lemma_fit_count_bounds(offers, n_lines, max_len, rotate);
    lemma_fit_count_prefix(offers, n_lines, max_len, rotate);
    let fc = fit_count(offers, n_lines, max_len, rotate);
    assert forall|k: int| fc <= k < offers.len() implies !fits(
        (#[trigger] offers[k]).0,
        offers[k].1,
        n_lines,
        max_len,
        rotate,
    ) by {
        if fits(offers[k].0, offers[k].1, n_lines, max_len, rotate) {
            assert(fits(offers[fc].0, offers[fc].1, n_lines, max_len, rotate));
        }
    }
}

/// Decide one fit in executable code, exactly matching `fits`.
fn accepts(w: i32, h: i32, n_lines: u32, max_len: u32, rotate: bool) -> (b: bool)
    requires
        w >= 0,
        h >= 0,
        n_lines >= 1,
    ensures
        b == fits(w as int, h as int, n_lines as int, max_len as int, rotate),
{
    let hu: u64 = h as u64;
    let nu: u64 = n_lines as u64;
    proof {
        assert(hu * nu <= 0x7FFF_FFFFu64 * 0xFFFF_FFFFu64) by (nonlinear_arith)
            requires
                hu <= 0x7FFF_FFFFu64,
                nu <= 0xFFFF_FFFFu64,
        ;
        assert((LINE_SPACING as u64) * nu <= 10u64 * 0xFFFF_FFFFu64) by (nonlinear_arith)
            requires
                (LINE_SPACING as u64) == 10u64,
                nu <= 0xFFFF_FFFFu64,
        ;
    }
    let bound_w: u64 = if rotate {
        PIN_COUNT as u64
    } else {
        max_len as u64
    };
    let bound_h: u64 = if rotate {
        max_len as u64
    } else {
        PIN_COUNT as u64
    };
    let stacked: u64 = hu * nu + (LINE_SPACING as u64) * nu;
    ((w as u64) <= bound_w) && (stacked <= bound_h)
}

/// The incremental font-scale search. Scales `1, 2, 3, ...` are tried in
/// order; the caller measures the reference line at the candidate scale and
/// offers the extent back, and the search accepts while the extent fits.
/// `accepted` is the last accepted scale, `line_height` the measured height
/// at that scale, and the ghost `offered` records every extent seen, so the
/// settled scale provably equals `fit_count` of the offered history.
pub struct ScaleSearch {
    pub n_lines: u32,
    pub max_len: u32,
    pub rotate: bool,
    pub accepted: u32,
    pub line_height: i32,
    pub done: bool,
    pub offered: Ghost<Seq<(int, int)>>,
}

impl ScaleSearch {
    /// Search invariant: the accepted scale is the fit count of the offered
    /// history; while running, everything offered so far has fit; once done,
    /// either the last offer failed to fit or the ceiling was reached.
    pub open spec fn wf(self) -> bool {
        &&& self.n_lines >= 1
        &&& self.accepted as int == fit_count(
            self.offered@,
            self.n_lines as int,
            self.max_len as int,
            self.rotate,
        )
        &&& self.accepted <= MAX_SCALE
        &&& self.offered@.len() <= self.accepted + 1
        &&& (!self.done ==> self.offered@.len() == self.accepted && self.accepted < MAX_SCALE)
        &&& (self.done ==> (self.offered@.len() == self.accepted + 1 || self.accepted
            == MAX_SCALE))
        &&& (self.accepted == 0 ==> self.line_height == 0)
        &&& (self.accepted >= 1 ==> self.line_height as int == self.offered@[self.accepted as int
            - 1].1)
        &&& self.line_height >= 0
        &&& (forall|i: int|
            0 <= i < self.offered@.len() ==> (#[trigger] self.offered@[i]).0 >= 0
                && self.offered@[i].1 >= 0)
    }

    /// A fresh search for the given line count and length constraint.
    pub fn new(n_lines: u32, max_len: u32, rotate: bool) -> (s: ScaleSearch)
        requires
            n_lines >= 1,
        ensures
            s.wf(),
            !s.done,
            s.accepted == 0,
            s.line_height == 0,
            s.offered@ == Seq::<(int, int)>::empty(),
            s.n_lines == n_lines,
            s.max_len == max_len,
            s.rotate == rotate,
    {
        ScaleSearch {
            n_lines,
            max_len,
            rotate,
            accepted: 0,
            line_height: 0,
            done: false,
            offered: Ghost(Seq::empty()),
        }
    }

    /// The scale to measure next: one above the last accepted scale.
    pub fn candidate(&self) -> (s: u32)
        requires
            self.wf(),
            !self.done,
        ensures
            s == self.accepted + 1,
    {
        self.accepted + 1
    }

    /// Offer the measured extent for the current candidate scale. The scale
    /// is accepted exactly when the extent fits; a misfit, or reaching the
    /// ceiling, ends the search. Returns whether another scale should be
    /// measured.
    pub fn offer(&mut self, w: i32, h: i32) -> (more: bool)
        requires
            old(self).wf(),
            !old(self).done,
            w >= 0,
            h >= 0,
        ensures
            final(self).wf(),
            final(self).offered@ == old(self).offered@.push((w as int, h as int)),
            final(self).n_lines == old(self).n_lines,
            final(self).max_len == old(self).max_len,
            final(self).rotate == old(self).rotate,
            more == !final(self).done,
            final(self).done <==> (!fits(
                w as int,
                h as int,
                old(self).n_lines as int,
                old(self).max_len as int,
                old(self).rotate,
            ) || final(self).accepted == MAX_SCALE),
            fits(
                w as int,
                h as int,
                old(self).n_lines as int,
                old(self).max_len as int,
                old(self).rotate,
            ) ==> final(self).accepted == old(self).accepted + 1 && final(self).line_height == h,
            !fits(
                w as int,
                h as int,
                old(self).n_lines as int,
                old(self).max_len as int,
                old(self).rotate,
            ) ==> final(self).accepted == old(self).accepted && final(self).line_height == old(
                self,
            ).line_height,
    {
        proof {
            lemma_fit_count_snoc(
                self.offered@,
                (w as int, h as int),
                self.n_lines as int,
                self.max_len as int,
                self.rotate,
            );
        }
        let ok: bool = accepts(w, h, self.n_lines, self.max_len, self.rotate);
        proof {
            self.offered@ = self.offered@.push((w as int, h as int));
        }
        if ok {
            self.accepted = self.accepted + 1;
            self.line_height = h;
            if self.accepted == MAX_SCALE {
                self.done = true;
            }
        } else {
            self.done = true;
        }
        !self.done
    }

    /// The settled scale and line height. The degenerate case where even
    /// scale 1 violates a bound is an explicit error, never a zero-sized
    /// layout.
    pub fn result(&self) -> (r: Result<(u32, i32), LayoutError>)
        requires
            self.wf(),
            self.done,
        ensures
            r is Err <==> self.accepted == 0,
            r is Err ==> r == Result::<(u32, i32), LayoutError>::Err(LayoutError::Infeasible),
            r matches Ok(sl) ==> sl.0 == self.accepted && sl.1 == self.line_height && sl.0 >= 1,
    {
        if self.accepted == 0 {
            Err(LayoutError::Infeasible)
        } else {
            Ok((self.accepted, self.line_height))
        }
    }
}

/// First maximum: the index the layout engine draws its reference line from.
/// When some width is positive this is the first index holding the maximum
/// width; when none is, it stays 0.
pub fn pick_longest(widths: &Vec<i32>) -> (r: usize)
    requires
        widths@.len() >= 1,
    ensures
        r < widths@.len(),
        (exists|j: int| 0 <= j < widths@.len() && (#[trigger] widths@[j]) > 0) ==> (forall|j: int|
            0 <= j < widths@.len() ==> (#[trigger] widths@[j]) <= widths@[r as int]) && (forall|
            t: int|
            0 <= t < r ==> (#[trigger] widths@[t]) < widths@[r as int]),
        !(exists|j: int| 0 <= j < widths@.len() && (#[trigger] widths@[j]) > 0) ==> r == 0,
{
    let n: usize = widths.len();
    let mut best: usize = 0;
    let mut best_w: i32 = 0;
    let mut j: usize = 0;
    while j < n
        invariant
            n == widths@.len(),
            n >= 1,
            j <= n,
            best < n,
            best_w >= 0,
            best_w > 0 ==> widths@[best as int] == best_w && (forall|t: int|
                0 <= t < j ==> (#[trigger] widths@[t]) <= best_w) && (forall|t: int|
                0 <= t < best ==> (#[trigger] widths@[t]) < best_w),
            best_w == 0 ==> best == 0 && (forall|t: int| 0 <= t < j ==> (#[trigger] widths@[t]) <= 0),
        decreases n - j,
    {
        let wj: i32 = widths[j];
        if wj > best_w {
            best_w = wj;
            best = j;
        }
        j = j + 1;
    }
    best
}

/// Allocate the text canvas and fill its background. Portrait mode sizes it
/// head-width by the stacked height of all lines; landscape mode sizes it
/// constraint-length by head height. The background is white, or black when
/// inverted. Fails only when the requested size cannot be represented.
pub fn text_canvas(n_lines: u32, line_height: i32, max_len: u32, rotate: bool, invert: bool) -> (r:
    Option<Canvas>)
    requires
        n_lines >= 1,
        line_height >= 0,
    ensures
        rotate ==> ((r is Some <==> ((line_height + LINE_SPACING) * n_lines <= u32::MAX && (
        PIN_COUNT as int) * ((line_height + LINE_SPACING) * n_lines) <= usize::MAX))
            && (r matches Some(c) ==> c@.wf() && c@.width == PIN_COUNT && c@.height == (line_height
            + LINE_SPACING) * n_lines)),
        !rotate ==> ((r is Some <==> (max_len as int) * (PIN_COUNT as int) <= usize::MAX) && (
        r matches Some(c) ==> c@.wf() && c@.width == max_len && c@.height == PIN_COUNT)),
        r matches Some(c) ==> (forall|i: int|
            0 <= i < c@.pixels.len() ==> c@.pixels[i] == (if invert {
                0u8
            } else {
                255u8
            })),
{
    let bg: u8 = if invert {
        0
    } else {
        255
    };
    if rotate {
        proof {
            assert(((line_height as int) + (LINE_SPACING as int)) * (n_lines as int) <= (
            0x7FFF_FFFF + 10) * 0xFFFF_FFFF && ((line_height as int) + (LINE_SPACING as int)) * (
            n_lines as int) >= 0) by (nonlinear_arith)
                requires
                    0 <= line_height <= 0x7FFF_FFFF,
                    1 <= n_lines <= 0xFFFF_FFFF,
            ;
        }
        let stacked: u64 = ((line_height as u64) + (LINE_SPACING as u64)) * (n_lines as u64);
        if stacked > (u32::MAX as u64) {
            return None;
        }
        Canvas::filled(PIN_COUNT, stacked as u32, bg)
    } else {
        Canvas::filled(max_len, PIN_COUNT, bg)
    }
}

/// Vertical offsets the lines are drawn at: line `k` starts at
/// `k * (line_height + spacing)`. Fails when an offset would not fit a
/// signed 32-bit coordinate.
pub fn line_offsets(n_lines: u32, line_height: i32) -> (r: Option<Vec<i32>>)
    requires
        n_lines >= 1,
        line_height >= 0,
    ensures
        r is Some <==> (n_lines - 1) * (line_height + LINE_SPACING) <= i32::MAX,
        r matches Some(v) ==> v@.len() == n_lines && (forall|k: int|
            0 <= k < n_lines ==> (#[trigger] v@[k]) == k * (line_height + LINE_SPACING)),
{
    let step: i64 = (line_height as i64) + (LINE_SPACING as i64);
    let mut acc: i64 = 0;
    let mut v: Vec<i32> = Vec::new();
    let mut k: u32 = 0;
    while k < n_lines
        invariant
            n_lines >= 1,
            line_height >= 0,
            step == (line_height as int) + (LINE_SPACING as int),
            k <= n_lines,
            v@.len() == k,
            acc == (k as int) * step,
            forall|t: int| 0 <= t < k ==> (#[trigger] v@[t]) == t * step,
            k >= 1 ==> (k - 1) * step <= i32::MAX,
        decreases n_lines - k,
    {
        if acc > (i32::MAX as i64) {
            proof {
                assert((k as int) * step <= ((n_lines as int) - 1) * step) by (nonlinear_arith)
                    requires
                        0 <= k <= (n_lines as int) - 1,
                        step >= 0,
                ;
            }
            return None;
        }
        v.push(acc as i32);
        proof {
            assert(((k as int) + 1) * step == (k as int) * step + step) by (nonlinear_arith);
            assert(((k as int) + 1) * step <= (0xFFFF_FFFFu64) * (0x7FFF_FFFF + 10)) by (
            nonlinear_arith)
                requires
                    0 <= (k as int) + 1 <= 0xFFFF_FFFFu64,
                    0 <= step <= 0x7FFF_FFFF + 10,
            ;
        }
        acc = acc + step;
        k = k + 1;
    }
    proof {
        assert(((n_lines as int) - 1) * step <= i32::MAX);
    }
    Some(v)
}


/// A trailing carriage return is dropped from a line that a line feed ended.
pub open spec fn strip_cr(l: Seq<u8>) -> Seq<u8> {
    if l.len() > 0 && l[l.len() - 1] == 13 {
        l.drop_last()
    } else {
        l
    }
}

/// Index of the first line feed, or the length when there is none.
pub open spec fn first_nl(s: Seq<u8>) -> nat
    decreases s.len(),
{
    if s.len() == 0 {
        0
    } else if s[0] == 10 {
        0
    } else {
        1 + first_nl(s.drop_first())
    }
}

/// The lines of a byte text: split at every line feed (a carriage return just
/// before the feed is dropped), no entry for a final line feed, and a last
/// line without one kept verbatim.
pub open spec fn lines_spec(s: Seq<u8>) -> Seq<Seq<u8>>
    decreases s.len(),
{
    if s.len() == 0 {
        Seq::empty()
    } else {
        let i = first_nl(s) as int;
        if i >= s.len() {
            seq![s]
        } else {
            seq![strip_cr(s.take(i))] + lines_spec(s.skip(i + 1))
        }
    }
}

/// A text without line feeds has its first line feed at the end.
proof fn lemma_first_nl_none(a: Seq<u8>)
    requires
        forall|k: int| 0 <= k < a.len() ==> a[k] != 10,
    ensures
        first_nl(a) == a.len(),
    decreases a.len(),
{
    if a.len() > 0 {
        assert forall|k: int| 0 <= k < a.drop_first().len() implies a.drop_first()[k] != 10 by {
            assert(a.drop_first()[k] == a[k + 1]);
        }
        lemma_first_nl_none(a.drop_first());
    }
}

/// Prepending line-feed-free bytes to a text that starts with a line feed
/// puts the first line feed exactly at the end of the prefix.
proof fn lemma_first_nl_concat(a: Seq<u8>, b: Seq<u8>)
    requires
        forall|k: int| 0 <= k < a.len() ==> a[k] != 10,
        b.len() > 0,
        b[0] == 10,
    ensures
        first_nl(a + b) == a.len(),
    decreases a.len(),
{
    if a.len() == 0 {
        assert(a + b =~= b);
    } else {
        assert((a + b)[0] == a[0]);
        assert((a + b).drop_first() =~= a.drop_first() + b);
        assert forall|k: int| 0 <= k < a.drop_first().len() implies a.drop_first()[k] != 10 by {
            assert(a.drop_first()[k] == a[k + 1]);
        }
        lemma_first_nl_concat(a.drop_first(), b);
    }
}

/// Split a text into its lines, as bytes: split at every line feed, dropping
/// a carriage return standing right before one; a final line feed produces no
/// extra line, and a last line without one is kept verbatim.
pub fn split_lines(text: &str) -> (r: Vec<Vec<u8>>)
    ensures
        r.deep_view() == lines_spec(text.spec_bytes()),
{
    let bytes: &[u8] = text.as_bytes();
    let n: usize = bytes.len();
    let mut acc: Vec<Vec<u8>> = Vec::new();
    let mut cur: Vec<u8> = Vec::new();
    let mut i: usize = 0;
    proof {
        assert(cur@ + bytes@.skip(0) =~= bytes@);
        assert(acc.deep_view() =~= Seq::<Seq<u8>>::empty());
        assert(Seq::<Seq<u8>>::empty() + lines_spec(bytes@) =~= lines_spec(bytes@));
    }
    while i < n
        invariant
            bytes@ == text.spec_bytes(),
            n == bytes@.len(),
            i <= n,
            forall|k: int| 0 <= k < cur@.len() ==> cur@[k] != 10,
            lines_spec(bytes@) == acc.deep_view() + lines_spec(cur@ + bytes@.skip(i as int)),
        decreases n - i,
    {
        let ghost pre_cur = cur@;
        let ghost old_dv = acc.deep_view();
        let c: u8 = bytes[i];
        if c == 10 {
            let mut stripped = cur;
            if stripped.len() > 0 {
                let lastb: u8 = stripped[stripped.len() - 1];
                if lastb == 13 {
                    let _popped = stripped.pop();
                }
            }
            proof {
                assert(stripped@ == strip_cr(pre_cur));
            }
            acc.push(stripped);
            cur = Vec::new();
            proof {
                let tail = bytes@.skip(i as int);
                assert(tail[0] == bytes@[i as int]);
                lemma_first_nl_concat(pre_cur, tail);
                let s_rem = pre_cur + tail;
                assert(s_rem.len() > 0);
                assert(first_nl(s_rem) == pre_cur.len());
                assert(s_rem.take(pre_cur.len() as int) =~= pre_cur);
                assert(s_rem.skip(pre_cur.len() as int + 1) =~= bytes@.skip(i as int + 1));
                assert(lines_spec(s_rem) == seq![strip_cr(pre_cur)] + lines_spec(
                    bytes@.skip(i as int + 1),
                ));
                assert forall|t: int| 0 <= t < acc@.len() implies acc.deep_view()[t] == old_dv.push(
                    strip_cr(pre_cur),
                )[t] by {
                    assert(acc@[t].deep_view() =~= acc@[t]@);
                }
                assert(acc.deep_view() =~= old_dv.push(strip_cr(pre_cur)));
                assert(old_dv + (seq![strip_cr(pre_cur)] + lines_spec(bytes@.skip(i as int + 1)))
                    =~= old_dv.push(strip_cr(pre_cur)) + lines_spec(bytes@.skip(i as int + 1)));
                assert(cur@ + bytes@.skip(i as int + 1) =~= bytes@.skip(i as int + 1));
            }
        } else {
            cur.push(c);
            proof {
                assert(bytes@.skip(i as int)[0] == bytes@[i as int]);
                assert(pre_cur.push(c) + bytes@.skip(i as int + 1) =~= pre_cur + bytes@.skip(
                    i as int,
                ));
            }
        }
        i = i + 1;
    }
    proof {
        assert(bytes@.skip(n as int) =~= Seq::<u8>::empty());
        assert(cur@ + bytes@.skip(n as int) =~= cur@);
    }
    let ghost old_dv = acc.deep_view();
    if cur.len() > 0 {
        proof {
            lemma_first_nl_none(cur@);
            assert(lines_spec(cur@) == seq![cur@]);
        }
        let ghost cv = cur@;
        acc.push(cur);
        proof {
            assert forall|t: int| 0 <= t < acc@.len() implies acc.deep_view()[t] == old_dv.push(
                cv,
            )[t] by {
                assert(acc@[t].deep_view() =~= acc@[t]@);
            }
            assert(acc.deep_view() =~= old_dv.push(cv));
            assert(old_dv + seq![cv] =~= old_dv.push(cv));
        }
    } else {
        proof {
            assert(cur@ =~= Seq::<u8>::empty());
            assert(lines_spec(cur@) =~= Seq::<Seq<u8>>::empty());
            assert(old_dv + lines_spec(cur@) =~= old_dv);
        }
    }
    acc
}

} // verus!
