//! Compositing a rendered menu into a shared-memory frame: surfaces
//! without a server-side border get their border ring painted here.
use vstd::prelude::*;
use vstd::arithmetic::div_mod::lemma_fundamental_div_mod_converse;

use crate::color::Color;

verus! {

/// Bytes per row of a frame whose content is `w` pixels wide inside a
/// border of `b` pixels (4 bytes a pixel).
pub open spec fn frame_stride(w: int, b: int) -> int {
    (w + 2 * b) * 4
}

/// Where byte `j` of content row `row` lands in the frame.
pub open spec fn content_pos(w: int, b: int, row: int, j: int) -> int {
    (row + b) * frame_stride(w, b) + 4 * b + j
}

/// Whether frame byte `k` lies inside the content rectangle.
pub open spec fn in_content(w: int, h: int, b: int, k: int) -> bool {
    let s = frame_stride(w, b);
    b <= k / s < b + h && 4 * b <= k % s < 4 * b + 4 * w
}

/// Byte `i` of the border color in the frame's BGRA order.
pub open spec fn border_byte(c: Color, i: int) -> u8 {
    if i == 0 {
        c.b
    } else if i == 1 {
        c.g
    } else if i == 2 {
        c.r
    } else {
        c.a
    }
}

proof fn lemma_content_pos_decodes(w: int, h: int, b: int, row: int, j: int)
    requires
        0 <= w,
        0 < b,
        0 <= row < h,
        0 <= j < 4 * w,
    ensures
        content_pos(w, b, row, j) / frame_stride(w, b) == row + b,
        content_pos(w, b, row, j) % frame_stride(w, b) == 4 * b + j,
        in_content(w, h, b, content_pos(w, b, row, j)),
{
    lemma_fundamental_div_mod_converse(
        content_pos(w, b, row, j),
        frame_stride(w, b),
        row + b,
        4 * b + j,
    );
}

proof fn lemma_row_end_aligned(w: int, b: int, row: int, len: int)
    requires
        0 <= w,
        0 <= b,
        0 <= row,
        content_pos(w, b, row, 4 * w) <= len,
    ensures
        content_pos(w, b, row, 4 * w) <= len / 4 * 4,
{
    let m = (row + b) * (w + 2 * b) + b + w;
    assert((row + b) * ((w + 2 * b) * 4) + 4 * b + 4 * w == 4 * m) by (nonlinear_arith)
        requires
            m == (row + b) * (w + 2 * b) + b + w,
    ;
    lemma_fundamental_div_mod_converse(4 * m, 4, m, 0);
    assert(m <= len / 4) by {
        vstd::arithmetic::div_mod::lemma_div_is_ordered(4 * m, len, 4);
    }
}

/// Copies the rendered BGRA canvas `bgra` (`content_w` by `content_h`
/// pixels) into the frame `dst`, painting a ring of `border` pixels in
/// `color` around it. Without a border the canvas is the frame.
pub fn blit_frame(
    dst: &mut [u8],
    bgra: &[u8],
    content_w: usize,
    content_h: usize,
    border: usize,
    color: Color,
)
    requires
        border == 0 ==> old(dst)@.len() == bgra@.len(),
        border > 0 ==> (content_w + 2 * border) * 4 <= usize::MAX,
        border > 0 && content_h > 0 ==> content_h * content_w * 4 <= bgra@.len() && content_pos(
            content_w as int,
            border as int,
            content_h - 1,
            4 * content_w,
        ) <= old(dst)@.len(),
    ensures
        final(dst)@.len() == old(dst)@.len(),
        border == 0 ==> final(dst)@ == bgra@,
        border > 0 ==> forall|row: int, j: int|
            0 <= row < content_h && 0 <= j < 4 * content_w ==> #[trigger] final(dst)@[content_pos(
                content_w as int,
                border as int,
                row,
                j,
            )] == bgra@[row * (4 * content_w) + j],
        border > 0 ==> forall|k: int|
            0 <= k < old(dst)@.len() / 4 * 4 && !in_content(
                content_w as int,
                content_h as int,
                border as int,
                k,
            ) ==> #[trigger] final(dst)@[k] == border_byte(color, k % 4),
        border > 0 ==> forall|k: int|
            old(dst)@.len() / 4 * 4 <= k < old(dst)@.len() ==> #[trigger] final(dst)@[k] == old(
                dst,
            )@[k],
{
    let n = dst.len();
    if border == 0 {
        let mut i: usize = 0;
        while i < n
            invariant
                n == dst@.len(),
                n == bgra@.len(),
                i <= n,
                forall|k: int| 0 <= k < i ==> dst@[k] == bgra@[k],
            decreases n - i,
        {
            dst[i] = bgra[i];
            i += 1;
        }
        assert(dst@ =~= bgra@);
        return;
    }
    let ghost w = content_w as int;
    let ghost h = content_h as int;
    let ghost b = border as int;
    let ghost d0 = dst@;
    let stride = (content_w + 2 * border) * 4;
    let cs = content_w * 4;
    let pixel: [u8; 4] = [color.b, color.g, color.r, color.a];
    let full = n / 4 * 4;
    let bl = bgra.len();
    assert(full <= n) by {
        lemma_fundamental_div_mod_converse(n as int, 4, (n / 4) as int, (n % 4) as int);
    }
    let mut k: usize = 0;
    while k < full
        invariant
            n == dst@.len(),
            n == d0.len(),
            full == n / 4 * 4,
            k <= full,
            pixel@ == seq![color.b, color.g, color.r, color.a],
            forall|i: int| 0 <= i < k ==> #[trigger] dst@[i] == border_byte(color, i % 4),
            forall|i: int| k <= i < n ==> #[trigger] dst@[i] == d0[i],
        decreases full - k,
    {
        dst[k] = pixel[k % 4];
        k += 1;
    }
    let mut row: usize = 0;
    while row < content_h
        invariant
            n == dst@.len(),
            n == d0.len(),
            full == n / 4 * 4,
            full <= n,
            bl == bgra@.len(),
            w == content_w,
            h == content_h,
            b == border,
            0 < b,
            stride == frame_stride(w, b),
            cs == 4 * w,
            row <= h,
            h > 0 ==> h * w * 4 <= bgra@.len() && content_pos(w, b, h - 1, 4 * w) <= n,
            forall|i: int|
                0 <= i < full && !in_content(w, h, b, i) ==> #[trigger] dst@[i] == border_byte(
                    color,
                    i % 4,
                ),
            forall|i: int| full <= i < n ==> #[trigger] dst@[i] == d0[i],
            forall|r: int, j: int|
                0 <= r < row && 0 <= j < 4 * w ==> #[trigger] dst@[content_pos(w, b, r, j)]
                    == bgra@[r * (4 * w) + j],
        decreases h - row,
    {
        assert((row + b) * stride <= (h - 1 + b) * stride) by (nonlinear_arith)
            requires
                row <= h - 1,
                0 <= stride,
        ;
        assert(row * cs + cs <= h * w * 4) by (nonlinear_arith)
            requires
                row + 1 <= h,
                cs == 4 * w,
                0 <= w,
        ;
        assert(row + b <= (row + b) * stride) by (nonlinear_arith)
            requires
                stride >= 1,
                row + b >= 0,
        ;
        assert(row * cs <= row * cs + cs);
        proof {
            lemma_row_end_aligned(w, b, row as int, n as int);
        }
        let base = (row + border) * stride + 4 * border;
        let src = row * cs;
        assert(base == content_pos(w, b, row as int, 0));
        let ghost before = dst@;
        let mut j: usize = 0;
        while j < cs
            invariant
                n == dst@.len(),
                j <= cs,
                cs == 4 * w,
                0 < b,
                row < h,
                base == content_pos(w, b, row as int, 0),
                content_pos(w, b, row as int, 4 * w) <= full,
                full <= n,
                bl == bgra@.len(),
                src + cs <= bgra@.len(),
                forall|i: int| 0 <= i < j ==> #[trigger] dst@[base + i] == bgra@[src + i],
                forall|i: int|
                    0 <= i < n && !(base <= i < base + j) ==> #[trigger] dst@[i] == before[i],
            decreases cs - j,
        {
            dst[base + j] = bgra[src + j];
            j += 1;
        }
        assert forall|i: int|
            0 <= i < full && !in_content(w, h, b, i) implies #[trigger] dst@[i] == border_byte(
            color,
            i % 4,
        ) by {
            if base <= i < base + cs {
                lemma_content_pos_decodes(w, h, b, row as int, i - base);
                assert(content_pos(w, b, row as int, i - base) == i);
            }
        }
        assert forall|r: int, jj: int| 0 <= r < row + 1 && 0 <= jj < 4 * w implies #[trigger] dst@[content_pos(
            w,
            b,
            r,
            jj,
        )] == bgra@[r * (4 * w) + jj] by {
            if r == row {
                assert(content_pos(w, b, r, jj) == base + jj);
            } else {
                assert(content_pos(w, b, r, jj) < content_pos(w, b, row as int, 0)) by (
                nonlinear_arith)
                    requires
                        0 <= r < row,
                        0 <= jj < 4 * w,
                        0 < b,
                        0 <= w,
                ;
            }
        }
        row += 1;
    }
}


/* ------------------------------ buffer slots ------------------------------ */

/// Whether a pool of `len` bytes made for frames of `pool_frame` bytes can
/// serve frames of `size` bytes (room for two) with `frame` bytes each.
pub fn reusable_for(len: usize, pool_frame: usize, size: usize, frame: usize) -> (r: bool)
    ensures
        r == (len >= size * 2 && pool_frame == frame),
{
    (size <= len / 2) && pool_frame == frame
}

/// The frame slots of a shared-memory pool: where each lies and whether
/// the compositor has handed it back. Slots are appended while the pool
/// has room and reused once released.
pub struct SlotRing {
    len: usize,
    slots: Vec<(usize, bool)>,
}

impl View for SlotRing {
    /// The pool size and, per slot, its offset and whether it is free.
    type V = (int, Seq<(usize, bool)>);

    closed spec fn view(&self) -> Self::V {
        (self.len as int, self.slots@)
    }
}

/// The first free slot.
pub open spec fn first_free(slots: Seq<(usize, bool)>, i: int) -> Option<int>
    decreases slots.len() - i,
{
    if i < 0 || i >= slots.len() {
        None
    } else if slots[i].1 {
        Some(i)
    } else {
        first_free(slots, i + 1)
    }
}

/// A slot for the next frame of `size` bytes: the first free one, else a
/// new one after the last while the pool has room, else none.
pub open spec fn spec_acquire(v: (int, Seq<(usize, bool)>), size: int) -> ((int, Seq<(usize, bool)>), Option<int>) {
    let (len, slots) = v;
    match first_free(slots, 0) {
        Some(i) => ((len, slots.update(i, (slots[i].0, false))), Some(i)),
        None => {
            let offset = slots.len() * size;
            if offset + size > len {
                (v, None)
            } else {
                ((len, slots.push((offset as usize, false))), Some(slots.len() as int))
            }
        },
    }
}

/// Slots of `size` bytes laid end to end inside the pool.
pub open spec fn slots_fit(v: (int, Seq<(usize, bool)>), size: int) -> bool {
    forall|i: int| #![trigger v.1[i]] 0 <= i < v.1.len() ==> v.1[i].0 == i * size && (i + 1) * size <= v.0
}

proof fn lemma_first_free(slots: Seq<(usize, bool)>, i: int)
    requires
        0 <= i,
    ensures
        first_free(slots, i) matches Some(j) ==> i <= j < slots.len() && slots[j].1,
    decreases slots.len() - i,
{
    if i < slots.len() && !slots[i].1 {
        lemma_first_free(slots, i + 1);
    }
}

impl SlotRing {
    /// A pool of `len` bytes without slots yet.
    pub fn new(len: usize) -> (r: Self)
        ensures
            r@ == (len as int, Seq::<(usize, bool)>::empty()),
    {
        SlotRing { len, slots: Vec::new() }
    }

    /// Takes a slot for a frame of `size` bytes.
    pub fn acquire(&mut self, size: usize) -> (r: Option<usize>)
        ensures
            (final(self)@, match r {
                Some(i) => Some(i as int),
                None => None,
            }) == spec_acquire(old(self)@, size as int),
    {
        let mut i: usize = 0;
        let mut found: Option<usize> = None;
        while i < self.slots.len() && found.is_none()
            invariant
                i <= self.slots@.len(),
                *self == *old(self),
                found is None ==> first_free(self.slots@, 0) == first_free(self.slots@, i as int),
                found matches Some(j) ==> first_free(self.slots@, 0) == Some(j as int) && j
                    < self.slots@.len(),
            decreases self.slots.len() - i + if found is None { 1int } else { 0int },
        {
            if self.slots[i].1 {
                found = Some(i);
            } else {
                i += 1;
            }
        }
        if let Some(j) = found {
            let offset = self.slots[j].0;
            self.slots.set(j, (offset, false));
            return Some(j);
        }
        let n = self.slots.len();
        let offset = match n.checked_mul(size) {
            Some(o) => o,
            None => return None,
        };
        if offset > self.len || size > self.len - offset {
            return None;
        }
        self.slots.push((offset, false));
        Some(n)
    }

    /// Marks slot `i` free again (the compositor released it); `false`
    /// when there is no such slot.
    pub fn release(&mut self, i: usize) -> (r: bool)
        ensures
            r == (i < old(self)@.1.len()),
            r ==> final(self)@ == (old(self)@.0, old(self)@.1.update(i as int, (old(self)@.1[i as int].0, true))),
            !r ==> final(self)@ == old(self)@,
    {
        if i < self.slots.len() {
            let offset = self.slots[i].0;
            self.slots.set(i, (offset, true));
            true
        } else {
            false
        }
    }

    /// Where slot `i` starts in the pool.
    pub fn offset(&self, i: usize) -> (r: usize)
        requires
            i < self@.1.len(),
        ensures
            r == self@.1[i as int].0,
    {
        self.slots[i].0
    }
}

/// Taking a slot never hands out one the compositor still holds, and
/// slots of one frame size stay end to end inside the pool.
pub proof fn lemma_acquire_takes_free_slots(v: (int, Seq<(usize, bool)>), size: int)
    requires
        slots_fit(v, size),
        0 < size,
        v.1.len() * size <= usize::MAX,
    ensures
        spec_acquire(v, size).1 matches Some(i) ==> (i < v.1.len() && v.1[i].1) || i == v.1.len(),
        slots_fit(spec_acquire(v, size).0, size),
{
    lemma_first_free(v.1, 0);
    let v2 = spec_acquire(v, size).0;
    assert forall|i: int| #![trigger v2.1[i]] 0 <= i < v2.1.len() implies v2.1[i].0 == i * size && (i
        + 1) * size <= v2.0 by {
        if i < v.1.len() {
            assert(slots_fit(v, size));
            let e = v.1[i];
            assert(e.0 == i * size && (i + 1) * size <= v.0);
        } else {
            assert((v.1.len() * size) as usize as int == v.1.len() * size);
            assert((i + 1) * size == i * size + size) by (nonlinear_arith);
        }
    }
}

} // verus!
