//! Compositor: tracks surfaces and decompressed pools, and produces a packed
//! frame on every SURFACE_COMMIT whose pool is known and large enough.

use std::collections::HashMap;
use vstd::prelude::*;
use vstd::slice::slice_to_vec;
use vstd::arithmetic::mul::lemma_mul_inequality;
use vstd::arithmetic::div_mod::lemma_mod_multiples_vanish;
use crate::protocol::{Rect, clamp_damage_to_surface, spec_clamp_damage, min_int};

verus! {

broadcast use vstd::std_specs::hash::group_hash_axioms;

/// Name for the output of `lz4_flex::decompress(input, min_uncompressed_size)`:
/// the decompressed bytes, or `None` where the block is malformed or does not
/// fit the given size.
pub uninterp spec fn lz4_decompress_result(input: Seq<u8>, min_uncompressed_size: usize) -> Option<Seq<u8>>;

/// Longest run of 0xFF bytes a compressed block handed to the decoder may
/// hold. A length field of the LZ4 block format is a run of 0xFF bytes and
/// one last byte, summed into a `u32`; the decoder does not bound that sum,
/// so a longer run can overflow it.
pub const MAX_LZ4_FF_RUN: usize = 16_843_008;

/// The `MAX_LZ4_FF_RUN + 1` bytes from `i` on are all 0xFF.
pub open spec fn ff_window(s: Seq<u8>, i: int) -> bool {
    forall|k: int| i <= k < i + MAX_LZ4_FF_RUN + 1 ==> s[k] == 0xFF
}

/// No run of more than `MAX_LZ4_FF_RUN` consecutive 0xFF bytes.
pub open spec fn ff_runs_bounded(s: Seq<u8>) -> bool {
    forall|i: int| 0 <= i && i + MAX_LZ4_FF_RUN < s.len() ==> !#[trigger] ff_window(s, i)
}

/// Calls `lz4_flex::decompress` (LZ4 block format). The contract claims only
/// that the outcome is the named function of the two arguments, with the
/// library's error collapsed to `None`. Inputs holding a run of more than
/// `MAX_LZ4_FF_RUN` 0xFF bytes are left out: on them the decoder's length sum
/// can overflow and panic.
#[verifier::external_body]
fn lz4_decompress(input: &[u8], min_uncompressed_size: usize) -> (r: Option<Vec<u8>>)
    requires
        ff_runs_bounded(input@),
    ensures
        match r {
            Some(v) => lz4_decompress_result(input@, min_uncompressed_size) == Some(v@),
            None => lz4_decompress_result(input@, min_uncompressed_size) is None,
        },
{
    match lz4_flex::decompress(input, min_uncompressed_size) {
        Ok(v) => Some(v),
        Err(_) => None,
    }
}

/// Whether `data` holds no run of more than `MAX_LZ4_FF_RUN` 0xFF bytes.
fn ff_runs_within_bound(data: &[u8]) -> (b: bool)
    ensures
        b == ff_runs_bounded(data@),
{
    let n = data.len();
    let ghost s = data@;
    let mut run: usize = 0;
    let mut pos: usize = 0;
    while pos < n
        invariant
            n == s.len(),
            s == data@,
            pos <= n,
            run <= pos,
            run <= MAX_LZ4_FF_RUN,
            forall|k: int| pos - run <= k < pos ==> s[k] == 0xFF,
            run < pos ==> s[pos - run - 1] != 0xFF,
            forall|i: int| 0 <= i && i + MAX_LZ4_FF_RUN + 1 <= pos ==> !#[trigger] ff_window(s, i),
        decreases n - pos,
    {
        if data[pos] == 0xFF {
            if run == MAX_LZ4_FF_RUN {
                assert(ff_window(s, pos - MAX_LZ4_FF_RUN));
                return false;
            }
            let ghost old_run = run;
            run = run + 1;
            proof {
                let i = pos - MAX_LZ4_FF_RUN;
                if i >= 0 {
                    assert(old_run < pos);
                    assert(s[pos - old_run - 1] != 0xFF);
                    assert(!ff_window(s, i));
                }
            }
        } else {
            run = 0;
            proof {
                let i = pos - MAX_LZ4_FF_RUN;
                if i >= 0 {
                    assert(!ff_window(s, i));
                }
            }
        }
        pos = pos + 1;
    }
    true
}

/// Decompressed pool data stored by pool id.
struct Pool {
    data: Vec<u8>,
    width: u16,
    height: u16,
    stride: u32,
    format: u32,
}

/// Mathematical value of a pool.
pub struct PoolView {
    pub data: Seq<u8>,
    pub width: u16,
    pub height: u16,
    pub stride: u32,
    pub format: u32,
}

impl View for Pool {
    type V = PoolView;

    closed spec fn view(&self) -> PoolView {
        PoolView {
            data: self.data@,
            width: self.width,
            height: self.height,
            stride: self.stride,
            format: self.format,
        }
    }
}

/// Surface state.
struct Surface {
    active: bool,
    damage: Rect,
}

/// Last composited frame (RGBA, rows packed to `width * 4` bytes).
#[derive(Debug, Clone)]
pub struct FrameOutput {
    pub width: u32,
    pub height: u32,
    pub stride: u32,
    pub data: Vec<u8>,
}

/// Mathematical value of a frame.
pub struct FrameView {
    pub width: u32,
    pub height: u32,
    pub stride: u32,
    pub data: Seq<u8>,
}

impl View for FrameOutput {
    type V = FrameView;

    open spec fn view(&self) -> FrameView {
        FrameView { width: self.width, height: self.height, stride: self.stride, data: self.data@ }
    }
}

pub struct Compositor {
    pools: HashMap<u32, Pool>,
    surfaces: HashMap<u32, Surface>,
    /// Last composited frame (RGBA)
    pub frame: FrameOutput,
    pub dirty: bool,
    /// Last damage rect from SURFACE_COMMIT
    pub last_damage: Rect,
}

/// Mathematical state of a compositor: pools by id, the damage of each
/// tracked surface, the last frame, its dirty flag and its damage.
pub struct CompositorView {
    pub pools: Map<u32, PoolView>,
    pub surfaces: Map<u32, Rect>,
    pub frame: FrameView,
    pub dirty: bool,
    pub last_damage: Rect,
}

impl View for Compositor {
    type V = CompositorView;

    closed spec fn view(&self) -> CompositorView {
        CompositorView {
            pools: self.pools@.map_values(|p: Pool| p@),
            surfaces: self.surfaces@.map_values(|s: Surface| s.damage),
            frame: self.frame@,
            dirty: self.dirty,
            last_damage: self.last_damage,
        }
    }
}

pub open spec fn zero_rect() -> Rect {
    Rect { x: 0, y: 0, w: 0, h: 0 }
}

/// The state of a fresh compositor.
pub open spec fn initial_state() -> CompositorView {
    CompositorView {
        pools: Map::empty(),
        surfaces: Map::empty(),
        frame: FrameView { width: 0, height: 0, stride: 0, data: Seq::empty() },
        dirty: false,
        last_damage: zero_rect(),
    }
}

/// SURFACE_CREATE: the surface is tracked with an empty damage.
pub open spec fn step_surface_create(s: CompositorView, surface_id: u32) -> CompositorView {
    CompositorView { surfaces: s.surfaces.insert(surface_id, zero_rect()), ..s }
}

/// SURFACE_DESTROY: the surface is no longer tracked.
pub open spec fn step_surface_destroy(s: CompositorView, surface_id: u32) -> CompositorView {
    CompositorView { surfaces: s.surfaces.remove(surface_id), ..s }
}

/// The pixel bytes a POOL_DATA event carries: the bytes themselves when their
/// length equals `raw_len`, otherwise their LZ4 decompression (`None` on
/// failure, and for a compressed block holding a run of more than
/// `MAX_LZ4_FF_RUN` 0xFF bytes).
pub open spec fn decoded_pool_bytes(lz4_data: Seq<u8>, raw_len: u32) -> Option<Seq<u8>> {
    if lz4_data.len() == raw_len {
        Some(lz4_data)
    } else if !ff_runs_bounded(lz4_data) {
        None
    } else {
        lz4_decompress_result(lz4_data, raw_len as usize)
    }
}

/// Storing a pool: any earlier pool with the same id is replaced.
pub open spec fn step_install_pool(
    s: CompositorView, pool_id: u32, width: u16, height: u16, stride: u32, format: u32, data: Seq<u8>,
) -> CompositorView {
    CompositorView {
        pools: s.pools.insert(pool_id, PoolView { data, width, height, stride, format }),
        ..s
    }
}

/// POOL_DATA: the decoded bytes are stored; a failed decompression changes nothing.
pub open spec fn step_pool_data(
    s: CompositorView, pool_id: u32, width: u16, height: u16, stride: u32, format: u32,
    raw_len: u32, lz4_data: Seq<u8>,
) -> CompositorView {
    match decoded_pool_bytes(lz4_data, raw_len) {
        Some(d) => step_install_pool(s, pool_id, width, height, stride, format, d),
        None => s,
    }
}

/// Row `r` of a committed buffer, packed to `row_len` bytes: the first
/// `min(row_len, stride)` bytes come from the pool at `offset + r * stride`,
/// the rest are zero.
pub open spec fn commit_row(pool: Seq<u8>, offset: int, stride: int, row_len: int, r: int) -> Seq<u8> {
    Seq::new(row_len as nat, |c: int|
        if c < min_int(row_len, stride) { pool[offset + r * stride + c] } else { 0u8 })
}

/// The first `rows` packed rows of a committed buffer, top to bottom.
pub open spec fn commit_rows(pool: Seq<u8>, offset: int, stride: int, row_len: int, rows: nat) -> Seq<u8>
    decreases rows,
{
    if rows == 0 {
        Seq::empty()
    } else {
        commit_rows(pool, offset, stride, row_len, (rows - 1) as nat)
            + commit_row(pool, offset, stride, row_len, rows - 1)
    }
}

/// Every fourth byte (the pad byte of each XRGB pixel) set to 0xFF.
pub open spec fn opaque_alpha(p: Seq<u8>) -> Seq<u8> {
    Seq::new(p.len(), |i: int| if i % 4 == 3 { 0xFFu8 } else { p[i] })
}

/// The frame bytes of a committed buffer: `height` rows of `width * 4`
/// bytes; for format 1 (XRGB8888) the alpha byte of each pixel is 0xFF.
pub open spec fn commit_pixels(pool: Seq<u8>, offset: u32, stride: u32, width: u16, height: u16, format: u32) -> Seq<u8> {
    let raw = commit_rows(pool, offset as int, stride as int, 4 * width, height as nat);
    if format == 1 { opaque_alpha(raw) } else { raw }
}

/// Bytes a commit reads from its pool: `offset + stride * height`.
pub open spec fn commit_needed(offset: u32, stride: u32, height: u16) -> int {
    offset + stride * height
}

/// The damage a commit records: the clamped damage, or the full buffer when
/// the damage lies wholly outside it.
pub open spec fn commit_damage(width: u16, height: u16, dx: u16, dy: u16, dw: u16, dh: u16) -> Rect {
    match spec_clamp_damage(Rect { x: dx, y: dy, w: dw, h: dh }, width, height) {
        Some(r) => r,
        None => Rect { x: 0, y: 0, w: width, h: height },
    }
}

/// SURFACE_COMMIT: when the pool is known and holds `offset + stride * height`
/// bytes, the frame is rebuilt from it, marked dirty, and the damage recorded
/// on the compositor and on the surface if it is tracked; otherwise nothing changes.
pub open spec fn step_surface_commit(
    s: CompositorView, surface_id: u32, pool_id: u32, offset: u32, width: u16, height: u16,
    stride: u32, format: u32, dx: u16, dy: u16, dw: u16, dh: u16,
) -> CompositorView {
    if !s.pools.contains_key(pool_id) {
        s
    } else if s.pools[pool_id].data.len() < commit_needed(offset, stride, height) {
        s
    } else {
        let dmg = commit_damage(width, height, dx, dy, dw, dh);
        CompositorView {
            pools: s.pools,
            surfaces: if s.surfaces.contains_key(surface_id) {
                s.surfaces.insert(surface_id, dmg)
            } else {
                s.surfaces
            },
            frame: FrameView {
                width: width as u32,
                height: height as u32,
                stride: (4 * width) as u32,
                data: commit_pixels(s.pools[pool_id].data, offset, stride, width, height, format),
            },
            dirty: true,
            last_damage: dmg,
        }
    }
}

proof fn lemma_commit_rows_len(pool: Seq<u8>, offset: int, stride: int, row_len: int, rows: nat)
    requires
        row_len >= 0,
    ensures
        commit_rows(pool, offset, stride, row_len, rows).len() == row_len * rows,
    decreases rows,
{
    if rows > 0 {
        let prev = (rows - 1) as nat;
        lemma_commit_rows_len(pool, offset, stride, row_len, prev);
        assert(commit_row(pool, offset, stride, row_len, rows - 1).len() == row_len);
        assert(row_len * rows == row_len * prev + row_len) by (nonlinear_arith)
            requires prev == rows - 1;
    } else {
        assert(row_len * rows == 0) by (nonlinear_arith)
            requires rows == 0;
    }
}

impl Compositor {
    /// Creates an empty compositor with no pools or surfaces and a zero-size frame.
    pub fn new() -> (c: Self)
        ensures
            c@ == initial_state(),
    {
        let c = Self {
            pools: HashMap::new(),
            surfaces: HashMap::new(),
            frame: FrameOutput { width: 0, height: 0, stride: 0, data: Vec::new() },
            dirty: false,
            last_damage: Rect::zero(),
        };
        assert(c@.pools =~= Map::empty());
        assert(c@.surfaces =~= Map::empty());
        c
    }

    /// Registers a surface (with an empty damage).
    pub fn handle_surface_create(&mut self, surface_id: u32)
        ensures
            final(self)@ == step_surface_create(old(self)@, surface_id),
            final(self)@.surfaces.len() == old(self)@.surfaces.len()
                + (if old(self)@.surfaces.contains_key(surface_id) { 0int } else { 1int }),
    {
        proof {
            lemma_view_finite(&*self);
        }
        self.surfaces.insert(surface_id, Surface { active: true, damage: Rect::zero() });
        assert(self@.surfaces =~= old(self)@.surfaces.insert(surface_id, zero_rect()));
    }

    /// Stops tracking a surface.
    pub fn handle_surface_destroy(&mut self, surface_id: u32)
        ensures
            final(self)@ == step_surface_destroy(old(self)@, surface_id),
            final(self)@.surfaces.len() == old(self)@.surfaces.len()
                - (if old(self)@.surfaces.contains_key(surface_id) { 1int } else { 0int }),
    {
        proof {
            lemma_view_finite(&*self);
        }
        self.surfaces.remove(&surface_id);
        assert(self@.surfaces =~= old(self)@.surfaces.remove(surface_id));
    }

    /// Stores decoded pool bytes under `pool_id`, replacing any earlier pool.
    pub fn install_pool(&mut self, pool_id: u32, width: u16, height: u16, stride: u32, format: u32, data: Vec<u8>)
        ensures
            final(self)@ == step_install_pool(old(self)@, pool_id, width, height, stride, format, data@),
            final(self)@.pools.len() == old(self)@.pools.len()
                + (if old(self)@.pools.contains_key(pool_id) { 0int } else { 1int }),
    {
        proof {
            lemma_view_finite(&*self);
        }
        let ghost d = data@;
        self.pools.insert(pool_id, Pool { data, width, height, stride, format });
        assert(self@.pools =~= old(self)@.pools.insert(pool_id, PoolView { data: d, width, height, stride, format }));
    }

    /// Decompresses (if needed) and caches pool pixel data. When
    /// `lz4_data.len() == raw_len` the data is taken as uncompressed;
    /// otherwise it is LZ4-decompressed, and a failure, or a compressed block
    /// holding a run of more than `MAX_LZ4_FF_RUN` 0xFF bytes, leaves the
    /// state unchanged.
    pub fn handle_pool_data(
        &mut self,
        pool_id: u32,
        width: u16,
        height: u16,
        stride: u32,
        format: u32,
        raw_len: u32,
        lz4_data: &[u8],
    )
        ensures
            final(self)@ == step_pool_data(old(self)@, pool_id, width, height, stride, format, raw_len, lz4_data@),
            final(self)@.pools.len() == old(self)@.pools.len()
                + (if decoded_pool_bytes(lz4_data@, raw_len) is Some && !old(self)@.pools.contains_key(pool_id) {
                    1int
                } else {
                    0int
                }),
    {
        let decompressed = if lz4_data.len() == raw_len as usize {
            slice_to_vec(lz4_data)
        } else {
            if !ff_runs_within_bound(lz4_data) {
                return;
            }
            match lz4_decompress(lz4_data, raw_len as usize) {
                Some(d) => d,
                None => {
                    return;
                },
            }
        };
        self.install_pool(pool_id, width, height, stride, format, decompressed);
    }

    /// Composites a surface frame from pool data: copies `height` rows of the
    /// pool starting at `offset`, packs each row to `width * 4` bytes, forces
    /// opaque alpha for format 1, stores the clamped damage, and marks the
    /// frame dirty. An unknown pool, or a pool too small for
    /// `offset + stride * height`, leaves everything unchanged.
    pub fn handle_surface_commit(
        &mut self,
        surface_id: u32,
        pool_id: u32,
        offset: u32,
        buf_width: u16,
        buf_height: u16,
        buf_stride: u32,
        format: u32,
        damage_x: u16,
        damage_y: u16,
        damage_w: u16,
        damage_h: u16,
    )
        ensures
            final(self)@ == step_surface_commit(old(self)@, surface_id, pool_id, offset, buf_width,
                buf_height, buf_stride, format, damage_x, damage_y, damage_w, damage_h),
    {
        let pool = match self.pools.get(&pool_id) {
            Some(p) => p,
            None => {
                return;
            },
        };
        let ghost pd = pool.data@;
        assert(self@.pools.contains_key(pool_id) && self@.pools[pool_id].data == pd);

        let h = buf_height as usize;
        let s = buf_stride as usize;
        let off = offset as usize;

        let s64 = buf_stride as u64;
        let h64 = buf_height as u64;
        assert(s64 * h64 <= 0xffff_ffff * 0xffff) by (nonlinear_arith)
            requires s64 <= 0xffff_ffff, h64 <= 0xffff;
        let needed: u64 = offset as u64 + s64 * h64;
        if (pool.data.len() as u64) < needed {
            return;
        }

        assert(h * s == s64 * h64) by (nonlinear_arith)
            requires h == h64, s == s64;
        let ew: usize = buf_width as usize * 4;
        let copy_len: usize = if ew <= s { ew } else { s };
        let mut pixels: Vec<u8> = Vec::new();
        let mut row: usize = 0;
        while row < h
            invariant
                row <= h,
                h == buf_height,
                s == buf_stride,
                off == offset,
                ew == 4 * buf_width,
                copy_len == min_int(ew as int, s as int),
                off + h * s <= pool.data@.len(),
                pool.data@.len() <= usize::MAX,
                pd == pool.data@,
                pixels@ == commit_rows(pd, off as int, s as int, ew as int, row as nat),
            decreases h - row,
        {
            proof {
                lemma_mul_inequality(row as int + 1, h as int, s as int);
                assert((row + 1) * s == row * s + s) by (nonlinear_arith);
            }
            let base: usize = off + row * s;
            let ghost before = pixels@;
            let mut col: usize = 0;
            while col < ew
                invariant
                    col <= ew,
                    row < h,
                    ew == 4 * buf_width,
                    copy_len == min_int(ew as int, s as int),
                    copy_len <= s,
                    base == off + row * s,
                    base + s <= pool.data@.len(),
                    pool.data@.len() <= usize::MAX,
                    pd == pool.data@,
                    pixels@ == before + commit_row(pd, off as int, s as int, ew as int, row as int).take(col as int),
                decreases ew - col,
            {
                let ghost prev = pixels@;
                if col < copy_len {
                    pixels.push(pool.data[base + col]);
                } else {
                    pixels.push(0u8);
                }
                proof {
                    let full_row = commit_row(pd, off as int, s as int, ew as int, row as int);
                    assert(full_row.take(col + 1) =~= full_row.take(col as int).push(full_row[col as int]));
                    assert(pixels@ =~= before + full_row.take(col + 1));
                }
                col = col + 1;
            }
            proof {
                let full_row = commit_row(pd, off as int, s as int, ew as int, row as int);
                assert(full_row.take(ew as int) =~= full_row);
            }
            row = row + 1;
        }

        proof {
            lemma_commit_rows_len(pd, off as int, s as int, ew as int, h as nat);
        }
        let ghost raw = pixels@;
        if format == 1 {
            let n = pixels.len();
            let mut i: usize = 0;
            while i < n
                invariant
                    i <= n,
                    n == raw.len(),
                    pixels@.len() == n,
                    forall|j: int| 0 <= j < i ==> #[trigger] pixels@[j] == opaque_alpha(raw)[j],
                    forall|j: int| i <= j < n ==> #[trigger] pixels@[j] == raw[j],
                decreases n - i,
            {
                if i % 4 == 3 {
                    pixels.set(i, 0xFF);
                }
                i = i + 1;
            }
            assert(pixels@ =~= opaque_alpha(raw));
        }

        let damage = Rect::new(damage_x, damage_y, damage_w, damage_h);
        let clamped = match clamp_damage_to_surface(damage, buf_width, buf_height) {
            Some(r) => r,
            None => Rect::new(0, 0, buf_width, buf_height),
        };

        let ghost old_surfaces = self@.surfaces;
        if self.surfaces.contains_key(&surface_id) {
            self.surfaces.insert(surface_id, Surface { active: true, damage: clamped });
            assert(self@.surfaces =~= old_surfaces.insert(surface_id, clamped));
        }

        self.last_damage = clamped;
        let w = buf_width as u32;
        self.frame.width = w;
        self.frame.height = buf_height as u32;
        self.frame.stride = w * 4;
        self.frame.data = pixels;
        self.dirty = true;
    }

    /// Cursor position update; the compositor does not draw a cursor, so the
    /// state is unchanged.
    pub fn handle_cursor_move(&mut self, x: i32, y: i32)
        ensures
            final(self)@ == old(self)@,
    {
        let _ = (x, y);
    }

    /// Whether a frame was produced since the flag was last cleared.
    pub fn is_dirty(&self) -> (b: bool)
        ensures
            b == self@.dirty,
    {
        self.dirty
    }

    /// Clears the dirty flag.
    pub fn clear_dirty(&mut self)
        ensures
            final(self)@ == (CompositorView { dirty: false, ..old(self)@ }),
    {
        self.dirty = false;
    }

    /// The last composited frame.
    pub fn frame(&self) -> (f: &FrameOutput)
        ensures
            f@ == self@.frame,
    {
        &self.frame
    }

    /// The damage recorded by the last successful SURFACE_COMMIT.
    pub fn last_damage(&self) -> (r: Rect)
        ensures
            r == self@.last_damage,
    {
        self.last_damage
    }

    /// Number of cached pools.
    pub fn pool_count(&self) -> (n: usize)
        ensures
            n == self@.pools.len(),
            self@.pools.dom().finite(),
    {
        assert(self@.pools.dom() =~= self.pools@.dom());
        self.pools.len()
    }

    /// Number of tracked surfaces.
    pub fn surface_count(&self) -> (n: usize)
        ensures
            n == self@.surfaces.len(),
            self@.surfaces.dom().finite(),
    {
        assert(self@.surfaces.dom() =~= self.surfaces@.dom());
        self.surfaces.len()
    }
}

proof fn lemma_commit_rows_index(pool: Seq<u8>, offset: int, stride: int, row_len: int, rows: nat, r: int, c: int)
    requires
        row_len >= 0,
        0 <= r < rows,
        0 <= c < row_len,
    ensures
        commit_rows(pool, offset, stride, row_len, rows)[r * row_len + c]
            == commit_row(pool, offset, stride, row_len, r)[c],
    decreases rows,
{
    let prev = (rows - 1) as nat;
    lemma_commit_rows_len(pool, offset, stride, row_len, prev);
    if r == rows - 1 {
        assert(r * row_len == row_len * prev) by (nonlinear_arith)
            requires r == prev;
    } else {
        lemma_commit_rows_index(pool, offset, stride, row_len, prev, r, c);
        lemma_mul_inequality(r + 1, prev as int, row_len);
        assert((r + 1) * row_len == r * row_len + row_len) by (nonlinear_arith);
        assert(prev * row_len == row_len * prev) by (nonlinear_arith);
    }
}

/// Byte `c` of row `r` of a committed frame: the pool byte at
/// `offset + r * stride + c` when `c` is within both the packed row and the
/// source stride, zero past the source stride, and 0xFF for the alpha byte of
/// each pixel when the format is 1 (XRGB8888).
pub proof fn lemma_commit_pixel(pool: Seq<u8>, offset: u32, stride: u32, width: u16, height: u16, format: u32, r: int, c: int)
    requires
        0 <= r < height,
        0 <= c < 4 * width,
    ensures
        commit_pixels(pool, offset, stride, width, height, format)[r * (4 * width) + c] == (
            if format == 1 && c % 4 == 3 {
                0xFFu8
            } else if c < min_int(4 * width, stride as int) {
                pool[offset + r * stride + c]
            } else {
                0u8
            }),
{
    let ew = 4 * width;
    lemma_commit_rows_index(pool, offset as int, stride as int, ew, height as nat, r, c);
    lemma_commit_rows_len(pool, offset as int, stride as int, ew, height as nat);
    let k = r * width;
    assert(r * ew == 4 * k) by (nonlinear_arith)
        requires ew == 4 * width, k == r * width;
    lemma_mod_multiples_vanish(k, c, 4);
    assert(0 <= r * ew + c < ew * height) by (nonlinear_arith)
        requires 0 <= r < height, 0 <= c < ew;
}

/// A buffer whose rows are exactly `width * 4` bytes apart is copied as it
/// is: for a format other than 1 the frame bytes are the pool bytes from
/// `offset` on, `stride * height` of them.
pub proof fn lemma_commit_tight_stride_copies_pool(
    pool: Seq<u8>, offset: u32, stride: u32, width: u16, height: u16, format: u32,
)
    requires
        stride == 4 * width,
        format != 1,
        offset + stride * height <= pool.len(),
    ensures
        commit_pixels(pool, offset, stride, width, height, format)
            == pool.subrange(offset as int, offset + stride * height),
{
    let ew = 4 * width;
    let n = ew * height;
    let px = commit_pixels(pool, offset, stride, width, height, format);
    let want = pool.subrange(offset as int, offset + stride * height);
    lemma_commit_rows_len(pool, offset as int, stride as int, ew, height as nat);
    if ew == 0 {
        assert(n == 0) by (nonlinear_arith) requires ew == 0, n == ew * height;
        assert(stride * height == 0) by (nonlinear_arith) requires stride == 0;
        assert(px =~= want);
    } else {
        assert forall|k: int| 0 <= k < n implies #[trigger] px[k] == want[k] by {
            let r = k / ew;
            let c = k % ew;
            vstd::arithmetic::div_mod::lemma_fundamental_div_mod(k, ew);
            assert(0 <= c < ew);
            assert(0 <= r < height) by (nonlinear_arith)
                requires 0 <= k < ew * height, r == k / ew, ew > 0;
            assert(k == r * ew + c) by (nonlinear_arith)
                requires k == ew * (k / ew) + (k % ew), r == k / ew, c == k % ew;
            lemma_commit_pixel(pool, offset, stride, width, height, format, r, c);
        }
        assert(px.len() == want.len()) by (nonlinear_arith)
            requires px.len() == ew * height, want.len() == stride * height, stride == ew;
        assert(px =~= want);
    }
}

/// A successful commit leaves a dirty frame of `height` rows of `width * 4`
/// bytes whose recorded damage lies within the frame.
pub proof fn lemma_commit_frame_shape(
    s: CompositorView, surface_id: u32, pool_id: u32, offset: u32, width: u16, height: u16,
    stride: u32, format: u32, dx: u16, dy: u16, dw: u16, dh: u16,
)
    requires
        s.pools.contains_key(pool_id),
        s.pools[pool_id].data.len() >= commit_needed(offset, stride, height),
    ensures
        ({
            let t = step_surface_commit(s, surface_id, pool_id, offset, width, height, stride,
                format, dx, dy, dw, dh);
            &&& t.dirty
            &&& t.frame.width == width && t.frame.height == height
            &&& t.frame.stride == 4 * width
            &&& t.frame.data.len() == 4 * width * height
            &&& t.last_damage.x + t.last_damage.w <= width
            &&& t.last_damage.y + t.last_damage.h <= height
            &&& t.pools == s.pools
        }),
{
    lemma_commit_rows_len(s.pools[pool_id].data, offset as int, stride as int, 4 * width, height as nat);
    assert((4 * width) * height == 4 * width * height) by (nonlinear_arith);
}

/// A commit that names an unknown pool changes nothing.
pub proof fn lemma_commit_unknown_pool_noop(
    s: CompositorView, surface_id: u32, pool_id: u32, offset: u32, width: u16, height: u16,
    stride: u32, format: u32, dx: u16, dy: u16, dw: u16, dh: u16,
)
    requires
        !s.pools.contains_key(pool_id),
    ensures
        step_surface_commit(s, surface_id, pool_id, offset, width, height, stride, format,
            dx, dy, dw, dh) == s,
{
}

/// The pool and surface maps of a compositor are finite.
pub proof fn lemma_view_finite(c: &Compositor)
    ensures
        c@.pools.dom().finite(),
        c@.surfaces.dom().finite(),
{
    assert(c@.pools.dom() =~= c.pools@.dom());
    assert(c@.surfaces.dom() =~= c.surfaces@.dom());
}

/// Destroying a surface undoes creating it.
pub proof fn lemma_destroy_undoes_create(s: CompositorView, surface_id: u32)
    ensures
        step_surface_destroy(step_surface_create(s, surface_id), surface_id)
            == step_surface_destroy(s, surface_id),
        !s.surfaces.contains_key(surface_id) ==>
            step_surface_destroy(step_surface_create(s, surface_id), surface_id) == s,
{
    assert(s.surfaces.insert(surface_id, zero_rect()).remove(surface_id) =~= s.surfaces.remove(surface_id));
    if !s.surfaces.contains_key(surface_id) {
        assert(s.surfaces.remove(surface_id) =~= s.surfaces);
    }
}

/// Pool bytes whose length equals `raw_len` are stored as they are.
pub proof fn lemma_uncompressed_pool_stored_verbatim(
    s: CompositorView, pool_id: u32, width: u16, height: u16, stride: u32, format: u32, data: Seq<u8>,
)
    requires
        data.len() <= u32::MAX,
    ensures
        step_pool_data(s, pool_id, width, height, stride, format, data.len() as u32, data).pools
            == s.pools.insert(pool_id, PoolView { data, width, height, stride, format }),
{
}

} // verus!
