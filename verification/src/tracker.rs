//! The chunk grid tracker: the authoritative set of loaded chunk
//! coordinates and the per-tick decisions of which chunks to load and
//! which to evict around a moving viewer.
use vstd::prelude::*;

verus! {

use vstd::arithmetic::div_mod::lemma_fundamental_div_mod;
use vstd::arithmetic::div_mod::lemma_mod_bound;
use crate::config::WorldConfig;
use crate::coords::CHUNK_COORD_LIMIT;
use crate::coords::ChunkCoord;
use crate::coords::WorldPos;
use crate::coords::floor_div;
use crate::coords::in_coord_range;

/// Largest magnitude the viewer's own chunk coordinate can take: the
/// world position range divided by the smallest chunk span.
pub const CENTER_LIMIT: i64 = 4294967296;

/// X component of the chunk containing a world position: the position is
/// nudged by half a tile and floor-divided by the chunk's world span.
pub open spec fn chunk_x_at(pos: WorldPos, cfg: WorldConfig) -> int {
    (pos.x + cfg.tile_size_x as int / 2) / cfg.span_x()
}

/// Y component of the chunk containing a world position.
pub open spec fn chunk_y_at(pos: WorldPos, cfg: WorldConfig) -> int {
    (pos.y + cfg.tile_size_y as int / 2) / cfg.span_y()
}

/// The chunk coordinate containing a world position.
pub open spec fn chunk_at_spec(pos: WorldPos, cfg: WorldConfig) -> ChunkCoord {
    ChunkCoord { x: chunk_x_at(pos, cfg) as i64, y: chunk_y_at(pos, cfg) as i64 }
}

/// A floor quotient of a bounded numerator by a positive divisor is itself
/// bounded by the numerator's bound.
proof fn lemma_quotient_bounded(a: int, b: int, q: int, bound: int)
    requires
        1 <= b,
        q == a / b,
        0 < bound,
        -bound <= a <= bound,
    ensures
        -bound <= q <= bound,
{
    lemma_fundamental_div_mod(a, b);
    lemma_mod_bound(a, b);
    assert(-bound <= q <= bound) by (nonlinear_arith)
        requires
            a == b * q + a % b,
            0 <= a % b < b,
            1 <= b,
            0 < bound,
            -bound <= a <= bound,
    ;
}

/// Converts the viewer's world position to the coordinate of the chunk
/// containing it.
pub fn camera_pos_to_chunk_pos(pos: WorldPos, cfg: &WorldConfig) -> (c: ChunkCoord)
    requires
        cfg.valid(),
    ensures
        c == chunk_at_spec(pos, *cfg),
        -CENTER_LIMIT <= c.x <= CENTER_LIMIT,
        -CENTER_LIMIT <= c.y <= CENTER_LIMIT,
{
    proof {
        cfg.lemma_dims_bounded();
    }
    let half_x: u32 = cfg.tile_size_x / 2;
    let half_y: u32 = cfg.tile_size_y / 2;
    let px: i64 = pos.x as i64 + half_x as i64;
    let py: i64 = pos.y as i64 + half_y as i64;
    let cx: i64 = floor_div(px, cfg.chunk_span_x() as i64);
    let cy: i64 = floor_div(py, cfg.chunk_span_y() as i64);
    proof {
        lemma_quotient_bounded(px as int, cfg.span_x(), cx as int, CENTER_LIMIT as int);
        lemma_quotient_bounded(py as int, cfg.span_y(), cy as int, CENTER_LIMIT as int);
    }
    ChunkCoord { x: cx, y: cy }
}

/// Whether `c` lies in the inclusive box of desired chunks spanned by the
/// configured radius around `center`.
pub open spec fn in_desired_box(c: ChunkCoord, center: ChunkCoord, cfg: WorldConfig) -> bool {
    &&& center.x - cfg.radius_x <= c.x <= center.x + cfg.radius_x
    &&& center.y - cfg.radius_y <= c.y <= center.y + cfg.radius_y
}

/// The set of chunk coordinates that should be loaded for a viewer at
/// `pos`: every coordinate within the configured radius of the viewer's
/// chunk, in both axes.
pub open spec fn desired_set(pos: WorldPos, cfg: WorldConfig) -> Set<ChunkCoord> {
    Set::new(|c: ChunkCoord| in_desired_box(c, chunk_at_spec(pos, cfg), cfg))
}

/// Computes the desired chunk coordinates around the viewer as a
/// duplicate-free vector, scanning the box in x-major order.  Always
/// contains the chunk the viewer itself stands in.
pub fn desired_chunks(pos: WorldPos, cfg: &WorldConfig) -> (r: Vec<ChunkCoord>)
    requires
        cfg.valid(),
    ensures
        r@.no_duplicates(),
        forall|c: ChunkCoord| #[trigger] r@.contains(c) <==> desired_set(pos, *cfg).contains(c),
        forall|i: int| 0 <= i < r@.len() ==> in_coord_range(#[trigger] r@[i]),
        r@.contains(chunk_at_spec(pos, *cfg)),
        r@.len() == (2 * cfg.radius_x + 1) * (2 * cfg.radius_y + 1),
{
    let center: ChunkCoord = camera_pos_to_chunk_pos(pos, cfg);
    let x0: i64 = center.x - cfg.radius_x as i64;
    let x1: i64 = center.x + cfg.radius_x as i64;
    let y0: i64 = center.y - cfg.radius_y as i64;
    let y1: i64 = center.y + cfg.radius_y as i64;
    let mut r: Vec<ChunkCoord> = Vec::new();
    let mut x: i64 = x0;
    while x <= x1
        invariant
            x0 <= x <= x1 + 1,
            x0 == center.x - cfg.radius_x,
            x1 == center.x + cfg.radius_x,
            y0 == center.y - cfg.radius_y,
            y1 == center.y + cfg.radius_y,
            -CENTER_LIMIT <= center.x <= CENTER_LIMIT,
            -CENTER_LIMIT <= center.y <= CENTER_LIMIT,
            cfg.valid(),
            r@.no_duplicates(),
            forall|c: ChunkCoord| #[trigger] r@.contains(c) <==> (x0 <= c.x < x && y0 <= c.y
                <= y1),
            forall|i: int| 0 <= i < r@.len() ==> in_coord_range(#[trigger] r@[i]),
            r@.len() == (x - x0) * (2 * cfg.radius_y + 1),
        decreases x1 + 1 - x,
    {
        let mut y: i64 = y0;
        while y <= y1
            invariant
                x0 <= x <= x1,
                y0 <= y <= y1 + 1,
                x0 == center.x - cfg.radius_x,
                x1 == center.x + cfg.radius_x,
                y0 == center.y - cfg.radius_y,
                y1 == center.y + cfg.radius_y,
                -CENTER_LIMIT <= center.x <= CENTER_LIMIT,
                -CENTER_LIMIT <= center.y <= CENTER_LIMIT,
                cfg.valid(),
                r@.no_duplicates(),
                forall|c: ChunkCoord| #[trigger] r@.contains(c) <==> ((x0 <= c.x < x && y0 <= c.y
                    <= y1) || (c.x == x && y0 <= c.y < y)),
                forall|i: int| 0 <= i < r@.len() ==> in_coord_range(#[trigger] r@[i]),
                r@.len() == (x - x0) * (2 * cfg.radius_y + 1) + (y - y0),
            decreases y1 + 1 - y,
        {
            let c = ChunkCoord { x, y };
            proof {
                let old_r = r@;
                assert(!old_r.contains(c));
                lemma_push_contains(old_r, c);
                lemma_push_no_duplicates(old_r, c);
            }
            r.push(c);
            y = y + 1;
        }
        proof {
            assert((x - x0) * (2 * cfg.radius_y + 1) + (2 * cfg.radius_y + 1) == (x + 1 - x0) * (2
                * cfg.radius_y + 1)) by (nonlinear_arith);
        }
        x = x + 1;
    }
    proof {
        assert((x1 + 1 - x0) * (2 * cfg.radius_y + 1) == (2 * cfg.radius_x + 1) * (2
            * cfg.radius_y + 1)) by (nonlinear_arith)
            requires
                x1 + 1 - x0 == 2 * cfg.radius_x + 1,
        ;
    }
    proof {
        let center_c = chunk_at_spec(pos, *cfg);
        assert(desired_set(pos, *cfg).contains(center_c));
        assert(r@.contains(center_c));
    }
    r
}

/// After a push, a sequence contains exactly its old elements and the
/// pushed one.
proof fn lemma_push_contains<A>(s: Seq<A>, e: A)
    ensures
        forall|c: A| #[trigger] s.push(e).contains(c) <==> (s.contains(c) || c == e),
{
    assert forall|c: A| #[trigger] s.push(e).contains(c) implies (s.contains(c) || c == e) by {
        let i = choose|i: int| 0 <= i < s.push(e).len() && s.push(e)[i] == c;
        if i < s.len() {
            assert(s[i] == c);
        }
    }
    assert forall|c: A| (s.contains(c) || c == e) implies #[trigger] s.push(e).contains(c) by {
        if s.contains(c) {
            let i = choose|i: int| 0 <= i < s.len() && s[i] == c;
            assert(s.push(e)[i] == c);
        } else {
            assert(s.push(e)[s.len() as int] == e);
        }
    }
}

/// The coordinates of `desired` that are not yet loaded, in their original
/// order.
pub open spec fn diff_spec(desired: Seq<ChunkCoord>, loaded: Set<ChunkCoord>) -> Seq<ChunkCoord> {
    desired.filter(|c: ChunkCoord| !loaded.contains(c))
}

/// Recomputing the load diff from the same desired sequence against the
/// same loaded set yields the same coordinates: the diff is a pure
/// function, so back-to-back evaluations without intervening loads agree.
pub proof fn lemma_diff_idempotent(
    desired: Seq<ChunkCoord>,
    loaded: Set<ChunkCoord>,
    r1: Seq<ChunkCoord>,
    r2: Seq<ChunkCoord>,
)
    requires
        r1 == diff_spec(desired, loaded),
        r2 == diff_spec(desired, loaded),
    ensures
        r1 == r2,
{
}

/// Squared Euclidean distance between two points.
pub open spec fn dist_sq(ax: int, ay: int, bx: int, by: int) -> int {
    (ax - bx) * (ax - bx) + (ay - by) * (ay - by)
}

/// Whether the chunk at `c` is out of range of the viewer: its world-space
/// origin is farther from the viewer than the configured eviction
/// distance (compared by squared distances, which is exact on integers).
pub open spec fn evictable(c: ChunkCoord, pos: WorldPos, cfg: WorldConfig) -> bool {
    dist_sq(pos.x as int, pos.y as int, c.x * cfg.span_x(), c.y * cfg.span_y())
        > cfg.evict_distance * cfg.evict_distance
}

/// Decides [`evictable`] executably, using 128-bit intermediates so the
/// squared distances cannot overflow.
pub fn is_out_of_range(c: ChunkCoord, pos: WorldPos, cfg: &WorldConfig) -> (b: bool)
    requires
        cfg.valid(),
        in_coord_range(c),
    ensures
        b == evictable(c, pos, *cfg),
{
    let o: (i64, i64) = crate::chunk::world_origin(c, cfg);
    proof {
        cfg.lemma_dims_bounded();
        assert(-0x40000000000000 <= c.x * cfg.span_x() <= 0x40000000000000 && -0x40000000000000
            <= c.y * cfg.span_y() <= 0x40000000000000) by (nonlinear_arith)
            requires
                -CHUNK_COORD_LIMIT <= c.x <= CHUNK_COORD_LIMIT,
                -CHUNK_COORD_LIMIT <= c.y <= CHUNK_COORD_LIMIT,
                1 <= cfg.span_x() <= 0x100000,
                1 <= cfg.span_y() <= 0x100000,
        ;
    }
    let dx: i128 = pos.x as i128 - o.0 as i128;
    let dy: i128 = pos.y as i128 - o.1 as i128;
    proof {
        lemma_dist_sq_bounded(dx as int, dy as int);
    }
    let d2: i128 = dx * dx + dy * dy;
    let t: i128 = cfg.evict_distance as i128;
    proof {
        assert(t * t <= 0x1000000000000000) by (nonlinear_arith)
            requires
                0 <= t <= crate::config::MAX_EVICT_DISTANCE,
        ;
    }
    let t2: i128 = t * t;
    d2 > t2
}

/// Squared distances between a world position and an in-range chunk origin
/// fit comfortably in `i128`.
proof fn lemma_dist_sq_bounded(dx: int, dy: int)
    requires
        -0x100000000000000 <= dx <= 0x100000000000000,
        -0x100000000000000 <= dy <= 0x100000000000000,
    ensures
        0 <= dx * dx <= 0x10000000000000000000000000000,
        0 <= dy * dy <= 0x10000000000000000000000000000,
{
    assert(0 <= dx * dx <= 0x10000000000000000000000000000 && 0 <= dy * dy
        <= 0x10000000000000000000000000000) by (nonlinear_arith)
        requires
            -0x100000000000000 <= dx <= 0x100000000000000,
            -0x100000000000000 <= dy <= 0x100000000000000,
    ;
}

/// The authoritative tracker of which chunk coordinates are currently
/// materialized.  Internally a duplicate-free vector; all contracts speak
/// of the set of loaded coordinates.
#[derive(Debug)]
pub struct ChunkManager {
    loaded: Vec<ChunkCoord>,
}

impl ChunkManager {
    /// The loaded coordinates in their insertion order.
    pub closed spec fn loaded_seq(&self) -> Seq<ChunkCoord> {
        self.loaded@
    }

    /// The set of loaded chunk coordinates.
    pub open spec fn loaded_set(&self) -> Set<ChunkCoord> {
        self.loaded_seq().to_set()
    }

    /// Structural invariant: no coordinate is tracked twice, and every
    /// tracked coordinate is in the arithmetic-safe range.
    pub open spec fn wf(&self) -> bool {
        &&& self.loaded_seq().no_duplicates()
        &&& forall|i: int|
            0 <= i < self.loaded_seq().len() ==> in_coord_range(#[trigger] self.loaded_seq()[i])
    }

    /// An empty tracker: nothing is loaded.
    pub fn new() -> (m: ChunkManager)
        ensures
            m.wf(),
            m.loaded_set() == Set::<ChunkCoord>::empty(),
            m.loaded_seq() == Seq::<ChunkCoord>::empty(),
    {
        let m = ChunkManager { loaded: Vec::new() };
        proof {
            assert(m.loaded_seq() =~= Seq::<ChunkCoord>::empty());
            assert(m.loaded_set() =~= Set::<ChunkCoord>::empty());
        }
        m
    }

    /// Number of loaded chunks; with the invariant, the vector length and
    /// the set cardinality agree.
    pub fn loaded_count(&self) -> (n: usize)
        requires
            self.wf(),
        ensures
            n == self.loaded_seq().len(),
            n == self.loaded_set().len(),
    {
        proof {
            self.loaded_seq().unique_seq_to_set();
        }
        self.loaded.len()
    }

    /// The loaded coordinates, as a fresh vector in insertion order.
    pub fn loaded_coords(&self) -> (r: Vec<ChunkCoord>)
        ensures
            r@ == self.loaded_seq(),
    {
        let mut r: Vec<ChunkCoord> = Vec::new();
        let mut i: usize = 0;
        while i < self.loaded.len()
            invariant
                0 <= i <= self.loaded@.len(),
                r@ == self.loaded@.take(i as int),
            decreases self.loaded@.len() - i,
        {
            proof {
                assert(self.loaded@.take(i + 1) =~= self.loaded@.take(i as int).push(
                    self.loaded@[i as int],
                ));
            }
            r.push(self.loaded[i]);
            i = i + 1;
        }
        proof {
            assert(self.loaded@.take(self.loaded@.len() as int) =~= self.loaded@);
        }
        r
    }

    /// Whether the chunk at `c` is currently loaded.
    pub fn is_loaded(&self, c: ChunkCoord) -> (b: bool)
        ensures
            b == self.loaded_set().contains(c),
    {
        let mut i: usize = 0;
        while i < self.loaded.len()
            invariant
                0 <= i <= self.loaded@.len(),
                forall|j: int| 0 <= j < i ==> self.loaded@[j] != c,
            decreases self.loaded@.len() - i,
        {
            if self.loaded[i].x == c.x && self.loaded[i].y == c.y {
                return true;
            }
            i = i + 1;
        }
        proof {
            assert(!self.loaded@.contains(c));
        }
        false
    }

    /// Marks `c` as loaded.  The loaded set grows by exactly `c`; marking
    /// an already-loaded coordinate changes nothing, so the set stays
    /// duplicate-free.
    pub fn mark_loaded(&mut self, c: ChunkCoord)
        requires
            old(self).wf(),
            in_coord_range(c),
        ensures
            final(self).wf(),
            final(self).loaded_set() == old(self).loaded_set().insert(c),
            final(self).loaded_set().contains(c),
    {
        if !self.is_loaded(c) {
            proof {
                lemma_push_contains(self.loaded@, c);
                lemma_push_no_duplicates(self.loaded@, c);
            }
            let ghost pre = self.loaded@;
            self.loaded.push(c);
            proof {
                assert(self.loaded@.to_set() =~= pre.to_set().insert(c));
            }
        } else {
            proof {
                assert(self.loaded@.to_set() =~= self.loaded@.to_set().insert(c));
            }
        }
    }

    /// Marks `c` as unloaded.  The loaded set shrinks by exactly `c`; in
    /// particular `c` is absent afterwards and stays absent until it is
    /// explicitly marked loaded again.
    pub fn mark_unloaded(&mut self, c: ChunkCoord)
        requires
            old(self).wf(),
        ensures
            final(self).wf(),
            final(self).loaded_set() == old(self).loaded_set().remove(c),
            !final(self).loaded_set().contains(c),
    {
        let mut i: usize = 0;
        while i < self.loaded.len()
            invariant
                old(self) == self,
                old(self).wf(),
                0 <= i <= self.loaded@.len(),
                forall|j: int| 0 <= j < i ==> self.loaded@[j] != c,
            decreases self.loaded@.len() - i,
        {
            if self.loaded[i].x == c.x && self.loaded[i].y == c.y {
                proof {
                    lemma_remove_occurrence(self.loaded@, i as int);
                }
                self.loaded.remove(i);
                return ;
            }
            i = i + 1;
        }
        proof {
            assert(!self.loaded@.contains(c));
            assert(self.loaded@.to_set() =~= self.loaded@.to_set().remove(c));
        }
    }

    /// The coordinates of `desired` that are not yet loaded, in their
    /// original order.
    pub fn diff_to_load(&self, desired: &Vec<ChunkCoord>) -> (r: Vec<ChunkCoord>)
        ensures
            r@ == diff_spec(desired@, self.loaded_set()),
    {
        let ghost pred = |c: ChunkCoord| !self.loaded_set().contains(c);
        let mut r: Vec<ChunkCoord> = Vec::new();
        let mut i: usize = 0;
        proof {
            assert(desired@.take(0) =~= Seq::<ChunkCoord>::empty());
            reveal(Seq::filter);
        }
        while i < desired.len()
            invariant
                0 <= i <= desired@.len(),
                r@ == desired@.take(i as int).filter(pred),
                pred == (|c: ChunkCoord| !self.loaded_set().contains(c)),
            decreases desired@.len() - i,
        {
            proof {
                assert(desired@.take(i + 1) =~= desired@.take(i as int).push(
                    desired@[i as int],
                ));
                lemma_filter_push(desired@.take(i as int), desired@[i as int], pred);
            }
            if !self.is_loaded(desired[i]) {
                r.push(desired[i]);
            }
            i = i + 1;
        }
        proof {
            assert(desired@.take(desired@.len() as int) =~= desired@);
        }
        r
    }

    /// The loaded coordinates that are out of range of the viewer, in
    /// insertion order.
    pub fn chunks_out_of_range(&self, pos: WorldPos, cfg: &WorldConfig) -> (r: Vec<ChunkCoord>)
        requires
            self.wf(),
            cfg.valid(),
        ensures
            r@ == self.loaded_seq().filter(|c: ChunkCoord| evictable(c, pos, *cfg)),
    {
        let ghost pred = |c: ChunkCoord| evictable(c, pos, *cfg);
        let mut r: Vec<ChunkCoord> = Vec::new();
        let mut i: usize = 0;
        proof {
            assert(self.loaded@.take(0) =~= Seq::<ChunkCoord>::empty());
            reveal(Seq::filter);
        }
        while i < self.loaded.len()
            invariant
                self.wf(),
                cfg.valid(),
                0 <= i <= self.loaded@.len(),
                r@ == self.loaded@.take(i as int).filter(pred),
                pred == (|c: ChunkCoord| evictable(c, pos, *cfg)),
            decreases self.loaded@.len() - i,
        {
            proof {
                assert(self.loaded@.take(i + 1) =~= self.loaded@.take(i as int).push(
                    self.loaded@[i as int],
                ));
                lemma_filter_push(self.loaded@.take(i as int), self.loaded@[i as int], pred);
            }
            if is_out_of_range(self.loaded[i], pos, cfg) {
                r.push(self.loaded[i]);
            }
            i = i + 1;
        }
        proof {
            assert(self.loaded@.take(self.loaded@.len() as int) =~= self.loaded@);
        }
        r
    }
}

/// A filtered sequence contains exactly the original elements that satisfy
/// the predicate.
proof fn lemma_filter_membership<A>(s: Seq<A>, pred: spec_fn(A) -> bool)
    ensures
        forall|x: A| #[trigger] s.filter(pred).contains(x) <==> (s.contains(x) && pred(x)),
    decreases s.len(),
{
    reveal(Seq::filter);
    if s.len() > 0 {
        let d = s.drop_last();
        lemma_filter_membership(d, pred);
        assert forall|x: A| #[trigger] s.filter(pred).contains(x) implies (s.contains(x) && pred(
            x,
        )) by {
            if pred(s.last()) {
                lemma_push_contains(d.filter(pred), s.last());
                if x == s.last() {
                    assert(s[s.len() - 1] == x);
                } else {
                    assert(d.filter(pred).contains(x));
                    let i = choose|i: int| 0 <= i < d.len() && d[i] == x;
                    assert(s[i] == x);
                }
            } else {
                assert(d.filter(pred).contains(x));
                let i = choose|i: int| 0 <= i < d.len() && d[i] == x;
                assert(s[i] == x);
            }
        }
        assert forall|x: A| (s.contains(x) && pred(x)) implies #[trigger] s.filter(pred).contains(
            x,
        ) by {
            let i = choose|i: int| 0 <= i < s.len() && s[i] == x;
            if i == s.len() - 1 {
                assert(pred(s.last()));
                lemma_push_contains(d.filter(pred), s.last());
            } else {
                assert(d[i] == x);
                assert(d.filter(pred).contains(x));
                if pred(s.last()) {
                    lemma_push_contains(d.filter(pred), s.last());
                }
            }
        }
    }
}

/// Filtering a duplicate-free sequence yields a duplicate-free sequence.
proof fn lemma_filter_no_duplicates<A>(s: Seq<A>, pred: spec_fn(A) -> bool)
    requires
        s.no_duplicates(),
    ensures
        s.filter(pred).no_duplicates(),
    decreases s.len(),
{
    reveal(Seq::filter);
    if s.len() > 0 {
        let d = s.drop_last();
        assert(d.no_duplicates());
        lemma_filter_no_duplicates(d, pred);
        if pred(s.last()) {
            assert(!d.contains(s.last())) by {
                if d.contains(s.last()) {
                    let i = choose|i: int| 0 <= i < d.len() && d[i] == s.last();
                    assert(s[i] == s[s.len() - 1]);
                }
            }
            lemma_filter_membership(d, pred);
            lemma_push_no_duplicates(d.filter(pred), s.last());
        }
    }
}

/// Removing the only occurrence of a value from a duplicate-free sequence
/// removes exactly that value from the induced set.
proof fn lemma_remove_occurrence(s: Seq<ChunkCoord>, i: int)
    requires
        s.no_duplicates(),
        0 <= i < s.len(),
        forall|k: int| 0 <= k < s.len() ==> in_coord_range(#[trigger] s[k]),
    ensures
        s.remove(i).no_duplicates(),
        s.remove(i).to_set() == s.to_set().remove(s[i]),
        forall|k: int| 0 <= k < s.remove(i).len() ==> in_coord_range(#[trigger] s.remove(i)[k]),
{
    let c = s[i];
    let t = s.remove(i);
    s.remove_ensures(i);
    assert forall|k: int, l: int| 0 <= k < t.len() && 0 <= l < t.len() && k != l implies t[k]
        != t[l] by {
        let ks = if k < i {
            k
        } else {
            k + 1
        };
        let ls = if l < i {
            l
        } else {
            l + 1
        };
        assert(t[k] == s[ks] && t[l] == s[ls]);
    }
    assert forall|d: ChunkCoord| #[trigger] t.to_set().contains(d) implies s.to_set().remove(
        c,
    ).contains(d) by {
        let k = choose|k: int| 0 <= k < t.len() && t[k] == d;
        let ks = if k < i {
            k
        } else {
            k + 1
        };
        assert(s[ks] == d);
        assert(d != c);
    }
    assert forall|d: ChunkCoord| s.to_set().remove(c).contains(d) implies #[trigger] t.to_set()
        .contains(d) by {
        let k = choose|k: int| 0 <= k < s.len() && s[k] == d;
        if k < i {
            assert(t[k] == d);
        } else {
            assert(k != i);
            assert(t[k - 1] == d);
        }
    }
    assert(t.to_set() =~= s.to_set().remove(c));
    assert forall|k: int| 0 <= k < t.len() implies in_coord_range(#[trigger] t[k]) by {
        let ks = if k < i {
            k
        } else {
            k + 1
        };
        assert(t[k] == s[ks]);
    }
}

/// The chunk coordinates of a sequence of chunks, in order.
pub open spec fn chunk_positions(s: Seq<crate::chunk::Chunk>) -> Seq<ChunkCoord> {
    s.map_values(|ch: crate::chunk::Chunk| ch.pos)
}

/// The loaded set after one tick: everything that was loaded or desired,
/// minus what is out of range of the viewer.
pub open spec fn loaded_after_tick(before: Set<ChunkCoord>, pos: WorldPos, cfg: WorldConfig) -> Set<
    ChunkCoord,
> {
    Set::new(
        |c: ChunkCoord|
            (before.contains(c) || desired_set(pos, cfg).contains(c)) && !evictable(c, pos, cfg),
    )
}

/// The coordinates a tick materializes: desired but not yet loaded.
pub open spec fn created_set(before: Set<ChunkCoord>, pos: WorldPos, cfg: WorldConfig) -> Set<
    ChunkCoord,
> {
    Set::new(|c: ChunkCoord| desired_set(pos, cfg).contains(c) && !before.contains(c))
}

/// The coordinates a tick evicts: loaded (or just materialized) but out of
/// range of the viewer.
pub open spec fn destroyed_set(before: Set<ChunkCoord>, pos: WorldPos, cfg: WorldConfig) -> Set<
    ChunkCoord,
> {
    Set::new(
        |c: ChunkCoord|
            (before.contains(c) || desired_set(pos, cfg).contains(c)) && evictable(c, pos, cfg),
    )
}

/// The batch a tick hands to the host: chunks to materialize and chunk
/// coordinates whose representation should be torn down.
pub struct TickOutcome {
    /// Newly built chunks, each fully classified.
    pub created: Vec<crate::chunk::Chunk>,
    /// Coordinates of chunks that went out of range.
    pub destroyed: Vec<ChunkCoord>,
}

impl ChunkManager {
    /// One simulation tick: computes the chunks desired around the viewer,
    /// builds and registers every desired chunk that is not yet loaded,
    /// then evicts every loaded chunk that is out of range.  The outcome
    /// is the exact batch of created chunks (deterministically built from
    /// their coordinates and the configuration) and destroyed coordinates.
    pub fn tick(&mut self, pos: WorldPos, cfg: &WorldConfig) -> (out: TickOutcome)
        requires
            old(self).wf(),
            cfg.valid(),
        ensures
            final(self).wf(),
            final(self).loaded_set() == loaded_after_tick(old(self).loaded_set(), pos, *cfg),
            chunk_positions(out.created@).no_duplicates(),
            forall|i: int|
                0 <= i < out.created@.len() ==> (#[trigger] out.created@[i]).wf(*cfg)
                    && out.created@[i].tiles@ == crate::chunk::chunk_tiles_spec(
                    out.created@[i].pos,
                    *cfg,
                ),
            forall|c: ChunkCoord| #[trigger]
                chunk_positions(out.created@).contains(c) <==> created_set(
                    old(self).loaded_set(),
                    pos,
                    *cfg,
                ).contains(c),
            out.destroyed@.no_duplicates(),
            forall|c: ChunkCoord| #[trigger]
                out.destroyed@.contains(c) <==> destroyed_set(
                    old(self).loaded_set(),
                    pos,
                    *cfg,
                ).contains(c),
    {
        let ghost before = old(self).loaded_set();
        let desired: Vec<ChunkCoord> = desired_chunks(pos, cfg);
        let to_load: Vec<ChunkCoord> = self.diff_to_load(&desired);
        let ghost pred = |c: ChunkCoord| !before.contains(c);
        proof {
            lemma_filter_membership(desired@, pred);
            lemma_filter_no_duplicates(desired@, pred);
            assert forall|k: int| 0 <= k < to_load@.len() implies in_coord_range(
                #[trigger] to_load@[k],
            ) by {
                assert(to_load@.contains(to_load@[k]));
                assert(desired@.contains(to_load@[k]));
                let m = choose|m: int| 0 <= m < desired@.len() && desired@[m] == to_load@[k];
            }
        }
        let mut created: Vec<crate::chunk::Chunk> = Vec::new();
        let mut i: usize = 0;
        proof {
            assert(chunk_positions(created@) =~= to_load@.take(0));
            assert(self.loaded_set() =~= before.union(to_load@.take(0).to_set()));
        }
        while i < to_load.len()
            invariant
                cfg.valid(),
                self.wf(),
                0 <= i <= to_load@.len(),
                to_load@.no_duplicates(),
                forall|k: int| 0 <= k < to_load@.len() ==> in_coord_range(#[trigger] to_load@[k]),
                created@.len() == i,
                chunk_positions(created@) == to_load@.take(i as int),
                forall|k: int|
                    0 <= k < i ==> (#[trigger] created@[k]).wf(*cfg) && created@[k].tiles@
                        == crate::chunk::chunk_tiles_spec(created@[k].pos, *cfg),
                self.loaded_set() == before.union(to_load@.take(i as int).to_set()),
            decreases to_load@.len() - i,
        {
            let c: ChunkCoord = to_load[i];
            let ch: crate::chunk::Chunk = crate::chunk::build_chunk(c, cfg);
            self.mark_loaded(c);
            proof {
                let prev = created@;
                assert(prev.push(ch).map_values(|x: crate::chunk::Chunk| x.pos) =~= prev
                    .map_values(|x: crate::chunk::Chunk| x.pos).push(ch.pos));
                assert(to_load@.take(i + 1) =~= to_load@.take(i as int).push(c));
                lemma_to_set_push(to_load@.take(i as int), c);
                assert(before.union(to_load@.take(i as int).to_set()).insert(c) =~= before.union(
                    to_load@.take(i + 1).to_set(),
                ));
            }
            created.push(ch);
            i = i + 1;
        }
        proof {
            assert(to_load@.take(to_load@.len() as int) =~= to_load@);
            assert(self.loaded_set() =~= before.union(desired_set(pos, *cfg))) by {
                assert forall|c: ChunkCoord| #[trigger]
                    self.loaded_set().contains(c)
                        <==> before.contains(c) || desired_set(pos, *cfg).contains(c) by {
                    assert(self.loaded_set().contains(c) <==> before.contains(c)
                        || to_load@.to_set().contains(c));
                    assert(to_load@.to_set().contains(c) <==> (desired@.contains(c)
                        && !before.contains(c)));
                }
            }
        }
        let ghost mid = self.loaded_set();
        let ghost mid_seq = self.loaded_seq();
        let stale: Vec<ChunkCoord> = self.chunks_out_of_range(pos, cfg);
        let ghost evict_pred = |c: ChunkCoord| evictable(c, pos, *cfg);
        proof {
            lemma_filter_membership(mid_seq, evict_pred);
            lemma_filter_no_duplicates(mid_seq, evict_pred);
            assert(stale@.take(0) =~= Seq::<ChunkCoord>::empty());
        }
        let mut j: usize = 0;
        while j < stale.len()
            invariant
                cfg.valid(),
                self.wf(),
                0 <= j <= stale@.len(),
                forall|c: ChunkCoord| #[trigger]
                    stale@.contains(c) <==> (mid.contains(c) && evictable(c, pos, *cfg)),
                forall|c: ChunkCoord| #[trigger]
                    self.loaded_set().contains(c) <==> (mid.contains(c) && !stale@.take(
                        j as int,
                    ).to_set().contains(c)),
            decreases stale@.len() - j,
        {
            let c: ChunkCoord = stale[j];
            self.mark_unloaded(c);
            proof {
                assert(stale@.take(j + 1) =~= stale@.take(j as int).push(c));
                lemma_to_set_push(stale@.take(j as int), c);
            }
            j = j + 1;
        }
        proof {
            assert(stale@.take(stale@.len() as int) =~= stale@);
            assert(self.loaded_set() =~= loaded_after_tick(before, pos, *cfg)) by {
                assert forall|c: ChunkCoord|
                    self.loaded_set().contains(c) <==> #[trigger] loaded_after_tick(
                        before,
                        pos,
                        *cfg,
                    ).contains(c) by {
                    assert(mid.contains(c) <==> before.contains(c) || desired_set(
                        pos,
                        *cfg,
                    ).contains(c));
                    assert(stale@.to_set().contains(c) <==> stale@.contains(c));
                }
            }
            assert forall|c: ChunkCoord| #[trigger]
                chunk_positions(created@).contains(c) <==> created_set(before, pos, *cfg).contains(
                c,
            ) by {
                assert(chunk_positions(created@) == to_load@);
                assert(to_load@.contains(c) <==> (desired@.contains(c) && !before.contains(c)));
            }
            assert forall|c: ChunkCoord| #[trigger]
                stale@.contains(c) <==> destroyed_set(before, pos, *cfg).contains(c) by {
                assert(mid.contains(c) <==> before.contains(c) || desired_set(pos, *cfg).contains(
                    c,
                ));
            }
        }
        TickOutcome { created, destroyed: stale }
    }
}

/// The given set with every coordinate of `cs` marked loaded, in order.
pub open spec fn with_all_loaded(s: Set<ChunkCoord>, cs: Seq<ChunkCoord>) -> Set<ChunkCoord>
    decreases cs.len(),
{
    if cs.len() == 0 {
        s
    } else {
        with_all_loaded(s, cs.drop_last()).insert(cs.last())
    }
}

/// Eviction safety: once a coordinate is marked unloaded, it stays absent
/// from the loaded set through any further loads that do not name it
/// again, until it is explicitly re-marked loaded.
pub proof fn lemma_unloaded_stays_absent(
    s: Set<ChunkCoord>,
    c: ChunkCoord,
    later: Seq<ChunkCoord>,
)
    requires
        !later.contains(c),
    ensures
        !with_all_loaded(s.remove(c), later).contains(c),
    decreases later.len(),
{
    if later.len() > 0 {
        assert(!later.drop_last().contains(c)) by {
            if later.drop_last().contains(c) {
                let i = choose|i: int| 0 <= i < later.len() - 1 && later.drop_last()[i] == c;
                assert(later[i] == c);
            }
        }
        lemma_unloaded_stays_absent(s, c, later.drop_last());
        assert(later[later.len() - 1] != c);
    }
}

/// Pushing an element inserts it into the induced set.
proof fn lemma_to_set_push<A>(s: Seq<A>, e: A)
    ensures
        s.push(e).to_set() == s.to_set().insert(e),
{
    lemma_push_contains(s, e);
    assert(s.push(e).to_set() =~= s.to_set().insert(e));
}

/// Filtering after a push keeps the old filtered prefix and appends the
/// new element exactly when it satisfies the predicate.
proof fn lemma_filter_push<A>(s: Seq<A>, e: A, pred: spec_fn(A) -> bool)
    ensures
        pred(e) ==> s.push(e).filter(pred) == s.filter(pred).push(e),
        !pred(e) ==> s.push(e).filter(pred) == s.filter(pred),
{
    reveal(Seq::filter);
    assert(s.push(e).drop_last() =~= s);
    assert(s.push(e).last() == e);
}

/// Pushing an element that is not yet present preserves freedom from
/// duplicates.
proof fn lemma_push_no_duplicates<A>(s: Seq<A>, e: A)
    requires
        s.no_duplicates(),
        !s.contains(e),
    ensures
        s.push(e).no_duplicates(),
{
    assert forall|i: int, j: int|
        0 <= i < s.push(e).len() && 0 <= j < s.push(e).len() && i != j implies s.push(e)[i]
        != s.push(e)[j] by {
        if i < s.len() && j < s.len() {
            assert(s[i] == s.push(e)[i] && s[j] == s.push(e)[j]);
        } else if i < s.len() {
            assert(s.push(e)[j] == e);
            assert(s[i] != e);
        } else {
            assert(s.push(e)[i] == e);
            assert(s[j] != e);
        }
    }
}

} // verus!
