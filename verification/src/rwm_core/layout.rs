//! Layout system — tiling algorithms as values implementing `Layout`.
//!
//! Every algorithm computes, for the visible tiled clients of a monitor, the
//! target geometry of each client inside the usable area.

use vstd::prelude::*;
use vstd::arithmetic::div_mod::{lemma_fundamental_div_mod, lemma_mod_pos_bound};
use crate::rwm_core::{Rect, wrap_i32, in_i32, u32_as_i32, spec_max};
use crate::rwm_core::client::{Client, ClientId};
use crate::rwm_core::monitor::Monitor;

verus! {

/// Stable layout identifier (index into the layout registry).
#[derive(Debug, Clone, Copy, PartialEq, Eq, Hash, Default, Structural)]
pub struct LayoutId(pub usize);

/// Result of a layout arrangement — maps each client to its target geometry.
pub type Arrangement = Vec<(ClientId, Rect)>;

// ── Integer helpers ──────────────────────────────────────────────────

/// Integer division rounding toward zero, as Rust's `/` on signed integers.
pub open spec fn trunc_div(a: int, b: int) -> int {
    if a >= 0 { a / b } else { -((-a) / b) }
}

/// Signed division rounding toward zero.
pub fn div_trunc(a: i32, b: i32) -> (r: i32)
    requires
        b > 0,
    ensures
        r == trunc_div(a as int, b as int),
{
    if a >= 0 {
        let q: u32 = (a as u32) / (b as u32);
        proof {
            lemma_div_le_numerator(a as int, b as int);
        }
        q as i32
    } else {
        let m: u64 = (-(a as i64)) as u64;
        let q: u64 = m / (b as u64);
        proof {
            lemma_div_le_numerator(m as int, b as int);
        }
        (-(q as i64)) as i32
    }
}

proof fn lemma_div_le_numerator(x: int, d: int)
    requires
        x >= 0,
        d > 0,
    ensures
        0 <= x / d <= x,
{
    lemma_fundamental_div_mod(x, d);
    lemma_mod_pos_bound(x, d);
    assert(0 <= x / d <= x) by (nonlinear_arith)
        requires
            x == d * (x / d) + x % d,
            0 <= x % d < d,
            x >= 0,
            d > 0,
    ;
}

/// `floor(x/d) + floor(y/d) <= floor((x+y)/d)` for non-negative numerators.
proof fn lemma_floor_add(x: int, y: int, d: int)
    requires
        x >= 0,
        y >= 0,
        d > 0,
    ensures
        x / d + y / d <= (x + y) / d,
{
    lemma_fundamental_div_mod(x, d);
    lemma_mod_pos_bound(x, d);
    lemma_fundamental_div_mod(y, d);
    lemma_mod_pos_bound(y, d);
    lemma_fundamental_div_mod(x + y, d);
    lemma_mod_pos_bound(x + y, d);
    assert(x / d + y / d <= (x + y) / d) by (nonlinear_arith)
        requires
            x == d * (x / d) + x % d,
            0 <= x % d < d,
            y == d * (y / d) + y % d,
            0 <= y % d < d,
            x + y == d * ((x + y) / d) + (x + y) % d,
            0 <= (x + y) % d < d,
            d > 0,
    ;
}

/// `floor(x/d) <= floor(y/d)` when `x <= y`.
proof fn lemma_floor_mono(x: int, y: int, d: int)
    requires
        0 <= x <= y,
        d > 0,
    ensures
        x / d <= y / d,
{
    vstd::arithmetic::div_mod::lemma_div_is_ordered(x, y, d);
}

// ── Effective gaps helper ────────────────────────────────────────────

/// Gap values `(outer_h, outer_v, inner_h, inner_v)` used for `n` clients.
pub open spec fn spec_effective_gaps(mon: Monitor, n: int, smart_gaps: bool) -> (i32, i32, i32, i32) {
    if n == 0 || (smart_gaps && n == 1) {
        (0, 0, 0, 0)
    } else {
        (mon.gap_outer_h, mon.gap_outer_v, mon.gap_inner_h, mon.gap_inner_v)
    }
}

/// Compute effective gap values respecting smart_gaps (no outer gap with 1 client).
pub fn effective_gaps(mon: &Monitor, client_count: usize, smart_gaps: bool) -> (r: (
    i32,
    i32,
    i32,
    i32,
))
    ensures
        r == spec_effective_gaps(*mon, client_count as int, smart_gaps),
{
    if client_count == 0 {
        return (0, 0, 0, 0);
    }
    let (oh, ov, ih, iv) = (mon.gap_outer_h, mon.gap_outer_v, mon.gap_inner_h, mon.gap_inner_v);
    if smart_gaps && client_count == 1 {
        (0, 0, 0, 0)
    } else {
        (oh, ov, ih, iv)
    }
}

// ── cfact-weighted sizes ─────────────────────────────────────────────

/// Sum of the size factors.
pub open spec fn sum_u32(s: Seq<u32>) -> int
    decreases s.len(),
{
    if s.len() == 0 { 0 } else { sum_u32(s.drop_last()) + s.last() }
}

/// Sum of a sequence of sizes.
pub open spec fn sum_i32(s: Seq<i32>) -> int
    decreases s.len(),
{
    if s.len() == 0 { 0 } else { sum_i32(s.drop_last()) + s.last() }
}

/// The share of `total` given to a client with factor `c` out of `sum`,
/// rounded toward zero.
pub open spec fn share(c: int, total: int, sum: int) -> int {
    if total >= 0 { (c * total) / sum } else { -((c * (-total)) / sum) }
}

/// Sum of the shares of the first `k` factors.
pub open spec fn shares_prefix(cf: Seq<u32>, total: int, sum: int, k: int) -> int
    decreases k,
{
    if k <= 0 { 0 } else { shares_prefix(cf, total, sum, k - 1) + share(cf[k - 1] as int, total, sum) }
}

/// The cfact-weighted sizes for factors `cf` sharing `total` pixels: each but
/// the last client gets its share rounded toward zero, the last gets the
/// remainder; with all factors zero the clients share equally, each but the
/// last getting `total / n` and the last the remainder.
pub open spec fn spec_cfact_sizes(cf: Seq<u32>, total: int) -> Seq<int> {
    let n = cf.len() as int;
    let sum = sum_u32(cf);
    if n == 0 {
        Seq::empty()
    } else if sum == 0 {
        Seq::new(n as nat, |i: int| if i == n - 1 { total - (n - 1) * trunc_div(total, n) } else { trunc_div(total, n) })
    } else {
        Seq::new(
            n as nat,
            |i: int|
                if i == n - 1 { total - shares_prefix(cf, total, sum, n - 1) } else { share(cf[i] as int, total, sum) },
        )
    }
}

/// The size factors of a list of clients.
pub open spec fn cfacts(clients: Seq<&Client>) -> Seq<u32> {
    Seq::new(clients.len(), |i: int| clients[i].cfact_pct)
}

proof fn lemma_sum_u32_prefix_bound(cf: Seq<u32>, k: int)
    requires
        0 <= k <= cf.len(),
    ensures
        0 <= sum_u32(cf.subrange(0, k)) <= sum_u32(cf),
        sum_u32(cf.subrange(0, k)) <= k * 0xffff_ffff,
    decreases cf.len() - k,
{
    if k == cf.len() {
        assert(cf.subrange(0, k) == cf);
        lemma_sum_u32_bound(cf);
    } else {
        lemma_sum_u32_prefix_bound(cf, k + 1);
        assert(cf.subrange(0, k + 1).drop_last() == cf.subrange(0, k));
        lemma_sum_u32_bound(cf.subrange(0, k));
    }
}

proof fn lemma_sum_u32_bound(cf: Seq<u32>)
    ensures
        0 <= sum_u32(cf) <= cf.len() * 0xffff_ffff,
    decreases cf.len(),
{
    if cf.len() > 0 {
        lemma_sum_u32_bound(cf.drop_last());
    }
}

/// The shares of the first `k` factors never exceed `total` in magnitude and
/// have its sign.
proof fn lemma_shares_prefix_bound(cf: Seq<u32>, total: int, sum: int, k: int)
    requires
        0 <= k <= cf.len(),
        sum == sum_u32(cf),
        sum > 0,
    ensures
        total >= 0 ==> 0 <= shares_prefix(cf, total, sum, k) <= (sum_u32(cf.subrange(0, k)) * total) / sum,
        total < 0 ==> -((sum_u32(cf.subrange(0, k)) * (-total)) / sum) <= shares_prefix(cf, total, sum, k) <= 0,
        total >= 0 ==> shares_prefix(cf, total, sum, k) <= total,
        total < 0 ==> total <= shares_prefix(cf, total, sum, k),
    decreases k,
{
    let m = if total >= 0 { total } else { -total };
    lemma_sum_u32_prefix_bound(cf, k);
    let pk = sum_u32(cf.subrange(0, k));
    if k > 0 {
        lemma_shares_prefix_bound(cf, total, sum, k - 1);
        lemma_sum_u32_prefix_bound(cf, k - 1);
        let p = sum_u32(cf.subrange(0, k - 1));
        assert(cf.subrange(0, k).drop_last() == cf.subrange(0, k - 1));
        assert(pk == p + cf[k - 1]);
        let c = cf[k - 1] as int;
        assert(p * m >= 0 && c * m >= 0) by (nonlinear_arith)
            requires p >= 0, c >= 0, m >= 0;
        lemma_floor_add(p * m, c * m, sum);
        assert(p * m + c * m == pk * m) by (nonlinear_arith)
            requires pk == p + c;
        lemma_div_le_numerator(c * m, sum);
    }
    // the prefix factors sum to at most `sum`, so the bound is at most `m`
    assert(0 <= pk * m <= sum * m) by (nonlinear_arith)
        requires 0 <= pk <= sum, m >= 0;
    lemma_floor_mono(pk * m, sum * m, sum);
    assert((sum * m) / sum == m) by {
        vstd::arithmetic::div_mod::lemma_div_multiples_vanish(m, sum);
    }
}

/// The sizes of a non-empty list always add up to the shared total.
pub proof fn lemma_cfact_sizes_sum(cf: Seq<u32>, total: int)
    requires
        cf.len() > 0,
    ensures
        seq_sum_int(spec_cfact_sizes(cf, total)) == total,
{
    let n = cf.len() as int;
    let s = spec_cfact_sizes(cf, total);
    assert(s.subrange(0, n - 1) == s.drop_last());
    if sum_u32(cf) > 0 {
        lemma_seq_sum_int_prefix_shares(cf, total, n - 1);
    } else {
        let q = trunc_div(total, n);
        lemma_sum_u32_bound(cf);
        assert(sum_u32(cf) == 0);
        assert forall|i: int| 0 <= i < n - 1 implies s[i] == q by {}
        lemma_seq_sum_equal_prefix(s, q, n - 1);
        assert(seq_sum_int(s) == seq_sum_int(s.drop_last()) + s[n - 1]);
        assert(s[n - 1] == total - (n - 1) * q);
    }
}

proof fn lemma_seq_sum_equal_prefix(s: Seq<int>, q: int, k: int)
    requires
        0 <= k <= s.len(),
        forall|i: int| 0 <= i < k ==> s[i] == q,
    ensures
        seq_sum_int(s.subrange(0, k)) == k * q,
    decreases k,
{
    if k > 0 {
        lemma_seq_sum_equal_prefix(s, q, k - 1);
        let sub = s.subrange(0, k);
        assert(sub.drop_last() == s.subrange(0, k - 1));
        assert(sub[k - 1] == q);
        assert(seq_sum_int(sub) == seq_sum_int(sub.drop_last()) + sub[k - 1]);
        assert(k * q == (k - 1) * q + q) by (nonlinear_arith);
    } else {
        assert(s.subrange(0, 0) == Seq::<int>::empty());
    }
}

/// A sequence of sizes equal to one of integers has the same sum.
proof fn lemma_sum_i32_matches(r: Seq<i32>, s: Seq<int>)
    requires
        r.len() == s.len(),
        forall|i: int| 0 <= i < r.len() ==> r[i] as int == #[trigger] s[i],
    ensures
        sum_i32(r) == seq_sum_int(s),
    decreases r.len(),
{
    if r.len() > 0 {
        assert forall|i: int| 0 <= i < r.len() - 1 implies r.drop_last()[i] as int == #[trigger] s.drop_last()[i] by {
            assert(r[i] as int == s[i]);
        }
        lemma_sum_i32_matches(r.drop_last(), s.drop_last());
        assert(r[r.len() - 1] as int == s[s.len() - 1]);
    }
}

/// The remainder left for the last of `n` equal shares of `total` fits in
/// an `i32` when `total` does.
proof fn lemma_equal_share_fits(total: int, n: int)
    requires
        n >= 1,
        i32::MIN <= total <= i32::MAX,
    ensures
        i32::MIN <= total - (n - 1) * trunc_div(total, n) <= i32::MAX,
        i64::MIN <= (n - 1) * trunc_div(total, n) <= i64::MAX,
{
    let m = if total >= 0 { total } else { -total };
    let q = m / n;
    vstd::arithmetic::div_mod::lemma_fundamental_div_mod(m, n);
    vstd::arithmetic::div_mod::lemma_mod_pos_bound(m, n);
    assert(0 <= q);
    assert(0 <= (n - 1) * q <= n * q) by (nonlinear_arith) requires n >= 1, q >= 0;
    assert(n * q <= m) by (nonlinear_arith) requires m == n * q + m % n, m % n >= 0;
    if total >= 0 {
        assert(trunc_div(total, n) == q);
    } else {
        assert(trunc_div(total, n) == -q);
        assert((n - 1) * (-q) == -((n - 1) * q)) by (nonlinear_arith);
    }
}

/// Sum of a sequence of integers.
pub open spec fn seq_sum_int(s: Seq<int>) -> int
    decreases s.len(),
{
    if s.len() == 0 { 0 } else { seq_sum_int(s.drop_last()) + s.last() }
}

proof fn lemma_seq_sum_int_prefix_shares(cf: Seq<u32>, total: int, k: int)
    requires
        cf.len() > 0,
        sum_u32(cf) > 0,
        0 <= k <= cf.len() - 1,
    ensures
        seq_sum_int(spec_cfact_sizes(cf, total).subrange(0, k)) == shares_prefix(cf, total, sum_u32(cf), k),
    decreases k,
{
    let s = spec_cfact_sizes(cf, total);
    if k > 0 {
        lemma_seq_sum_int_prefix_shares(cf, total, k - 1);
        assert(s.subrange(0, k).drop_last() == s.subrange(0, k - 1));
    }
}

/// Compute cfact-weighted sizes for a list of clients sharing a dimension.
///
/// Returns a vec of pixel sizes that sum to `total_pixels`, weighted by each
/// client's size factor.
pub fn cfact_sizes(clients: &[&Client], total_pixels: i32) -> (r: Vec<i32>)
    requires
        clients@.len() <= i32::MAX,
    ensures
        r@.len() == clients@.len(),
        forall|i: int|
            0 <= i < r@.len() ==> r@[i] as int == #[trigger] spec_cfact_sizes(cfacts(clients@), total_pixels as int)[i],
        clients@.len() > 0 ==> sum_i32(r@) == total_pixels,
{
    let r = cfact_sizes_list(clients, total_pixels);
    proof {
        if clients@.len() > 0 {
            lemma_cfact_sizes_sum(cfacts(clients@), total_pixels as int);
            lemma_sum_i32_matches(r@, spec_cfact_sizes(cfacts(clients@), total_pixels as int));
        }
    }
    r
}

fn cfact_sizes_list(clients: &[&Client], total_pixels: i32) -> (r: Vec<i32>)
    requires
        clients@.len() <= i32::MAX,
    ensures
        r@.len() == clients@.len(),
        forall|i: int|
            0 <= i < r@.len() ==> r@[i] as int == #[trigger] spec_cfact_sizes(cfacts(clients@), total_pixels as int)[i],
{
    let n = clients.len();
    let ghost cf = cfacts(clients@);
    if n == 0 {
        return Vec::new();
    }
    let mut total: u64 = 0;
    let mut i: usize = 0;
    while i < n
        invariant
            n == clients@.len(),
            n <= i32::MAX,
            cf == cfacts(clients@),
            i <= n,
            total == sum_u32(cf.subrange(0, i as int)),
        decreases n - i,
    {
        proof {
            lemma_sum_u32_prefix_bound(cf, i as int);
            assert(cf.subrange(0, i + 1).drop_last() == cf.subrange(0, i as int));
        }
        total = total + clients[i].cfact_pct as u64;
        i += 1;
    }
    assert(cf.subrange(0, n as int) == cf);
    if total == 0 {
        let each = div_trunc(total_pixels, n as i32);
        proof { lemma_equal_share_fits(total_pixels as int, n as int); }
        let last = (total_pixels as i64 - (n as i64 - 1) * (each as i64)) as i32;
        let mut sizes: Vec<i32> = Vec::new();
        let mut j: usize = 0;
        while j < n
            invariant
                j <= n,
                n == clients@.len(),
                cf == cfacts(clients@),
                sum_u32(cf) == 0,
                each == trunc_div(total_pixels as int, n as int),
                last == total_pixels - (n - 1) * trunc_div(total_pixels as int, n as int),
                sizes@.len() == j,
                forall|k: int| 0 <= k < j ==> sizes@[k] as int == #[trigger] spec_cfact_sizes(cf, total_pixels as int)[k],
            decreases n - j,
        {
            if j == n - 1 {
                sizes.push(last);
            } else {
                sizes.push(each);
            }
            j += 1;
        }
        return sizes;
    }
    let ghost sum = total as int;
    proof {
        lemma_sum_u32_bound(cf);
    }
    let neg = total_pixels < 0;
    let mag: u64 = if neg { (-(total_pixels as i64)) as u64 } else { total_pixels as u64 };
    let mut sizes: Vec<i32> = Vec::new();
    let mut used: i32 = 0;
    let mut k: usize = 0;
    while k < n
        invariant
            n == clients@.len(),
            n >= 1,
            cf == cfacts(clients@),
            sum == sum_u32(cf),
            sum == total,
            total > 0,
            total <= n * 0xffff_ffff,
            n <= i32::MAX,
            mag == (if total_pixels < 0 { -total_pixels } else { total_pixels as int }),
            neg == (total_pixels < 0),
            k <= n,
            sizes@.len() == k,
            used == shares_prefix(cf, total_pixels as int, sum, if k < n { k as int } else { n - 1 }),
            forall|j: int|
                0 <= j < k ==> sizes@[j] as int == #[trigger] spec_cfact_sizes(cf, total_pixels as int)[j],
        decreases n - k,
    {
        proof {
            lemma_sum_u32_bound(cf);
        }
        if k == n - 1 {
            proof {
                lemma_shares_prefix_bound(cf, total_pixels as int, sum, k as int);
            }
            sizes.push(total_pixels - used);
        } else {
            let c = clients[k].cfact_pct as u64;
            assert(c * mag <= 0xffff_ffff * 0x8000_0000) by (nonlinear_arith)
                requires c <= 0xffff_ffff, mag <= 0x8000_0000;
            let q: u64 = (c * mag) / total;
            proof {
                lemma_shares_prefix_bound(cf, total_pixels as int, sum, (k + 1) as int);
                lemma_shares_prefix_bound(cf, total_pixels as int, sum, k as int);
                assert(cf[k as int] == clients@[k as int].cfact_pct);
            }
            let sq: i64 = if neg { -(q as i64) } else { q as i64 };
            assert(sq == share(cf[k as int] as int, total_pixels as int, sum));
            assert(shares_prefix(cf, total_pixels as int, sum, (k + 1) as int)
                == shares_prefix(cf, total_pixels as int, sum, k as int) + sq);
            let s: i32 = sq as i32;
            sizes.push(s);
            used = used + s;
        }
        k += 1;
    }
    sizes
}


// ── Runs of windows along one axis ───────────────────────────────────

/// Start position of the `i`-th window of a run beginning at `start`, where
/// each window is followed by `gap` pixels.
pub open spec fn run_pos(start: int, sizes: Seq<int>, gap: int, i: int) -> int
    decreases i,
{
    if i <= 0 { start } else { run_pos(start, sizes, gap, i - 1) + sizes[i - 1] + gap }
}

/// Walking along the run never leaves `i32`.
pub open spec fn run_fits(start: int, sizes: Seq<int>, gap: int) -> bool {
    &&& in_i32(start)
    &&& forall|i: int| 0 <= i < sizes.len() ==> #[trigger] in_i32(sizes[i] + gap)
    &&& forall|i: int| 0 < i <= sizes.len() ==> #[trigger] in_i32(run_pos(start, sizes, gap, i))
}

/// The rectangle of one window of a run: a column (`vertical`) at x = `fixed`
/// of width `thick`, or a row at y = `fixed` of height `thick`; sizes are at
/// least one pixel.
pub open spec fn run_rect(vertical: bool, fixed: int, thick: int, pos: int, size: int) -> Rect {
    if vertical {
        Rect { x: fixed as i32, y: pos as i32, w: spec_max(thick, 1) as u32, h: spec_max(size, 1) as u32 }
    } else {
        Rect { x: pos as i32, y: fixed as i32, w: spec_max(size, 1) as u32, h: spec_max(thick, 1) as u32 }
    }
}

/// The windows `ids` laid out one after another along an axis.
pub open spec fn run_rects(
    ids: Seq<ClientId>,
    vertical: bool,
    fixed: int,
    thick: int,
    start: int,
    sizes: Seq<int>,
    gap: int,
) -> Seq<(ClientId, Rect)> {
    Seq::new(
        ids.len(),
        |i: int| (ids[i], run_rect(vertical, fixed, thick, run_pos(start, sizes, gap, i), sizes[i])),
    )
}

/// Every `step`-th client starting at `start`, `count` of them: their ids.
pub open spec fn ids_of(cs: Seq<(ClientId, &Client)>, start: int, step: int, count: int) -> Seq<ClientId> {
    Seq::new(count as nat, |j: int| cs[start + j * step].0)
}

/// Every `step`-th client starting at `start`, `count` of them: their size factors.
pub open spec fn cfs_of(cs: Seq<(ClientId, &Client)>, start: int, step: int, count: int) -> Seq<u32> {
    Seq::new(count as nat, |j: int| cs[start + j * step].1.cfact_pct)
}

/// Pick every `step`-th client starting at `start`, `count` of them.
fn pick<'a>(cs: &[(ClientId, &'a Client)], start: usize, step: usize, count: usize) -> (r: (
    Vec<ClientId>,
    Vec<&'a Client>,
))
    requires
        step >= 1,
        count > 0 ==> start + (count - 1) * step < cs@.len(),
    ensures
        r.0@ == ids_of(cs@, start as int, step as int, count as int),
        r.1@.len() == count,
        cfacts(r.1@) == cfs_of(cs@, start as int, step as int, count as int),
{
    let mut ids: Vec<ClientId> = Vec::new();
    let mut refs: Vec<&'a Client> = Vec::new();
    let mut j: usize = 0;
    while j < count
        invariant
            step >= 1,
            count > 0 ==> start + (count - 1) * step < cs@.len(),
            j <= count,
            ids@.len() == j,
            refs@.len() == j,
            forall|k: int| 0 <= k < j ==> ids@[k] == cs@[start + k * step].0,
            forall|k: int| 0 <= k < j ==> refs@[k].cfact_pct == cs@[start + k * step].1.cfact_pct,
        decreases count - j,
    {
        assert(j * step <= (count - 1) * step) by (nonlinear_arith)
            requires j < count, step >= 1;
        assert(start + (count - 1) * step < cs@.len());
        assert(start + j * step < cs@.len());
        assert(cs@.len() == cs.len());
        let idx = start + j * step;
        ids.push(cs[idx].0);
        refs.push(cs[idx].1);
        j += 1;
    }
    assert(ids@ == ids_of(cs@, start as int, step as int, count as int));
    assert(cfacts(refs@) == cfs_of(cs@, start as int, step as int, count as int));
    (ids, refs)
}

/// Append the windows `ids` laid out along an axis.
fn push_run(
    result: &mut Vec<(ClientId, Rect)>,
    ids: &Vec<ClientId>,
    sizes: &Vec<i32>,
    vertical: bool,
    fixed: i32,
    thick: i32,
    start: i32,
    gap: i32,
)
    requires
        ids@.len() == sizes@.len(),
        run_fits(start as int, sizes@.map_values(|v: i32| v as int), gap as int),
    ensures
        final(result)@ == old(result)@ + run_rects(
            ids@,
            vertical,
            fixed as int,
            thick as int,
            start as int,
            sizes@.map_values(|v: i32| v as int),
            gap as int,
        ),
{
    let ghost sz = sizes@.map_values(|v: i32| v as int);
    let ghost base = old(result)@;
    let t: u32 = if thick >= 1 { thick as u32 } else { 1 };
    let mut p: i32 = start;
    let mut i: usize = 0;
    while i < ids.len()
        invariant
            ids@.len() == sizes@.len(),
            sz == sizes@.map_values(|v: i32| v as int),
            run_fits(start as int, sz, gap as int),
            t == spec_max(thick as int, 1),
            i <= ids@.len(),
            p == run_pos(start as int, sz, gap as int, i as int),
            result@ == base + run_rects(ids@, vertical, fixed as int, thick as int, start as int, sz, gap as int).subrange(0, i as int),
        decreases ids.len() - i,
    {
        let h = sizes[i];
        let hh: u32 = if h >= 1 { h as u32 } else { 1 };
        let r = if vertical { Rect { x: fixed, y: p, w: t, h: hh } } else { Rect { x: p, y: fixed, w: hh, h: t } };
        result.push((ids[i], r));
        assert(in_i32(sz[i as int] + gap));
        assert(in_i32(run_pos(start as int, sz, gap as int, i + 1)));
        p = p + (h + gap);
        i += 1;
        assert(run_rects(ids@, vertical, fixed as int, thick as int, start as int, sz, gap as int).subrange(0, i as int)
            == run_rects(ids@, vertical, fixed as int, thick as int, start as int, sz, gap as int).subrange(0, i - 1).push((ids@[i - 1], r)));
    }
    assert(run_rects(ids@, vertical, fixed as int, thick as int, start as int, sz, gap as int).subrange(0, ids@.len() as int)
        == run_rects(ids@, vertical, fixed as int, thick as int, start as int, sz, gap as int));
}


// ── Master / stack arrangements ──────────────────────────────────────

/// `v * pct / 100` rounded toward zero, saturated to the `i32` range (as a
/// float-to-integer conversion saturates).
pub open spec fn spec_scale_pct(v: int, pct: int) -> int {
    let q = trunc_div(v * pct, 100);
    if q > i32::MAX { i32::MAX as int } else if q < i32::MIN { i32::MIN as int } else { q }
}

/// Scale `v` by `pct` percent, rounding toward zero and saturating.
pub fn scale_pct(v: i32, pct: u32) -> (r: i32)
    ensures
        r == spec_scale_pct(v as int, pct as int),
{
    let neg = v < 0;
    let mag: u64 = if neg { (-(v as i64)) as u64 } else { v as u64 };
    assert(mag * pct <= 0x8000_0000 * 0xffff_ffff) by (nonlinear_arith)
        requires mag <= 0x8000_0000, pct <= 0xffff_ffff;
    assert(mag * pct >= 0) by (nonlinear_arith)
        requires mag >= 0, pct >= 0;
    let q: u64 = (mag * (pct as u64)) / 100;
    if neg {
        assert((v * pct) == -(mag * pct)) by (nonlinear_arith)
            requires mag == -v;
        if q > 0x8000_0000 { i32::MIN } else { (-(q as i64)) as i32 }
    } else {
        if q > 0x7fff_ffff { i32::MAX } else { q as i32 }
    }
}

pub open spec fn nat_minus_one(k: int) -> int {
    spec_max(k - 1, 0)
}

/// The usable frame of an arrangement: `(ax, ay, aw, ah)` for outer gaps
/// `oh` (vertical edges) and `ov` (horizontal edges).
pub open spec fn frame(area: Rect, oh: int, ov: int) -> (int, int, int, int) {
    (area.x + ov, area.y + oh, wrap_i32(area.w) - 2 * ov, wrap_i32(area.h) - 2 * oh)
}

pub open spec fn frame_fits(area: Rect, oh: int, ov: int) -> bool {
    &&& in_i32(area.x + ov)
    &&& in_i32(area.y + oh)
    &&& in_i32(2 * ov)
    &&& in_i32(2 * oh)
    &&& in_i32(wrap_i32(area.w) - 2 * ov)
    &&& in_i32(wrap_i32(area.h) - 2 * oh)
}

/// Compute the frame of an arrangement.
fn compute_frame(area: Rect, oh: i32, ov: i32) -> (r: (i32, i32, i32, i32))
    requires
        frame_fits(area, oh as int, ov as int),
    ensures
        (r.0 as int, r.1 as int, r.2 as int, r.3 as int) == frame(area, oh as int, ov as int),
{
    (area.x + ov, area.y + oh, u32_as_i32(area.w) - 2 * ov, u32_as_i32(area.h) - 2 * oh)
}

/// Master size along the cross axis.
pub open spec fn master_len(nm: int, ns: int, cross_len: int, mfact_pct: int) -> int {
    if nm == 0 || ns == 0 { cross_len } else { spec_scale_pct(cross_len, mfact_pct) }
}

/// The space shared by `k` windows of a run along `main_len` with gaps `gap`.
pub open spec fn run_total(main_len: int, gap: int, k: int) -> int {
    main_len - gap * nat_minus_one(k)
}

/// Sizes of the run of `count` clients starting at `start`.
pub open spec fn run_sizes(cs: Seq<(ClientId, &Client)>, start: int, step: int, count: int, total: int) -> Seq<int> {
    spec_cfact_sizes(cfs_of(cs, start, step, count), total)
}

/// Master/stack arrangement: `nm` master windows in a run along the main axis
/// at the start of the cross axis, the other clients in a second run beside it.
pub open spec fn spec_master_stack(
    cs: Seq<(ClientId, &Client)>,
    nm: int,
    cross_pos: int,
    cross_len: int,
    cross_gap: int,
    main_pos: int,
    main_len: int,
    main_gap: int,
    mfact_pct: int,
    vertical: bool,
) -> Seq<(ClientId, Rect)> {
    let n = cs.len() as int;
    let ns = n - nm;
    let mw = master_len(nm, ns, cross_len, mfact_pct);
    let sw = cross_len - mw - (if ns > 0 && nm > 0 { cross_gap } else { 0 });
    let masters = run_rects(
        ids_of(cs, 0, 1, nm),
        vertical,
        cross_pos,
        mw,
        main_pos,
        run_sizes(cs, 0, 1, nm, run_total(main_len, main_gap, nm)),
        main_gap,
    );
    if ns > 0 {
        let sx = cross_pos + mw + (if nm > 0 { cross_gap } else { 0 });
        masters + run_rects(
            ids_of(cs, nm, 1, ns),
            vertical,
            sx,
            sw,
            main_pos,
            run_sizes(cs, nm, 1, ns, run_total(main_len, main_gap, ns)),
            main_gap,
        )
    } else {
        masters
    }
}

/// The master/stack computation stays inside `i32`.
pub open spec fn master_stack_fits(
    cs: Seq<(ClientId, &Client)>,
    nm: int,
    cross_pos: int,
    cross_len: int,
    cross_gap: int,
    main_pos: int,
    main_len: int,
    main_gap: int,
    mfact_pct: int,
) -> bool {
    let n = cs.len() as int;
    let ns = n - nm;
    let mw = master_len(nm, ns, cross_len, mfact_pct);
    let g = if ns > 0 && nm > 0 { cross_gap } else { 0 };
    &&& in_i32(cross_len - mw)
    &&& in_i32(cross_len - mw - g)
    &&& in_i32(main_gap * nat_minus_one(nm))
    &&& in_i32(run_total(main_len, main_gap, nm))
    &&& run_fits(main_pos, run_sizes(cs, 0, 1, nm, run_total(main_len, main_gap, nm)), main_gap)
    &&& ns > 0 ==> {
        &&& in_i32(main_gap * nat_minus_one(ns))
        &&& in_i32(run_total(main_len, main_gap, ns))
        &&& in_i32(cross_pos + mw)
        &&& in_i32(cross_pos + mw + (if nm > 0 { cross_gap } else { 0 }))
        &&& run_fits(main_pos, run_sizes(cs, nm, 1, ns, run_total(main_len, main_gap, ns)), main_gap)
    }
}

/// `gap * max(k - 1, 0)` as computed for a run of `k` windows.
fn gaps_for(gap: i32, k: usize) -> (r: i32)
    requires
        k <= i32::MAX,
        in_i32(gap * nat_minus_one(k as int)),
    ensures
        r == gap * nat_minus_one(k as int),
{
    let km1: i32 = if k >= 1 { (k - 1) as i32 } else { 0 };
    gap * km1
}

/// Lay out a run of `count` clients (every `step`-th from `start`) along the
/// main axis and append it to `result`.
fn push_sized_run(
    result: &mut Vec<(ClientId, Rect)>,
    cs: &[(ClientId, &Client)],
    start: usize,
    step: usize,
    count: usize,
    total: i32,
    vertical: bool,
    fixed: i32,
    thick: i32,
    main_pos: i32,
    gap: i32,
)
    requires
        step >= 1,
        count <= i32::MAX,
        count > 0 ==> start + (count - 1) * step < cs@.len(),
        run_fits(main_pos as int, run_sizes(cs@, start as int, step as int, count as int, total as int), gap as int),
    ensures
        final(result)@ == old(result)@ + run_rects(
            ids_of(cs@, start as int, step as int, count as int),
            vertical,
            fixed as int,
            thick as int,
            main_pos as int,
            run_sizes(cs@, start as int, step as int, count as int, total as int),
            gap as int,
        ),
{
    let (ids, refs) = pick(cs, start, step, count);
    let sizes = cfact_sizes(refs.as_slice(), total);
    let ghost sz = run_sizes(cs@, start as int, step as int, count as int, total as int);
    assert(sizes@.map_values(|v: i32| v as int) == sz);
    push_run(result, &ids, &sizes, vertical, fixed, thick, main_pos, gap);
}

fn master_stack(
    result: &mut Vec<(ClientId, Rect)>,
    cs: &[(ClientId, &Client)],
    nm: usize,
    cross_pos: i32,
    cross_len: i32,
    cross_gap: i32,
    main_pos: i32,
    main_len: i32,
    main_gap: i32,
    mfact_pct: u32,
    vertical: bool,
)
    requires
        nm <= cs@.len() <= i32::MAX,
        master_stack_fits(
            cs@,
            nm as int,
            cross_pos as int,
            cross_len as int,
            cross_gap as int,
            main_pos as int,
            main_len as int,
            main_gap as int,
            mfact_pct as int,
        ),
    ensures
        final(result)@ == old(result)@ + spec_master_stack(
            cs@,
            nm as int,
            cross_pos as int,
            cross_len as int,
            cross_gap as int,
            main_pos as int,
            main_len as int,
            main_gap as int,
            mfact_pct as int,
            vertical,
        ),
{
    let n = cs.len();
    let ns = n - nm;
    let mw = if nm == 0 || ns == 0 { cross_len } else { scale_pct(cross_len, mfact_pct) };
    let g = if ns > 0 && nm > 0 { cross_gap } else { 0 };
    let sw = cross_len - mw - g;
    let mtotal = main_len - gaps_for(main_gap, nm);
    push_sized_run(result, cs, 0, 1, nm, mtotal, vertical, cross_pos, mw, main_pos, main_gap);
    if ns > 0 {
        let sx = cross_pos + mw + if nm > 0 { cross_gap } else { 0 };
        let stotal = main_len - gaps_for(main_gap, ns);
        push_sized_run(result, cs, nm, 1, ns, stotal, vertical, sx, sw, main_pos, main_gap);
    }
}


// ══════════════════════════════════════════════════════════════════════
//  The layout trait
// ══════════════════════════════════════════════════════════════════════

/// The core layout trait. Every tiling algorithm implements this.
pub trait Layout {
    /// The arrangement this layout computes for the visible tiled clients `cs`
    /// of `mon` inside `area`.
    spec fn spec_arrange(&self, mon: Monitor, cs: Seq<(ClientId, &Client)>, area: Rect) -> Seq<(ClientId, Rect)>;

    /// The arrangement computation stays inside `i32`.
    spec fn arrange_fits(&self, mon: Monitor, cs: Seq<(ClientId, &Client)>, area: Rect) -> bool;

    spec fn spec_symbol(&self) -> Seq<char>;

    spec fn spec_name(&self) -> Seq<char>;

    /// Human-readable symbol (e.g. "[]=", "[M]", "[@]").
    fn symbol(&self) -> (r: &'static str)
        ensures
            r@ == self.spec_symbol(),
    ;

    /// Compute the arrangement of visible tiled clients within the given area.
    ///
    /// * `mon` — the monitor providing mfact, nmaster, gap values
    /// * `clients` — the visible, non-floating clients with their ids
    /// * `area` — usable window area (already excludes bar)
    fn arrange(&self, mon: &Monitor, clients: &[(ClientId, &Client)], area: Rect) -> (r: Arrangement)
        requires
            clients@.len() <= i32::MAX,
            self.arrange_fits(*mon, clients@, area),
        ensures
            r@ == self.spec_arrange(*mon, clients@, area),
    ;

    /// Short name for config files.
    fn name(&self) -> (r: &'static str)
        ensures
            r@ == self.spec_name(),
    ;
}

pub open spec fn min_usize(a: int, b: int) -> int {
    if a <= b { a } else { b }
}

// ══════════════════════════════════════════════════════════════════════
//  Built-in Layout: Tile (master/stack)
// ══════════════════════════════════════════════════════════════════════

/// Classic master/stack tiling, as dwm's `tile()` with vanitygaps.
pub struct TileLayout {
    pub smart_gaps: bool,
}

/// Master column on the left, stack column on the right.
pub open spec fn spec_tile(mon: Monitor, cs: Seq<(ClientId, &Client)>, area: Rect, smart_gaps: bool) -> Seq<(ClientId, Rect)> {
    let n = cs.len() as int;
    if n == 0 {
        Seq::empty()
    } else {
        let (oh, ov, ih, iv) = spec_effective_gaps(mon, n, smart_gaps);
        let (ax, ay, aw, ah) = frame(area, oh as int, ov as int);
        spec_master_stack(cs, min_usize(mon.nmaster as int, n), ax, aw, iv as int, ay, ah, ih as int, mon.mfact_pct as int, true)
    }
}

pub open spec fn tile_fits(mon: Monitor, cs: Seq<(ClientId, &Client)>, area: Rect, smart_gaps: bool) -> bool {
    let n = cs.len() as int;
    let (oh, ov, ih, iv) = spec_effective_gaps(mon, n, smart_gaps);
    let (ax, ay, aw, ah) = frame(area, oh as int, ov as int);
    n > 0 ==> {
        &&& frame_fits(area, oh as int, ov as int)
        &&& master_stack_fits(cs, min_usize(mon.nmaster as int, n), ax, aw, iv as int, ay, ah, ih as int, mon.mfact_pct as int)
    }
}

/// The tile layout puts the first `nmaster` windows (all of them when there
/// are fewer) in a master column at the left edge of the frame (the area
/// less the outer gaps), as wide as the `mfact` share of the frame, or the
/// whole frame when one of the columns is empty; the other windows go in a
/// stack column to its right, past the inner gap, filling the rest of the
/// width. Both columns start at the top of the frame, and the windows keep
/// their order.
pub proof fn law_tile_columns(mon: Monitor, cs: Seq<(ClientId, &Client)>, area: Rect, smart_gaps: bool)
    requires
        cs.len() > 0,
        tile_fits(mon, cs, area, smart_gaps),
    ensures
        ({
            let r = spec_tile(mon, cs, area, smart_gaps);
            let n = cs.len() as int;
            let g = spec_effective_gaps(mon, n, smart_gaps);
            let ax = area.x + g.1;
            let ay = area.y + g.0;
            let aw = wrap_i32(area.w) - 2 * g.1;
            let nm = if mon.nmaster as int <= n { mon.nmaster as int } else { n };
            let ns = n - nm;
            let mw = if nm == 0 || ns == 0 { aw } else { spec_scale_pct(aw, mon.mfact_pct as int) };
            let sx = ax + mw + (if nm > 0 { g.3 as int } else { 0 });
            let sw = aw - mw - (if nm > 0 && ns > 0 { g.3 as int } else { 0 });
            &&& r.len() == n
            &&& forall|i: int| 0 <= i < n ==> (#[trigger] r[i]).0 == cs[i].0
            &&& forall|i: int| 0 <= i < nm ==> (#[trigger] r[i]).1.x == ax && r[i].1.w == spec_max(mw, 1)
            &&& forall|i: int| nm <= i < n ==> (#[trigger] r[i]).1.x == sx && r[i].1.w == spec_max(sw, 1)
            &&& nm > 0 ==> r[0].1.y == ay
            &&& ns > 0 ==> r[nm].1.y == ay
        }),
{
    let n = cs.len() as int;
    let g = spec_effective_gaps(mon, n, smart_gaps);
    let (ax, ay, aw, ah) = frame(area, g.0 as int, g.1 as int);
    let nm = min_usize(mon.nmaster as int, n);
    let ns = n - nm;
    let ih = g.2 as int;
    let iv = g.3 as int;
    let mw = master_len(nm, ns, aw, mon.mfact_pct as int);
    let sw = aw - mw - (if ns > 0 && nm > 0 { iv } else { 0 });
    let msz = run_sizes(cs, 0, 1, nm, run_total(ah, ih, nm));
    let masters = run_rects(ids_of(cs, 0, 1, nm), true, ax, mw, ay, msz, ih);
    let r = spec_tile(mon, cs, area, smart_gaps);
    assert(in_i32(mw)) by {
        if !(nm == 0 || ns == 0) {
            assert(in_i32(spec_scale_pct(aw, mon.mfact_pct as int)));
        }
    }
    if ns > 0 {
        let sx = ax + mw + (if nm > 0 { iv } else { 0 });
        let ssz = run_sizes(cs, nm, 1, ns, run_total(ah, ih, ns));
        let stack = run_rects(ids_of(cs, nm, 1, ns), true, sx, sw, ay, ssz, ih);
        assert(r == masters + stack);
        assert forall|i: int| nm <= i < n implies (#[trigger] r[i]).1.x == sx && r[i].1.w == spec_max(sw, 1) by {
            assert(r[i] == stack[i - nm]);
        }
        assert forall|i: int| 0 <= i < nm implies (#[trigger] r[i]).1.x == ax && r[i].1.w == spec_max(mw, 1) by {
            assert(r[i] == masters[i]);
        }
        assert forall|i: int| 0 <= i < n implies (#[trigger] r[i]).0 == cs[i].0 by {
            if i < nm {
                assert(r[i] == masters[i]);
            } else {
                assert(r[i] == stack[i - nm]);
            }
        }
        assert(r[nm] == stack[0]);
    } else {
        assert(r == masters);
    }
}

/// The position after `k` windows of a run: the start, the first `k` sizes
/// and `k` gaps.
proof fn lemma_run_pos_sum(start: int, sizes: Seq<int>, gap: int, k: int)
    requires
        0 <= k <= sizes.len(),
    ensures
        run_pos(start, sizes, gap, k) == start + seq_sum_int(sizes.subrange(0, k)) + k * gap,
    decreases k,
{
    if k > 0 {
        lemma_run_pos_sum(start, sizes, gap, k - 1);
        assert(sizes.subrange(0, k).drop_last() =~= sizes.subrange(0, k - 1));
        assert(sizes.subrange(0, k).last() == sizes[k - 1]);
        assert(k * gap == (k - 1) * gap + gap) by (nonlinear_arith);
    } else {
        assert(sizes.subrange(0, 0) =~= Seq::<int>::empty());
    }
}

/// The windows of a column run: each at its run position, as tall as its
/// size (at least one pixel).
proof fn lemma_column_rects(ids: Seq<ClientId>, fixed: int, thick: int, start: int, sizes: Seq<int>, gap: int)
    requires
        ids.len() == sizes.len(),
        run_fits(start, sizes, gap),
        in_i32(gap),
    ensures
        forall|i: int| 0 <= i < ids.len() ==> {
            let q = #[trigger] run_rects(ids, true, fixed, thick, start, sizes, gap)[i].1;
            &&& q.y as int == run_pos(start, sizes, gap, i)
            &&& q.h as int == spec_max(sizes[i], 1)
        },
{
    assert forall|i: int| 0 <= i < ids.len() implies {
        let q = #[trigger] run_rects(ids, true, fixed, thick, start, sizes, gap)[i].1;
        &&& q.y as int == run_pos(start, sizes, gap, i)
        &&& q.h as int == spec_max(sizes[i], 1)
    } by {
        if i > 0 {
            assert(in_i32(run_pos(start, sizes, gap, i)));
        }
        assert(in_i32(sizes[i] + gap));
    }
}

/// Within each column of the tile layout a window starts one inner gap below
/// the one above it, and the last window of each column ends at the bottom
/// of the frame (the area less the outer gaps): the heights of a column and
/// its inner gaps add up to the frame's height. (A window's height is its
/// share of the column, or one pixel when the share is smaller; the
/// statement is about windows taller than one pixel.)
pub proof fn law_tile_column_heights(mon: Monitor, cs: Seq<(ClientId, &Client)>, area: Rect, smart_gaps: bool)
    requires
        cs.len() > 0,
        tile_fits(mon, cs, area, smart_gaps),
    ensures
        ({
            let r = spec_tile(mon, cs, area, smart_gaps);
            let n = cs.len() as int;
            let g = spec_effective_gaps(mon, n, smart_gaps);
            let ay = area.y + g.0;
            let ah = wrap_i32(area.h) - 2 * g.0;
            let ih = g.2 as int;
            let nm = if mon.nmaster as int <= n { mon.nmaster as int } else { n };
            &&& forall|i: int| 0 <= i && i + 1 < nm && #[trigger] r[i].1.h > 1 ==> r[i + 1].1.y == r[i].1.y + r[i].1.h + ih
            &&& forall|i: int| nm <= i && i + 1 < n && #[trigger] r[i].1.h > 1 ==> r[i + 1].1.y == r[i].1.y + r[i].1.h + ih
            &&& nm > 0 && r[nm - 1].1.h > 1 ==> r[nm - 1].1.y + r[nm - 1].1.h == ay + ah
            &&& nm < n && r[n - 1].1.h > 1 ==> r[n - 1].1.y + r[n - 1].1.h == ay + ah
        }),
{
    let n = cs.len() as int;
    let g = spec_effective_gaps(mon, n, smart_gaps);
    let (ax, ay, aw, ah) = frame(area, g.0 as int, g.1 as int);
    let nm = min_usize(mon.nmaster as int, n);
    let ns = n - nm;
    let ih = g.2 as int;
    let iv = g.3 as int;
    let mw = master_len(nm, ns, aw, mon.mfact_pct as int);
    let sw = aw - mw - (if ns > 0 && nm > 0 { iv } else { 0 });
    let mids = ids_of(cs, 0, 1, nm);
    let msz = run_sizes(cs, 0, 1, nm, run_total(ah, ih, nm));
    let masters = run_rects(mids, true, ax, mw, ay, msz, ih);
    let r = spec_tile(mon, cs, area, smart_gaps);
    lemma_column_rects(mids, ax, mw, ay, msz, ih);
    assert forall|i: int| 0 <= i && i + 1 < nm && #[trigger] r[i].1.h > 1 implies r[i + 1].1.y == r[i].1.y + r[i].1.h + ih by {
        assert(r[i] == masters[i]);
        assert(r[i + 1] == masters[i + 1]);
        assert(masters[i + 1].1.y == run_pos(ay, msz, ih, i + 1));
        assert(masters[i].1.y == run_pos(ay, msz, ih, i));
    }
    if nm > 0 {
        lemma_cfact_sizes_sum(cfs_of(cs, 0, 1, nm), run_total(ah, ih, nm));
        lemma_run_pos_sum(ay, msz, ih, nm - 1);
        assert(msz.drop_last() =~= msz.subrange(0, nm - 1));
        assert(seq_sum_int(msz) == seq_sum_int(msz.subrange(0, nm - 1)) + msz[nm - 1]);
        assert(ih * nat_minus_one(nm) == (nm - 1) * ih) by (nonlinear_arith)
            requires nat_minus_one(nm) == nm - 1;
        assert(r[nm - 1] == masters[nm - 1]);
        assert(masters[nm - 1].1.y == run_pos(ay, msz, ih, nm - 1));
    }
    if ns > 0 {
        let sx = ax + mw + (if nm > 0 { iv } else { 0 });
        let sids = ids_of(cs, nm, 1, ns);
        let ssz = run_sizes(cs, nm, 1, ns, run_total(ah, ih, ns));
        let stack = run_rects(sids, true, sx, sw, ay, ssz, ih);
        assert(r == masters + stack);
        lemma_column_rects(sids, sx, sw, ay, ssz, ih);
        assert forall|i: int| nm <= i && i + 1 < n && #[trigger] r[i].1.h > 1 implies r[i + 1].1.y == r[i].1.y + r[i].1.h + ih by {
            assert(r[i] == stack[i - nm]);
            assert(r[i + 1] == stack[i + 1 - nm]);
            assert(stack[i + 1 - nm].1.y == run_pos(ay, ssz, ih, i + 1 - nm));
            assert(stack[i - nm].1.y == run_pos(ay, ssz, ih, i - nm));
        }
        lemma_cfact_sizes_sum(cfs_of(cs, nm, 1, ns), run_total(ah, ih, ns));
        lemma_run_pos_sum(ay, ssz, ih, ns - 1);
        assert(ssz.drop_last() =~= ssz.subrange(0, ns - 1));
        assert(seq_sum_int(ssz) == seq_sum_int(ssz.subrange(0, ns - 1)) + ssz[ns - 1]);
        assert(ih * nat_minus_one(ns) == (ns - 1) * ih) by (nonlinear_arith)
            requires nat_minus_one(ns) == ns - 1;
        assert(r[n - 1] == stack[ns - 1]);
        assert(stack[ns - 1].1.y == run_pos(ay, ssz, ih, ns - 1));
    } else {
        assert(r == masters);
    }
}

impl Layout for TileLayout {
    open spec fn spec_arrange(&self, mon: Monitor, cs: Seq<(ClientId, &Client)>, area: Rect) -> Seq<(ClientId, Rect)> {
        spec_tile(mon, cs, area, self.smart_gaps)
    }

    open spec fn arrange_fits(&self, mon: Monitor, cs: Seq<(ClientId, &Client)>, area: Rect) -> bool {
        tile_fits(mon, cs, area, self.smart_gaps)
    }

    open spec fn spec_symbol(&self) -> Seq<char> { "[]="@ }

    open spec fn spec_name(&self) -> Seq<char> { "tile"@ }

    fn symbol(&self) -> (r: &'static str) { "[]=" }

    fn name(&self) -> (r: &'static str) { "tile" }

    fn arrange(&self, mon: &Monitor, clients: &[(ClientId, &Client)], area: Rect) -> (r: Arrangement) {
        let n = clients.len();
        if n == 0 {
            return Vec::new();
        }
        let (oh, ov, ih, iv) = effective_gaps(mon, n, self.smart_gaps);
        let mut result = Vec::new();
        let nm = if (mon.nmaster as usize) <= n { mon.nmaster as usize } else { n };
        let (ax, ay, aw, ah) = compute_frame(area, oh, ov);
        master_stack(&mut result, clients, nm, ax, aw, iv, ay, ah, ih, mon.mfact_pct, true);
        assert(result@ == Seq::<(ClientId, Rect)>::empty() + spec_tile(*mon, clients@, area, self.smart_gaps));
        result
    }
}

// ══════════════════════════════════════════════════════════════════════
//  Built-in Layout: Monocle
// ══════════════════════════════════════════════════════════════════════

/// All clients occupy the full area (stacked, only the focused one visible).
pub struct MonocleLayout;

/// Every client gets the whole area.
pub open spec fn spec_monocle(cs: Seq<(ClientId, &Client)>, area: Rect) -> Seq<(ClientId, Rect)> {
    Seq::new(cs.len(), |i: int| (cs[i].0, area))
}

impl Layout for MonocleLayout {
    open spec fn spec_arrange(&self, mon: Monitor, cs: Seq<(ClientId, &Client)>, area: Rect) -> Seq<(ClientId, Rect)> {
        spec_monocle(cs, area)
    }

    open spec fn arrange_fits(&self, mon: Monitor, cs: Seq<(ClientId, &Client)>, area: Rect) -> bool {
        true
    }

    open spec fn spec_symbol(&self) -> Seq<char> { "[M]"@ }

    open spec fn spec_name(&self) -> Seq<char> { "monocle"@ }

    fn symbol(&self) -> (r: &'static str) { "[M]" }

    fn name(&self) -> (r: &'static str) { "monocle" }

    fn arrange(&self, _mon: &Monitor, clients: &[(ClientId, &Client)], area: Rect) -> (r: Arrangement) {
        let mut result: Vec<(ClientId, Rect)> = Vec::new();
        let mut i: usize = 0;
        while i < clients.len()
            invariant
                i <= clients@.len(),
                result@ == spec_monocle(clients@, area).subrange(0, i as int),
            decreases clients@.len() - i,
        {
            result.push((clients[i].0, area));
            i += 1;
            assert(spec_monocle(clients@, area).subrange(0, i as int)
                == spec_monocle(clients@, area).subrange(0, i - 1).push((clients@[i - 1].0, area)));
        }
        assert(spec_monocle(clients@, area).subrange(0, clients@.len() as int) == spec_monocle(clients@, area));
        result
    }
}

// ══════════════════════════════════════════════════════════════════════
//  Built-in Layout: Bottom Stack
// ══════════════════════════════════════════════════════════════════════

/// Master on top, stack on bottom, as vanitygaps' `bstack()`.
pub struct BStackLayout {
    pub smart_gaps: bool,
}

/// Master row on top, stack row below.
pub open spec fn spec_bstack(mon: Monitor, cs: Seq<(ClientId, &Client)>, area: Rect, smart_gaps: bool) -> Seq<(ClientId, Rect)> {
    let n = cs.len() as int;
    if n == 0 {
        Seq::empty()
    } else {
        let (oh, ov, ih, iv) = spec_effective_gaps(mon, n, smart_gaps);
        let (ax, ay, aw, ah) = frame(area, oh as int, ov as int);
        spec_master_stack(cs, min_usize(mon.nmaster as int, n), ay, ah, ih as int, ax, aw, iv as int, mon.mfact_pct as int, false)
    }
}

pub open spec fn bstack_fits(mon: Monitor, cs: Seq<(ClientId, &Client)>, area: Rect, smart_gaps: bool) -> bool {
    let n = cs.len() as int;
    let (oh, ov, ih, iv) = spec_effective_gaps(mon, n, smart_gaps);
    let (ax, ay, aw, ah) = frame(area, oh as int, ov as int);
    n > 0 ==> {
        &&& frame_fits(area, oh as int, ov as int)
        &&& master_stack_fits(cs, min_usize(mon.nmaster as int, n), ay, ah, ih as int, ax, aw, iv as int, mon.mfact_pct as int)
    }
}

impl Layout for BStackLayout {
    open spec fn spec_arrange(&self, mon: Monitor, cs: Seq<(ClientId, &Client)>, area: Rect) -> Seq<(ClientId, Rect)> {
        spec_bstack(mon, cs, area, self.smart_gaps)
    }

    open spec fn arrange_fits(&self, mon: Monitor, cs: Seq<(ClientId, &Client)>, area: Rect) -> bool {
        bstack_fits(mon, cs, area, self.smart_gaps)
    }

    open spec fn spec_symbol(&self) -> Seq<char> { "TTT"@ }

    open spec fn spec_name(&self) -> Seq<char> { "bstack"@ }

    fn symbol(&self) -> (r: &'static str) { "TTT" }

    fn name(&self) -> (r: &'static str) { "bstack" }

    fn arrange(&self, mon: &Monitor, clients: &[(ClientId, &Client)], area: Rect) -> (r: Arrangement) {
        let n = clients.len();
        if n == 0 {
            return Vec::new();
        }
        let (oh, ov, ih, iv) = effective_gaps(mon, n, self.smart_gaps);
        let mut result = Vec::new();
        let nm = if (mon.nmaster as usize) <= n { mon.nmaster as usize } else { n };
        let (ax, ay, aw, ah) = compute_frame(area, oh, ov);
        master_stack(&mut result, clients, nm, ay, ah, ih, ax, aw, iv, mon.mfact_pct, false);
        assert(result@ == Seq::<(ClientId, Rect)>::empty() + spec_bstack(*mon, clients@, area, self.smart_gaps));
        result
    }
}


// ══════════════════════════════════════════════════════════════════════
//  Built-in Layouts: Spiral and Dwindle (Fibonacci)
// ══════════════════════════════════════════════════════════════════════

/// Fibonacci spiral layout, as vanitygaps' `fibonacci(m, 0)`.
pub struct SpiralLayout {
    pub smart_gaps: bool,
}

/// Dwindle layout, as vanitygaps' `fibonacci(m, 1)`.
pub struct DwindleLayout {
    pub smart_gaps: bool,
}

/// Whether the `i`-th window splits the remaining space horizontally.
pub open spec fn fib_horizontal(i: int, dwindle: bool) -> bool {
    (if dwindle { i } else { i + 1 }) % 2 == 0
}

/// Remaining space `(x, y, w, h)` after one split of window `i`.
pub open spec fn fib_step(st: (int, int, int, int), i: int, dwindle: bool, ih: int, iv: int) -> (int, int, int, int) {
    let (cx, cy, cw, ch) = st;
    if fib_horizontal(i, dwindle) {
        let half = trunc_div(ch - ih, 2);
        (cx, cy + (half + ih), cw, ch - (half + ih))
    } else {
        let half = trunc_div(cw - iv, 2);
        (cx + (half + iv), cy, cw - (half + iv), ch)
    }
}

/// Remaining space before window `i` is placed.
pub open spec fn fib_state(start: (int, int, int, int), i: int, dwindle: bool, ih: int, iv: int) -> (int, int, int, int)
    decreases i,
{
    if i <= 0 { start } else { fib_step(fib_state(start, i - 1, dwindle, ih, iv), i - 1, dwindle, ih, iv) }
}

/// One split step stays inside `i32`.
pub open spec fn fib_step_fits(st: (int, int, int, int), i: int, dwindle: bool, ih: int, iv: int) -> bool {
    let (cx, cy, cw, ch) = st;
    if fib_horizontal(i, dwindle) {
        let half = trunc_div(ch - ih, 2);
        &&& in_i32(ch - ih)
        &&& in_i32(half + ih)
        &&& in_i32(cy + (half + ih))
        &&& in_i32(ch - (half + ih))
    } else {
        let half = trunc_div(cw - iv, 2);
        &&& in_i32(cw - iv)
        &&& in_i32(half + iv)
        &&& in_i32(cx + (half + iv))
        &&& in_i32(cw - (half + iv))
    }
}

/// The rectangle given to window `i` of `n` in remaining space `st`.
pub open spec fn fib_rect(st: (int, int, int, int), i: int, n: int, dwindle: bool, ih: int, iv: int) -> Rect {
    let (cx, cy, cw, ch) = st;
    if i < n - 1 {
        if fib_horizontal(i, dwindle) {
            Rect { x: cx as i32, y: cy as i32, w: spec_max(cw, 1) as u32, h: spec_max(trunc_div(ch - ih, 2), 1) as u32 }
        } else {
            Rect { x: cx as i32, y: cy as i32, w: spec_max(trunc_div(cw - iv, 2), 1) as u32, h: spec_max(ch, 1) as u32 }
        }
    } else {
        Rect { x: cx as i32, y: cy as i32, w: spec_max(cw, 1) as u32, h: spec_max(ch, 1) as u32 }
    }
}

/// Each window takes half of the remaining space, alternating the split
/// direction; the last window takes all that remains.
pub open spec fn spec_fibonacci(mon: Monitor, cs: Seq<(ClientId, &Client)>, area: Rect, dwindle: bool, smart_gaps: bool) -> Seq<(ClientId, Rect)> {
    let n = cs.len() as int;
    if n == 0 {
        Seq::empty()
    } else {
        let (oh, ov, ih, iv) = spec_effective_gaps(mon, n, smart_gaps);
        let start = frame(area, oh as int, ov as int);
        Seq::new(
            n as nat,
            |i: int| (cs[i].0, fib_rect(fib_state(start, i, dwindle, ih as int, iv as int), i, n, dwindle, ih as int, iv as int)),
        )
    }
}

pub open spec fn fibonacci_fits(mon: Monitor, cs: Seq<(ClientId, &Client)>, area: Rect, dwindle: bool, smart_gaps: bool) -> bool {
    let n = cs.len() as int;
    let (oh, ov, ih, iv) = spec_effective_gaps(mon, n, smart_gaps);
    let start = frame(area, oh as int, ov as int);
    n > 0 ==> {
        &&& frame_fits(area, oh as int, ov as int)
        &&& forall|i: int| 0 <= i < n - 1 ==> #[trigger] fib_step_fits(fib_state(start, i, dwindle, ih as int, iv as int), i, dwindle, ih as int, iv as int)
    }
}

proof fn lemma_fib_state_fits(start: (int, int, int, int), i: int, n: int, dwindle: bool, ih: int, iv: int)
    requires
        0 <= i < n,
        in_i32(start.0) && in_i32(start.1) && in_i32(start.2) && in_i32(start.3),
        forall|j: int| 0 <= j < n - 1 ==> #[trigger] fib_step_fits(fib_state(start, j, dwindle, ih, iv), j, dwindle, ih, iv),
    ensures
        ({
            let st = fib_state(start, i, dwindle, ih, iv);
            in_i32(st.0) && in_i32(st.1) && in_i32(st.2) && in_i32(st.3)
        }),
    decreases i,
{
    if i > 0 {
        lemma_fib_state_fits(start, i - 1, n, dwindle, ih, iv);
        assert(fib_step_fits(fib_state(start, i - 1, dwindle, ih, iv), i - 1, dwindle, ih, iv));
    }
}

fn fibonacci_arrange(mon: &Monitor, clients: &[(ClientId, &Client)], area: Rect, dwindle: bool, smart_gaps: bool) -> (r: Arrangement)
    requires
        clients@.len() <= i32::MAX,
        fibonacci_fits(*mon, clients@, area, dwindle, smart_gaps),
    ensures
        r@ == spec_fibonacci(*mon, clients@, area, dwindle, smart_gaps),
{
    let n = clients.len();
    if n == 0 {
        return Vec::new();
    }
    let (oh, ov, ih, iv) = effective_gaps(mon, n, smart_gaps);
    let mut result: Vec<(ClientId, Rect)> = Vec::new();
    let (mut cx, mut cy, mut cw, mut ch) = compute_frame(area, oh, ov);
    let ghost start = frame(area, oh as int, ov as int);
    let ghost spec_r = spec_fibonacci(*mon, clients@, area, dwindle, smart_gaps);
    let mut i: usize = 0;
    while i < n
        invariant
            n == clients@.len(),
            n > 0,
            0 <= i <= n,
            (oh, ov, ih, iv) == spec_effective_gaps(*mon, n as int, smart_gaps),
            start == frame(area, oh as int, ov as int),
            fibonacci_fits(*mon, clients@, area, dwindle, smart_gaps),
            spec_r == spec_fibonacci(*mon, clients@, area, dwindle, smart_gaps),
            i < n ==> (cx as int, cy as int, cw as int, ch as int) == fib_state(start, i as int, dwindle, ih as int, iv as int),
            result@ == spec_r.subrange(0, i as int),
        decreases n - i,
    {
        let ghost st = fib_state(start, i as int, dwindle, ih as int, iv as int);
        let cid = clients[i].0;
        if i < n - 1 {
            assert(fib_step_fits(st, i as int, dwindle, ih as int, iv as int));
            let horizontal = (if dwindle { i } else { i + 1 }) % 2 == 0;
            if horizontal {
                let half = div_trunc(ch - ih, 2);
                let hh: u32 = if half >= 1 { half as u32 } else { 1 };
                let ww: u32 = if cw >= 1 { cw as u32 } else { 1 };
                result.push((cid, Rect { x: cx, y: cy, w: ww, h: hh }));
                cy = cy + (half + ih);
                ch = ch - (half + ih);
            } else {
                let half = div_trunc(cw - iv, 2);
                let ww: u32 = if half >= 1 { half as u32 } else { 1 };
                let hh: u32 = if ch >= 1 { ch as u32 } else { 1 };
                result.push((cid, Rect { x: cx, y: cy, w: ww, h: hh }));
                cx = cx + (half + iv);
                cw = cw - (half + iv);
            }
        } else {
            let ww: u32 = if cw >= 1 { cw as u32 } else { 1 };
            let hh: u32 = if ch >= 1 { ch as u32 } else { 1 };
            result.push((cid, Rect { x: cx, y: cy, w: ww, h: hh }));
        }
        i += 1;
        assert(spec_r.subrange(0, i as int) == spec_r.subrange(0, i - 1).push(spec_r[i - 1]));
    }
    assert(spec_r.subrange(0, n as int) == spec_r);
    result
}

impl Layout for SpiralLayout {
    open spec fn spec_arrange(&self, mon: Monitor, cs: Seq<(ClientId, &Client)>, area: Rect) -> Seq<(ClientId, Rect)> {
        spec_fibonacci(mon, cs, area, false, self.smart_gaps)
    }

    open spec fn arrange_fits(&self, mon: Monitor, cs: Seq<(ClientId, &Client)>, area: Rect) -> bool {
        fibonacci_fits(mon, cs, area, false, self.smart_gaps)
    }

    open spec fn spec_symbol(&self) -> Seq<char> { "[@]"@ }

    open spec fn spec_name(&self) -> Seq<char> { "spiral"@ }

    fn symbol(&self) -> (r: &'static str) { "[@]" }

    fn name(&self) -> (r: &'static str) { "spiral" }

    fn arrange(&self, mon: &Monitor, clients: &[(ClientId, &Client)], area: Rect) -> (r: Arrangement) {
        fibonacci_arrange(mon, clients, area, false, self.smart_gaps)
    }
}

impl Layout for DwindleLayout {
    open spec fn spec_arrange(&self, mon: Monitor, cs: Seq<(ClientId, &Client)>, area: Rect) -> Seq<(ClientId, Rect)> {
        spec_fibonacci(mon, cs, area, true, self.smart_gaps)
    }

    open spec fn arrange_fits(&self, mon: Monitor, cs: Seq<(ClientId, &Client)>, area: Rect) -> bool {
        fibonacci_fits(mon, cs, area, true, self.smart_gaps)
    }

    open spec fn spec_symbol(&self) -> Seq<char> { "[\\]"@ }

    open spec fn spec_name(&self) -> Seq<char> { "dwindle"@ }

    fn symbol(&self) -> (r: &'static str) { "[\\]" }

    fn name(&self) -> (r: &'static str) { "dwindle" }

    fn arrange(&self, mon: &Monitor, clients: &[(ClientId, &Client)], area: Rect) -> (r: Arrangement) {
        fibonacci_arrange(mon, clients, area, true, self.smart_gaps)
    }
}


// ══════════════════════════════════════════════════════════════════════
//  Built-in Layout: Grid
// ══════════════════════════════════════════════════════════════════════

/// Square grid, as vanitygaps' `grid()`.
pub struct GridLayout {
    pub smart_gaps: bool,
}

/// The smallest `r >= from` with `r * r >= n`.
pub open spec fn grid_rows_from(from: int, n: int) -> int
    decreases n - from,
{
    if from * from >= n || from >= n { from } else { grid_rows_from(from + 1, n) }
}

/// Number of grid rows for `n` windows: the smallest `r >= 1` with `r * r >= n`.
pub open spec fn grid_rows(n: int) -> int {
    grid_rows_from(1, n)
}

/// Number of grid columns: `ceil(n / rows)`.
pub open spec fn grid_cols(n: int) -> int {
    (n + grid_rows(n) - 1) / grid_rows(n)
}

/// Cell width and height of the grid.
pub open spec fn grid_cell(aw: int, ah: int, ih: int, iv: int, rows: int, cols: int) -> (int, int) {
    (trunc_div(aw - iv * (cols - 1), cols), trunc_div(ah - ih * (rows - 1), rows))
}

/// Windows fill a near-square grid row by row.
pub open spec fn spec_grid(mon: Monitor, cs: Seq<(ClientId, &Client)>, area: Rect, smart_gaps: bool) -> Seq<(ClientId, Rect)> {
    let n = cs.len() as int;
    if n == 0 {
        Seq::empty()
    } else {
        let (oh, ov, ih, iv) = spec_effective_gaps(mon, n, smart_gaps);
        let (ax, ay, aw, ah) = frame(area, oh as int, ov as int);
        let rows = grid_rows(n);
        let cols = grid_cols(n);
        let (cw, ch) = grid_cell(aw, ah, ih as int, iv as int, rows, cols);
        Seq::new(
            n as nat,
            |i: int|
                (cs[i].0, Rect {
                    x: (ax + (i % cols) * (cw + iv)) as i32,
                    y: (ay + (i / cols) * (ch + ih)) as i32,
                    w: spec_max(cw, 1) as u32,
                    h: spec_max(ch, 1) as u32,
                }),
        )
    }
}

pub open spec fn grid_fits(mon: Monitor, cs: Seq<(ClientId, &Client)>, area: Rect, smart_gaps: bool) -> bool {
    let n = cs.len() as int;
    let (oh, ov, ih, iv) = spec_effective_gaps(mon, n, smart_gaps);
    let (ax, ay, aw, ah) = frame(area, oh as int, ov as int);
    let rows = grid_rows(n);
    let cols = grid_cols(n);
    let (cw, ch) = grid_cell(aw, ah, ih as int, iv as int, rows, cols);
    n > 0 ==> {
        &&& frame_fits(area, oh as int, ov as int)
        &&& in_i32(iv * (cols - 1))
        &&& in_i32(aw - iv * (cols - 1))
        &&& in_i32(ih * (rows - 1))
        &&& in_i32(ah - ih * (rows - 1))
        &&& in_i32(cw + iv)
        &&& in_i32(ch + ih)
        &&& forall|i: int| 0 <= i < n ==> #[trigger] grid_pos_fits(ax, ay, cw, ch, ih as int, iv as int, cols, i)
    }
}

/// Placing window `i` of the grid stays inside `i32`.
pub open spec fn grid_pos_fits(ax: int, ay: int, cw: int, ch: int, ih: int, iv: int, cols: int, i: int) -> bool {
    &&& in_i32((i % cols) * (cw + iv))
    &&& in_i32(ax + (i % cols) * (cw + iv))
    &&& in_i32((i / cols) * (ch + ih))
    &&& in_i32(ay + (i / cols) * (ch + ih))
}

proof fn lemma_grid_rows(from: int, n: int)
    requires
        1 <= from,
        n >= 1,
        (from - 1) * (from - 1) < n,
    ensures
        from <= grid_rows_from(from, n) <= n,
        grid_rows_from(from, n) * grid_rows_from(from, n) >= n,
        (grid_rows_from(from, n) - 1) * (grid_rows_from(from, n) - 1) < n,
    decreases n - from,
{
    assert(from <= n) by (nonlinear_arith)
        requires (from - 1) * (from - 1) < n, from >= 1, n >= 1;
    if from * from >= n {
    } else if from >= n {
        assert(from * from >= n) by (nonlinear_arith)
            requires from >= n, n >= 1;
    } else {
        lemma_grid_rows(from + 1, n);
    }
}

/// Compute the number of grid rows for `n` windows.
fn compute_grid_rows(n: usize) -> (r: usize)
    requires
        1 <= n <= i32::MAX,
    ensures
        r == grid_rows(n as int),
        1 <= r <= n,
{
    proof {
        lemma_grid_rows(1, n as int);
    }
    let mut rows: usize = 1;
    while rows < n && rows * rows < n
        invariant
            1 <= rows <= n,
            rows * rows <= 0xffff_ffff,
            n <= i32::MAX,
            (rows - 1) * (rows - 1) < n,
            grid_rows_from(rows as int, n as int) == grid_rows(n as int),
        decreases n - rows,
    {
        assert(rows * rows < n);
        assert((rows + 1) * (rows + 1) <= 0xffff_ffff) by (nonlinear_arith)
            requires rows * rows < n, n <= 0x7fff_ffff, rows >= 1;
        rows += 1;
    }
    rows
}

impl Layout for GridLayout {
    open spec fn spec_arrange(&self, mon: Monitor, cs: Seq<(ClientId, &Client)>, area: Rect) -> Seq<(ClientId, Rect)> {
        spec_grid(mon, cs, area, self.smart_gaps)
    }

    open spec fn arrange_fits(&self, mon: Monitor, cs: Seq<(ClientId, &Client)>, area: Rect) -> bool {
        grid_fits(mon, cs, area, self.smart_gaps)
    }

    open spec fn spec_symbol(&self) -> Seq<char> { "HHH"@ }

    open spec fn spec_name(&self) -> Seq<char> { "grid"@ }

    fn symbol(&self) -> (r: &'static str) { "HHH" }

    fn name(&self) -> (r: &'static str) { "grid" }

    fn arrange(&self, mon: &Monitor, clients: &[(ClientId, &Client)], area: Rect) -> (r: Arrangement) {
        let n = clients.len();
        if n == 0 {
            return Vec::new();
        }
        let (oh, ov, ih, iv) = effective_gaps(mon, n, self.smart_gaps);
        let mut result: Vec<(ClientId, Rect)> = Vec::new();
        let rows = compute_grid_rows(n);
        proof {
            lemma_grid_rows(1, n as int);
            lemma_div_le_numerator((n + rows - 1) as int, rows as int);
            assert((n + rows - 1) / (rows as int) >= 1) by {
                vstd::arithmetic::div_mod::lemma_div_by_self(rows as int);
                vstd::arithmetic::div_mod::lemma_div_is_ordered(rows as int, (n + rows - 1) as int, rows as int);
            }
        }
        let cols = (n + rows - 1) / rows;
        assert(cols == grid_cols(n as int));
        proof {
            lemma_fundamental_div_mod((n + rows - 1) as int, rows as int);
            lemma_mod_pos_bound((n + rows - 1) as int, rows as int);
            let q = (n + rows - 1) as int / rows as int;
            let m = (n + rows - 1) as int % rows as int;
            assert(q <= n) by (nonlinear_arith)
                requires
                    (n + rows - 1) as int == rows * q + m,
                    0 <= m < rows,
                    rows >= 1,
                    n >= 1;
        }
        let (ax, ay, aw, ah) = compute_frame(area, oh, ov);
        assert(in_i32(iv * (cols - 1)) && in_i32(aw - iv * (cols - 1)));
        assert(in_i32(ih * (rows - 1)) && in_i32(ah - ih * (rows - 1)));
        let cw = div_trunc(aw - iv * (cols as i32 - 1), cols as i32);
        let ch = div_trunc(ah - ih * (rows as i32 - 1), rows as i32);
        let ww: u32 = if cw >= 1 { cw as u32 } else { 1 };
        let hh: u32 = if ch >= 1 { ch as u32 } else { 1 };
        let ghost spec_r = spec_grid(*mon, clients@, area, self.smart_gaps);
        let mut i: usize = 0;
        while i < n
            invariant
                n == clients@.len(),
                n > 0,
                0 <= i <= n,
                n <= i32::MAX,
                1 <= cols <= n,
                cols == grid_cols(n as int),
                rows == grid_rows(n as int),
                (oh, ov, ih, iv) == spec_effective_gaps(*mon, n as int, self.smart_gaps),
                (ax as int, ay as int, aw as int, ah as int) == frame(area, oh as int, ov as int),
                (cw as int, ch as int) == grid_cell(aw as int, ah as int, ih as int, iv as int, rows as int, cols as int),
                ww == spec_max(cw as int, 1),
                hh == spec_max(ch as int, 1),
                grid_fits(*mon, clients@, area, self.smart_gaps),
                spec_r == spec_grid(*mon, clients@, area, self.smart_gaps),
                result@ == spec_r.subrange(0, i as int),
            decreases n - i,
        {
            let row = i / cols;
            let col = i % cols;
            let ghost ii = i as int;
            let ghost cc = cols as int;
            assert(grid_pos_fits(ax as int, ay as int, cw as int, ch as int, ih as int, iv as int, cc, ii));
            proof { lemma_div_le_numerator(i as int, cols as int); }
            let x = ax + col as i32 * (cw + iv);
            let y = ay + row as i32 * (ch + ih);
            result.push((clients[i].0, Rect { x, y, w: ww, h: hh }));
            i += 1;
            assert(spec_r.subrange(0, i as int) == spec_r.subrange(0, i - 1).push(spec_r[i - 1]));
        }
        assert(spec_r.subrange(0, n as int) == spec_r);
        result
    }
}


// ══════════════════════════════════════════════════════════════════════
//  Built-in Layout: Centered Master
// ══════════════════════════════════════════════════════════════════════

/// Master centered, stack on left and right, as dwm's `centeredmaster()`.
pub struct CenteredMasterLayout {
    pub smart_gaps: bool,
}

/// Master column in the middle; stack clients alternate between a left and a
/// right column (first to the left). Without stack clients the masters fill
/// the whole width.
pub open spec fn spec_centered(mon: Monitor, cs: Seq<(ClientId, &Client)>, area: Rect, smart_gaps: bool) -> Seq<(ClientId, Rect)> {
    let n = cs.len() as int;
    if n == 0 {
        Seq::empty()
    } else {
        let (oh, ov, ih, iv) = spec_effective_gaps(mon, n, smart_gaps);
        let (ax, ay, aw, ah) = frame(area, oh as int, ov as int);
        let nm = min_usize(mon.nmaster as int, n);
        let ns = n - nm;
        let ih = ih as int;
        let iv = iv as int;
        if ns == 0 {
            run_rects(ids_of(cs, 0, 1, n), true, ax, aw, ay, run_sizes(cs, 0, 1, n, run_total(ah, ih, n)), ih)
        } else {
            let mw = spec_scale_pct(aw, mon.mfact_pct as int);
            let side_w = trunc_div(aw - mw - 2 * iv, 2);
            let mx = ax + side_w + iv;
            let lc = (ns + 1) / 2;
            let rc = ns / 2;
            let masters = run_rects(ids_of(cs, 0, 1, nm), true, mx, mw, ay, run_sizes(cs, 0, 1, nm, run_total(ah, ih, nm)), ih);
            let left = run_rects(ids_of(cs, nm, 2, lc), true, ax, side_w, ay, run_sizes(cs, nm, 2, lc, run_total(ah, ih, lc)), ih);
            let right = if rc > 0 {
                run_rects(ids_of(cs, nm + 1, 2, rc), true, mx + mw + iv, side_w, ay, run_sizes(cs, nm + 1, 2, rc, run_total(ah, ih, rc)), ih)
            } else {
                Seq::empty()
            };
            masters + left + right
        }
    }
}

/// A column run of `count` clients stays inside `i32`.
pub open spec fn column_fits(cs: Seq<(ClientId, &Client)>, start: int, step: int, count: int, ay: int, ah: int, ih: int) -> bool {
    &&& in_i32(ih * nat_minus_one(count))
    &&& in_i32(run_total(ah, ih, count))
    &&& run_fits(ay, run_sizes(cs, start, step, count, run_total(ah, ih, count)), ih)
}

pub open spec fn centered_fits(mon: Monitor, cs: Seq<(ClientId, &Client)>, area: Rect, smart_gaps: bool) -> bool {
    let n = cs.len() as int;
    let (oh, ov, ih, iv) = spec_effective_gaps(mon, n, smart_gaps);
    let (ax, ay, aw, ah) = frame(area, oh as int, ov as int);
    let nm = min_usize(mon.nmaster as int, n);
    let ns = n - nm;
    let ih = ih as int;
    let iv = iv as int;
    let mw = spec_scale_pct(aw, mon.mfact_pct as int);
    let side_w = trunc_div(aw - mw - 2 * iv, 2);
    let mx = ax + side_w + iv;
    let lc = (ns + 1) / 2;
    let rc = ns / 2;
    n > 0 ==> {
        &&& frame_fits(area, oh as int, ov as int)
        &&& ns == 0 ==> column_fits(cs, 0, 1, n, ay, ah, ih)
        &&& ns > 0 ==> {
            &&& in_i32(aw - mw)
            &&& in_i32(2 * iv)
            &&& in_i32(aw - mw - 2 * iv)
            &&& in_i32(ax + side_w)
            &&& in_i32(mx)
            &&& column_fits(cs, 0, 1, nm, ay, ah, ih)
            &&& column_fits(cs, nm, 2, lc, ay, ah, ih)
            &&& rc > 0 ==> {
                &&& in_i32(mx + mw)
                &&& in_i32(mx + mw + iv)
                &&& column_fits(cs, nm + 1, 2, rc, ay, ah, ih)
            }
        }
    }
}

impl Layout for CenteredMasterLayout {
    open spec fn spec_arrange(&self, mon: Monitor, cs: Seq<(ClientId, &Client)>, area: Rect) -> Seq<(ClientId, Rect)> {
        spec_centered(mon, cs, area, self.smart_gaps)
    }

    open spec fn arrange_fits(&self, mon: Monitor, cs: Seq<(ClientId, &Client)>, area: Rect) -> bool {
        centered_fits(mon, cs, area, self.smart_gaps)
    }

    open spec fn spec_symbol(&self) -> Seq<char> { "|M|"@ }

    open spec fn spec_name(&self) -> Seq<char> { "centeredmaster"@ }

    fn symbol(&self) -> (r: &'static str) { "|M|" }

    fn name(&self) -> (r: &'static str) { "centeredmaster" }

    fn arrange(&self, mon: &Monitor, clients: &[(ClientId, &Client)], area: Rect) -> (r: Arrangement) {
        let n = clients.len();
        if n == 0 {
            return Vec::new();
        }
        let (oh, ov, ih, iv) = effective_gaps(mon, n, self.smart_gaps);
        let mut result: Vec<(ClientId, Rect)> = Vec::new();
        let nm = if (mon.nmaster as usize) <= n { mon.nmaster as usize } else { n };
        let ns = n - nm;
        let (ax, ay, aw, ah) = compute_frame(area, oh, ov);
        if ns == 0 {
            // No stack — master fills all
            let total = ah - gaps_for(ih, n);
            push_sized_run(&mut result, clients, 0, 1, n, total, true, ax, aw, ay, ih);
        } else {
            let mw = scale_pct(aw, mon.mfact_pct);
            let side_w = div_trunc(aw - mw - 2 * iv, 2);
            let mx = ax + side_w + iv;
            // Master column (center)
            let mtotal = ah - gaps_for(ih, nm);
            push_sized_run(&mut result, clients, 0, 1, nm, mtotal, true, mx, mw, ay, ih);
            // Stack (split left/right)
            let left_count = (ns + 1) / 2;
            let right_count = ns / 2;
            if left_count > 0 {
                assert(nm + (left_count - 1) * 2 < n);
                let ltotal = ah - gaps_for(ih, left_count);
                push_sized_run(&mut result, clients, nm, 2, left_count, ltotal, true, ax, side_w, ay, ih);
            }
            if right_count > 0 {
                assert(nm + 1 + (right_count - 1) * 2 < n);
                let rx = mx + mw + iv;
                let rtotal = ah - gaps_for(ih, right_count);
                push_sized_run(&mut result, clients, nm + 1, 2, right_count, rtotal, true, rx, side_w, ay, ih);
            }
        }
        assert(result@ =~= spec_centered(*mon, clients@, area, self.smart_gaps));
        result
    }
}


// ── Layout registry ──────────────────────────────────────────────────

/// One of the built-in layouts.
pub enum BuiltinLayout {
    Tile(TileLayout),
    Monocle(MonocleLayout),
    Spiral(SpiralLayout),
    Dwindle(DwindleLayout),
    BStack(BStackLayout),
    Grid(GridLayout),
    CenteredMaster(CenteredMasterLayout),
}

impl Layout for BuiltinLayout {
    open spec fn spec_arrange(&self, mon: Monitor, cs: Seq<(ClientId, &Client)>, area: Rect) -> Seq<(ClientId, Rect)> {
        match self {
            BuiltinLayout::Tile(l) => l.spec_arrange(mon, cs, area),
            BuiltinLayout::Monocle(l) => l.spec_arrange(mon, cs, area),
            BuiltinLayout::Spiral(l) => l.spec_arrange(mon, cs, area),
            BuiltinLayout::Dwindle(l) => l.spec_arrange(mon, cs, area),
            BuiltinLayout::BStack(l) => l.spec_arrange(mon, cs, area),
            BuiltinLayout::Grid(l) => l.spec_arrange(mon, cs, area),
            BuiltinLayout::CenteredMaster(l) => l.spec_arrange(mon, cs, area),
        }
    }

    open spec fn arrange_fits(&self, mon: Monitor, cs: Seq<(ClientId, &Client)>, area: Rect) -> bool {
        match self {
            BuiltinLayout::Tile(l) => l.arrange_fits(mon, cs, area),
            BuiltinLayout::Monocle(l) => l.arrange_fits(mon, cs, area),
            BuiltinLayout::Spiral(l) => l.arrange_fits(mon, cs, area),
            BuiltinLayout::Dwindle(l) => l.arrange_fits(mon, cs, area),
            BuiltinLayout::BStack(l) => l.arrange_fits(mon, cs, area),
            BuiltinLayout::Grid(l) => l.arrange_fits(mon, cs, area),
            BuiltinLayout::CenteredMaster(l) => l.arrange_fits(mon, cs, area),
        }
    }

    open spec fn spec_symbol(&self) -> Seq<char> {
        match self {
            BuiltinLayout::Tile(l) => l.spec_symbol(),
            BuiltinLayout::Monocle(l) => l.spec_symbol(),
            BuiltinLayout::Spiral(l) => l.spec_symbol(),
            BuiltinLayout::Dwindle(l) => l.spec_symbol(),
            BuiltinLayout::BStack(l) => l.spec_symbol(),
            BuiltinLayout::Grid(l) => l.spec_symbol(),
            BuiltinLayout::CenteredMaster(l) => l.spec_symbol(),
        }
    }

    open spec fn spec_name(&self) -> Seq<char> {
        match self {
            BuiltinLayout::Tile(l) => l.spec_name(),
            BuiltinLayout::Monocle(l) => l.spec_name(),
            BuiltinLayout::Spiral(l) => l.spec_name(),
            BuiltinLayout::Dwindle(l) => l.spec_name(),
            BuiltinLayout::BStack(l) => l.spec_name(),
            BuiltinLayout::Grid(l) => l.spec_name(),
            BuiltinLayout::CenteredMaster(l) => l.spec_name(),
        }
    }

    fn symbol(&self) -> (r: &'static str) {
        match self {
            BuiltinLayout::Tile(l) => l.symbol(),
            BuiltinLayout::Monocle(l) => l.symbol(),
            BuiltinLayout::Spiral(l) => l.symbol(),
            BuiltinLayout::Dwindle(l) => l.symbol(),
            BuiltinLayout::BStack(l) => l.symbol(),
            BuiltinLayout::Grid(l) => l.symbol(),
            BuiltinLayout::CenteredMaster(l) => l.symbol(),
        }
    }

    fn name(&self) -> (r: &'static str) {
        match self {
            BuiltinLayout::Tile(l) => l.name(),
            BuiltinLayout::Monocle(l) => l.name(),
            BuiltinLayout::Spiral(l) => l.name(),
            BuiltinLayout::Dwindle(l) => l.name(),
            BuiltinLayout::BStack(l) => l.name(),
            BuiltinLayout::Grid(l) => l.name(),
            BuiltinLayout::CenteredMaster(l) => l.name(),
        }
    }

    fn arrange(&self, mon: &Monitor, clients: &[(ClientId, &Client)], area: Rect) -> (r: Arrangement) {
        match self {
            BuiltinLayout::Tile(l) => l.arrange(mon, clients, area),
            BuiltinLayout::Monocle(l) => l.arrange(mon, clients, area),
            BuiltinLayout::Spiral(l) => l.arrange(mon, clients, area),
            BuiltinLayout::Dwindle(l) => l.arrange(mon, clients, area),
            BuiltinLayout::BStack(l) => l.arrange(mon, clients, area),
            BuiltinLayout::Grid(l) => l.arrange(mon, clients, area),
            BuiltinLayout::CenteredMaster(l) => l.arrange(mon, clients, area),
        }
    }
}

/// The registry order of the built-in layouts for the given smart-gaps setting.
pub open spec fn spec_builtin_layouts(smart_gaps: bool) -> Seq<BuiltinLayout> {
    seq![
        BuiltinLayout::Tile(TileLayout { smart_gaps }),
        BuiltinLayout::Monocle(MonocleLayout),
        BuiltinLayout::Spiral(SpiralLayout { smart_gaps }),
        BuiltinLayout::Dwindle(DwindleLayout { smart_gaps }),
        BuiltinLayout::BStack(BStackLayout { smart_gaps }),
        BuiltinLayout::Grid(GridLayout { smart_gaps }),
        BuiltinLayout::CenteredMaster(CenteredMasterLayout { smart_gaps }),
    ]
}

/// All built-in layouts, ready to register.
pub fn builtin_layouts(smart_gaps: bool) -> (r: Vec<BuiltinLayout>)
    ensures
        r@ == spec_builtin_layouts(smart_gaps),
{
    let mut v = Vec::new();
    v.push(BuiltinLayout::Tile(TileLayout { smart_gaps }));
    v.push(BuiltinLayout::Monocle(MonocleLayout));
    v.push(BuiltinLayout::Spiral(SpiralLayout { smart_gaps }));
    v.push(BuiltinLayout::Dwindle(DwindleLayout { smart_gaps }));
    v.push(BuiltinLayout::BStack(BStackLayout { smart_gaps }));
    v.push(BuiltinLayout::Grid(GridLayout { smart_gaps }));
    v.push(BuiltinLayout::CenteredMaster(CenteredMasterLayout { smart_gaps }));
    v
}

// ── Laws ─────────────────────────────────────────────────────────────

/// The ids of a run of windows are the ids it was given.
proof fn lemma_run_ids(ids: Seq<ClientId>, vertical: bool, fixed: int, thick: int, start: int, sizes: Seq<int>, gap: int)
    ensures
        run_rects(ids, vertical, fixed, thick, start, sizes, gap).len() == ids.len(),
        run_rects(ids, vertical, fixed, thick, start, sizes, gap).map_values(|p: (ClientId, Rect)| p.0) == ids,
{
    assert(run_rects(ids, vertical, fixed, thick, start, sizes, gap).map_values(|p: (ClientId, Rect)| p.0) =~= ids);
}

/// The ids of the clients, in order.
pub open spec fn client_ids(cs: Seq<(ClientId, &Client)>) -> Seq<ClientId> {
    cs.map_values(|p: (ClientId, &Client)| p.0)
}

/// The ids placed by an arrangement, in order.
pub open spec fn placed_ids(a: Seq<(ClientId, Rect)>) -> Seq<ClientId> {
    a.map_values(|p: (ClientId, Rect)| p.0)
}

/// Master/stack places every client exactly once, in the given order.
proof fn lemma_master_stack_ids(
    cs: Seq<(ClientId, &Client)>,
    nm: int,
    cross_pos: int,
    cross_len: int,
    cross_gap: int,
    main_pos: int,
    main_len: int,
    main_gap: int,
    mfact_pct: int,
    vertical: bool,
)
    requires
        0 <= nm <= cs.len(),
    ensures
        placed_ids(spec_master_stack(cs, nm, cross_pos, cross_len, cross_gap, main_pos, main_len, main_gap, mfact_pct, vertical)) == client_ids(cs),
{
    let n = cs.len() as int;
    let r = spec_master_stack(cs, nm, cross_pos, cross_len, cross_gap, main_pos, main_len, main_gap, mfact_pct, vertical);
    assert(placed_ids(r) =~= client_ids(cs));
}

/// Tile, monocle, bottom stack, spiral, dwindle and grid place every visible
/// client exactly once and keep their order; centered master places every
/// client exactly once (masters, then the left column, then the right one).
pub proof fn lemma_layouts_place_every_client(mon: Monitor, cs: Seq<(ClientId, &Client)>, area: Rect, smart_gaps: bool)
    ensures
        placed_ids(spec_tile(mon, cs, area, smart_gaps)) == client_ids(cs),
        placed_ids(spec_bstack(mon, cs, area, smart_gaps)) == client_ids(cs),
        placed_ids(spec_monocle(cs, area)) == client_ids(cs),
        placed_ids(spec_fibonacci(mon, cs, area, false, smart_gaps)) == client_ids(cs),
        placed_ids(spec_fibonacci(mon, cs, area, true, smart_gaps)) == client_ids(cs),
        placed_ids(spec_grid(mon, cs, area, smart_gaps)) == client_ids(cs),
        spec_centered(mon, cs, area, smart_gaps).len() == cs.len(),
        placed_ids(spec_centered(mon, cs, area, smart_gaps)).to_multiset() == client_ids(cs).to_multiset(),
{
    let n = cs.len() as int;
    if n > 0 {
        let (oh, ov, ih, iv) = spec_effective_gaps(mon, n, smart_gaps);
        let (ax, ay, aw, ah) = frame(area, oh as int, ov as int);
        let nm = min_usize(mon.nmaster as int, n);
        lemma_master_stack_ids(cs, nm, ax, aw, iv as int, ay, ah, ih as int, mon.mfact_pct as int, true);
        lemma_master_stack_ids(cs, nm, ay, ah, ih as int, ax, aw, iv as int, mon.mfact_pct as int, false);
        lemma_centered_ids(mon, cs, area, smart_gaps);
    }
    assert(placed_ids(spec_monocle(cs, area)) =~= client_ids(cs));
    assert(placed_ids(spec_fibonacci(mon, cs, area, false, smart_gaps)) =~= client_ids(cs));
    assert(placed_ids(spec_fibonacci(mon, cs, area, true, smart_gaps)) =~= client_ids(cs));
    assert(placed_ids(spec_grid(mon, cs, area, smart_gaps)) =~= client_ids(cs));
}

/// Elements at even positions.
pub open spec fn evens<T>(t: Seq<T>) -> Seq<T> {
    Seq::new(((t.len() + 1) / 2) as nat, |j: int| t[2 * j])
}

/// Elements at odd positions.
pub open spec fn odds<T>(t: Seq<T>) -> Seq<T> {
    Seq::new((t.len() / 2) as nat, |j: int| t[2 * j + 1])
}

/// Splitting a sequence into its even and odd positions loses nothing.
proof fn lemma_evens_odds<T>(t: Seq<T>)
    ensures
        (evens(t) + odds(t)).to_multiset() == t.to_multiset(),
    decreases t.len(),
{
    broadcast use vstd::seq_lib::group_to_multiset_ensures;
    vstd::seq_lib::lemma_multiset_commutative(evens(t), odds(t));
    if t.len() == 0 {
        assert(evens(t) =~= Seq::<T>::empty());
        assert(odds(t) =~= Seq::<T>::empty());
        assert(t =~= Seq::<T>::empty());
    } else {
        let tp = t.drop_last();
        let x = t.last();
        lemma_evens_odds(tp);
        vstd::seq_lib::lemma_multiset_commutative(evens(tp), odds(tp));
        assert(t == tp.push(x));
        if (t.len() - 1) % 2 == 0 {
            assert(evens(t) =~= evens(tp).push(x));
            assert(odds(t) =~= odds(tp));
        } else {
            assert(evens(t) =~= evens(tp));
            assert(odds(t) =~= odds(tp).push(x));
        }
    }
}

proof fn lemma_centered_ids(mon: Monitor, cs: Seq<(ClientId, &Client)>, area: Rect, smart_gaps: bool)
    requires
        cs.len() > 0,
    ensures
        spec_centered(mon, cs, area, smart_gaps).len() == cs.len(),
        placed_ids(spec_centered(mon, cs, area, smart_gaps)).to_multiset() == client_ids(cs).to_multiset(),
{
    broadcast use vstd::seq_lib::group_to_multiset_ensures;
    let n = cs.len() as int;
    let (oh, ov, ih, iv) = spec_effective_gaps(mon, n, smart_gaps);
    let (ax, ay, aw, ah) = frame(area, oh as int, ov as int);
    let nm = min_usize(mon.nmaster as int, n);
    let ns = n - nm;
    let ids = client_ids(cs);
    let r = spec_centered(mon, cs, area, smart_gaps);
    if ns == 0 {
        assert(placed_ids(r) =~= ids);
    } else {
        let stack = ids.subrange(nm, n);
        let lc = (ns + 1) / 2;
        let rc = ns / 2;
        assert(placed_ids(r) =~= ids.subrange(0, nm) + evens(stack) + odds(stack));
        lemma_evens_odds(stack);
        vstd::seq_lib::lemma_multiset_commutative(ids.subrange(0, nm) + evens(stack), odds(stack));
        vstd::seq_lib::lemma_multiset_commutative(ids.subrange(0, nm), evens(stack));
        vstd::seq_lib::lemma_multiset_commutative(evens(stack), odds(stack));
        vstd::seq_lib::lemma_multiset_commutative(ids.subrange(0, nm), stack);
        assert(ids =~= ids.subrange(0, nm) + stack);
        assert(ids.subrange(0, nm) + evens(stack) + odds(stack) =~= ids.subrange(0, nm) + (evens(stack) + odds(stack)));
        vstd::seq_lib::lemma_multiset_commutative(ids.subrange(0, nm), evens(stack) + odds(stack));
    }
}

} // verus!
