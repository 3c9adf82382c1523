//! The renderer's frame: which cameras render, and in what order.
use vstd::prelude::*;

verus! {

/// Where a camera renders.
#[derive(Clone, Copy, Debug, PartialEq, Eq)]
pub enum CameraTarget {
    /// A texture of its own.
    Texture,
    /// The primary window.
    Main,
}

/// Camera `a` comes before camera `b`: by priority, and in query order
/// between equal priorities.
pub open spec fn camera_before(priorities: Seq<i64>, a: int, b: int) -> bool {
    priorities[a] < priorities[b] || (priorities[a] == priorities[b] && a < b)
}

/// The cameras, by their place in the query, ordered by priority, lowest
/// first; cameras of equal priority keep their query order.
pub fn priority_order(priorities: &Vec<i64>) -> (order: Vec<usize>)
    ensures
        order@.len() == priorities@.len(),
        forall|i: int| 0 <= i < order@.len() ==> (#[trigger] order@[i]) < priorities@.len(),
        forall|i: int, j: int| 0 <= i < j < order@.len() ==> camera_before(priorities@, #[trigger] order@[i] as int, #[trigger] order@[j] as int),
{
    let n = priorities.len();
    let mut taken: Vec<bool> = Vec::new();
    let mut t: usize = 0;
    while t < n
        invariant
            t <= n,
            n == priorities@.len(),
            taken@.len() == t,
            forall|k: int| 0 <= k < t ==> !(#[trigger] taken@[k]),
        decreases n - t,
    {
        taken.push(false);
        t = t + 1;
    }
    let mut order: Vec<usize> = Vec::new();
    while order.len() < n
        invariant
            n == priorities@.len(),
            taken@.len() == n,
            order@.len() <= n,
            forall|i: int| 0 <= i < order@.len() ==> (#[trigger] order@[i]) < n,
            forall|i: int| 0 <= i < order@.len() ==> taken@[#[trigger] order@[i] as int],
            forall|k: int| 0 <= k < n && #[trigger] taken@[k] ==> exists|i: int| 0 <= i < order@.len() && order@[i] == k,
            forall|i: int, j: int| 0 <= i < j < order@.len() ==> camera_before(priorities@, #[trigger] order@[i] as int, #[trigger] order@[j] as int),
            forall|i: int, k: int| 0 <= i < order@.len() && 0 <= k < n && !(#[trigger] taken@[k]) ==> camera_before(priorities@, #[trigger] order@[i] as int, k),
        decreases n - order@.len(),
    {
        // Some camera is still untaken: the taken ones are all in `order`,
        // which holds no camera twice.
        proof {
            lemma_untaken_exists(taken@, order@, n as int, priorities@);
        }
        let mut best: usize = n;
        let mut k: usize = 0;
        while k < n
            invariant
                n == priorities@.len(),
                taken@.len() == n,
                k <= n,
                best == n || (best < k && !taken@[best as int]),
                best == n ==> forall|m: int| 0 <= m < k ==> #[trigger] taken@[m],
                best < n ==> forall|m: int| 0 <= m < k && !(#[trigger] taken@[m]) && m != best ==> camera_before(priorities@, best as int, m),
            decreases n - k,
        {
            if !taken[k] {
                if best == n || priorities[k] < priorities[best] {
                    best = k;
                }
            }
            k = k + 1;
        }
        proof {
            if best == n {
                let w = choose|m: int| 0 <= m < n && !taken@[m];
                assert(taken@[w]);
            }
        }
        let ghost old_order = order@;
        let ghost old_taken = taken@;
        taken.set(best, true);
        order.push(best);
        proof {
            assert forall|kk: int| 0 <= kk < n && #[trigger] taken@[kk] implies exists|i: int| 0 <= i < order@.len() && order@[i] == kk by {
                if kk == best as int {
                    assert(order@[old_order.len() as int] == kk);
                } else {
                    assert(old_taken[kk]);
                    let i = choose|i: int| 0 <= i < old_order.len() && old_order[i] == kk;
                    assert(order@[i] == kk);
                }
            }
            assert forall|i: int, kk: int| 0 <= i < order@.len() && 0 <= kk < n && !(#[trigger] taken@[kk]) implies camera_before(priorities@, #[trigger] order@[i] as int, kk) by {
                if i < old_order.len() {
                    assert(order@[i] == old_order[i]);
                    assert(!old_taken[kk]);
                } else {
                    assert(kk != best as int);
                    assert(!old_taken[kk]);
                }
            }
            assert forall|i: int, j: int| 0 <= i < j < order@.len() implies camera_before(priorities@, #[trigger] order@[i] as int, #[trigger] order@[j] as int) by {
                if j == old_order.len() {
                    assert(order@[i] == old_order[i]);
                    assert(!old_taken[best as int]);
                } else {
                    assert(order@[i] == old_order[i]);
                    assert(order@[j] == old_order[j]);
                }
            }
        }
    }
    order
}

proof fn lemma_untaken_exists(taken: Seq<bool>, order: Seq<usize>, n: int, priorities: Seq<i64>)
    requires
        taken.len() == n,
        order.len() < n,
        forall|i: int| 0 <= i < order.len() ==> (#[trigger] order[i]) < n,
        forall|k: int| 0 <= k < n && #[trigger] taken[k] ==> exists|i: int| 0 <= i < order.len() && order[i] == k,
    ensures
        exists|m: int| 0 <= m < n && !taken[m],
{
    if forall|m: int| 0 <= m < n ==> taken[m] {
        // every camera would be in `order`, which is too short for all of them
        let f = |k: int| choose|i: int| 0 <= i < order.len() && order[i] == k;
        assert forall|k: int| 0 <= k < n implies 0 <= #[trigger] f(k) < order.len() && order[f(k)] == k by {
            assert(taken[k]);
        }
        lemma_pigeonhole(f, order, n);
    }
}

proof fn lemma_pigeonhole(f: spec_fn(int) -> int, order: Seq<usize>, n: int)
    requires
        n >= 0,
        forall|k: int| 0 <= k < n ==> 0 <= #[trigger] f(k) < order.len() && order[f(k)] == k,
    ensures
        n <= order.len(),
{
    let s = Set::new(|i: int| 0 <= i < order.len());
    let img = Set::new(|i: int| exists|k: int| 0 <= k < n && #[trigger] f(k) == i);
    let dom = Set::new(|k: int| 0 <= k < n);
    vstd::set_lib::lemma_int_range(0, order.len() as int);
    vstd::set_lib::lemma_int_range(0, n);
    assert(s =~= vstd::set_lib::set_int_range(0, order.len() as int));
    assert(dom =~= vstd::set_lib::set_int_range(0, n));
    assert(img.subset_of(s));
    vstd::set_lib::lemma_len_subset(img, s);
    assert forall|i: int| #[trigger] img.contains(i) implies dom.map(f).contains(i) by {
        let k = choose|k: int| 0 <= k < n && #[trigger] f(k) == i;
        assert(dom.contains(k));
    }
    assert forall|i: int| #[trigger] dom.map(f).contains(i) implies img.contains(i) by {
        let k = choose|k: int| dom.contains(k) && f(k) == i;
        assert(0 <= k < n && f(k) == i);
    }
    assert(dom.map(f) =~= img);
    assert forall|a: int, b: int| dom.contains(a) && dom.contains(b) && #[trigger] f(a) == #[trigger] f(b) implies a == b by {
        assert(order[f(a)] == a);
        assert(order[f(b)] == b);
    }
    assert(vstd::relations::injective_on(f, dom));
    vstd::set_lib::lemma_map_size(dom, img, f);
}

/// Whether a camera renders this frame: a texture camera always does, a
/// camera of the primary window when a redraw of that window was requested.
pub open spec fn renders(target: CameraTarget, redraws: Seq<u64>, primary: u64) -> bool {
    target == CameraTarget::Texture || redraws.contains(primary)
}

fn requested(redraws: &Vec<u64>, primary: u64) -> (r: bool)
    ensures
        r == redraws@.contains(primary),
{
    let mut i: usize = 0;
    while i < redraws.len()
        invariant
            i <= redraws@.len(),
            forall|j: int| 0 <= j < i ==> redraws@[j] != primary,
        decreases redraws@.len() - i,
    {
        if redraws[i] == primary {
            assert(redraws@[i as int] == primary);
            return true;
        }
        i = i + 1;
    }
    false
}

/// The cameras that render this frame, by their place in the query, in
/// priority order: `redraws` holds the windows whose redraw was requested,
/// `primary` is the primary window.
pub fn render_order(priorities: &Vec<i64>, targets: &Vec<CameraTarget>, redraws: &Vec<u64>, primary: u64) -> (r: Vec<usize>)
    requires
        targets@.len() == priorities@.len(),
    ensures
        forall|i: int| 0 <= i < r@.len() ==> (#[trigger] r@[i]) < priorities@.len(),
        forall|i: int, j: int| 0 <= i < j < r@.len() ==> camera_before(priorities@, #[trigger] r@[i] as int, #[trigger] r@[j] as int),
        forall|c: int| 0 <= c < priorities@.len() ==> (r@.contains(c as usize) <==> renders(#[trigger] targets@[c], redraws@, primary)),
{
    let order = priority_order(priorities);
    let main = requested(redraws, primary);
    let mut r: Vec<usize> = Vec::new();
    let mut i: usize = 0;
    while i < order.len()
        invariant
            i <= order@.len(),
            main == redraws@.contains(primary),
            targets@.len() == priorities@.len(),
            order@.len() == priorities@.len(),
            forall|k: int| 0 <= k < order@.len() ==> (#[trigger] order@[k]) < priorities@.len(),
            forall|a: int, b: int| 0 <= a < b < order@.len() ==> camera_before(priorities@, #[trigger] order@[a] as int, #[trigger] order@[b] as int),
            forall|k: int| 0 <= k < r@.len() ==> (#[trigger] r@[k]) < priorities@.len(),
            forall|a: int, b: int| 0 <= a < b < r@.len() ==> camera_before(priorities@, #[trigger] r@[a] as int, #[trigger] r@[b] as int),
            forall|k: int| 0 <= k < r@.len() ==> exists|m: int| 0 <= m < i && order@[m] == #[trigger] r@[k],
            forall|m: int| 0 <= m < i ==> (r@.contains(#[trigger] order@[m]) <==> renders(targets@[order@[m] as int], redraws@, primary)),
        decreases order@.len() - i,
    {
        let c = order[i];
        let ghost old_r = r@;
        let texture = match targets[c] {
            CameraTarget::Texture => true,
            CameraTarget::Main => false,
        };
        if main || texture {
            r.push(c);
            proof {
                assert forall|a: int, b: int| 0 <= a < b < r@.len() implies camera_before(priorities@, #[trigger] r@[a] as int, #[trigger] r@[b] as int) by {
                    if b == old_r.len() {
                        assert(r@[a] == old_r[a]);
                        let m = choose|m: int| 0 <= m < i && order@[m] == old_r[a];
                        assert(camera_before(priorities@, order@[m] as int, order@[i as int] as int));
                    } else {
                        assert(r@[a] == old_r[a]);
                        assert(r@[b] == old_r[b]);
                    }
                }
                assert forall|k: int| 0 <= k < r@.len() implies exists|m: int| 0 <= m < i + 1 && order@[m] == #[trigger] r@[k] by {
                    if k == old_r.len() {
                        assert(order@[i as int] == r@[k]);
                    } else {
                        assert(r@[k] == old_r[k]);
                        let m = choose|m: int| 0 <= m < i && order@[m] == old_r[k];
                        assert(order@[m] == r@[k]);
                    }
                }
            }
        }
        proof {
            assert forall|m: int| 0 <= m < i + 1 implies (r@.contains(#[trigger] order@[m]) <==> renders(targets@[order@[m] as int], redraws@, primary)) by {
                if m < i {
                    assert(order@[m] != order@[i as int]);
                    if r@.contains(order@[m]) && !old_r.contains(order@[m]) {
                        let k = choose|k: int| 0 <= k < r@.len() && r@[k] == order@[m];
                        assert(k == old_r.len() || old_r[k] == order@[m]);
                    }
                    if old_r.contains(order@[m]) {
                        let k = choose|k: int| 0 <= k < old_r.len() && old_r[k] == order@[m];
                        assert(r@[k] == order@[m]);
                    }
                } else {
                    if old_r.contains(order@[m]) {
                        let k = choose|k: int| 0 <= k < old_r.len() && old_r[k] == order@[m];
                        let mm = choose|mm: int| 0 <= mm < i && order@[mm] == old_r[k];
                        assert(order@[mm] != order@[i as int]);
                    }
                    if r@.len() > old_r.len() {
                        assert(r@[old_r.len() as int] == order@[m]);
                    } else if r@.contains(order@[m]) {
                        let k = choose|k: int| 0 <= k < r@.len() && r@[k] == order@[m];
                        assert(old_r[k] == order@[m]);
                    }
                }
            }
        }
        i = i + 1;
    }
    proof {
        lemma_order_covers(order@, priorities@.len() as int);
        assert forall|c: int| 0 <= c < priorities@.len() implies (r@.contains(c as usize) <==> renders(#[trigger] targets@[c], redraws@, primary)) by {
            assert(covered(order@, c));
            let m = choose|m: int| 0 <= m < order@.len() && order@[m] == c;
            assert(r@.contains(order@[m]) <==> renders(targets@[order@[m] as int], redraws@, primary));
        }
    }
    r
}

/// Some place of `order` holds camera `c`.
pub open spec fn covered(order: Seq<usize>, c: int) -> bool {
    exists|m: int| 0 <= m < order.len() && order[m] == c
}

proof fn lemma_order_covers(order: Seq<usize>, n: int)
    requires
        order.len() == n,
        forall|k: int| 0 <= k < n ==> (#[trigger] order[k]) < n,
        forall|a: int, b: int| 0 <= a < b < n ==> #[trigger] order[a] != #[trigger] order[b],
    ensures
        forall|c: int| 0 <= c < n ==> #[trigger] covered(order, c),
{
    assert forall|c: int| 0 <= c < n implies #[trigger] covered(order, c) by {
        if !covered(order, c) {
            let g = |m: int| order[m] as int;
            let dom = vstd::set_lib::set_int_range(0, n);
            let rng = vstd::set_lib::set_int_range(0, n).remove(c);
            vstd::set_lib::lemma_int_range(0, n);
            assert forall|y: int| #[trigger] dom.map(g).contains(y) implies rng.contains(y) by {
                let m = choose|m: int| dom.contains(m) && g(m) == y;
            }
            vstd::set_lib::lemma_len_subset(dom.map(g), rng);
            assert(vstd::relations::injective_on(g, dom));
            vstd::set_lib::lemma_map_size(dom, dom.map(g), g);
        }
    }
}

/// An order of cameras as `priority_order` gives it holds every camera
/// exactly once.
pub proof fn lemma_priority_order_is_permutation(priorities: Seq<i64>, order: Seq<usize>)
    requires
        order.len() == priorities.len(),
        forall|i: int| 0 <= i < order.len() ==> (#[trigger] order[i]) < priorities.len(),
        forall|i: int, j: int| 0 <= i < j < order.len() ==> camera_before(priorities, #[trigger] order[i] as int, #[trigger] order[j] as int),
    ensures
        forall|c: int| 0 <= c < priorities.len() ==> #[trigger] covered(order, c),
        forall|i: int, j: int| 0 <= i < j < order.len() ==> #[trigger] order[i] != #[trigger] order[j],
{
    lemma_order_covers(order, priorities.len() as int);
}

} // verus!
