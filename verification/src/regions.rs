//! Connected regions of a boolean grid.
//!
//! The grid is row-major, `w` cells wide and `h` cells high. Two cells are
//! neighbours when one lies directly left of, right of, above or below the
//! other. A region is a set of set cells linked by paths of neighbours.

use vstd::prelude::*;

verus! {

/// `b` is one of the up to four neighbours of `a`.
pub open spec fn adjacent(w: int, h: int, a: int, b: int) -> bool {
    ||| (a % w > 0 && b == a - 1)
    ||| (a % w < w - 1 && b == a + 1)
    ||| (a / w > 0 && b == a - w)
    ||| (a / w < h - 1 && b == a + w)
}

/// `path` is a non-empty walk over set cells, each step going to a neighbour.
pub open spec fn is_path(cells: Seq<bool>, w: int, h: int, path: Seq<int>) -> bool {
    &&& path.len() > 0
    &&& forall|k: int|
        0 <= k < path.len() ==> 0 <= #[trigger] path[k] < cells.len() && cells[path[k]]
    &&& forall|k: int|
        0 <= k < path.len() - 1 ==> adjacent(w, h, #[trigger] path[k], path[k + 1])
}

/// Some walk over set cells leads from `a` to `b`.
pub open spec fn connected(cells: Seq<bool>, w: int, h: int, a: int, b: int) -> bool {
    exists|path: Seq<int>| #[trigger]
        is_path(cells, w, h, path) && path[0] == a && path.last() == b
}

/// Cell `i` starts a region: it is set and no earlier cell leads to it.
pub open spec fn starts_region(cells: Seq<bool>, w: int, h: int, i: int) -> bool {
    cells[i] && forall|j: int| 0 <= j < i ==> !connected(cells, w, h, j, i)
}

/// Number of regions that start among the first `n` cells.
pub open spec fn region_count(cells: Seq<bool>, w: int, h: int, n: nat) -> nat
    decreases n,
{
    if n == 0 {
        0
    } else {
        region_count(cells, w, h, (n - 1) as nat) + if starts_region(cells, w, h, n - 1) {
            1nat
        } else {
            0nat
        }
    }
}

/// The cells that are set and not covered.
pub open spec fn uncovered(cells: Seq<bool>, covered: Seq<bool>) -> Seq<bool> {
    Seq::new(cells.len(), |i: int| cells[i] && !covered[i])
}

/// A set cell is connected to itself.
pub proof fn lemma_connected_self(cells: Seq<bool>, w: int, h: int, a: int)
    requires
        0 <= a < cells.len(),
        cells[a],
    ensures
        connected(cells, w, h, a, a),
{
    let path = seq![a];
    assert(is_path(cells, w, h, path));
    assert(path[0] == a && path.last() == a);
}

/// Both ends of a connection are set cells of the grid.
pub proof fn lemma_connected_ends(cells: Seq<bool>, w: int, h: int, a: int, b: int)
    requires
        connected(cells, w, h, a, b),
    ensures
        0 <= a < cells.len(),
        cells[a],
        0 <= b < cells.len(),
        cells[b],
{
    let path = choose|path: Seq<int>| #[trigger]
        is_path(cells, w, h, path) && path[0] == a && path.last() == b;
    assert(path[0] == a);
    assert(path[path.len() - 1] == b);
}

/// A connection can be extended by one step to a set neighbour.
pub proof fn lemma_connected_step(cells: Seq<bool>, w: int, h: int, a: int, b: int, c: int)
    requires
        connected(cells, w, h, a, b),
        adjacent(w, h, b, c),
        0 <= c < cells.len(),
        cells[c],
    ensures
        connected(cells, w, h, a, c),
{
    let path = choose|path: Seq<int>| #[trigger]
        is_path(cells, w, h, path) && path[0] == a && path.last() == b;
    let longer = path.push(c);
    assert forall|k: int| 0 <= k < longer.len() - 1 implies adjacent(
        w,
        h,
        #[trigger] longer[k],
        longer[k + 1],
    ) by {
        if k < path.len() - 1 {
            assert(longer[k] == path[k]);
            assert(longer[k + 1] == path[k + 1]);
        }
    }
    assert forall|k: int| 0 <= k < longer.len() implies 0 <= #[trigger] longer[k] < cells.len()
        && cells[longer[k]] by {
        if k < path.len() {
            assert(longer[k] == path[k]);
        }
    }
    assert(is_path(cells, w, h, longer));
    assert(longer[0] == path[0]);
    assert(longer.last() == c);
}

/// Connections compose.
pub proof fn lemma_connected_trans(cells: Seq<bool>, w: int, h: int, a: int, b: int, c: int)
    requires
        connected(cells, w, h, a, b),
        connected(cells, w, h, b, c),
    ensures
        connected(cells, w, h, a, c),
{
    let p = choose|path: Seq<int>| #[trigger]
        is_path(cells, w, h, path) && path[0] == a && path.last() == b;
    let q = choose|path: Seq<int>| #[trigger]
        is_path(cells, w, h, path) && path[0] == b && path.last() == c;
    let joined = p + q.subrange(1, q.len() as int);
    assert forall|k: int| 0 <= k < joined.len() implies 0 <= #[trigger] joined[k] < cells.len()
        && cells[joined[k]] by {
        if k < p.len() {
            assert(joined[k] == p[k]);
        } else {
            assert(joined[k] == q[k - p.len() + 1]);
        }
    }
    assert forall|k: int| 0 <= k < joined.len() - 1 implies adjacent(
        w,
        h,
        #[trigger] joined[k],
        joined[k + 1],
    ) by {
        if k < p.len() - 1 {
            assert(joined[k] == p[k]);
            assert(joined[k + 1] == p[k + 1]);
        } else if k == p.len() - 1 {
            assert(joined[k] == p[k]);
            assert(p[k] == q[0]);
            assert(joined[k + 1] == q[1]);
        } else {
            assert(joined[k] == q[k - p.len() + 1]);
            assert(joined[k + 1] == q[k - p.len() + 2]);
        }
    }
    assert(is_path(cells, w, h, joined));
    assert(joined[0] == p[0]);
    if q.len() == 1 {
        assert(joined =~= p);
        assert(joined.last() == c);
    } else {
        assert(joined.last() == q[q.len() - 1]);
    }
}

/// Every cell of a walk is connected to the walk's end.
pub proof fn lemma_path_suffix(cells: Seq<bool>, w: int, h: int, path: Seq<int>, k: int)
    requires
        is_path(cells, w, h, path),
        0 <= k < path.len(),
    ensures
        connected(cells, w, h, path[k], path.last()),
        connected(cells, w, h, path[0], path[k]),
{
    let tail = path.subrange(k, path.len() as int);
    assert forall|j: int| 0 <= j < tail.len() implies 0 <= #[trigger] tail[j] < cells.len()
        && cells[tail[j]] by {
        assert(tail[j] == path[k + j]);
    }
    assert forall|j: int| 0 <= j < tail.len() - 1 implies adjacent(
        w,
        h,
        #[trigger] tail[j],
        tail[j + 1],
    ) by {
        assert(tail[j] == path[k + j]);
        assert(tail[j + 1] == path[k + j + 1]);
    }
    assert(is_path(cells, w, h, tail));
    assert(tail[0] == path[k]);
    assert(tail.last() == path.last());
    let head = path.subrange(0, k + 1);
    assert forall|j: int| 0 <= j < head.len() implies 0 <= #[trigger] head[j] < cells.len()
        && cells[head[j]] by {
        assert(head[j] == path[j]);
    }
    assert forall|j: int| 0 <= j < head.len() - 1 implies adjacent(
        w,
        h,
        #[trigger] head[j],
        head[j + 1],
    ) by {
        assert(head[j] == path[j]);
        assert(head[j + 1] == path[j + 1]);
    }
    assert(is_path(cells, w, h, head));
    assert(head[0] == path[0]);
    assert(head.last() == path[k]);
}

/// A connection over fewer cells is a connection over more.
pub proof fn lemma_connected_monotone(
    fewer: Seq<bool>,
    more: Seq<bool>,
    w: int,
    h: int,
    a: int,
    b: int,
)
    requires
        fewer.len() == more.len(),
        forall|i: int| 0 <= i < fewer.len() && fewer[i] ==> more[i],
        connected(fewer, w, h, a, b),
    ensures
        connected(more, w, h, a, b),
{
    let path = choose|path: Seq<int>| #[trigger]
        is_path(fewer, w, h, path) && path[0] == a && path.last() == b;
    assert(is_path(more, w, h, path));
}

/// A grid without set cells has no region.
pub proof fn lemma_no_cells_no_regions(cells: Seq<bool>, w: int, h: int, n: nat)
    requires
        n <= cells.len(),
        forall|i: int| 0 <= i < cells.len() ==> !cells[i],
    ensures
        region_count(cells, w, h, n) == 0,
    decreases n,
{
    if n > 0 {
        lemma_no_cells_no_regions(cells, w, h, (n - 1) as nat);
    }
}

/// There are at most as many regions as cells.
pub proof fn lemma_region_count_bound(cells: Seq<bool>, w: int, h: int, n: nat)
    ensures
        region_count(cells, w, h, n) <= n,
    decreases n,
{
    if n > 0 {
        lemma_region_count_bound(cells, w, h, (n - 1) as nat);
    }
}

/// Number of cells that are not covered.
pub open spec fn count_clear(covered: Seq<bool>) -> nat
    decreases covered.len(),
{
    if covered.len() == 0 {
        0
    } else {
        count_clear(covered.drop_last()) + if covered.last() {
            0nat
        } else {
            1nat
        }
    }
}

/// Covering one more cell leaves one fewer to cover.
pub proof fn lemma_cover_one(covered: Seq<bool>, i: int)
    requires
        0 <= i < covered.len(),
        !covered[i],
    ensures
        count_clear(covered.update(i, true)) + 1 == count_clear(covered),
    decreases covered.len(),
{
    let after = covered.update(i, true);
    if i == covered.len() - 1 {
        assert(after.drop_last() =~= covered.drop_last());
    } else {
        lemma_cover_one(covered.drop_last(), i);
        assert(after.drop_last() =~= covered.drop_last().update(i, true));
    }
}

/// What a sequence contains after one more element is pushed.
pub proof fn lemma_push_contains(s: Seq<usize>, c: usize)
    ensures
        forall|x: usize| #[trigger] s.push(c).contains(x) <==> (s.contains(x) || x == c),
{
    assert forall|x: usize| s.push(c).contains(x) <==> (s.contains(x) || x == c) by {
        if s.push(c).contains(x) {
            let i = choose|i: int| 0 <= i < s.push(c).len() && s.push(c)[i] == x;
            if i < s.len() {
                assert(s[i] == x);
            }
        }
        if s.contains(x) {
            let i = choose|i: int| 0 <= i < s.len() && s[i] == x;
            assert(s.push(c)[i] == x);
        }
        if x == c {
            assert(s.push(c)[s.len() as int] == x);
        }
    }
}

/// What a sequence contains after its last element is taken off.
pub proof fn lemma_drop_last_contains(s: Seq<usize>)
    requires
        s.len() > 0,
    ensures
        forall|x: usize| #[trigger] s.contains(x) ==> (s.drop_last().contains(x) || x == s.last()),
        forall|x: usize| #[trigger] s.drop_last().contains(x) ==> s.contains(x),
{
    assert forall|x: usize| s.contains(x) implies (s.drop_last().contains(x) || x == s.last()) by {
        let i = choose|i: int| 0 <= i < s.len() && s[i] == x;
        if i < s.len() - 1 {
            assert(s.drop_last()[i] == x);
        }
    }
    assert forall|x: usize| s.drop_last().contains(x) implies s.contains(x) by {
        let i = choose|i: int| 0 <= i < s.drop_last().len() && s.drop_last()[i] == x;
        assert(s[i] == x);
    }
}

/// The newly covered cells are closed under stepping to uncovered neighbours
/// and hold the start.
pub open spec fn fill_closed(
    open: Seq<bool>,
    w: int,
    h: int,
    before: Seq<bool>,
    covered: Seq<bool>,
    start: int,
) -> bool {
    &&& (0 <= start < open.len() && open[start] ==> covered[start])
    &&& forall|v: int, b: int|
        0 <= v < open.len() && covered[v] && !before[v] && #[trigger] adjacent(w, h, v, b) && 0
            <= b < open.len() && open[b] ==> covered[b]
}

/// A closed fill covers every cell of every walk from the start.
pub proof fn lemma_closed_covers(
    open: Seq<bool>,
    w: int,
    h: int,
    before: Seq<bool>,
    covered: Seq<bool>,
    start: int,
    path: Seq<int>,
    k: int,
)
    requires
        before.len() == open.len(),
        covered.len() == open.len(),
        forall|i: int| 0 <= i < open.len() && open[i] ==> !before[i],
        fill_closed(open, w, h, before, covered, start),
        is_path(open, w, h, path),
        path[0] == start,
        0 <= k < path.len(),
    ensures
        covered[path[k]],
    decreases k,
{
    if k > 0 {
        lemma_closed_covers(open, w, h, before, covered, start, path, k - 1);
        assert(adjacent(w, h, path[k - 1], path[k - 1 + 1]));
    }
}

/// State of a fill in progress: what was covered stays covered, what is newly
/// covered is reachable from the start, every pending cell that can be covered
/// is reachable, and every uncovered neighbour of a newly covered cell is
/// covered or pending.
pub open spec fn fill_progress(
    open: Seq<bool>,
    w: int,
    h: int,
    before: Seq<bool>,
    covered: Seq<bool>,
    pending: Seq<usize>,
    start: int,
) -> bool {
    &&& open.len() <= usize::MAX
    &&& before.len() == open.len()
    &&& covered.len() == open.len()
    &&& forall|i: int| 0 <= i < open.len() && open[i] ==> !before[i]
    &&& forall|i: int| 0 <= i < open.len() && before[i] ==> covered[i]
    &&& forall|i: int|
        0 <= i < open.len() && covered[i] && !before[i] ==> #[trigger] connected(
            open,
            w,
            h,
            start,
            i,
        )
    &&& forall|x: usize|
        #[trigger] pending.contains(x) && x < open.len() && open[x as int] ==> connected(
            open,
            w,
            h,
            start,
            x as int,
        )
    &&& forall|v: int, b: int|
        0 <= v < open.len() && covered[v] && !before[v] && #[trigger] adjacent(w, h, v, b) && 0
            <= b < open.len() && open[b] ==> covered[b] || pending.contains(b as usize)
    &&& (0 <= start < open.len() && open[start] ==> covered[start] || pending.contains(
        start as usize,
    ))
}

/// Taking a pending cell off that cannot be covered keeps the fill in order.
pub proof fn lemma_fill_skip(
    open: Seq<bool>,
    w: int,
    h: int,
    before: Seq<bool>,
    covered: Seq<bool>,
    pending: Seq<usize>,
    start: int,
)
    requires
        fill_progress(open, w, h, before, covered, pending, start),
        pending.len() > 0,
        pending.last() >= open.len() || covered[pending.last() as int] || !open[pending.last() as int],
    ensures
        fill_progress(open, w, h, before, covered, pending.drop_last(), start),
{
    lemma_drop_last_contains(pending);
    let rest = pending.drop_last();
    assert forall|v: int, b: int|
        0 <= v < open.len() && covered[v] && !before[v] && #[trigger] adjacent(w, h, v, b) && 0
            <= b < open.len() && open[b] implies covered[b] || rest.contains(b as usize) by {
        if !covered[b] {
            assert(pending.contains(b as usize));
        }
    }
}

/// Covering a pending cell and making its neighbours pending keeps the fill
/// in order.
pub proof fn lemma_fill_visit(
    open: Seq<bool>,
    w: int,
    h: int,
    before: Seq<bool>,
    covered: Seq<bool>,
    pending: Seq<usize>,
    after: Seq<usize>,
    start: int,
)
    requires
        fill_progress(open, w, h, before, covered, pending, start),
        pending.len() > 0,
        pending.last() < open.len(),
        !covered[pending.last() as int],
        open[pending.last() as int],
        forall|x: usize| pending.drop_last().contains(x) ==> after.contains(x),
        forall|b: int|
            #[trigger] adjacent(w, h, pending.last() as int, b) && 0 <= b < open.len()
                ==> after.contains(b as usize),
        forall|x: usize|
            after.contains(x) ==> pending.drop_last().contains(x) || adjacent(
                w,
                h,
                pending.last() as int,
                x as int,
            ),
    ensures
        fill_progress(
            open,
            w,
            h,
            before,
            covered.update(pending.last() as int, true),
            after,
            start,
        ),
{
    lemma_drop_last_contains(pending);
    let idx = pending.last() as int;
    let now = covered.update(idx, true);
    assert(pending.contains(pending.last())) by {
        assert(pending[pending.len() - 1] == pending.last());
    }
    assert(connected(open, w, h, start, idx));
    assert forall|x: usize|
        #[trigger] after.contains(x) && x < open.len() && open[x as int] implies connected(
        open,
        w,
        h,
        start,
        x as int,
    ) by {
        if pending.drop_last().contains(x) {
            assert(pending.contains(x));
        } else {
            lemma_connected_step(open, w, h, start, idx, x as int);
        }
    }
    assert forall|v: int, b: int|
        0 <= v < open.len() && now[v] && !before[v] && #[trigger] adjacent(w, h, v, b) && 0 <= b
            < open.len() && open[b] implies now[b] || after.contains(b as usize) by {
        if v != idx {
            if !covered[b] {
                assert(pending.contains(b as usize));
            }
        }
    }
    assert forall|i: int| 0 <= i < open.len() && now[i] && !before[i] implies #[trigger] connected(
        open,
        w,
        h,
        start,
        i,
    ) by {
        if i != idx {
            assert(covered[i]);
        }
    }
    if 0 <= start < open.len() && open[start] {
        if !covered[start] {
            assert(pending.contains(start as usize));
        }
    }
}

/// A finished fill covers exactly what was covered before and what a walk
/// over uncovered set cells reaches from the start.
pub proof fn lemma_fill_done(
    open: Seq<bool>,
    w: int,
    h: int,
    before: Seq<bool>,
    covered: Seq<bool>,
    start: int,
)
    requires
        fill_progress(open, w, h, before, covered, Seq::<usize>::empty(), start),
    ensures
        forall|i: int|
            0 <= i < open.len() ==> covered[i] == (before[i] || connected(open, w, h, start, i)),
{
    let none = Seq::<usize>::empty();
    assert forall|x: usize| !none.contains(x) by {}
    assert(fill_closed(open, w, h, before, covered, start));
    assert forall|i: int| 0 <= i < open.len() implies covered[i] == (before[i] || connected(
        open,
        w,
        h,
        start,
        i,
    )) by {
        if connected(open, w, h, start, i) {
            let path = choose|path: Seq<int>| #[trigger]
                is_path(open, w, h, path) && path[0] == start && path.last() == i;
            lemma_closed_covers(open, w, h, before, covered, start, path, path.len() - 1);
        }
    }
}

/// Puts one more cell on the stack of pending cells.
fn push_pending(stack: &mut Vec<usize>, c: usize)
    ensures
        final(stack)@ == old(stack)@.push(c),
        forall|x: usize| final(stack)@.contains(x) <==> (old(stack)@.contains(x) || x == c),
{
    proof {
        lemma_push_contains(stack@, c);
    }
    stack.push(c);
}

/// Simple flood fill: covers every cell that a walk over set, uncovered cells
/// reaches from `start`, and no other.
pub fn flood_fill(
    mask: &Vec<bool>,
    visited: &mut Vec<bool>,
    width: usize,
    height: usize,
    start: usize,
)
    requires
        width > 0,
        mask.len() == width * height,
        old(visited).len() == mask.len(),
    ensures
        final(visited).len() == old(visited).len(),
        forall|i: int|
            0 <= i < mask.len() ==> final(visited)[i] == (old(visited)[i] || connected(
                uncovered(mask@, old(visited)@),
                width as int,
                height as int,
                start as int,
                i,
            )),
{
    let ghost before = visited@;
    let ghost open = uncovered(mask@, before);
    let ghost w = width as int;
    let ghost h = height as int;
    let mut stack: Vec<usize> = Vec::new();
    push_pending(&mut stack, start);
    proof {
        if start < mask.len() && open[start as int] {
            lemma_connected_self(open, w, h, start as int);
        }
        assert(fill_progress(open, w, h, before, visited@, stack@, start as int));
    }
    while stack.len() > 0
        invariant
            width > 0,
            w == width,
            h == height,
            mask.len() == width * height,
            open == uncovered(mask@, before),
            fill_progress(open, w, h, before, visited@, stack@, start as int),
        decreases count_clear(visited@), stack.len(),
    {
        let ghost pending = stack@;
        let ghost covered = visited@;
        let idx = stack.pop().unwrap();
        assert(idx == pending.last());
        assert(stack@ == pending.drop_last());
        if idx >= mask.len() || visited[idx] || !mask[idx] {
            proof {
                lemma_fill_skip(open, w, h, before, covered, pending, start as int);
            }
            continue;
        }
        visited.set(idx, true);
        proof {
            lemma_cover_one(covered, idx as int);
            vstd::arithmetic::div_mod::lemma_fundamental_div_mod(idx as int, w);
        }
        let x = idx % width;
        let y = idx / width;
        if x > 0 {
            push_pending(&mut stack, idx - 1);
        }
        if x < width - 1 {
            push_pending(&mut stack, idx + 1);
        }
        if y > 0 {
            assert(idx >= width) by (nonlinear_arith)
                requires
                    idx == width * y + x,
                    y > 0,
                    width > 0,
            ;
            push_pending(&mut stack, (idx - width) as usize);
        }
        if y < height - 1 {
            assert(idx + width < width * height) by (nonlinear_arith)
                requires
                    idx == width * y + x,
                    y < height - 1,
                    x < width,
            ;
            push_pending(&mut stack, idx + width);
        }
        proof {
            assert forall|b: int|
                #[trigger] adjacent(w, h, idx as int, b) && 0 <= b < open.len()
                    implies stack@.contains(b as usize) by {}
            lemma_fill_visit(open, w, h, before, covered, pending, stack@, start as int);
        }
    }
    proof {
        assert(stack@ =~= Seq::<usize>::empty());
        lemma_fill_done(open, w, h, before, visited@, start as int);
    }
}

/// Some cell before `i` leads to `c`.
pub open spec fn reached_before(cells: Seq<bool>, w: int, h: int, i: int, c: int) -> bool {
    exists|j: int| 0 <= j < i && #[trigger] connected(cells, w, h, j, c)
}

/// The covered cells are exactly those that a cell before `i` leads to.
pub open spec fn covers_earlier(
    cells: Seq<bool>,
    w: int,
    h: int,
    covered: Seq<bool>,
    i: int,
) -> bool {
    &&& covered.len() == cells.len()
    &&& forall|c: int|
        0 <= c < cells.len() ==> #[trigger] covered[c] == reached_before(cells, w, h, i, c)
}

/// While the earlier regions are covered, a set cell starts a region exactly
/// when it is not covered.
pub proof fn lemma_start_iff_uncovered(
    cells: Seq<bool>,
    w: int,
    h: int,
    covered: Seq<bool>,
    i: int,
)
    requires
        covers_earlier(cells, w, h, covered, i),
        0 <= i < cells.len(),
    ensures
        starts_region(cells, w, h, i) == (cells[i] && !covered[i]),
{
    assert(covered[i] == reached_before(cells, w, h, i, i));
}

/// Passing a cell that is clear or already covered leaves the cover as it is.
pub proof fn lemma_cover_unchanged(
    cells: Seq<bool>,
    w: int,
    h: int,
    covered: Seq<bool>,
    i: int,
)
    requires
        covers_earlier(cells, w, h, covered, i),
        0 <= i < cells.len(),
        !cells[i] || covered[i],
    ensures
        covers_earlier(cells, w, h, covered, i + 1),
{
    assert forall|c: int| 0 <= c < cells.len() implies #[trigger] covered[c] == reached_before(
        cells,
        w,
        h,
        i + 1,
        c,
    ) by {
        assert(covered[c] == reached_before(cells, w, h, i, c));
        if reached_before(cells, w, h, i, c) {
            let j = choose|j: int| 0 <= j < i && #[trigger] connected(cells, w, h, j, c);
            assert(connected(cells, w, h, j, c));
        }
        if reached_before(cells, w, h, i + 1, c) {
            let j = choose|j: int| 0 <= j < i + 1 && #[trigger] connected(cells, w, h, j, c);
            if j == i {
                lemma_connected_ends(cells, w, h, i, c);
                assert(covered[i] == reached_before(cells, w, h, i, i));
                let j0 = choose|j0: int| 0 <= j0 < i && #[trigger] connected(cells, w, h, j0, i);
                lemma_connected_trans(cells, w, h, j0, i, c);
            }
        }
    }
}

/// Filling from an uncovered set cell covers exactly its region on top of
/// the earlier ones.
pub proof fn lemma_cover_filled(
    cells: Seq<bool>,
    w: int,
    h: int,
    covered: Seq<bool>,
    filled: Seq<bool>,
    i: int,
)
    requires
        covers_earlier(cells, w, h, covered, i),
        0 <= i < cells.len(),
        filled.len() == cells.len(),
        forall|c: int|
            0 <= c < cells.len() ==> filled[c] == (covered[c] || connected(
                uncovered(cells, covered),
                w,
                h,
                i,
                c,
            )),
    ensures
        covers_earlier(cells, w, h, filled, i + 1),
{
    let open = uncovered(cells, covered);
    assert forall|c: int| 0 <= c < cells.len() implies #[trigger] filled[c] == reached_before(
        cells,
        w,
        h,
        i + 1,
        c,
    ) by {
        assert(covered[c] == reached_before(cells, w, h, i, c));
        if filled[c] {
            if covered[c] {
                let j = choose|j: int| 0 <= j < i && #[trigger] connected(cells, w, h, j, c);
                assert(connected(cells, w, h, j, c));
            } else {
                lemma_connected_monotone(open, cells, w, h, i, c);
            }
        }
        if reached_before(cells, w, h, i + 1, c) {
            let j = choose|j: int| 0 <= j < i + 1 && #[trigger] connected(cells, w, h, j, c);
            if j == i && !covered[c] {
                let path = choose|path: Seq<int>| #[trigger]
                    is_path(cells, w, h, path) && path[0] == i && path.last() == c;
                if exists|k: int| 0 <= k < path.len() && covered[#[trigger] path[k]] {
                    let k = choose|k: int| 0 <= k < path.len() && covered[#[trigger] path[k]];
                    assert(covered[path[k]] == reached_before(cells, w, h, i, path[k]));
                    let j0 = choose|j0: int|
                        0 <= j0 < i && #[trigger] connected(cells, w, h, j0, path[k]);
                    lemma_path_suffix(cells, w, h, path, k);
                    lemma_connected_trans(cells, w, h, j0, path[k], c);
                    assert(reached_before(cells, w, h, i, c));
                } else {
                    assert forall|k: int| 0 <= k < path.len() implies 0 <= #[trigger] path[k]
                        < open.len() && open[path[k]] by {
                        assert(!covered[path[k]]);
                    }
                    assert(is_path(open, w, h, path));
                    assert(connected(open, w, h, i, c));
                }
            }
        }
    }
}

/// Before any cell is passed, nothing is covered.
pub proof fn lemma_cover_initial(cells: Seq<bool>, w: int, h: int, covered: Seq<bool>)
    requires
        covered.len() == cells.len(),
        forall|c: int| 0 <= c < covered.len() ==> !covered[c],
    ensures
        covers_earlier(cells, w, h, covered, 0),
{
}

/// Being neighbours is mutual.
pub proof fn lemma_adjacent_symmetric(w: int, h: int, a: int, b: int)
    requires
        w > 0,
        0 <= a < w * h,
        0 <= b < w * h,
        adjacent(w, h, a, b),
    ensures
        adjacent(w, h, b, a),
{
    let q = a / w;
    let r = a % w;
    vstd::arithmetic::div_mod::lemma_fundamental_div_mod(a, w);
    assert(a == w * q + r && 0 <= r < w);
    assert(q < h) by (nonlinear_arith)
        requires
            a == w * q + r,
            0 <= r,
            a < w * h,
            w > 0,
    ;
    if a % w > 0 && b == a - 1 {
        vstd::arithmetic::div_mod::lemma_fundamental_div_mod_converse(b, w, q, r - 1);
    } else if a % w < w - 1 && b == a + 1 {
        vstd::arithmetic::div_mod::lemma_fundamental_div_mod_converse(b, w, q, r + 1);
    } else if a / w > 0 && b == a - w {
        assert(b == (q - 1) * w + r) by (nonlinear_arith)
            requires
                b == a - w,
                a == w * q + r,
        ;
        vstd::arithmetic::div_mod::lemma_fundamental_div_mod_converse(b, w, q - 1, r);
    } else {
        assert(b == (q + 1) * w + r) by (nonlinear_arith)
            requires
                b == a + w,
                a == w * q + r,
        ;
        vstd::arithmetic::div_mod::lemma_fundamental_div_mod_converse(b, w, q + 1, r);
    }
}

/// A walk can be gone backwards: being connected is mutual.
pub proof fn lemma_connected_symmetric(cells: Seq<bool>, w: int, h: int, a: int, b: int)
    requires
        w > 0,
        cells.len() == w * h,
        connected(cells, w, h, a, b),
    ensures
        connected(cells, w, h, b, a),
{
    let path = choose|path: Seq<int>| #[trigger]
        is_path(cells, w, h, path) && path[0] == a && path.last() == b;
    let back = Seq::new(path.len(), |k: int| path[path.len() - 1 - k]);
    assert forall|k: int| 0 <= k < back.len() implies 0 <= #[trigger] back[k] < cells.len()
        && cells[back[k]] by {
        assert(back[k] == path[path.len() - 1 - k]);
    }
    assert forall|k: int| 0 <= k < back.len() - 1 implies adjacent(
        w,
        h,
        #[trigger] back[k],
        back[k + 1],
    ) by {
        let j = path.len() - 2 - k;
        assert(back[k] == path[j + 1]);
        assert(back[k + 1] == path[j]);
        assert(adjacent(w, h, path[j], path[j + 1]));
        lemma_adjacent_symmetric(w, h, path[j], path[j + 1]);
    }
    assert(is_path(cells, w, h, back));
    assert(back[0] == b);
    assert(back.last() == a);
}

/// A cell starts a region exactly when it is set and is the first cell of
/// all that it is connected to. So every region has one start, and the
/// number of starts is the number of regions.
pub proof fn lemma_start_is_first(cells: Seq<bool>, w: int, h: int, i: int)
    requires
        w > 0,
        cells.len() == w * h,
        0 <= i < cells.len(),
    ensures
        starts_region(cells, w, h, i) <==> cells[i] && forall|j: int|
            connected(cells, w, h, i, j) ==> i <= j,
{
    if starts_region(cells, w, h, i) {
        assert forall|j: int| connected(cells, w, h, i, j) implies i <= j by {
            lemma_connected_ends(cells, w, h, i, j);
            lemma_connected_symmetric(cells, w, h, i, j);
        }
    }
    if cells[i] && forall|j: int| connected(cells, w, h, i, j) ==> i <= j {
        assert forall|j: int| 0 <= j < i implies !connected(cells, w, h, j, i) by {
            if connected(cells, w, h, j, i) {
                lemma_connected_symmetric(cells, w, h, j, i);
            }
        }
    }
}

} // verus!
