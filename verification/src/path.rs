//! Paths: their elements, and the steps of a walk along them. Elements are
//! separated by runs of `/`; a name keeps at most 32 bytes of its element.
use vstd::prelude::*;

verus! {

/// The byte `/`.
pub const SLASH: u8 = 0x2f;

/// The byte `.`.
pub const DOT: u8 = 0x2e;

/// The longest name kept of an element, in bytes.
pub const NAME_MAX: usize = 32;

/// The first position at or after `i` that holds no `/`.
pub open spec fn skip_slashes(p: Seq<u8>, i: int) -> int
    decreases p.len() - i,
{
    if i < 0 || i >= p.len() || p[i] != SLASH {
        i
    } else {
        skip_slashes(p, i + 1)
    }
}

/// The first position at or after `i` that holds a `/`, or the end.
pub open spec fn elem_end(p: Seq<u8>, i: int) -> int
    decreases p.len() - i,
{
    if i < 0 || i >= p.len() || p[i] == SLASH {
        i
    } else {
        elem_end(p, i + 1)
    }
}

/// Skipping slashes from `i` stops at the first non-slash byte, or at the
/// end, and passes over slashes only.
pub proof fn lemma_skip_slashes(p: Seq<u8>, i: int)
    requires
        0 <= i <= p.len(),
    ensures
        i <= skip_slashes(p, i) <= p.len(),
        skip_slashes(p, i) < p.len() ==> p[skip_slashes(p, i)] != SLASH,
        forall|j: int| i <= j < skip_slashes(p, i) ==> p[j] == SLASH,
    decreases p.len() - i,
{
    if i < p.len() && p[i] == SLASH {
        lemma_skip_slashes(p, i + 1);
    }
}

/// An element from `i` ends at the next slash, or at the end, holds no
/// slash, and is non-empty when it starts on a non-slash byte.
pub proof fn lemma_elem_end(p: Seq<u8>, i: int)
    requires
        0 <= i <= p.len(),
    ensures
        i <= elem_end(p, i) <= p.len(),
        elem_end(p, i) < p.len() ==> p[elem_end(p, i)] == SLASH,
        forall|j: int| i <= j < elem_end(p, i) ==> p[j] != SLASH,
        i < p.len() && p[i] != SLASH ==> elem_end(p, i) > i,
    decreases p.len() - i,
{
    if i < p.len() && p[i] != SLASH {
        lemma_elem_end(p, i + 1);
    }
}

/// The elements of `p` from position `i` on: the start and end of each.
pub open spec fn elems(p: Seq<u8>, i: int) -> Seq<(int, int)>
    decreases p.len() - i,
{
    if i < 0 || i > p.len() {
        Seq::empty()
    } else {
        let s = skip_slashes(p, i);
        if s >= p.len() {
            Seq::empty()
        } else {
            let e = elem_end(p, s);
            proof {
                lemma_skip_slashes(p, i);
                lemma_elem_end(p, s);
            }
            seq![(s, e)] + elems(p, e)
        }
    }
}

/// The name kept of the element `s .. e`: its first 32 bytes.
pub open spec fn name_of(p: Seq<u8>, r: (int, int)) -> Seq<u8> {
    p.subrange(r.0, if r.1 - r.0 > NAME_MAX { r.0 + NAME_MAX } else { r.1 })
}

/// Whether `b` continues a UTF-8 sequence.
pub open spec fn continues_char(b: u8) -> bool {
    0x80 <= b < 0xc0
}

/// Every name is cut on a character boundary: where an element is longer
/// than 32 bytes, its byte 32 begins a character.
#[verifier::opaque]
pub open spec fn names_cut_on_chars(p: Seq<u8>) -> bool {
    forall|k: int|
        #![trigger elems(p, 0)[k]]
        0 <= k < elems(p, 0).len() ==> (elems(p, 0)[k].1 - elems(p, 0)[k].0 > NAME_MAX
            ==> !continues_char(p[elems(p, 0)[k].0 + NAME_MAX]))
}

/// The next element of `path` at or after `from`: the bounds of its name
/// (at most its first 32 bytes) and where the rest of the path begins,
/// past the slashes that follow it; `None` when only slashes are left.
pub fn skipelem(path: &[u8], from: usize) -> (r: Option<(usize, usize, usize)>)
    requires
        from <= path@.len(),
    ensures
        ({
            let p = path@;
            let s = skip_slashes(p, from as int);
            let e = elem_end(p, s);
            &&& s >= p.len() ==> r is None
            &&& s < p.len() ==> r == Some(
                (
                    s as usize,
                    (if e - s > NAME_MAX { s + NAME_MAX } else { e }) as usize,
                    skip_slashes(p, e) as usize,
                ),
            )
        }),
        r matches Some((a, b, c)) ==> a < b <= path@.len() && c <= path@.len(),
{
    let ghost p = path@;
    proof {
        lemma_skip_slashes(p, from as int);
    }
    let mut s = from;
    while s < path.len() && path[s] == SLASH
        invariant
            from <= s <= path@.len(),
            skip_slashes(p, from as int) == skip_slashes(p, s as int),
            p == path@,
        decreases path@.len() - s,
    {
        s = s + 1;
    }
    if s == path.len() {
        return None;
    }
    let mut e = s;
    while e < path.len() && path[e] != SLASH
        invariant
            s <= e <= path@.len(),
            elem_end(p, s as int) == elem_end(p, e as int),
            p == path@,
        decreases path@.len() - e,
    {
        e = e + 1;
    }
    proof {
        lemma_elem_end(p, s as int);
        lemma_skip_slashes(p, e as int);
    }
    let name_end = if e - s > NAME_MAX {
        s + NAME_MAX
    } else {
        e
    };
    let mut rest = e;
    while rest < path.len() && path[rest] == SLASH
        invariant
            e <= rest <= path@.len(),
            skip_slashes(p, e as int) == skip_slashes(p, rest as int),
            p == path@,
        decreases path@.len() - rest,
    {
        rest = rest + 1;
    }
    Some((s, name_end, rest))
}

/// What a walk does at one element.
#[derive(Clone, Copy, Debug, PartialEq, Eq, Structural)]
pub enum StepKind {
    /// `.`: stay where the walk is.
    Current,
    /// `..`: go to the parent (`ENOENT` where there is none).
    Parent,
    /// Look the name up in the current directory.
    Lookup,
    /// The last element of a walk to the parent directory: stop before it.
    Stop,
}

/// One step of a walk: what to do, and the name of its element.
pub struct PathStep {
    pub kind: StepKind,
    pub name: Vec<u8>,
}

/// What the walk does at element `k` of `p`.
pub open spec fn kind_at(p: Seq<u8>, to_father: bool, k: int) -> StepKind {
    let r = elems(p, 0)[k];
    let name = name_of(p, r);
    if name == seq![DOT] {
        StepKind::Current
    } else if name == seq![DOT, DOT] {
        StepKind::Parent
    } else if to_father && skip_slashes(p, r.1) >= p.len() {
        StepKind::Stop
    } else {
        StepKind::Lookup
    }
}

/// The number of steps of the walk: up to and with the first stop, else
/// one per element.
pub open spec fn walk_len(p: Seq<u8>, to_father: bool) -> int {
    if exists|k: int| 0 <= k < elems(p, 0).len() && #[trigger] kind_at(p, to_father, k) == StepKind::Stop {
        (choose|k: int|
            0 <= k < elems(p, 0).len() && kind_at(p, to_father, k) == StepKind::Stop && forall|q: int|
                0 <= q < k ==> #[trigger] kind_at(p, to_father, q) != StepKind::Stop) + 1
    } else {
        elems(p, 0).len() as int
    }
}

proof fn lemma_elems_from(p: Seq<u8>, i: int)
    requires
        0 <= i <= p.len(),
    ensures
        forall|k: int|
            0 <= k < elems(p, i).len() ==> i <= #[trigger] elems(p, i)[k].0 < elems(p, i)[k].1 <= p.len(),
    decreases p.len() - i,
{
    let s = skip_slashes(p, i);
    lemma_skip_slashes(p, i);
    if s < p.len() {
        let e = elem_end(p, s);
        lemma_elem_end(p, s);
        lemma_elems_from(p, e);
        assert forall|k: int| 0 <= k < elems(p, i).len() implies i <= #[trigger] elems(p, i)[k].0
            < elems(p, i)[k].1 <= p.len() by {
            if k > 0 {
                assert(elems(p, i)[k] == elems(p, e)[k - 1]);
            }
        }
    }
}

/// A step of the walk over the element at `at`: it is element `k`, and
/// the walk goes on with the elements after it.
proof fn lemma_elems_step(p: Seq<u8>, at: int, k: int)
    requires
        0 <= at <= p.len(),
        0 <= k,
        elems(p, at) == elems(p, 0).skip(k),
        k <= elems(p, 0).len(),
        skip_slashes(p, at) < p.len(),
    ensures
        k < elems(p, 0).len(),
        elems(p, 0)[k] == (skip_slashes(p, at), elem_end(p, skip_slashes(p, at))),
        elems(p, elem_end(p, skip_slashes(p, at))) == elems(p, 0).skip(k + 1),
        elems(p, skip_slashes(p, elem_end(p, skip_slashes(p, at)))) == elems(p, 0).skip(k + 1),
        0 <= elem_end(p, skip_slashes(p, at)) <= p.len(),
        at < skip_slashes(p, elem_end(p, skip_slashes(p, at))) <= p.len(),
{
    let s = skip_slashes(p, at);
    lemma_skip_slashes(p, at);
    let e = elem_end(p, s);
    lemma_elem_end(p, s);
    assert(elems(p, at) == seq![(s, e)] + elems(p, e));
    assert(elems(p, at)[0] == (s, e));
    assert(elems(p, 0).skip(k)[0] == elems(p, 0)[k]);
    assert(elems(p, e) =~= elems(p, at).skip(1));
    assert(elems(p, 0).skip(k).skip(1) =~= elems(p, 0).skip(k + 1));
    lemma_elems_skip(p, e);
    lemma_skip_slashes(p, e);
}

/// The bytes `from .. to` of `path`.
fn copy_range(path: &[u8], from: usize, to: usize) -> (r: Vec<u8>)
    requires
        from <= to <= path@.len(),
    ensures
        r@ == path@.subrange(from as int, to as int),
{
    let mut name: Vec<u8> = Vec::new();
    let mut j = from;
    while j < to
        invariant
            from <= j <= to,
            to <= path@.len(),
            name@ == path@.subrange(from as int, j as int),
        decreases to - j,
    {
        name.push(path[j]);
        j = j + 1;
        proof {
            assert(name@ =~= path@.subrange(from as int, j as int));
        }
    }
    name
}

/// Whether `name` is `.`, and whether it is `..`.
fn dots(name: &Vec<u8>) -> (r: (bool, bool))
    ensures
        r.0 == (name@ == seq![DOT]),
        r.1 == (name@ == seq![DOT, DOT]),
{
    let is_dot = name.len() == 1 && name[0] == DOT;
    let is_dotdot = name.len() == 2 && name[0] == DOT && name[1] == DOT;
    proof {
        if name@.len() == 1 && name@[0] == DOT {
            assert(name@ =~= seq![DOT]);
        }
        if name@.len() == 2 && name@[0] == DOT && name@[1] == DOT {
            assert(name@ =~= seq![DOT, DOT]);
        }
    }
    (is_dot, is_dotdot)
}

/// The steps of a walk along `path`, and whether it starts at the root (a
/// path that begins with `/`) rather than the current directory: one step
/// per element, in order; when `to_father`, the last element that is
/// neither `.` nor `..` is a stop, and the walk ends there.
pub fn walk_plan(path: &[u8], to_father: bool) -> (r: (bool, Vec<PathStep>))
    requires
        names_cut_on_chars(path@),
    ensures
        r.0 == (path@.len() > 0 && path@[0] == SLASH),
        r.1@.len() == walk_len(path@, to_father),
        forall|k: int|
            0 <= k < r.1@.len() ==> (#[trigger] r.1@[k]).kind == kind_at(path@, to_father, k)
                && r.1@[k].name@ == name_of(path@, elems(path@, 0)[k]),
{
    let ghost p = path@;
    let plen = path.len();
    let from_root = plen > 0 && path[0] == SLASH;
    let mut steps: Vec<PathStep> = Vec::new();
    let mut cur: usize = 0;
    let ghost mut k: int = 0;
    proof {
        lemma_elems_from(p, 0);
        assert(elems(p, 0) =~= elems(p, 0).skip(0));
    }
    loop
        invariant_except_break
            p == path@,
            plen == p.len(),
            0 <= cur <= p.len(),
            0 <= k <= elems(p, 0).len(),
            elems(p, cur as int) =~= elems(p, 0).skip(k),
            steps@.len() == k,
            forall|q: int| 0 <= q < k ==> kind_at(p, to_father, q) != StepKind::Stop,
            forall|q: int|
                0 <= q < k ==> (#[trigger] steps@[q]).kind == kind_at(p, to_father, q) && steps@[q].name@
                    == name_of(p, elems(p, 0)[q]),
        ensures
            p == path@,
            steps@.len() == walk_len(p, to_father),
            forall|q: int|
                0 <= q < steps@.len() ==> (#[trigger] steps@[q]).kind == kind_at(p, to_father, q)
                    && steps@[q].name@ == name_of(p, elems(p, 0)[q]),
        decreases p.len() - cur,
    {
        let ghost at = cur as int;
        proof {
            lemma_skip_slashes(p, at);
        }
        match skipelem(path, cur) {
            None => {
                proof {
                    assert(elems(p, at).len() == 0);
                    assert(k == elems(p, 0).len());
                    if exists|q: int| 0 <= q < elems(p, 0).len() && #[trigger] kind_at(p, to_father, q) == StepKind::Stop {
                        let q = choose|q: int| 0 <= q < elems(p, 0).len() && #[trigger] kind_at(p, to_father, q) == StepKind::Stop;
                        assert(kind_at(p, to_father, q) != StepKind::Stop);
                    }
                }
                break;
            },
            Some((ns, ne, rest)) => {
                let ghost s = skip_slashes(p, at);
                let ghost e = elem_end(p, s);
                proof {
                    lemma_elems_step(p, at, k);
                    assert(rest as int == skip_slashes(p, e));
                    assert(rest as int > at);
                    assert(elems(p, rest as int) == elems(p, 0).skip(k + 1));
                }
                let name = copy_range(path, ns, ne);
                let (is_dot, is_dotdot) = dots(&name);
                cur = rest;
                if is_dot {
                    steps.push(PathStep { kind: StepKind::Current, name });
                } else if is_dotdot {
                    steps.push(PathStep { kind: StepKind::Parent, name });
                } else if to_father && cur == path.len() {
                    steps.push(PathStep { kind: StepKind::Stop, name });
                    proof {
                        let w = k;
                        assert(kind_at(p, to_father, w) == StepKind::Stop);
                        assert(0 <= w < elems(p, 0).len() && kind_at(p, to_father, w) == StepKind::Stop && forall|q: int|
                            0 <= q < w ==> #[trigger] kind_at(p, to_father, q) != StepKind::Stop);
                        let c = choose|q: int|
                            0 <= q < elems(p, 0).len() && kind_at(p, to_father, q) == StepKind::Stop && forall|j: int|
                                0 <= j < q ==> #[trigger] kind_at(p, to_father, j) != StepKind::Stop;
                        if c < w {
                            assert(kind_at(p, to_father, c) != StepKind::Stop);
                        } else if c > w {
                            assert(kind_at(p, to_father, w) != StepKind::Stop);
                        }
                        k = k + 1;
                    }
                    break;
                } else {
                    steps.push(PathStep { kind: StepKind::Lookup, name });
                }
                proof {
                    k = k + 1;
                }
            },
        }
    }
    (from_root, steps)
}

/// Starting past the slashes after an element lists the same elements.
proof fn lemma_elems_skip(p: Seq<u8>, e: int)
    requires
        0 <= e <= p.len(),
    ensures
        elems(p, skip_slashes(p, e)) == elems(p, e),
{
    lemma_skip_slashes(p, e);
    let s = skip_slashes(p, e);
    lemma_skip_slashes(p, s);
    assert(skip_slashes(p, s) == s);
}

} // verus!
