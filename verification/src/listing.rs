//! The tree view of `hn list --tree`: each worktree without a parent, and below it, drawn
//! with box characters, the worktrees whose parent it names, level by level.
use vstd::prelude::*;
use crate::error::views;
use crate::monitoring::derefs;
use crate::text::{concat2, concat3, str_eq};
use crate::vcs::{short_commit, Worktree};

verus! {

/// Whether `w` names `name` as its parent.
pub open spec fn has_parent(w: Worktree, name: Seq<char>) -> bool {
    w.parent matches Some(p) && p@ == name
}

/// The worktrees of `ws` whose parent is `name`, in order.
pub open spec fn children_seq(ws: Seq<Worktree>, name: Seq<char>) -> Seq<Worktree>
    decreases ws.len(),
{
    if ws.len() == 0 {
        Seq::empty()
    } else if has_parent(ws.last(), name) {
        children_seq(ws.drop_last(), name).push(ws.last())
    } else {
        children_seq(ws.drop_last(), name)
    }
}

/// The worktrees of `ws` without a parent, in order.
pub open spec fn roots_seq(ws: Seq<Worktree>) -> Seq<Worktree>
    decreases ws.len(),
{
    if ws.len() == 0 {
        Seq::empty()
    } else if ws.last().parent is None {
        roots_seq(ws.drop_last()).push(ws.last())
    } else {
        roots_seq(ws.drop_last())
    }
}

/// How a worktree reads in the tree: `name (branch) [commit]`, the commit shortened.
pub open spec fn node_label(w: Worktree) -> Seq<char> {
    w.name@ + " ("@ + w.branch@ + ") ["@ + w.commit@.take(
        if w.commit@.len() < 7 {
            w.commit@.len() as int
        } else {
            7
        },
    ) + "]"@
}

/// The mark in front of a child: a corner for the last one, a tee for the others.
pub open spec fn branch_mark(last: bool) -> Seq<char> {
    if last {
        "└──"@
    } else {
        "├──"@
    }
}

/// What the lines below a child start with: blank below the last one, a bar below the
/// others.
pub open spec fn continuation(last: bool) -> Seq<char> {
    if last {
        "    "@
    } else {
        "│   "@
    }
}

/// The lines of the children `kids` of one worktree, each followed by its own children
/// drawn `fuel` levels deep at most.
pub open spec fn subtree_lines(ws: Seq<Worktree>, kids: Seq<Worktree>, prefix: Seq<char>, fuel: nat) -> Seq<
    Seq<char>,
>
    decreases fuel, kids.len(),
{
    if kids.len() == 0 {
        Seq::empty()
    } else {
        let c = kids[0];
        let last = kids.len() == 1;
        let line = prefix + branch_mark(last) + " "@ + node_label(c);
        let below = if fuel == 0 {
            Seq::empty()
        } else {
            subtree_lines(ws, children_seq(ws, c.name@), prefix + continuation(last), (fuel - 1) as nat)
        };
        seq![line] + below + subtree_lines(ws, kids.drop_first(), prefix, fuel)
    }
}

/// Drawing the children `kids` `fuel` levels deep leaves nothing out: no worktree drawn at
/// the deepest level has children.
pub open spec fn subtree_complete(ws: Seq<Worktree>, kids: Seq<Worktree>, fuel: nat) -> bool
    decreases fuel, kids.len(),
{
    if kids.len() == 0 {
        true
    } else {
        let c = kids[0];
        &&& if fuel == 0 {
            children_seq(ws, c.name@).len() == 0
        } else {
            subtree_complete(ws, children_seq(ws, c.name@), (fuel - 1) as nat)
        }
        &&& subtree_complete(ws, kids.drop_first(), fuel)
    }
}

/// The lines of the tree of the roots `roots`, their descendants drawn `fuel` levels deep
/// at most.
pub open spec fn forest_lines(ws: Seq<Worktree>, roots: Seq<Worktree>, fuel: nat) -> Seq<Seq<char>>
    decreases roots.len(),
{
    if roots.len() == 0 {
        Seq::empty()
    } else {
        let r = roots[0];
        seq![node_label(r)] + subtree_lines(ws, children_seq(ws, r.name@), Seq::empty(), fuel)
            + forest_lines(ws, roots.drop_first(), fuel)
    }
}

/// Drawing the trees of `roots` `fuel` levels deep leaves nothing out.
pub open spec fn forest_complete(ws: Seq<Worktree>, roots: Seq<Worktree>, fuel: nat) -> bool {
    forall|i: int| 0 <= i < roots.len() ==> subtree_complete(ws, children_seq(ws, #[trigger] roots[i].name@), fuel)
}

/// The tree of all worktrees is finite: drawn as deep as there are worktrees, nothing is
/// left out. It is not when a worktree descends from one of the same name, and the tree
/// then never ends.
pub open spec fn tree_finite(ws: Seq<Worktree>) -> bool {
    forest_complete(ws, roots_seq(ws), ws.len())
}

/// The worktrees of `worktrees` whose parent is `name`, in order.
fn children_of<'a>(worktrees: &'a Vec<Worktree>, name: &str) -> (r: Vec<&'a Worktree>)
    ensures
        derefs(r@) == children_seq(worktrees@, name@),
{
    let mut r: Vec<&'a Worktree> = Vec::new();
    let mut i: usize = 0;
    while i < worktrees.len()
        invariant
            i <= worktrees@.len(),
            derefs(r@) == children_seq(worktrees@.take(i as int), name@),
        decreases worktrees.len() - i,
    {
        let w = &worktrees[i];
        assert(worktrees@.take(i + 1).drop_last() =~= worktrees@.take(i as int));
        let keep = match &w.parent {
            Some(p) => str_eq(p.as_str(), name),
            None => false,
        };
        if keep {
            let ghost prev = r@;
            r.push(w);
            assert(derefs(r@) =~= derefs(prev).push(*w));
        }
        i = i + 1;
    }
    assert(worktrees@.take(worktrees@.len() as int) =~= worktrees@);
    r
}

/// The worktrees of `worktrees` without a parent, in order.
fn roots_of<'a>(worktrees: &'a Vec<Worktree>) -> (r: Vec<&'a Worktree>)
    ensures
        derefs(r@) == roots_seq(worktrees@),
{
    let mut r: Vec<&'a Worktree> = Vec::new();
    let mut i: usize = 0;
    while i < worktrees.len()
        invariant
            i <= worktrees@.len(),
            derefs(r@) == roots_seq(worktrees@.take(i as int)),
        decreases worktrees.len() - i,
    {
        let w = &worktrees[i];
        assert(worktrees@.take(i + 1).drop_last() =~= worktrees@.take(i as int));
        if w.parent.is_none() {
            let ghost prev = r@;
            r.push(w);
            assert(derefs(r@) =~= derefs(prev).push(*w));
        }
        i = i + 1;
    }
    assert(worktrees@.take(worktrees@.len() as int) =~= worktrees@);
    r
}

fn label(w: &Worktree) -> (r: String)
    ensures
        r@ == node_label(*w),
{
    let mut s = concat3(w.name.as_str(), " (", w.branch.as_str());
    s.append(") [");
    let c = short_commit(w.commit.as_str());
    s.append(c.as_str());
    s.append("]");
    s
}

/// Appends the lines of `kids[start..]` and their descendants, `fuel` levels deep.
fn draw_kids(
    worktrees: &Vec<Worktree>,
    kids: &Vec<&Worktree>,
    start: usize,
    prefix: &str,
    fuel: usize,
    out: &mut Vec<String>,
)
    requires
        start <= kids@.len(),
    ensures
        views(final(out)@) == views(old(out)@) + subtree_lines(
            worktrees@,
            derefs(kids@).skip(start as int),
            prefix@,
            fuel as nat,
        ),
    decreases fuel, kids@.len() - start,
{
    let ghost ks = derefs(kids@).skip(start as int);
    if start == kids.len() {
        assert(ks.len() == 0);
        assert(views(out@) =~= views(out@) + subtree_lines(worktrees@, ks, prefix@, fuel as nat));
        return;
    }
    let c = kids[start];
    assert(ks[0] == *c);
    let last = start + 1 == kids.len();
    let mark = if last {
        "└──"
    } else {
        "├──"
    };
    let mut line = concat3(prefix, mark, " ");
    let l = label(c);
    line.append(l.as_str());
    let ghost before = out@;
    out.push(line);
    let ghost after_line = out@;
    assert(views(after_line) =~= views(before).push(prefix@ + branch_mark(last) + " "@ + node_label(*c)));
    if fuel > 0 {
        let grand = children_of(worktrees, c.name.as_str());
        let cont = if last {
            "    "
        } else {
            "│   "
        };
        let deeper = concat2(prefix, cont);
        assert(derefs(grand@).skip(0) =~= derefs(grand@));
        draw_kids(worktrees, &grand, 0, deeper.as_str(), fuel - 1, out);
    }
    let ghost after_below = out@;
    assert(derefs(kids@).skip(start + 1) =~= ks.drop_first());
    draw_kids(worktrees, kids, start + 1, prefix, fuel, out);
    proof {
        let line_v = prefix@ + branch_mark(last) + " "@ + node_label(*c);
        let below = if fuel == 0 {
            Seq::<Seq<char>>::empty()
        } else {
            subtree_lines(worktrees@, children_seq(worktrees@, c.name@), prefix@ + continuation(last), (fuel - 1) as nat)
        };
        assert(views(after_below) =~= views(before) + seq![line_v] + below);
        assert(subtree_lines(worktrees@, ks, prefix@, fuel as nat) == seq![line_v] + below
            + subtree_lines(worktrees@, ks.drop_first(), prefix@, fuel as nat));
        assert(views(out@) =~= views(before) + subtree_lines(worktrees@, ks, prefix@, fuel as nat));
    }
}

/// Whether drawing `kids[start..]` `fuel` levels deep leaves nothing out.
fn kids_complete(worktrees: &Vec<Worktree>, kids: &Vec<&Worktree>, start: usize, fuel: usize) -> (r: bool)
    requires
        start <= kids@.len(),
    ensures
        r == subtree_complete(worktrees@, derefs(kids@).skip(start as int), fuel as nat),
    decreases fuel, kids@.len() - start,
{
    let ghost ks = derefs(kids@).skip(start as int);
    if start == kids.len() {
        assert(ks.len() == 0);
        return true;
    }
    let c = kids[start];
    assert(ks[0] == *c);
    let grand = children_of(worktrees, c.name.as_str());
    let here = if fuel == 0 {
        grand.len() == 0
    } else {
        assert(derefs(grand@).skip(0) =~= derefs(grand@));
        kids_complete(worktrees, &grand, 0, fuel - 1)
    };
    assert(derefs(kids@).skip(start + 1) =~= ks.drop_first());
    if !here {
        return false;
    }
    kids_complete(worktrees, kids, start + 1, fuel)
}

/// Whether the tree of `worktrees` is finite (see `tree_finite`).
pub fn tree_is_finite(worktrees: &Vec<Worktree>) -> (r: bool)
    ensures
        r == tree_finite(worktrees@),
{
    let roots = roots_of(worktrees);
    let ghost rs = roots_seq(worktrees@);
    let mut i: usize = 0;
    while i < roots.len()
        invariant
            i <= roots@.len(),
            derefs(roots@) == rs,
            rs == roots_seq(worktrees@),
            forall|k: int| 0 <= k < i ==> subtree_complete(worktrees@, children_seq(worktrees@, #[trigger] rs[k].name@), worktrees@.len() as nat),
        decreases roots.len() - i,
    {
        let r = roots[i];
        assert(rs[i as int] == *r);
        let kids = children_of(worktrees, r.name.as_str());
        assert(derefs(kids@).skip(0) =~= derefs(kids@));
        if !kids_complete(worktrees, &kids, 0, worktrees.len()) {
            return false;
        }
        i = i + 1;
    }
    true
}

/// The lines of the tree view: each worktree without a parent, in order, followed by its
/// descendants, each line of a child made of the prefix of its level, `├──` (`└──` for
/// the last child) and `name (branch) [commit]`.
pub fn tree_view(worktrees: &Vec<Worktree>) -> (r: Vec<String>)
    requires
        tree_finite(worktrees@),
    ensures
        views(r@) == forest_lines(worktrees@, roots_seq(worktrees@), worktrees@.len() as nat),
{
    let roots = roots_of(worktrees);
    let ghost rs = roots_seq(worktrees@);
    let ghost fuel = worktrees@.len() as nat;
    let mut out: Vec<String> = Vec::new();
    let mut i: usize = 0;
    assert(rs.skip(0) =~= rs);
    assert(views(out@) =~= Seq::<Seq<char>>::empty());
    assert(views(out@) + forest_lines(worktrees@, rs, fuel) =~= forest_lines(worktrees@, rs, fuel));
    while i < roots.len()
        invariant
            i <= roots@.len(),
            derefs(roots@) == rs,
            rs == roots_seq(worktrees@),
            fuel == worktrees@.len(),
            views(out@) + forest_lines(worktrees@, rs.skip(i as int), fuel) == forest_lines(worktrees@, rs, fuel),
        decreases roots.len() - i,
    {
        let r = roots[i];
        assert(rs.skip(i as int)[0] == *r);
        assert(rs.skip(i as int).drop_first() =~= rs.skip(i + 1));
        let ghost before = out@;
        out.push(label(r));
        let kids = children_of(worktrees, r.name.as_str());
        assert(derefs(kids@).skip(0) =~= derefs(kids@));
        draw_kids(worktrees, &kids, 0, "", worktrees.len(), &mut out);
        proof {
            reveal_strlit("");
            assert(""@ =~= Seq::<char>::empty());
            assert(views(out@) =~= views(before) + seq![node_label(*r)] + subtree_lines(
                worktrees@,
                children_seq(worktrees@, r.name@),
                Seq::empty(),
                fuel,
            ));
            assert(forest_lines(worktrees@, rs.skip(i as int), fuel) == seq![node_label(*r)]
                + subtree_lines(worktrees@, children_seq(worktrees@, r.name@), Seq::empty(), fuel)
                + forest_lines(worktrees@, rs.skip(i + 1), fuel));
            assert(views(out@) + forest_lines(worktrees@, rs.skip(i + 1), fuel) =~= views(before)
                + forest_lines(worktrees@, rs.skip(i as int), fuel));
        }
        i = i + 1;
    }
    assert(rs.skip(i as int) =~= Seq::<Worktree>::empty());
    assert(views(out@) =~= views(out@) + forest_lines(worktrees@, rs.skip(i as int), fuel));
    out
}

} // verus!
