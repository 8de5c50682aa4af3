//! The transform tree view: frames by their parent links, the roots, and moving the cursor.
use vstd::prelude::*;

verus! {

/// A frame and the frame it hangs from.
#[derive(Clone, Debug)]
pub struct FrameLink {
    pub child: String,
    pub parent: String,
}

/// Whether `x` is the parent of some link.
pub open spec fn is_parent(links: Seq<FrameLink>, x: Seq<char>) -> bool {
    exists|i: int| 0 <= i < links.len() && (#[trigger] links[i]).parent@ == x
}

/// Whether `x` is the child of some link.
pub open spec fn is_child(links: Seq<FrameLink>, x: Seq<char>) -> bool {
    exists|i: int| 0 <= i < links.len() && (#[trigger] links[i]).child@ == x
}

fn contains_text(v: &Vec<String>, s: &String) -> (r: bool)
    ensures
        r == exists|i: int| 0 <= i < v@.len() && (#[trigger] v@[i])@ == s@,
{
    let mut i: usize = 0;
    while i < v.len()
        invariant
            i <= v@.len(),
            forall|j: int| 0 <= j < i ==> (#[trigger] v@[j])@ != s@,
        decreases v@.len() - i,
    {
        if v[i] == *s {
            return true;
        }
        i += 1;
    }
    false
}

fn is_child_exec(links: &Vec<FrameLink>, s: &String) -> (r: bool)
    ensures
        r == is_child(links@, s@),
{
    let mut i: usize = 0;
    while i < links.len()
        invariant
            i <= links@.len(),
            forall|j: int| 0 <= j < i ==> (#[trigger] links@[j]).child@ != s@,
        decreases links@.len() - i,
    {
        if links[i].child == *s {
            return true;
        }
        i += 1;
    }
    false
}

/// Whether `x` is among the texts of `r`.
pub open spec fn listed(r: Seq<String>, x: Seq<char>) -> bool {
    exists|k: int| 0 <= k < r.len() && (#[trigger] r[k])@ == x
}

spec fn parent_before(links: Seq<FrameLink>, x: Seq<char>, n: int) -> bool {
    exists|j: int| 0 <= j < n && (#[trigger] links[j]).parent@ == x
}

/// The roots among the parents of the first `n` links: each parent that is no frame's child,
/// once, in the order in which it first appears.
pub open spec fn roots_upto(links: Seq<FrameLink>, n: nat) -> Seq<Seq<char>>
    decreases n,
{
    if n == 0 {
        Seq::empty()
    } else {
        let rest = roots_upto(links, (n - 1) as nat);
        let p = links[n - 1].parent@;
        if !is_child(links, p) && !rest.contains(p) {
            rest.push(p)
        } else {
            rest
        }
    }
}

/// The frames that other frames hang from but that hang from none, each once, in the order in
/// which they first appear as parents.
pub fn find_roots(links: &Vec<FrameLink>) -> (r: Vec<String>)
    ensures
        r@.map_values(|s: String| s@) == roots_upto(links@, links@.len()),
        forall|a: int, b: int| 0 <= a < b < r@.len() ==> r@[a]@ != r@[b]@,
        forall|x: Seq<char>| #[trigger] listed(r@, x) <==> (is_parent(links@, x) && !is_child(links@, x)),
{
    let mut r: Vec<String> = Vec::new();
    let mut i: usize = 0;
    while i < links.len()
        invariant
            i <= links@.len(),
            forall|a: int, b: int| 0 <= a < b < r@.len() ==> r@[a]@ != r@[b]@,
            forall|x: Seq<char>|
                #[trigger] listed(r@, x) <==> (parent_before(links@, x, i as int) && !is_child(links@, x)),
            r@.map_values(|s: String| s@) == roots_upto(links@, i as nat),
        decreases links@.len() - i,
    {
        let p = &links[i].parent;
        let ghost before = r@;
        let ghost pv = p@;
        let ghost bt = before.map_values(|s: String| s@);
        let fresh = !is_child_exec(links, p) && !contains_text(&r, p);
        assert(listed(before, pv) == bt.contains(pv)) by {
            if listed(before, pv) {
                let k = choose|k: int| 0 <= k < before.len() && (#[trigger] before[k])@ == pv;
                assert(bt[k] == pv);
            }
            if bt.contains(pv) {
                let k = choose|k: int| 0 <= k < bt.len() && bt[k] == pv;
                assert(before[k]@ == pv);
            }
        }
        if fresh {
            r.push(p.clone());
            assert(r@.map_values(|s: String| s@) =~= bt.push(pv));
        }
        assert(r@.map_values(|s: String| s@) == roots_upto(links@, (i + 1) as nat));
        assert forall|x: Seq<char>|
            #[trigger] listed(r@, x) <==> (parent_before(links@, x, i + 1) && !is_child(links@, x)) by {
            if x != pv {
                if parent_before(links@, x, i + 1) {
                    let j = choose|j: int| 0 <= j < i + 1 && (#[trigger] links@[j]).parent@ == x;
                    assert(j != i);
                    assert(parent_before(links@, x, i as int));
                }
                if parent_before(links@, x, i as int) {
                    let j = choose|j: int| 0 <= j < i && (#[trigger] links@[j]).parent@ == x;
                    assert(links@[j].parent@ == x);
                }
                if listed(r@, x) {
                    let k = choose|k: int| 0 <= k < r@.len() && (#[trigger] r@[k])@ == x;
                    assert(k < before.len());
                    assert(before[k]@ == x);
                    assert(listed(before, x));
                }
                if listed(before, x) {
                    let k = choose|k: int| 0 <= k < before.len() && (#[trigger] before[k])@ == x;
                    assert(r@[k]@ == x);
                }
            } else {
                assert(links@[i as int].parent@ == x);
                if fresh {
                    assert(r@[before.len() as int]@ == x);
                } else if listed(r@, x) {
                    let k = choose|k: int| 0 <= k < r@.len() && (#[trigger] r@[k])@ == x;
                    assert(before[k]@ == x);
                }
            }
        }
        if fresh {
            assert forall|a: int, b: int| 0 <= a < b < r@.len() implies r@[a]@ != r@[b]@ by {
                if b == before.len() {
                    assert(before[a]@ != pv);
                } else {
                    assert(before[a] == r@[a] && before[b] == r@[b]);
                }
            }
        }
        i += 1;
    }
    assert forall|x: Seq<char>| parent_before(links@, x, links@.len() as int) == is_parent(links@, x) by {
        if is_parent(links@, x) {
            let j = choose|j: int| 0 <= j < links@.len() && (#[trigger] links@[j]).parent@ == x;
            assert(links@[j].parent@ == x);
        }
    }
    r
}

/// The frames hanging from `parent` among `links`, in link order.
pub open spec fn child_names(links: Seq<FrameLink>, parent: Seq<char>) -> Seq<Seq<char>>
    decreases links.len(),
{
    if links.len() == 0 {
        Seq::empty()
    } else {
        let rest = child_names(links.drop_last(), parent);
        if links.last().parent@ == parent {
            rest.push(links.last().child@)
        } else {
            rest
        }
    }
}

/// The texts of `v`.
pub open spec fn texts(v: Seq<String>) -> Seq<Seq<char>> {
    v.map_values(|s: String| s@)
}

/// The frames hanging from `parent`, in link order.
pub fn children_of(links: &Vec<FrameLink>, parent: &String) -> (r: Vec<String>)
    ensures
        texts(r@) == child_names(links@, parent@),
{
    let mut r: Vec<String> = Vec::new();
    let mut i: usize = 0;
    while i < links.len()
        invariant
            i <= links@.len(),
            texts(r@) == child_names(links@.take(i as int), parent@),
        decreases links@.len() - i,
    {
        assert(links@.take(i + 1).drop_last() =~= links@.take(i as int));
        assert(links@.take(i + 1).last() == links@[i as int]);
        if links[i].parent == *parent {
            r.push(links[i].child.clone());
            assert(texts(r@) =~= child_names(links@.take(i as int), parent@).push(links@[i as int].child@));
        }
        i += 1;
    }
    assert(links@.take(i as int) =~= links@);
    r
}

/// A frame and the frames hanging from it.
#[derive(Debug)]
pub struct TreeNode {
    pub name: String,
    pub children: Vec<TreeNode>,
}

/// The names of a node's children, in order.
pub open spec fn child_nodes_names(t: TreeNode) -> Seq<Seq<char>> {
    t.children@.map_values(|c: TreeNode| c.name@)
}

/// `t` is the tree of its root's frames among `links`, down `depth` levels: at each node the
/// children are exactly the frames hanging from it, in link order, and a node at the last level
/// has no children.
pub open spec fn tree_of(links: Seq<FrameLink>, t: TreeNode, depth: nat) -> bool
    decreases depth,
{
    if depth == 0 {
        t.children@.len() == 0
    } else {
        &&& child_nodes_names(t) == child_names(links, t.name@)
        &&& forall|k: int|
            0 <= k < t.children@.len() ==> tree_of(links, #[trigger] t.children@[k], (depth - 1) as nat)
    }
}

fn build_within(links: &Vec<FrameLink>, root: &String, depth: usize) -> (r: TreeNode)
    ensures
        r.name@ == root@,
        tree_of(links@, r, depth as nat),
    decreases depth,
{
    let mut children: Vec<TreeNode> = Vec::new();
    let names = if depth > 0 {
        children_of(links, root)
    } else {
        Vec::new()
    };
    let mut k: usize = 0;
    while k < names.len()
        invariant
            depth > 0 || names@.len() == 0,
            k <= names@.len(),
            children@.len() == k,
            forall|j: int| 0 <= j < k ==> (#[trigger] children@[j]).name@ == names@[j]@,
            forall|j: int| 0 <= j < k ==> tree_of(links@, #[trigger] children@[j], (depth - 1) as nat),
        decreases names@.len() - k,
    {
        let sub = build_within(links, &names[k], depth - 1);
        children.push(sub);
        k += 1;
    }
    let node = TreeNode { name: root.clone(), children };
    if depth > 0 {
        assert(child_nodes_names(node) =~= texts(names@));
    }
    node
}

/// The tree of frames under `root`, each frame with the frames hanging from it, down as many
/// levels as there are links. With each frame hanging from one parent, no branch below a root
/// is that deep, so nothing is cut.
pub fn build_tree(links: &Vec<FrameLink>, root: &String) -> (r: TreeNode)
    ensures
        r.name@ == root@,
        tree_of(links@, r, links@.len()),
{
    build_within(links, root, links.len())
}

/// The cursor position after moving one entry down (or up) in a list of `len` visible entries:
/// the first entry when there was no cursor, held within the list; `None` for an empty list.
pub fn moved_index(current: Option<usize>, len: usize, down: bool) -> (r: Option<usize>)
    ensures
        len == 0 ==> r is None,
        len > 0 ==> r == Some(
            match current {
                None => 0usize,
                Some(c) => {
                    let n: int = if down {
                        c + 1
                    } else if c == 0 {
                        0
                    } else {
                        c - 1
                    };
                    if n > len - 1 {
                        (len - 1) as usize
                    } else {
                        n as usize
                    }
                },
            },
        ),
{
    if len == 0 {
        return None;
    }
    match current {
        None => Some(0),
        Some(c) => {
            let n: usize = if down {
                if c >= len - 1 {
                    len - 1
                } else {
                    c + 1
                }
            } else if c == 0 {
                0
            } else {
                c - 1
            };
            if n > len - 1 {
                Some(len - 1)
            } else {
                Some(n)
            }
        },
    }
}

} // verus!
