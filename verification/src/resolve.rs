//! Name lookup and the hierarchy-resolution pass.
//!
//! Parsing records every `parent` reference as a pending (child index, name)
//! pair.  Once all objects exist, each pending pair is resolved in order by
//! a first-match name lookup; on success the child's `parent` is set and the
//! child is appended to the parent's `children`, and on failure the whole
//! load fails with an unresolved-parent error.

use vstd::prelude::*;

use crate::error::ErrV;
use crate::error::ParseError;
use crate::scene::ObjV;
use crate::scene::SimpleSceneFile;
use crate::scene::SimpleSceneObject;
use crate::text::str_eq;

verus! {

/// Index of the first object named `name`, in file order.
pub open spec fn sp_find(objs: Seq<ObjV>, name: Seq<char>) -> Option<int>
    decreases objs.len(),
{
    if objs.len() == 0 {
        None
    } else if objs[0].name == name {
        Some(0)
    } else {
        match sp_find(objs.drop_first(), name) {
            Some(i) => Some(i + 1),
            None => None,
        }
    }
}

/// First-match-wins lookup: the found index carries the name, and no
/// earlier index does; a missing result means no object carries the name.
pub proof fn lemma_sp_find(objs: Seq<ObjV>, name: Seq<char>)
    ensures
        match sp_find(objs, name) {
            Some(i) => 0 <= i < objs.len() && objs[i].name == name && forall|j: int|
                0 <= j < i ==> objs[j].name != name,
            None => forall|j: int| 0 <= j < objs.len() ==> objs[j].name != name,
        },
    decreases objs.len(),
{
    if objs.len() > 0 && objs[0].name != name {
        let rest = objs.drop_first();
        lemma_sp_find(rest, name);
        match sp_find(rest, name) {
            Some(i) => {
                assert(rest[i] == objs[i + 1]);
                assert forall|j: int| 0 <= j < i + 1 implies objs[j].name != name by {
                    if j > 0 {
                        assert(rest[j - 1] == objs[j]);
                    }
                }
            },
            None => {
                assert forall|j: int| 0 <= j < objs.len() implies objs[j].name != name by {
                    if j > 0 {
                        assert(rest[j - 1] == objs[j]);
                    }
                }
            },
        }
    }
}

/// `objs` with object `p` linked as the parent of object `c`: first the
/// child's `parent` is set, then the child is appended to the parent's
/// `children`; when `c == p` both land on the same object.
pub open spec fn sp_link(objs: Seq<ObjV>, c: int, p: int) -> Seq<ObjV> {
    let with_parent = objs.update(c, ObjV { parent: Some(p), ..objs[c] });
    with_parent.update(p, ObjV { children: with_parent[p].children.push(c), ..with_parent[p] })
}

/// The object collection after resolving the first `k` pending references,
/// or the first unresolved-parent error.
pub open spec fn sp_resolve_to(
    objs: Seq<ObjV>,
    pending: Seq<(int, Seq<char>)>,
    k: int,
) -> Result<Seq<ObjV>, ErrV>
    decreases k,
{
    if k <= 0 {
        Ok(objs)
    } else {
        match sp_resolve_to(objs, pending, k - 1) {
            Err(e) => Err(e),
            Ok(cur) => {
                let c = pending[k - 1].0;
                let nm = pending[k - 1].1;
                match sp_find(cur, nm) {
                    None => Err(ErrV::UnresolvedParent { child: cur[c].name, parent: nm }),
                    Some(p) => Ok(sp_link(cur, c, p)),
                }
            },
        }
    }
}

/// The whole resolution pass.
pub open spec fn sp_resolve(
    objs: Seq<ObjV>,
    pending: Seq<(int, Seq<char>)>,
) -> Result<Seq<ObjV>, ErrV> {
    sp_resolve_to(objs, pending, pending.len() as int)
}

/// Every pending reference's child index addresses an object.
pub open spec fn sp_pending_ok(objs: Seq<ObjV>, pending: Seq<(int, Seq<char>)>) -> bool {
    forall|k: int| 0 <= k < pending.len() ==> 0 <= (#[trigger] pending[k]).0 < objs.len()
}

/// Resolution never changes how many objects there are, nor any object's
/// name, type, groups, transform, or geometry: it only links `parent` and
/// `children`.
pub proof fn lemma_resolve_keeps_objects(
    objs: Seq<ObjV>,
    pending: Seq<(int, Seq<char>)>,
    k: int,
)
    requires
        sp_pending_ok(objs, pending),
        k <= pending.len(),
        sp_resolve_to(objs, pending, k) is Ok,
    ensures
        ({
            let cur = sp_resolve_to(objs, pending, k)->Ok_0;
            &&& cur.len() == objs.len()
            &&& forall|i: int| 0 <= i < objs.len() ==> (#[trigger] cur[i]).name == objs[i].name
                && cur[i].typ == objs[i].typ && cur[i].groups == objs[i].groups
                && cur[i].location == objs[i].location && cur[i].scale == objs[i].scale
                && cur[i].rotation == objs[i].rotation && cur[i].vertices == objs[i].vertices
                && cur[i].triangles == objs[i].triangles && cur[i].quads == objs[i].quads
        }),
    decreases k,
{
    if k > 0 {
        lemma_resolve_keeps_objects(objs, pending, k - 1);
        let prev = sp_resolve_to(objs, pending, k - 1)->Ok_0;
        let cur = sp_resolve_to(objs, pending, k)->Ok_0;
        let c = pending[k - 1].0;
        match sp_find(prev, pending[k - 1].1) {
            None => {
                assert(false);
            },
            Some(p) => {
                lemma_sp_find(prev, pending[k - 1].1);
                assert(0 <= c < prev.len());
                assert(cur == sp_link(prev, c, p));
                let with_parent = prev.update(c, ObjV { parent: Some(p), ..prev[c] });
                assert forall|i: int| 0 <= i < objs.len() implies (#[trigger] cur[i]).name
                    == prev[i].name && cur[i].typ == prev[i].typ && cur[i].groups == prev[i].groups
                    && cur[i].location == prev[i].location && cur[i].scale == prev[i].scale
                    && cur[i].rotation == prev[i].rotation && cur[i].vertices == prev[i].vertices
                    && cur[i].triangles == prev[i].triangles && cur[i].quads
                    == prev[i].quads by {
                    if i == p {
                        assert(cur[i] == ObjV {
                            children: with_parent[p].children.push(c),
                            ..with_parent[p]
                        });
                    } else {
                        assert(cur[i] == with_parent[i]);
                    }
                    if i == c {
                        assert(with_parent[i] == ObjV { parent: Some(p), ..prev[c] });
                    } else {
                        assert(with_parent[i] == prev[i]);
                    }
                }
            },
        }
    }
}

/// Every error the resolution pass can produce is an unresolved parent.
pub proof fn lemma_resolve_err_variant(objs: Seq<ObjV>, pending: Seq<(int, Seq<char>)>, k: int)
    requires
        sp_resolve_to(objs, pending, k) is Err,
    ensures
        sp_resolve_to(objs, pending, k)->Err_0 is UnresolvedParent,
    decreases k,
{
    if k > 0 && sp_resolve_to(objs, pending, k - 1) is Err {
        lemma_resolve_err_variant(objs, pending, k - 1);
    }
}

/// A pending reference naming an object that does not exist makes the whole
/// resolution fail with an unresolved-parent error: no scene is produced.
pub proof fn lemma_unresolved_fails(
    objs: Seq<ObjV>,
    pending: Seq<(int, Seq<char>)>,
    k: int,
    m: int,
)
    requires
        sp_pending_ok(objs, pending),
        0 <= k < m <= pending.len(),
        forall|j: int| 0 <= j < objs.len() ==> (#[trigger] objs[j]).name != pending[k].1,
    ensures
        sp_resolve_to(objs, pending, m) is Err,
        sp_resolve_to(objs, pending, m)->Err_0 is UnresolvedParent,
    decreases m,
{
    if sp_resolve_to(objs, pending, m - 1) is Err {
        if k < m - 1 {
            lemma_unresolved_fails(objs, pending, k, m - 1);
        } else {
            // k == m - 1, yet an earlier entry already failed
        }
        lemma_resolve_err_variant(objs, pending, m);
    } else {
        if k < m - 1 {
            lemma_unresolved_fails(objs, pending, k, m - 1);
            assert(false);
        } else {
            let cur = sp_resolve_to(objs, pending, m - 1)->Ok_0;
            lemma_resolve_keeps_objects(objs, pending, m - 1);
            lemma_sp_find(cur, pending[k].1);
        }
    }
}

/// Hierarchy resolution for a single pending reference (the child `b` and
/// the name it gave): when the lookup finds object `a`, the result links
/// `b`'s parent to `a`, appends `b` to `a`'s children, and changes nothing
/// else.
pub proof fn lemma_hierarchy_links(objs: Seq<ObjV>, b: int, n: Seq<char>, a: int)
    requires
        0 <= b < objs.len(),
        sp_find(objs, n) == Some(a),
    ensures
        sp_resolve(objs, seq![(b, n)]) == Ok::<Seq<ObjV>, ErrV>(sp_link(objs, b, a)),
        sp_link(objs, b, a).len() == objs.len(),
        sp_link(objs, b, a)[b].parent == Some(a),
        a != b ==> sp_link(objs, b, a)[a].children == objs[a].children.push(b),
        a != b ==> forall|i: int|
            0 <= i < objs.len() && i != a && i != b ==> sp_link(objs, b, a)[i] == objs[i],
{
    lemma_sp_find(objs, n);
    let s1 = seq![(b, n)];
    assert(sp_resolve_to(objs, s1, 0) == Ok::<Seq<ObjV>, ErrV>(objs));
}

/// The lookup in executable form, over the owning object vector.
pub fn find_index(objs: &Vec<SimpleSceneObject>, name: &str) -> (r: Option<usize>)
    ensures
        match r {
            Some(i) => sp_find(objs.deep_view(), name@) == Some(i as int),
            None => sp_find(objs.deep_view(), name@) is None,
        },
{
    let ghost ov = objs.deep_view();
    let n = objs.len();
    let mut i: usize = 0;
    while i < n
        invariant
            ov == objs.deep_view(),
            n == objs@.len(),
            i <= n,
            forall|j: int| 0 <= j < i ==> (#[trigger] ov[j]).name != name@,
        decreases n - i,
    {
        if str_eq(objs[i].name.as_str(), name) {
            proof {
                lemma_sp_find(ov, name@);
                match sp_find(ov, name@) {
                    Some(f) => {
                        if f < i {
                            assert(ov[f].name != name@);
                        }
                        if i < f {
                            assert(ov[i as int].name != name@);
                        }
                    },
                    None => {
                        assert(ov[i as int].name != name@);
                    },
                }
            }
            return Some(i);
        }
        i = i + 1;
    }
    proof {
        lemma_sp_find(ov, name@);
    }
    None
}

impl SimpleSceneFile {
    /// Return the index of the object with this name, the first match in
    /// file order when names repeat, or nothing when no object carries it.
    pub fn find(&self, name: &str) -> (r: Option<usize>)
        ensures
            match r {
                Some(i) => sp_find(self@.objects, name@) == Some(i as int),
                None => sp_find(self@.objects, name@) is None,
            },
    {
        find_index(&self.objects, name)
    }
}

/// The pending reference list seen as spec values.
pub open spec fn sp_pending_view(p: Seq<(usize, String)>) -> Seq<(int, Seq<char>)> {
    p.map_values(|e: (usize, String)| (e.0 as int, e.1@))
}

/// Run the resolution pass over the finished object collection, linking
/// `parent` and `children`, or stop at the first unresolved-parent error.
pub fn resolve_hierarchy(
    objs: &mut Vec<SimpleSceneObject>,
    pending: &Vec<(usize, String)>,
) -> (r: Result<(), ParseError>)
    requires
        forall|k: int| 0 <= k < pending@.len() ==> (#[trigger] pending@[k]).0 < old(objs)@.len(),
    ensures
        match r {
            Ok(_) => sp_resolve(old(objs).deep_view(), sp_pending_view(pending@)) == Ok::<
                Seq<ObjV>,
                ErrV,
            >(final(objs).deep_view()),
            Err(e) => sp_resolve(old(objs).deep_view(), sp_pending_view(pending@)) == Err::<
                Seq<ObjV>,
                ErrV,
            >(e@),
        },
{
    let ghost objs0 = old(objs).deep_view();
    let ghost pv = sp_pending_view(pending@);
    proof {
        assert(pv.len() == pending@.len());
        assert forall|j: int| 0 <= j < pv.len() implies 0 <= (#[trigger] pv[j]).0
            < objs0.len() by {
            assert(pv[j] == (pending@[j].0 as int, pending@[j].1@));
        }
    }
    let n = pending.len();
    let mut k: usize = 0;
    while k < n
        invariant
            n == pending@.len(),
            k <= n,
            objs0 == old(objs).deep_view(),
            pv == sp_pending_view(pending@),
            pv.len() == n,
            forall|j: int| 0 <= j < pending@.len() ==> (#[trigger] pending@[j]).0 < objs0.len(),
            sp_pending_ok(objs0, pv),
            sp_resolve_to(objs0, pv, k as int) == Ok::<Seq<ObjV>, ErrV>(objs.deep_view()),
        decreases n - k,
    {
        let ghost cur = objs.deep_view();
        proof {
            lemma_resolve_keeps_objects(objs0, pv, k as int);
        }
        let c = pending[k].0;
        proof {
            assert(pv[k as int] == (pending@[k as int].0 as int, pending@[k as int].1@));
        }
        let found = find_index(objs, pending[k].1.as_str());
        match found {
            None => {
                let child_name = objs[c].name.clone();
                let parent_name = pending[k].1.clone();
                proof {
                    assert(sp_resolve_to(objs0, pv, k as int + 1) == Err::<Seq<ObjV>, ErrV>(
                        ErrV::UnresolvedParent { child: cur[c as int].name, parent: pv[k as int].1 },
                    ));
                    lemma_resolve_stops_on_err(objs0, pv, k as int + 1, n as int);
                    assert(child_name@ == cur[c as int].name);
                    assert(parent_name@ == pv[k as int].1);
                    assert(sp_resolve(objs0, pv) == Err::<Seq<ObjV>, ErrV>(
                        ErrV::UnresolvedParent { child: child_name@, parent: parent_name@ },
                    ));
                }
                return Err(ParseError::UnresolvedParent {
                    child: child_name,
                    parent: parent_name,
                });
            },
            Some(p) => {
                proof {
                    lemma_sp_find(cur, pv[k as int].1);
                }
                {
                    let child = &mut objs[c];
                    child.parent = Some(p);
                }
                proof {
                    assert(objs.deep_view() =~~= cur.update(
                        c as int,
                        ObjV { parent: Some(p as int), ..cur[c as int] },
                    ));
                }
                let ghost mid = objs.deep_view();
                {
                    let par = &mut objs[p];
                    par.children.push(c);
                }
                proof {
                    assert(objs.deep_view()[p as int].children =~= mid[p as int].children.push(
                        c as int,
                    ));
                    assert(objs.deep_view() =~~= mid.update(p as int, ObjV {
                        children: mid[p as int].children.push(c as int),
                        ..mid[p as int]
                    }));
                    assert(objs.deep_view() =~~= sp_link(cur, c as int, p as int));
                }
            },
        }
        k = k + 1;
    }
    Ok(())
}

/// Once one pending reference fails, resolving any further prefix still
/// fails with the same error.
pub proof fn lemma_resolve_stops_on_err(
    objs: Seq<ObjV>,
    pending: Seq<(int, Seq<char>)>,
    k: int,
    m: int,
)
    requires
        0 <= k <= m,
        sp_resolve_to(objs, pending, k) is Err,
    ensures
        sp_resolve_to(objs, pending, m) == sp_resolve_to(objs, pending, k),
    decreases m - k,
{
    if k < m {
        lemma_resolve_stops_on_err(objs, pending, k, m - 1);
    }
}

} // verus!
