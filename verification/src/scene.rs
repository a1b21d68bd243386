//! The scene data model: named objects with transform tokens, geometry, and
//! a parent/child hierarchy held as indices into the scene's object list.
//!
//! Polygon indices are stored exactly as the file gives them, 1-based; the
//! parser guarantees that every stored index addresses a vertex of its own
//! object (see [`sp_obj_indices_ok`]).  Zero-basing happens only when draw
//! indices are produced (see the geometry module).

use vstd::prelude::*;

verus! {

/// Three numeric tokens: a vector whose components stay in their validated
/// decimal text form.
#[derive(Clone, Debug, PartialEq, Eq)]
pub struct NumTriple {
    pub x: String,
    pub y: String,
    pub z: String,
}

#[verifier::ext_equal]
pub struct NumTripleV {
    pub x: Seq<char>,
    pub y: Seq<char>,
    pub z: Seq<char>,
}

impl View for NumTriple {
    type V = NumTripleV;

    open spec fn view(&self) -> NumTripleV {
        NumTripleV { x: self.x@, y: self.y@, z: self.z@ }
    }
}

impl DeepView for NumTriple {
    type V = NumTripleV;

    open spec fn deep_view(&self) -> NumTripleV {
        self.view()
    }
}

/// An axis-angle rotation as given in the file: an axis vector and an angle
/// in degrees, all as numeric tokens.  The consumer normalizes the axis and
/// converts to a unit quaternion; an object whose rotation was never set
/// gets the identity rotation.
#[derive(Clone, Debug, PartialEq, Eq)]
pub struct AxisAngle {
    pub axis: NumTriple,
    pub degrees: String,
}

#[verifier::ext_equal]
pub struct AxisAngleV {
    pub axis: NumTripleV,
    pub degrees: Seq<char>,
}

impl View for AxisAngle {
    type V = AxisAngleV;

    open spec fn view(&self) -> AxisAngleV {
        AxisAngleV { axis: self.axis@, degrees: self.degrees@ }
    }
}

/// A triangle's vertex indices, 1-based as in the file.
#[derive(Clone, Copy, Debug, PartialEq, Eq, Structural)]
pub struct Tri {
    pub a: u16,
    pub b: u16,
    pub c: u16,
}

/// A quad's vertex indices, 1-based as in the file.
#[derive(Clone, Copy, Debug, PartialEq, Eq, Structural)]
pub struct Quad {
    pub a: u16,
    pub b: u16,
    pub c: u16,
    pub d: u16,
}

/// One named entity from the scene file.
#[derive(Clone, Debug, PartialEq, Eq)]
pub struct SimpleSceneObject {
    pub name: String,
    pub typ: String,
    pub groups: Vec<String>,
    pub location: NumTriple,
    pub scale: NumTriple,
    pub rotation: Option<AxisAngle>,
    pub vertices: Vec<NumTriple>,
    pub triangles: Vec<Tri>,
    pub quads: Vec<Quad>,
    /// Index of the parent object in the scene's object list, linked by the
    /// resolution pass.
    pub parent: Option<usize>,
    /// Indices of the children in the scene's object list, linked by the
    /// resolution pass in reference order.
    pub children: Vec<usize>,
}

#[verifier::ext_equal]
pub struct ObjV {
    pub name: Seq<char>,
    pub typ: Seq<char>,
    pub groups: Seq<Seq<char>>,
    pub location: NumTripleV,
    pub scale: NumTripleV,
    pub rotation: Option<AxisAngleV>,
    pub vertices: Seq<NumTripleV>,
    pub triangles: Seq<Tri>,
    pub quads: Seq<Quad>,
    pub parent: Option<int>,
    pub children: Seq<int>,
}

impl View for SimpleSceneObject {
    type V = ObjV;

    open spec fn view(&self) -> ObjV {
        ObjV {
            name: self.name@,
            typ: self.typ@,
            groups: self.groups.deep_view(),
            location: self.location@,
            scale: self.scale@,
            rotation: match self.rotation {
                Some(r) => Some(r@),
                None => None,
            },
            vertices: self.vertices.deep_view(),
            triangles: self.triangles@,
            quads: self.quads@,
            parent: match self.parent {
                Some(p) => Some(p as int),
                None => None,
            },
            children: self.children@.map_values(|u: usize| u as int),
        }
    }
}

impl DeepView for SimpleSceneObject {
    type V = ObjV;

    open spec fn deep_view(&self) -> ObjV {
        self.view()
    }
}

/// Everything loaded from one scene file.
#[derive(Clone, Debug, PartialEq, Eq)]
pub struct SimpleSceneFile {
    /// Provenance of the scene, informational only.
    pub path: String,
    /// The owning collection of every object; `parent` and `children` are
    /// indices into it.
    pub objects: Vec<SimpleSceneObject>,
}

#[verifier::ext_equal]
pub struct SceneV {
    pub path: Seq<char>,
    pub objects: Seq<ObjV>,
}

impl View for SimpleSceneFile {
    type V = SceneV;

    open spec fn view(&self) -> SceneV {
        SceneV { path: self.path@, objects: self.objects.deep_view() }
    }
}

/// A 1-based polygon index addresses one of `n` vertices.
pub open spec fn sp_index_ok(i: u16, n: nat) -> bool {
    1 <= i && i as nat <= n
}

pub open spec fn sp_tri_ok(t: Tri, n: nat) -> bool {
    sp_index_ok(t.a, n) && sp_index_ok(t.b, n) && sp_index_ok(t.c, n)
}

pub open spec fn sp_quad_ok(q: Quad, n: nat) -> bool {
    sp_index_ok(q.a, n) && sp_index_ok(q.b, n) && sp_index_ok(q.c, n) && sp_index_ok(q.d, n)
}

/// Every stored triangle and quad index addresses a vertex of this object.
pub open spec fn sp_obj_indices_ok(o: ObjV) -> bool {
    &&& forall|k: int| 0 <= k < o.triangles.len() ==> sp_tri_ok(#[trigger] o.triangles[k], o.vertices.len())
    &&& forall|k: int| 0 <= k < o.quads.len() ==> sp_quad_ok(#[trigger] o.quads[k], o.vertices.len())
}

/// An object as it stands when its block opens: defaults everywhere, to be
/// overwritten by the keyword records.
pub open spec fn sp_default_obj() -> ObjV {
    ObjV {
        name: ""@,
        typ: ""@,
        groups: Seq::empty(),
        location: NumTripleV { x: "0"@, y: "0"@, z: "0"@ },
        scale: NumTripleV { x: "0"@, y: "0"@, z: "0"@ },
        rotation: None,
        vertices: Seq::empty(),
        triangles: Seq::empty(),
        quads: Seq::empty(),
        parent: None,
        children: Seq::empty(),
    }
}

/// The default object in executable form.
pub fn default_object() -> (r: SimpleSceneObject)
    ensures
        r@ == sp_default_obj(),
{
    let r = SimpleSceneObject {
        name: String::new(),
        typ: String::new(),
        groups: Vec::new(),
        location: NumTriple {
            x: String::from_str("0"),
            y: String::from_str("0"),
            z: String::from_str("0"),
        },
        scale: NumTriple {
            x: String::from_str("0"),
            y: String::from_str("0"),
            z: String::from_str("0"),
        },
        rotation: None,
        vertices: Vec::new(),
        triangles: Vec::new(),
        quads: Vec::new(),
        parent: None,
        children: Vec::new(),
    };
    proof {
        reveal_strlit("");
        assert(""@ =~= Seq::<char>::empty());
        assert(r@ =~= sp_default_obj());
    }
    r
}

} // verus!
