//! The OBJ-like mesh parser: `o <name>`, `v <x> <y> <z>`, and
//! `f <a> <b> <c> [<d>]` records, one per line, with 1-based face indices.
//!
//! Each `o` line flushes the mesh accumulated so far, if one was named; the
//! final pending mesh is flushed after the last line.  Face indices are
//! converted to 0-based at parse time and emitted in reversed winding, a
//! quad as the two triangles covering it.  Vertex coordinates are kept as
//! numeric tokens; which source coordinate feeds each output axis is a
//! configurable policy (an authoring tool's up-axis correction), while any
//! uniform scaling is the consumer's, since it needs floating point.

use vstd::prelude::*;

use crate::error::ErrV;
use crate::error::ParseError;
use crate::num::is_num_token;
use crate::num::parse_u16;
use crate::num::sp_all_digits;
use crate::num::sp_digits_val;
use crate::num::sp_is_num;
use crate::scene::NumTriple;
use crate::scene::NumTripleV;
use crate::text::lemma_split_len;
use crate::text::sp_lines;
use crate::text::sp_split;
use crate::text::split_lines;
use crate::text::split_on;
use crate::text::str_eq;

verus! {

/// One named mesh from an OBJ file: vertex position tokens and a 0-based,
/// reversed-winding triangle index buffer.
#[derive(Clone, Debug, PartialEq, Eq)]
pub struct ObjMesh {
    pub name: String,
    pub vertices: Vec<NumTriple>,
    pub indices: Vec<u16>,
}

#[verifier::ext_equal]
pub struct ObjMeshV {
    pub name: Seq<char>,
    pub vertices: Seq<NumTripleV>,
    pub indices: Seq<u16>,
}

impl View for ObjMesh {
    type V = ObjMeshV;

    open spec fn view(&self) -> ObjMeshV {
        ObjMeshV {
            name: self.name@,
            vertices: self.vertices.deep_view(),
            indices: self.indices@,
        }
    }
}

impl DeepView for ObjMesh {
    type V = ObjMeshV;

    open spec fn deep_view(&self) -> ObjMeshV {
        self.view()
    }
}

/// Which source coordinate (0, 1 or 2) feeds each output axis.
#[derive(Clone, Copy, Debug, PartialEq, Eq, Structural)]
pub struct AxisOrder {
    pub x_from: u8,
    pub y_from: u8,
    pub z_from: u8,
}

pub open spec fn sp_axis_ok(a: AxisOrder) -> bool {
    a.x_from < 3 && a.y_from < 3 && a.z_from < 3
}

impl AxisOrder {
    /// Keep the file's coordinate order.
    pub fn keep() -> (r: AxisOrder)
        ensures
            r == (AxisOrder { x_from: 0u8, y_from: 1u8, z_from: 2u8 }),
            sp_axis_ok(r),
    {
        AxisOrder { x_from: 0, y_from: 1, z_from: 2 }
    }

    /// Swap the second and third coordinates: the y-up to z-up correction.
    pub fn swap_yz() -> (r: AxisOrder)
        ensures
            r == (AxisOrder { x_from: 0u8, y_from: 2u8, z_from: 1u8 }),
            sp_axis_ok(r),
    {
        AxisOrder { x_from: 0, y_from: 2, z_from: 1 }
    }
}

/// An accepted face-index token: digits fitting `u16`, and at least 1, the
/// first valid 1-based index.
pub open spec fn sp_is_face_idx(s: Seq<char>) -> bool {
    sp_all_digits(s) && 1 <= sp_digits_val(s) <= u16::MAX
}

/// The scan's state over an OBJ file.
#[verifier::ext_equal]
pub struct ObjStV {
    pub cur_name: Option<Seq<char>>,
    pub verts: Seq<NumTripleV>,
    pub idxs: Seq<u16>,
    pub done: Seq<ObjMeshV>,
    pub err: Option<ErrV>,
}

pub open spec fn sp_obj_init() -> ObjStV {
    ObjStV {
        cur_name: None,
        verts: Seq::empty(),
        idxs: Seq::empty(),
        done: Seq::empty(),
        err: None,
    }
}

/// One step of the OBJ scan on the line numbered `num` (1-based).
pub open spec fn sp_obj_step(st: ObjStV, line: Seq<char>, num: int, axes: AxisOrder) -> ObjStV {
    let fs = sp_split(line, ' ');
    if fs[0] == "o"@ {
        if fs.len() == 2 {
            match st.cur_name {
                Some(nm) => ObjStV {
                    cur_name: Some(fs[1]),
                    verts: Seq::empty(),
                    idxs: Seq::empty(),
                    done: st.done.push(
                        ObjMeshV { name: nm, vertices: st.verts, indices: st.idxs },
                    ),
                    ..st
                },
                None => ObjStV { cur_name: Some(fs[1]), ..st },
            }
        } else {
            ObjStV { err: Some(ErrV::MalformedLine { line, lineno: num }), ..st }
        }
    } else if fs[0] == "v"@ {
        if fs.len() == 4 && sp_is_num(fs[1]) && sp_is_num(fs[2]) && sp_is_num(fs[3]) {
            let vert = NumTripleV {
                x: fs[1 + axes.x_from as int],
                y: fs[1 + axes.y_from as int],
                z: fs[1 + axes.z_from as int],
            };
            ObjStV { verts: st.verts.push(vert), ..st }
        } else {
            ObjStV { err: Some(ErrV::MalformedLine { line, lineno: num }), ..st }
        }
    } else if fs[0] == "f"@ {
        if fs.len() == 4 {
            if sp_is_face_idx(fs[1]) && sp_is_face_idx(fs[2]) && sp_is_face_idx(fs[3]) {
                let a = sp_digits_val(fs[1]) as u16;
                let b = sp_digits_val(fs[2]) as u16;
                let c = sp_digits_val(fs[3]) as u16;
                ObjStV {
                    idxs: st.idxs + seq![(c - 1) as u16, (b - 1) as u16, (a - 1) as u16],
                    ..st
                }
            } else {
                ObjStV { err: Some(ErrV::MalformedLine { line, lineno: num }), ..st }
            }
        } else if fs.len() == 5 {
            if sp_is_face_idx(fs[1]) && sp_is_face_idx(fs[2]) && sp_is_face_idx(fs[3])
                && sp_is_face_idx(fs[4]) {
                let a = sp_digits_val(fs[1]) as u16;
                let b = sp_digits_val(fs[2]) as u16;
                let c = sp_digits_val(fs[3]) as u16;
                let d = sp_digits_val(fs[4]) as u16;
                ObjStV {
                    idxs: st.idxs + seq![
                        (c - 1) as u16,
                        (b - 1) as u16,
                        (a - 1) as u16,
                        (d - 1) as u16,
                        (c - 1) as u16,
                        (a - 1) as u16,
                    ],
                    ..st
                }
            } else {
                ObjStV { err: Some(ErrV::MalformedLine { line, lineno: num }), ..st }
            }
        } else {
            ObjStV { err: Some(ErrV::UnsupportedPolygon { line, lineno: num }), ..st }
        }
    } else {
        st
    }
}

/// The OBJ scan's state after its first `i` lines; an error freezes it.
pub open spec fn sp_obj_run_to(lines: Seq<Seq<char>>, i: int, axes: AxisOrder) -> ObjStV
    decreases i,
{
    if i <= 0 {
        sp_obj_init()
    } else {
        let prev = sp_obj_run_to(lines, i - 1, axes);
        if prev.err is Some {
            prev
        } else {
            sp_obj_step(prev, lines[i - 1], i, axes)
        }
    }
}

/// Once a step errs, every later state is the same.
pub proof fn lemma_obj_run_err_stable(lines: Seq<Seq<char>>, i: int, j: int, axes: AxisOrder)
    requires
        0 <= i <= j,
        sp_obj_run_to(lines, i, axes).err is Some,
    ensures
        sp_obj_run_to(lines, j, axes) == sp_obj_run_to(lines, i, axes),
    decreases j - i,
{
    if i < j {
        lemma_obj_run_err_stable(lines, i, j - 1, axes);
    }
}

/// What parsing an OBJ text yields: the scan, then the final flush.
pub open spec fn sp_obj_meshes(text: Seq<char>, axes: AxisOrder) -> Result<Seq<ObjMeshV>, ErrV> {
    let lines = sp_lines(text);
    let st = sp_obj_run_to(lines, lines.len() as int, axes);
    match st.err {
        Some(e) => Err(e),
        None => match st.cur_name {
            Some(nm) => Ok(
                st.done.push(ObjMeshV { name: nm, vertices: st.verts, indices: st.idxs }),
            ),
            None => Ok(st.done),
        },
    }
}

/// The ghost state that the scan's variables stand for, before any error.
pub open spec fn sp_obj_exec_st(
    cur_name: Option<String>,
    verts: Vec<NumTriple>,
    idxs: Vec<u16>,
    done: Vec<ObjMesh>,
) -> ObjStV {
    ObjStV {
        cur_name: match cur_name {
            Some(nm) => Some(nm@),
            None => None,
        },
        verts: verts.deep_view(),
        idxs: idxs@,
        done: done.deep_view(),
        err: None,
    }
}

/// Parse the text of an OBJ-like mesh file into its named meshes, with the
/// given axis policy.  Either every record parses, or the first error comes
/// back and no meshes are produced: the result is exactly what the
/// specification-level scan of the text yields.
#[verifier::loop_isolation(false)]
#[verifier::rlimit(100)]
pub fn parse_obj(data: &str, axes: AxisOrder) -> (r: Result<Vec<ObjMesh>, ParseError>)
    requires
        sp_axis_ok(axes),
    ensures
        match r {
            Ok(ms) => sp_obj_meshes(data@, axes) == Ok::<Seq<ObjMeshV>, ErrV>(ms.deep_view()),
            Err(e) => sp_obj_meshes(data@, axes) == Err::<Seq<ObjMeshV>, ErrV>(e@),
        },
{
    let lines = split_lines(data);
    let ghost lv = lines.deep_view();
    let n = lines.len();
    let mut cur_name: Option<String> = None;
    let mut verts: Vec<NumTriple> = Vec::new();
    let mut idxs: Vec<u16> = Vec::new();
    let mut done: Vec<ObjMesh> = Vec::new();
    proof {
        assert(sp_obj_exec_st(cur_name, verts, idxs, done) =~~= sp_obj_init());
    }
    let mut i: usize = 0;
    while i < n
        invariant
            i <= n,
            sp_obj_run_to(lv, i as int, axes) == sp_obj_exec_st(cur_name, verts, idxs, done),
        decreases n - i,
    {
        let ghost prev = sp_obj_run_to(lv, i as int, axes);
        let ghost linev = lv[i as int];
        let ghost num = i as int + 1;
        let line = &lines[i];
        let lineno = i + 1;
        let fields = split_on(line.as_str(), ' ');
        let ghost fs = sp_split(linev, ' ');
        proof {
            assert(line@ == linev);
            assert(fields.deep_view() == fs);
            lemma_split_len(linev, ' ');
            assert(fields@.len() == fs.len());
            assert(forall|j: int| 0 <= j < fs.len() ==> (#[trigger] fs[j]) == fields@[j]@);
        }
        if str_eq(fields[0].as_str(), "o") {
            if fields.len() == 2 {
                match cur_name {
                    Some(nm) => {
                        done.push(ObjMesh { name: nm, vertices: verts, indices: idxs });
                        verts = Vec::new();
                        idxs = Vec::new();
                    },
                    None => {},
                }
                cur_name = Some(fields[1].clone());
            } else {
                proof {
                    lemma_obj_run_err_stable(lv, num, n as int, axes);
                }
                return Err(ParseError::MalformedLine { line: line.clone(), lineno });
            }
        } else if str_eq(fields[0].as_str(), "v") {
            if fields.len() == 4 && is_num_token(fields[1].as_str()) && is_num_token(
                fields[2].as_str(),
            ) && is_num_token(fields[3].as_str()) {
                let xi = 1 + (axes.x_from as usize);
                let yi = 1 + (axes.y_from as usize);
                let zi = 1 + (axes.z_from as usize);
                verts.push(
                    NumTriple {
                        x: fields[xi].clone(),
                        y: fields[yi].clone(),
                        z: fields[zi].clone(),
                    },
                );
            } else {
                proof {
                    lemma_obj_run_err_stable(lv, num, n as int, axes);
                }
                return Err(ParseError::MalformedLine { line: line.clone(), lineno });
            }
        } else if str_eq(fields[0].as_str(), "f") {
            if fields.len() == 4 {
                let pa = parse_u16(fields[1].as_str());
                let pb = parse_u16(fields[2].as_str());
                let pc = parse_u16(fields[3].as_str());
                match (pa, pb, pc) {
                    (Some(a), Some(b), Some(c)) if a >= 1 && b >= 1 && c >= 1 => {
                        idxs.push(c - 1);
                        idxs.push(b - 1);
                        idxs.push(a - 1);
                        proof {
                            assert(idxs@ =~= prev.idxs + seq![
                                (c - 1) as u16,
                                (b - 1) as u16,
                                (a - 1) as u16,
                            ]);
                        }
                    },
                    _ => {
                        proof {
                            lemma_obj_run_err_stable(lv, num, n as int, axes);
                        }
                        return Err(ParseError::MalformedLine { line: line.clone(), lineno });
                    },
                }
            } else if fields.len() == 5 {
                let pa = parse_u16(fields[1].as_str());
                let pb = parse_u16(fields[2].as_str());
                let pc = parse_u16(fields[3].as_str());
                let pd = parse_u16(fields[4].as_str());
                match (pa, pb, pc, pd) {
                    (Some(a), Some(b), Some(c), Some(d)) if a >= 1 && b >= 1 && c >= 1 && d
                        >= 1 => {
                        idxs.push(c - 1);
                        idxs.push(b - 1);
                        idxs.push(a - 1);
                        idxs.push(d - 1);
                        idxs.push(c - 1);
                        idxs.push(a - 1);
                        proof {
                            assert(idxs@ =~= prev.idxs + seq![
                                (c - 1) as u16,
                                (b - 1) as u16,
                                (a - 1) as u16,
                                (d - 1) as u16,
                                (c - 1) as u16,
                                (a - 1) as u16,
                            ]);
                        }
                    },
                    _ => {
                        proof {
                            lemma_obj_run_err_stable(lv, num, n as int, axes);
                        }
                        return Err(ParseError::MalformedLine { line: line.clone(), lineno });
                    },
                }
            } else {
                proof {
                    lemma_obj_run_err_stable(lv, num, n as int, axes);
                }
                return Err(ParseError::UnsupportedPolygon { line: line.clone(), lineno });
            }
        }
        proof {
            assert(sp_obj_exec_st(cur_name, verts, idxs, done) =~~= sp_obj_step(
                prev,
                linev,
                num,
                axes,
            ));
        }
        i = i + 1;
    }
    match cur_name {
        Some(nm) => {
            done.push(ObjMesh { name: nm, vertices: verts, indices: idxs });
        },
        None => {},
    }
    proof {
        assert(done.deep_view() =~~= match sp_obj_meshes(data@, axes) {
            Ok(ms) => ms,
            Err(_) => Seq::empty(),
        });
    }
    Ok(done)
}

} // verus!
