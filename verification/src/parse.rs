//! The scene file parser.
//!
//! The scan is a line-at-a-time state machine over one shared cursor: the
//! top level waits for `start object`, an object body dispatches on its
//! first field, and the `vertex` / `polygon` / `group` sub-blocks consume
//! lines until their own `end <kind>` line.  Every keyword record has a
//! fixed field count; a line with the wrong count, or with a field that
//! fails numeric parsing, is a malformed-line error.  Reaching the end of
//! input with any block still open is a truncated-file error.  Unknown
//! keywords are skipped at the top level and inside an object body.
//!
//! When an object's block closes, every polygon index it recorded is held
//! against its vertex count; a polygon addressing a missing vertex makes
//! the load fail with the offending polygon line.  After the scan, the
//! pending parent references are resolved (see the resolve module).
//!
//! The whole parse is pinned to the specification-level state machine
//! [`sp_step`] / [`sp_run_to`], so loading the same text twice gives
//! structurally equal results.

use vstd::prelude::*;

use crate::error::ErrV;
use crate::error::ParseError;
use crate::num::is_num_token;
use crate::num::parse_u16;
use crate::num::sp_all_digits;
use crate::num::sp_digits_val;
use crate::num::sp_is_num;
use crate::resolve::resolve_hierarchy;
use crate::resolve::sp_pending_view;
use crate::resolve::sp_resolve;
use crate::scene::sp_default_obj;
use crate::scene::sp_obj_indices_ok;
use crate::scene::sp_quad_ok;
use crate::scene::sp_tri_ok;
use crate::scene::AxisAngle;
use crate::scene::AxisAngleV;
use crate::scene::NumTriple;
use crate::scene::NumTripleV;
use crate::scene::ObjV;
use crate::scene::Quad;
use crate::scene::SceneV;
use crate::scene::SimpleSceneFile;
use crate::scene::SimpleSceneObject;
use crate::scene::Tri;
use crate::scene::default_object;
use crate::text::sp_lines;
use crate::text::sp_split;
use crate::text::split_lines;
use crate::text::split_on;
use crate::text::str_eq;
use crate::text::lemma_split_len;

verus! {

/// Where in the block structure the scan stands.
#[derive(Clone, Copy, Debug, PartialEq, Eq, Structural)]
pub enum Mode {
    Top,
    InObject,
    InVertex,
    InPolygon,
    InGroup,
}

/// The scan's state: the block mode, the object under construction with
/// the source line of each of its polygons, the finished objects, the
/// pending parent references, and the first error if one was hit.
#[verifier::ext_equal]
pub struct StV {
    pub mode: Mode,
    pub cur: ObjV,
    pub tri_src: Seq<(Seq<char>, int)>,
    pub quad_src: Seq<(Seq<char>, int)>,
    pub objs: Seq<ObjV>,
    pub pending: Seq<(int, Seq<char>)>,
    pub err: Option<ErrV>,
}

pub open spec fn sp_init() -> StV {
    StV {
        mode: Mode::Top,
        cur: sp_default_obj(),
        tri_src: Seq::empty(),
        quad_src: Seq::empty(),
        objs: Seq::empty(),
        pending: Seq::empty(),
        err: None,
    }
}

/// Position of the first triangle whose indices do not all address one of
/// `n` vertices, searching from `from`.
pub open spec fn sp_first_bad_tri(tris: Seq<Tri>, n: nat, from: int) -> Option<int>
    decreases tris.len() - from,
{
    if from >= tris.len() {
        None
    } else if !sp_tri_ok(tris[from], n) {
        Some(from)
    } else {
        sp_first_bad_tri(tris, n, from + 1)
    }
}

/// Position of the first quad whose indices do not all address one of `n`
/// vertices, searching from `from`.
pub open spec fn sp_first_bad_quad(quads: Seq<Quad>, n: nat, from: int) -> Option<int>
    decreases quads.len() - from,
{
    if from >= quads.len() {
        None
    } else if !sp_quad_ok(quads[from], n) {
        Some(from)
    } else {
        sp_first_bad_quad(quads, n, from + 1)
    }
}

/// An index token accepted for a polygon record: all digits, fitting `u16`.
pub open spec fn sp_is_idx(s: Seq<char>) -> bool {
    sp_all_digits(s) && sp_digits_val(s) <= u16::MAX
}

/// One step of the scan inside an object body.
pub open spec fn sp_step_object(st: StV, line: Seq<char>, num: int, fs: Seq<Seq<char>>) -> StV {
    if fs[0] == "location"@ {
        if fs.len() == 4 && sp_is_num(fs[1]) && sp_is_num(fs[2]) && sp_is_num(fs[3]) {
            StV {
                cur: ObjV { location: NumTripleV { x: fs[1], y: fs[2], z: fs[3] }, ..st.cur },
                ..st
            }
        } else {
            StV { err: Some(ErrV::MalformedLine { line, lineno: num }), ..st }
        }
    } else if fs[0] == "scale"@ {
        if fs.len() == 4 && sp_is_num(fs[1]) && sp_is_num(fs[2]) && sp_is_num(fs[3]) {
            StV { cur: ObjV { scale: NumTripleV { x: fs[1], y: fs[2], z: fs[3] }, ..st.cur }, ..st }
        } else {
            StV { err: Some(ErrV::MalformedLine { line, lineno: num }), ..st }
        }
    } else if fs[0] == "rotation"@ {
        if fs.len() == 5 && sp_is_num(fs[1]) && sp_is_num(fs[2]) && sp_is_num(fs[3]) && sp_is_num(
            fs[4],
        ) {
            StV {
                cur: ObjV {
                    rotation: Some(
                        AxisAngleV {
                            axis: NumTripleV { x: fs[1], y: fs[2], z: fs[3] },
                            degrees: fs[4],
                        },
                    ),
                    ..st.cur
                },
                ..st
            }
        } else {
            StV { err: Some(ErrV::MalformedLine { line, lineno: num }), ..st }
        }
    } else if fs[0] == "name"@ {
        if fs.len() == 2 {
            StV { cur: ObjV { name: fs[1], ..st.cur }, ..st }
        } else {
            StV { err: Some(ErrV::MalformedLine { line, lineno: num }), ..st }
        }
    } else if fs[0] == "type"@ {
        if fs.len() == 2 {
            StV { cur: ObjV { typ: fs[1], ..st.cur }, ..st }
        } else {
            StV { err: Some(ErrV::MalformedLine { line, lineno: num }), ..st }
        }
    } else if fs[0] == "parent"@ {
        if fs.len() == 2 {
            StV { pending: st.pending.push((st.objs.len() as int, fs[1])), ..st }
        } else {
            StV { err: Some(ErrV::MalformedLine { line, lineno: num }), ..st }
        }
    } else if fs[0] == "start"@ {
        if fs.len() < 2 {
            StV { err: Some(ErrV::MalformedLine { line, lineno: num }), ..st }
        } else if fs[1] == "vertex"@ {
            StV { mode: Mode::InVertex, ..st }
        } else if fs[1] == "polygon"@ {
            StV { mode: Mode::InPolygon, ..st }
        } else if fs[1] == "group"@ {
            StV { mode: Mode::InGroup, ..st }
        } else {
            st
        }
    } else if fs[0] == "end"@ {
        match sp_first_bad_tri(st.cur.triangles, st.cur.vertices.len(), 0) {
            Some(k) => StV {
                err: Some(
                    ErrV::MalformedLine { line: st.tri_src[k].0, lineno: st.tri_src[k].1 },
                ),
                ..st
            },
            None => match sp_first_bad_quad(st.cur.quads, st.cur.vertices.len(), 0) {
                Some(k) => StV {
                    err: Some(
                        ErrV::MalformedLine { line: st.quad_src[k].0, lineno: st.quad_src[k].1 },
                    ),
                    ..st
                },
                None => StV {
                    mode: Mode::Top,
                    objs: st.objs.push(st.cur),
                    cur: sp_default_obj(),
                    tri_src: Seq::empty(),
                    quad_src: Seq::empty(),
                    ..st
                },
            },
        }
    } else {
        st
    }
}

/// One step of the scan inside a polygon sub-block.
pub open spec fn sp_step_polygon(st: StV, line: Seq<char>, num: int, fs: Seq<Seq<char>>) -> StV {
    if line == "end polygon"@ {
        StV { mode: Mode::InObject, ..st }
    } else if fs.len() == 3 {
        if sp_is_idx(fs[0]) && sp_is_idx(fs[1]) && sp_is_idx(fs[2]) {
            let t = Tri {
                a: sp_digits_val(fs[0]) as u16,
                b: sp_digits_val(fs[1]) as u16,
                c: sp_digits_val(fs[2]) as u16,
            };
            StV {
                cur: ObjV { triangles: st.cur.triangles.push(t), ..st.cur },
                tri_src: st.tri_src.push((line, num)),
                ..st
            }
        } else {
            StV { err: Some(ErrV::MalformedLine { line, lineno: num }), ..st }
        }
    } else if fs.len() == 4 {
        if sp_is_idx(fs[0]) && sp_is_idx(fs[1]) && sp_is_idx(fs[2]) && sp_is_idx(fs[3]) {
            let q = Quad {
                a: sp_digits_val(fs[0]) as u16,
                b: sp_digits_val(fs[1]) as u16,
                c: sp_digits_val(fs[2]) as u16,
                d: sp_digits_val(fs[3]) as u16,
            };
            StV {
                cur: ObjV { quads: st.cur.quads.push(q), ..st.cur },
                quad_src: st.quad_src.push((line, num)),
                ..st
            }
        } else {
            StV { err: Some(ErrV::MalformedLine { line, lineno: num }), ..st }
        }
    } else {
        StV { err: Some(ErrV::UnsupportedPolygon { line, lineno: num }), ..st }
    }
}

/// One step of the scan: dispatch the line numbered `num` (1-based) on the
/// current mode.
pub open spec fn sp_step(st: StV, line: Seq<char>, num: int) -> StV {
    let fs = sp_split(line, ' ');
    match st.mode {
        Mode::Top => {
            if fs[0] == "start"@ {
                if fs.len() < 2 {
                    StV { err: Some(ErrV::MalformedLine { line, lineno: num }), ..st }
                } else if fs[1] == "object"@ {
                    StV {
                        mode: Mode::InObject,
                        cur: sp_default_obj(),
                        tri_src: Seq::empty(),
                        quad_src: Seq::empty(),
                        ..st
                    }
                } else {
                    st
                }
            } else {
                st
            }
        },
        Mode::InObject => sp_step_object(st, line, num, fs),
        Mode::InVertex => {
            if line == "end vertex"@ {
                StV { mode: Mode::InObject, ..st }
            } else if fs.len() == 3 && sp_is_num(fs[0]) && sp_is_num(fs[1]) && sp_is_num(fs[2]) {
                StV {
                    cur: ObjV {
                        vertices: st.cur.vertices.push(
                            NumTripleV { x: fs[0], y: fs[1], z: fs[2] },
                        ),
                        ..st.cur
                    },
                    ..st
                }
            } else {
                StV { err: Some(ErrV::MalformedLine { line, lineno: num }), ..st }
            }
        },
        Mode::InPolygon => sp_step_polygon(st, line, num, fs),
        Mode::InGroup => {
            if line == "end group"@ {
                StV { mode: Mode::InObject, ..st }
            } else {
                StV { cur: ObjV { groups: st.cur.groups.push(fs[0]), ..st.cur }, ..st }
            }
        },
    }
}

/// The scan's state after its first `i` lines; an error freezes the state.
pub open spec fn sp_run_to(lines: Seq<Seq<char>>, i: int) -> StV
    decreases i,
{
    if i <= 0 {
        sp_init()
    } else {
        let prev = sp_run_to(lines, i - 1);
        if prev.err is Some {
            prev
        } else {
            sp_step(prev, lines[i - 1], i)
        }
    }
}

/// Once a step errs, every later state is the same.
pub proof fn lemma_run_err_stable(lines: Seq<Seq<char>>, i: int, j: int)
    requires
        0 <= i <= j,
        sp_run_to(lines, i).err is Some,
    ensures
        sp_run_to(lines, j) == sp_run_to(lines, i),
    decreases j - i,
{
    if i < j {
        lemma_run_err_stable(lines, i, j - 1);
    }
}

/// What loading a line sequence yields: the scan, the open-block check,
/// then hierarchy resolution.
pub open spec fn sp_scene_lines(path: Seq<char>, lines: Seq<Seq<char>>) -> Result<SceneV, ErrV> {
    let st = sp_run_to(lines, lines.len() as int);
    match st.err {
        Some(e) => Err(e),
        None => {
            if !(st.mode is Top) {
                Err(ErrV::TruncatedFile { lineno: lines.len() as int })
            } else {
                match sp_resolve(st.objs, st.pending) {
                    Err(e) => Err(e),
                    Ok(objs) => Ok(SceneV { path, objects: objs }),
                }
            }
        },
    }
}

/// What loading a file's text yields.
pub open spec fn sp_scene(path: Seq<char>, text: Seq<char>) -> Result<SceneV, ErrV> {
    sp_scene_lines(path, sp_lines(text))
}

/// Loading the same text twice produces structurally equal results: the
/// outcome is a function of the text alone.
pub proof fn lemma_reload_deterministic(
    path: Seq<char>,
    text: Seq<char>,
    r1: Result<SceneV, ErrV>,
    r2: Result<SceneV, ErrV>,
)
    requires
        r1 == sp_scene(path, text),
        r2 == sp_scene(path, text),
    ensures
        r1 == r2,
{
}

/// A text whose scan ends with a block still open, without an earlier
/// error, fails as truncated: no partial scene is produced.
pub proof fn lemma_truncation_detected(path: Seq<char>, text: Seq<char>)
    requires
        sp_run_to(sp_lines(text), sp_lines(text).len() as int).err is None,
        !(sp_run_to(sp_lines(text), sp_lines(text).len() as int).mode is Top),
    ensures
        sp_scene(path, text) == Err::<SceneV, ErrV>(
            ErrV::TruncatedFile { lineno: sp_lines(text).len() as int },
        ),
{
}

/// The scan keeps its bookkeeping sound: polygon source lines stay aligned
/// with the polygons, and every pending child index addresses a finished
/// object, or the object still under construction.
pub open spec fn sp_st_wf(st: StV) -> bool {
    &&& st.tri_src.len() == st.cur.triangles.len()
    &&& st.quad_src.len() == st.cur.quads.len()
    &&& forall|k: int|
        0 <= k < st.pending.len() ==> 0 <= (#[trigger] st.pending[k]).0 && (st.pending[k].0
            < st.objs.len() || (!(st.mode is Top) && st.pending[k].0 == st.objs.len()))
}

/// The polygon source-line list seen as spec values.
pub open spec fn sp_src_view(v: Seq<(String, usize)>) -> Seq<(Seq<char>, int)> {
    v.map_values(|e: (String, usize)| (e.0@, e.1 as int))
}

/// The ghost state that a set of scan variables stands for, before any
/// error was hit.
pub open spec fn sp_exec_st(
    mode: Mode,
    cur: SimpleSceneObject,
    tri_srcs: Vec<(String, usize)>,
    quad_srcs: Vec<(String, usize)>,
    objs: Vec<SimpleSceneObject>,
    pending: Vec<(usize, String)>,
) -> StV {
    StV {
        mode,
        cur: cur@,
        tri_src: sp_src_view(tri_srcs@),
        quad_src: sp_src_view(quad_srcs@),
        objs: objs.deep_view(),
        pending: sp_pending_view(pending@),
        err: None,
    }
}

/// Every error-free scan state is well formed.
pub proof fn lemma_run_wf(lines: Seq<Seq<char>>, i: int)
    requires
        sp_run_to(lines, i).err is None,
    ensures
        sp_st_wf(sp_run_to(lines, i)),
    decreases i,
{
    if i > 0 {
        let prev = sp_run_to(lines, i - 1);
        if prev.err is Some {
            assert(sp_run_to(lines, i) == prev);
            assert(false);
        } else {
            lemma_run_wf(lines, i - 1);
        }
    }
}

/// A search that found no bad triangle means every triangle is in range.
pub proof fn lemma_first_bad_tri_none(tris: Seq<Tri>, n: nat, from: int)
    requires
        0 <= from,
        sp_first_bad_tri(tris, n, from) is None,
    ensures
        forall|j: int| from <= j < tris.len() ==> sp_tri_ok(#[trigger] tris[j], n),
    decreases tris.len() - from,
{
    if from < tris.len() {
        lemma_first_bad_tri_none(tris, n, from + 1);
    }
}

/// A search that found no bad quad means every quad is in range.
pub proof fn lemma_first_bad_quad_none(quads: Seq<Quad>, n: nat, from: int)
    requires
        0 <= from,
        sp_first_bad_quad(quads, n, from) is None,
    ensures
        forall|j: int| from <= j < quads.len() ==> sp_quad_ok(#[trigger] quads[j], n),
    decreases quads.len() - from,
{
    if from < quads.len() {
        lemma_first_bad_quad_none(quads, n, from + 1);
    }
}

/// Every object an error-free scan has finished keeps the geometry
/// invariant: each of its stored polygon indices addresses one of its own
/// vertices.
pub proof fn lemma_run_objs_indices_ok(lines: Seq<Seq<char>>, i: int)
    requires
        sp_run_to(lines, i).err is None,
    ensures
        forall|k: int|
            0 <= k < sp_run_to(lines, i).objs.len() ==> sp_obj_indices_ok(
                #[trigger] sp_run_to(lines, i).objs[k],
            ),
    decreases i,
{
    if i > 0 {
        let prev = sp_run_to(lines, i - 1);
        if prev.err is Some {
            assert(sp_run_to(lines, i) == prev);
            assert(false);
        } else {
            lemma_run_objs_indices_ok(lines, i - 1);
            let st = sp_run_to(lines, i);
            let fs = sp_split(lines[i - 1], ' ');
            let nv = prev.cur.vertices.len();
            reveal_strlit("location");
            reveal_strlit("scale");
            reveal_strlit("rotation");
            reveal_strlit("name");
            reveal_strlit("type");
            reveal_strlit("parent");
            reveal_strlit("start");
            reveal_strlit("end");
            if prev.mode is InObject && fs[0] == "end"@ && sp_first_bad_tri(
                prev.cur.triangles,
                nv,
                0,
            ) is None && sp_first_bad_quad(prev.cur.quads, nv, 0) is None {
                lemma_first_bad_tri_none(prev.cur.triangles, nv, 0);
                lemma_first_bad_quad_none(prev.cur.quads, nv, 0);
                assert(sp_obj_indices_ok(prev.cur));
                assert(st.objs == prev.objs.push(prev.cur));
                assert forall|k: int| 0 <= k < st.objs.len() implies sp_obj_indices_ok(
                    #[trigger] st.objs[k],
                ) by {
                    if k < prev.objs.len() {
                        assert(st.objs[k] == prev.objs[k]);
                    } else {
                        assert(st.objs[k] == prev.cur);
                    }
                }
            } else {
                assert(st.objs == prev.objs);
            }
        }
    }
}

/// Every object of a successfully loaded scene keeps the geometry
/// invariant, so its draw index buffer can always be built.
pub proof fn lemma_scene_indices_ok(path: Seq<char>, text: Seq<char>)
    requires
        sp_scene(path, text) is Ok,
    ensures
        ({
            let objects = sp_scene(path, text)->Ok_0.objects;
            forall|k: int| 0 <= k < objects.len() ==> sp_obj_indices_ok(#[trigger] objects[k])
        }),
{
    let lines = sp_lines(text);
    let st = sp_run_to(lines, lines.len() as int);
    lemma_run_objs_indices_ok(lines, lines.len() as int);
    lemma_run_wf(lines, lines.len() as int);
    crate::resolve::lemma_resolve_keeps_objects(st.objs, st.pending, st.pending.len() as int);
    let resolved = crate::resolve::sp_resolve(st.objs, st.pending)->Ok_0;
    assert forall|k: int| 0 <= k < resolved.len() implies sp_obj_indices_ok(
        #[trigger] resolved[k],
    ) by {
        assert(sp_obj_indices_ok(st.objs[k]));
        assert(resolved[k].triangles == st.objs[k].triangles);
        assert(resolved[k].quads == st.objs[k].quads);
        assert(resolved[k].vertices == st.objs[k].vertices);
    }
}

impl SimpleSceneFile {
    /// Load a scene from the full text of a scene file; `source` is the
    /// provenance path recorded on the result, and the caller supplies the
    /// text it read.  Either the whole file parses and resolves, or the
    /// first error comes back and no scene is produced: the result is
    /// exactly what the specification-level parse of the text yields.
    #[verifier::loop_isolation(false)]
    #[verifier::rlimit(100)]
    pub fn from_file(source: &str, data: &str) -> (r: Result<SimpleSceneFile, ParseError>)
        ensures
            match r {
                Ok(s) => sp_scene(source@, data@) == Ok::<SceneV, ErrV>(s@),
                Err(e) => sp_scene(source@, data@) == Err::<SceneV, ErrV>(e@),
            },
    {
        let lines = split_lines(data);
        let ghost lv = lines.deep_view();
        let n = lines.len();
        let mut mode = Mode::Top;
        let mut cur = default_object();
        let mut tri_srcs: Vec<(String, usize)> = Vec::new();
        let mut quad_srcs: Vec<(String, usize)> = Vec::new();
        let mut objs: Vec<SimpleSceneObject> = Vec::new();
        let mut pending: Vec<(usize, String)> = Vec::new();
        proof {
            assert(sp_exec_st(mode, cur, tri_srcs, quad_srcs, objs, pending) =~~= sp_init());
        }
        let mut i: usize = 0;
        while i < n
            invariant
                i <= n,
                sp_run_to(lv, i as int) == sp_exec_st(
                    mode,
                    cur,
                    tri_srcs,
                    quad_srcs,
                    objs,
                    pending,
                ),
            decreases n - i,
        {
            let ghost prev = sp_run_to(lv, i as int);
            let ghost linev = lv[i as int];
            let ghost num = i as int + 1;
            let line = &lines[i];
            let lineno = i + 1;
            let fields = split_on(line.as_str(), ' ');
            let ghost fs = sp_split(linev, ' ');
            proof {
                assert(line@ == linev);
                assert(fields.deep_view() == fs);
                lemma_split_len(linev, ' ');
                assert(fields@.len() == fs.len());
                assert(forall|j: int| 0 <= j < fs.len() ==> (#[trigger] fs[j]) == fields@[j]@);
            }
            match mode {
                Mode::Top => {
                    if str_eq(fields[0].as_str(), "start") {
                        if fields.len() < 2 {
                            proof {
                                lemma_run_err_stable(lv, num, n as int);
                            }
                            return Err(ParseError::MalformedLine { line: line.clone(), lineno });
                        } else if str_eq(fields[1].as_str(), "object") {
                            mode = Mode::InObject;
                            cur = default_object();
                            tri_srcs = Vec::new();
                            quad_srcs = Vec::new();
                        }
                    }
                },
                Mode::InObject => {
                    if str_eq(fields[0].as_str(), "location") {
                        if fields.len() == 4 && is_num_token(fields[1].as_str()) && is_num_token(
                            fields[2].as_str(),
                        ) && is_num_token(fields[3].as_str()) {
                            cur.location = NumTriple {
                                x: fields[1].clone(),
                                y: fields[2].clone(),
                                z: fields[3].clone(),
                            };
                        } else {
                            proof {
                                lemma_run_err_stable(lv, num, n as int);
                            }
                            return Err(ParseError::MalformedLine { line: line.clone(), lineno });
                        }
                    } else if str_eq(fields[0].as_str(), "scale") {
                        if fields.len() == 4 && is_num_token(fields[1].as_str()) && is_num_token(
                            fields[2].as_str(),
                        ) && is_num_token(fields[3].as_str()) {
                            cur.scale = NumTriple {
                                x: fields[1].clone(),
                                y: fields[2].clone(),
                                z: fields[3].clone(),
                            };
                        } else {
                            proof {
                                lemma_run_err_stable(lv, num, n as int);
                            }
                            return Err(ParseError::MalformedLine { line: line.clone(), lineno });
                        }
                    } else if str_eq(fields[0].as_str(), "rotation") {
                        if fields.len() == 5 && is_num_token(fields[1].as_str()) && is_num_token(
                            fields[2].as_str(),
                        ) && is_num_token(fields[3].as_str()) && is_num_token(
                            fields[4].as_str(),
                        ) {
                            cur.rotation = Some(
                                AxisAngle {
                                    axis: NumTriple {
                                        x: fields[1].clone(),
                                        y: fields[2].clone(),
                                        z: fields[3].clone(),
                                    },
                                    degrees: fields[4].clone(),
                                },
                            );
                        } else {
                            proof {
                                lemma_run_err_stable(lv, num, n as int);
                            }
                            return Err(ParseError::MalformedLine { line: line.clone(), lineno });
                        }
                    } else if str_eq(fields[0].as_str(), "name") {
                        if fields.len() == 2 {
                            cur.name = fields[1].clone();
                        } else {
                            proof {
                                lemma_run_err_stable(lv, num, n as int);
                            }
                            return Err(ParseError::MalformedLine { line: line.clone(), lineno });
                        }
                    } else if str_eq(fields[0].as_str(), "type") {
                        if fields.len() == 2 {
                            cur.typ = fields[1].clone();
                        } else {
                            proof {
                                lemma_run_err_stable(lv, num, n as int);
                            }
                            return Err(ParseError::MalformedLine { line: line.clone(), lineno });
                        }
                    } else if str_eq(fields[0].as_str(), "parent") {
                        if fields.len() == 2 {
                            let ghost pre = pending;
                            pending.push((objs.len(), fields[1].clone()));
                            proof {
                                assert(sp_pending_view(pending@) =~~= sp_pending_view(
                                    pre@,
                                ).push((objs@.len() as int, fs[1])));
                            }
                        } else {
                            proof {
                                lemma_run_err_stable(lv, num, n as int);
                            }
                            return Err(ParseError::MalformedLine { line: line.clone(), lineno });
                        }
                    } else if str_eq(fields[0].as_str(), "start") {
                        if fields.len() < 2 {
                            proof {
                                lemma_run_err_stable(lv, num, n as int);
                            }
                            return Err(ParseError::MalformedLine { line: line.clone(), lineno });
                        } else if str_eq(fields[1].as_str(), "vertex") {
                            mode = Mode::InVertex;
                        } else if str_eq(fields[1].as_str(), "polygon") {
                            mode = Mode::InPolygon;
                        } else if str_eq(fields[1].as_str(), "group") {
                            mode = Mode::InGroup;
                        }
                    } else if str_eq(fields[0].as_str(), "end") {
                        proof {
                            lemma_run_wf(lv, i as int);
                        }
                        let nverts = cur.vertices.len();
                        let tlen = cur.triangles.len();
                        let mut k: usize = 0;
                        while k < tlen
                            invariant
                                k <= tlen,
                                sp_first_bad_tri(cur@.triangles, cur@.vertices.len(), 0)
                                    == sp_first_bad_tri(
                                    cur@.triangles,
                                    cur@.vertices.len(),
                                    k as int,
                                ),
                            decreases tlen - k,
                        {
                            let t = cur.triangles[k];
                            let ok = t.a >= 1 && (t.a as usize) <= nverts && t.b >= 1 && (t.b
                                as usize) <= nverts && t.c >= 1 && (t.c as usize) <= nverts;
                            if !ok {
                                let bad_line = tri_srcs[k].0.clone();
                                let bad_no = tri_srcs[k].1;
                                proof {
                                    lemma_run_err_stable(lv, num, n as int);
                                }
                                return Err(
                                    ParseError::MalformedLine { line: bad_line, lineno: bad_no },
                                );
                            }
                            k = k + 1;
                        }
                        let qlen = cur.quads.len();
                        let mut k2: usize = 0;
                        while k2 < qlen
                            invariant
                                k2 <= qlen,
                                sp_first_bad_tri(cur@.triangles, cur@.vertices.len(), 0) is None,
                                sp_first_bad_quad(cur@.quads, cur@.vertices.len(), 0)
                                    == sp_first_bad_quad(
                                    cur@.quads,
                                    cur@.vertices.len(),
                                    k2 as int,
                                ),
                            decreases qlen - k2,
                        {
                            let q = cur.quads[k2];
                            let ok = q.a >= 1 && (q.a as usize) <= nverts && q.b >= 1 && (q.b
                                as usize) <= nverts && q.c >= 1 && (q.c as usize) <= nverts && q.d
                                >= 1 && (q.d as usize) <= nverts;
                            if !ok {
                                let bad_line = quad_srcs[k2].0.clone();
                                let bad_no = quad_srcs[k2].1;
                                proof {
                                    lemma_run_err_stable(lv, num, n as int);
                                }
                                return Err(
                                    ParseError::MalformedLine { line: bad_line, lineno: bad_no },
                                );
                            }
                            k2 = k2 + 1;
                        }
                        let ghost pre = objs;
                        let ghost curg = cur;
                        objs.push(cur);
                        cur = default_object();
                        tri_srcs = Vec::new();
                        quad_srcs = Vec::new();
                        mode = Mode::Top;
                        proof {
                            assert(objs.deep_view() =~~= pre.deep_view().push(curg@));
                        }
                    }
                },
                Mode::InVertex => {
                    if str_eq(line.as_str(), "end vertex") {
                        mode = Mode::InObject;
                    } else if fields.len() == 3 && is_num_token(fields[0].as_str())
                        && is_num_token(fields[1].as_str()) && is_num_token(fields[2].as_str()) {
                        cur.vertices.push(
                            NumTriple {
                                x: fields[0].clone(),
                                y: fields[1].clone(),
                                z: fields[2].clone(),
                            },
                        );
                    } else {
                        proof {
                            lemma_run_err_stable(lv, num, n as int);
                        }
                        return Err(ParseError::MalformedLine { line: line.clone(), lineno });
                    }
                },
                Mode::InPolygon => {
                    if str_eq(line.as_str(), "end polygon") {
                        mode = Mode::InObject;
                    } else if fields.len() == 3 {
                        let pa = parse_u16(fields[0].as_str());
                        let pb = parse_u16(fields[1].as_str());
                        let pc = parse_u16(fields[2].as_str());
                        match (pa, pb, pc) {
                            (Some(a), Some(b), Some(c)) => {
                                cur.triangles.push(Tri { a, b, c });
                                let ghost pres = tri_srcs;
                                tri_srcs.push((line.clone(), lineno));
                                proof {
                                    assert(sp_src_view(tri_srcs@) =~~= sp_src_view(
                                        pres@,
                                    ).push((linev, num)));
                                }
                            },
                            _ => {
                                proof {
                                    lemma_run_err_stable(lv, num, n as int);
                                }
                                return Err(
                                    ParseError::MalformedLine { line: line.clone(), lineno },
                                );
                            },
                        }
                    } else if fields.len() == 4 {
                        let pa = parse_u16(fields[0].as_str());
                        let pb = parse_u16(fields[1].as_str());
                        let pc = parse_u16(fields[2].as_str());
                        let pd = parse_u16(fields[3].as_str());
                        match (pa, pb, pc, pd) {
                            (Some(a), Some(b), Some(c), Some(d)) => {
                                cur.quads.push(Quad { a, b, c, d });
                                let ghost pres = quad_srcs;
                                quad_srcs.push((line.clone(), lineno));
                                proof {
                                    assert(sp_src_view(quad_srcs@) =~~= sp_src_view(
                                        pres@,
                                    ).push((linev, num)));
                                }
                            },
                            _ => {
                                proof {
                                    lemma_run_err_stable(lv, num, n as int);
                                }
                                return Err(
                                    ParseError::MalformedLine { line: line.clone(), lineno },
                                );
                            },
                        }
                    } else {
                        proof {
                            lemma_run_err_stable(lv, num, n as int);
                        }
                        return Err(ParseError::UnsupportedPolygon { line: line.clone(), lineno });
                    }
                },
                Mode::InGroup => {
                    if str_eq(line.as_str(), "end group") {
                        mode = Mode::InObject;
                    } else {
                        cur.groups.push(fields[0].clone());
                    }
                },
            }
            proof {
                assert(sp_exec_st(mode, cur, tri_srcs, quad_srcs, objs, pending) =~~= sp_step(
                    prev,
                    linev,
                    num,
                ));
            }
            i = i + 1;
        }
        match mode {
            Mode::Top => {},
            _ => {
                return Err(ParseError::TruncatedFile { lineno: n });
            },
        }
        proof {
            lemma_run_wf(lv, n as int);
            assert forall|k: int| 0 <= k < pending@.len() implies (#[trigger] pending@[k]).0
                < objs@.len() by {
                assert(sp_pending_view(pending@)[k] == (pending@[k].0 as int, pending@[k].1@));
            }
        }
        let resolved = resolve_hierarchy(&mut objs, &pending);
        match resolved {
            Err(e) => Err(e),
            Ok(_) => {
                let s = SimpleSceneFile { path: String::from_str(source), objects: objs };
                Ok(s)
            },
        }
    }
}

} // verus!
