//! The Markdown renderer for the document model. All text assembly is done
//! here; what cannot be done in pure code — invoking an external image
//! generator for state-machine diagrams and waveforms — is described by
//! [`ImageJob`] records for an outer driver to execute: each job names the
//! image file that the generated Markdown links to and carries the source
//! text (a Graphviz digraph or a waveform spec) to feed the external tool.
use vstd::prelude::*;
use vstd::string::StringExecFns;
use crate::comment_parser::{CommentItem, CommentItemV};
use crate::docgen::{SvFile, SvFileV, SvModule, SvModuleV, SvParamV, SvPortV};
use crate::numbered_list::{spec_recall, NumberedList};
use crate::text::{contains_char, dec_digits, scan_to_char, split_char, split_char_from, str_chars, str_contains_char, string_from_range, usize_to_string};

verus! {

/// A renderer of the document model, implemented by [`MarkdownGenerator`]
/// and open to other back ends.
pub trait DocgenGenerator {
    fn generate(&self, items: Vec<SvFile>) -> String;
}

/// The Markdown back end. `wavedrom` and `graphviz` name external image
/// generators, if available: with them set, waveforms and state machines
/// render as image links and the corresponding [`ImageJob`]s are emitted;
/// without them, both render as plain text. `cwd` is the directory the
/// outer driver runs the jobs in.
pub struct MarkdownGenerator {
    pub cwd: String,
    pub wavedrom: Option<String>,
    pub graphviz: Option<String>,
}

/// Which external tool a job is for.
#[derive(Debug, Clone, Copy, PartialEq, Eq, Structural)]
pub enum ImageKind {
    Fsm,
    Waveform,
}

/// One image to produce: write `source` to a temporary file, run the tool of
/// `kind` on it, and store the result as `file_name` (which the Markdown
/// already links to).
#[derive(Debug, Clone)]
pub struct ImageJob {
    pub kind: ImageKind,
    pub file_name: String,
    pub source: String,
}

#[verifier::ext_equal]
pub struct ImageJobV {
    pub kind: ImageKind,
    pub file_name: Seq<char>,
    pub source: Seq<char>,
}

impl DeepView for ImageJob {
    type V = ImageJobV;

    open spec fn deep_view(&self) -> ImageJobV {
        ImageJobV { kind: self.kind, file_name: self.file_name@, source: self.source@ }
    }
}

/// One state machine gathered from `@fsm`, `@state` and transition items.
#[derive(Debug, Clone)]
struct Fsm {
    name: String,
    transits: Vec<(String, String, String)>,
    states: Vec<(String, String)>,
}

#[verifier::ext_equal]
pub struct FsmV {
    pub name: Seq<char>,
    pub transits: Seq<(Seq<char>, Seq<char>, Seq<char>)>,
    pub states: Seq<(Seq<char>, Seq<char>)>,
}

impl DeepView for Fsm {
    type V = FsmV;

    closed spec fn deep_view(&self) -> FsmV {
        FsmV {
            name: self.name@,
            transits: self.transits.deep_view(),
            states: self.states.deep_view(),
        }
    }
}

/// Which of the two image tools are available.
#[verifier::ext_equal]
pub struct GenCfgV {
    pub wavedrom: bool,
    pub graphviz: bool,
}

impl MarkdownGenerator {
    pub open spec fn cfg(&self) -> GenCfgV {
        GenCfgV { wavedrom: self.wavedrom is Some, graphviz: self.graphviz is Some }
    }
}

// ---------------------------------------------------------------------------
// Image file names (unique per file index, module index, item position)
// ---------------------------------------------------------------------------

pub open spec fn fsm_png_name(fi: nat, mi: nat, k: nat) -> Seq<char> {
    "docgen_fsm_"@ + dec_digits(fi) + "_"@ + dec_digits(mi) + "_"@ + dec_digits(k) + ".png"@
}

pub open spec fn wave_png_name(fi: nat, mi: nat, k: nat) -> Seq<char> {
    "docgen_wave_"@ + dec_digits(fi) + "_"@ + dec_digits(mi) + "_"@ + dec_digits(k) + ".png"@
}

// ---------------------------------------------------------------------------
// Renderings of one state machine
// ---------------------------------------------------------------------------

/// The transition lines of the Graphviz source.
pub open spec fn gv_transits(ts: Seq<(Seq<char>, Seq<char>, Seq<char>)>) -> Seq<char>
    decreases ts.len(),
{
    if ts.len() == 0 {
        Seq::empty()
    } else {
        let t = ts.last();
        gv_transits(ts.drop_last()) + t.0 + "->"@ + t.1 + "[label=\""@ + t.2 + "\"]\n"@
    }
}

/// The record cells of the Graphviz states node, joined with `|`.
pub open spec fn gv_state_cells(ss: Seq<(Seq<char>, Seq<char>)>) -> Seq<char>
    decreases ss.len(),
{
    if ss.len() == 0 {
        Seq::empty()
    } else if ss.len() == 1 {
        "{ "@ + ss[0].0 + " | "@ + ss[0].1 + " }"@
    } else {
        let s = ss.last();
        gv_state_cells(ss.drop_last()) + "|"@ + "{ "@ + s.0 + " | "@ + s.1 + " }"@
    }
}

/// The full Graphviz source of one state machine.
pub open spec fn gv_source_v(f: FsmV) -> Seq<char> {
    "digraph G {\n"@ + gv_transits(f.transits) + (if f.states.len() > 0 {
        "xxxxxxxxxxxxx[shape=record,label=\" { States | "@ + gv_state_cells(f.states)
            + " } \"]\n"@
    } else {
        Seq::empty()
    }) + "}"@
}

/// The plain-text rendering used when no Graphviz tool is configured: one
/// bullet per transition.
pub open spec fn fsm_bullets(ts: Seq<(Seq<char>, Seq<char>, Seq<char>)>) -> Seq<char>
    decreases ts.len(),
{
    if ts.len() == 0 {
        Seq::empty()
    } else {
        let t = ts.last();
        fsm_bullets(ts.drop_last()) + "* "@ + t.0 + "->"@ + t.1 + ": "@ + t.2 + "\n"@
    }
}

// ---------------------------------------------------------------------------
// Rendering one comment-item list
// ---------------------------------------------------------------------------

/// The quoted lines of a multi-line note.
pub open spec fn note_block_v(lines: Seq<Seq<char>>) -> Seq<char>
    decreases lines.len(),
{
    if lines.len() == 0 {
        Seq::empty()
    } else {
        note_block_v(lines.drop_last()) + "> "@ + lines.last() + "\n>\n"@
    }
}

/// The renderer's state while walking one item list: the Markdown produced
/// so far, the image jobs emitted so far, and the state machine currently
/// being gathered.
#[verifier::ext_equal]
pub struct FmtStateV {
    pub out: Seq<char>,
    pub jobs: Seq<ImageJobV>,
    pub cur: Option<FsmV>,
}

/// Emits the gathered state machine, if any: as an image link plus a job
/// when Graphviz is configured, else as bullet text.
pub open spec fn flush_fsm_v(cfg: GenCfgV, fi: nat, mi: nat, k: nat, st: FmtStateV) -> FmtStateV {
    match st.cur {
        Some(f) => {
            let body = if cfg.graphviz {
                "![fsm]("@ + fsm_png_name(fi, mi, k) + ")"@
            } else {
                fsm_bullets(f.transits) + "\n"@
            };
            FmtStateV {
                out: st.out + "**State Machine:** "@ + f.name + "\n\n "@ + body + "\n\n"@,
                jobs: if cfg.graphviz {
                    st.jobs.push(
                        ImageJobV {
                            kind: ImageKind::Fsm,
                            file_name: fsm_png_name(fi, mi, k),
                            source: gv_source_v(f),
                        },
                    )
                } else {
                    st.jobs
                },
                cur: None,
            }
        },
        None => st,
    }
}

/// Renders one item at position `k` of the list.
pub open spec fn fmt_item_v(
    cfg: GenCfgV,
    fi: nat,
    mi: nat,
    k: nat,
    st: FmtStateV,
    it: CommentItemV,
) -> FmtStateV {
    match it {
        CommentItemV::Author(s) => FmtStateV {
            out: st.out + "**Author:** "@ + s + "\n\n"@,
            ..st
        },
        CommentItemV::Example(s) => FmtStateV {
            out: st.out + (if contains_char(s, '\n') {
                "**Example:** \n```\n"@ + s + "\n```\n\n"@
            } else {
                "**Example:** `"@ + s + "`\n\n"@
            }),
            ..st
        },
        CommentItemV::Note(s) => FmtStateV {
            out: st.out + (if contains_char(s, '\n') {
                "> **Note:**\n>\n"@ + note_block_v(split_char(s, '\n')) + "\n"@
            } else {
                "> **Note:** "@ + s + "\n\n"@
            }),
            ..st
        },
        CommentItemV::Ref(s) => FmtStateV {
            out: st.out + "**Ref:** ["@ + s + "]("@ + s + ")\n\n"@,
            ..st
        },
        CommentItemV::Return(s) => FmtStateV {
            out: st.out + "**Return:** "@ + s + "\n\n"@,
            ..st
        },
        CommentItemV::See(s) => FmtStateV {
            out: st.out + "**Ref:** ["@ + s + "]("@ + s + ")\n\n"@,
            ..st
        },
        CommentItemV::Wave(s) => FmtStateV {
            out: st.out + "**Waveform:** \n\n "@ + (if cfg.wavedrom {
                "![wave]("@ + wave_png_name(fi, mi, k) + ")"@
            } else {
                s
            }) + "\n\n"@,
            jobs: if cfg.wavedrom {
                st.jobs.push(
                    ImageJobV {
                        kind: ImageKind::Waveform,
                        file_name: wave_png_name(fi, mi, k),
                        source: s,
                    },
                )
            } else {
                st.jobs
            },
            ..st
        },
        CommentItemV::State { name, desc } => match st.cur {
            Some(f) => FmtStateV {
                cur: Some(FsmV { states: f.states.push((name, desc)), ..f }),
                ..st
            },
            None => st,
        },
        CommentItemV::Transit { from, to, desc } => match st.cur {
            Some(f) => FmtStateV {
                cur: Some(FsmV { transits: f.transits.push((from, to, desc)), ..f }),
                ..st
            },
            None => st,
        },
        CommentItemV::FSM(s) => {
            let st2 = flush_fsm_v(cfg, fi, mi, k, st);
            FmtStateV { cur: Some(FsmV { name: s, transits: seq![], states: seq![] }), ..st2 }
        },
        _ => st,
    }
}

pub open spec fn fmt_items_v(cfg: GenCfgV, fi: nat, mi: nat, items: Seq<CommentItemV>) -> FmtStateV
    decreases items.len(),
{
    if items.len() == 0 {
        FmtStateV { out: Seq::empty(), jobs: seq![], cur: None }
    } else {
        fmt_item_v(
            cfg,
            fi,
            mi,
            (items.len() - 1) as nat,
            fmt_items_v(cfg, fi, mi, items.drop_last()),
            items.last(),
        )
    }
}

/// The full rendering of one item list, with the trailing state machine
/// flushed.
pub open spec fn format_comment_v(
    cfg: GenCfgV,
    fi: nat,
    mi: nat,
    items: Seq<CommentItemV>,
) -> FmtStateV {
    flush_fsm_v(cfg, fi, mi, items.len(), fmt_items_v(cfg, fi, mi, items))
}

// ---------------------------------------------------------------------------
// Rendering modules and files
// ---------------------------------------------------------------------------

pub open spec fn opt_or_empty(o: Option<Seq<char>>) -> Seq<char> {
    match o {
        Some(t) => t,
        None => Seq::empty(),
    }
}

pub open spec fn param_row_v(p: SvParamV) -> Seq<char> {
    "| "@ + p.name + " | "@ + opt_or_empty(p.default) + " | "@ + opt_or_empty(p.param_type)
        + " | "@ + opt_or_empty(p.dimensions) + " | "@ + p.comment + " |\n"@
}

pub open spec fn param_rows_v(ps: Seq<SvParamV>) -> Seq<char>
    decreases ps.len(),
{
    if ps.len() == 0 {
        Seq::empty()
    } else {
        param_rows_v(ps.drop_last()) + param_row_v(ps.last())
    }
}

pub open spec fn port_row_v(p: SvPortV) -> Seq<char> {
    "| "@ + p.name + " | "@ + opt_or_empty(p.direction) + " | "@ + opt_or_empty(p.port_type)
        + " | "@ + opt_or_empty(p.dimensions) + " | "@ + p.comment + " |\n"@
}

pub open spec fn port_rows_v(ps: Seq<SvPortV>) -> Seq<char>
    decreases ps.len(),
{
    if ps.len() == 0 {
        Seq::empty()
    } else {
        port_rows_v(ps.drop_last()) + port_row_v(ps.last())
    }
}

pub open spec fn params_header() -> Seq<char> {
    "| name | default | type | dimensions | brief |\n"@
        + "| ---- | ------- | ---- | ---------- | ----- |\n"@
}

pub open spec fn ports_header() -> Seq<char> {
    "| name | direction | type | dimensions | brief |\n"@
        + "| ---- | --------- | ---- | ---------- | ----- |\n"@
}

/// The position just after the last `/` of `s`, or `0` if `s` holds none.
pub open spec fn after_last_slash(s: Seq<char>) -> int
    decreases s.len(),
{
    if s.len() == 0 {
        0
    } else if s.last() == '/' {
        s.len() as int
    } else {
        after_last_slash(s.drop_last())
    }
}

pub proof fn lemma_after_last_slash_bounds(s: Seq<char>)
    ensures
        0 <= after_last_slash(s) <= s.len(),
    decreases s.len(),
{
    if s.len() > 0 && s.last() != '/' {
        lemma_after_last_slash_bounds(s.drop_last());
    }
}

/// The file name under which a path is shown: the part after its last `/`.
pub open spec fn base_name_v(s: Seq<char>) -> Seq<char> {
    s.subrange(after_last_slash(s), s.len() as int)
}

/// The renderer's state while walking files and modules: the Markdown, the
/// section numbering, and the image jobs.
#[verifier::ext_equal]
pub struct GenStateV {
    pub out: Seq<char>,
    pub idx: Seq<u32>,
    pub jobs: Seq<ImageJobV>,
}

pub open spec fn nl_step_v(idx: Seq<u32>) -> Seq<u32>
    recommends
        idx.len() > 0,
{
    idx.update(idx.len() - 1, (idx.last() + 1) as u32)
}

pub open spec fn nl_up_v(idx: Seq<u32>) -> Seq<u32> {
    if idx.len() > 1 {
        idx.drop_last()
    } else {
        idx
    }
}

/// Renders one module: heading, summary, annotation items, then the
/// parameter and port tables (each numbered only if non-empty).
pub open spec fn gen_module_v(
    cfg: GenCfgV,
    fi: nat,
    mi: nat,
    st: GenStateV,
    m: SvModuleV,
) -> GenStateV {
    let o1 = st.out + "## "@ + spec_recall(st.idx) + ". module "@ + m.name + "\n\n"@;
    let i1 = st.idx.push(1u32);
    let o2 = o1 + (match m.brief {
        Some(b) => if b.len() > 0 {
            b + "\n\n"@
        } else {
            Seq::empty()
        },
        None => Seq::empty(),
    });
    let fc = format_comment_v(cfg, fi, mi, m.comment);
    let o3 = o2 + fc.out;
    let jobs3 = st.jobs + fc.jobs;
    let (o4, i2) = if m.params.len() > 0 {
        (
            o3 + "### "@ + spec_recall(i1) + ". Parameters\n\n"@ + params_header() + param_rows_v(
                m.params,
            ) + "\n"@,
            nl_step_v(i1),
        )
    } else {
        (o3, i1)
    };
    let (o5, i3) = if m.ports.len() > 0 {
        (
            o4 + "### "@ + spec_recall(i2) + ". Ports\n\n"@ + ports_header() + port_rows_v(m.ports)
                + "\n"@,
            nl_step_v(i2),
        )
    } else {
        (o4, i2)
    };
    GenStateV { out: o5, idx: nl_up_v(i3), jobs: jobs3 }
}

pub open spec fn gen_modules_v(cfg: GenCfgV, fi: nat, st: GenStateV, ms: Seq<SvModuleV>) -> GenStateV
    decreases ms.len(),
{
    if ms.len() == 0 {
        st
    } else {
        gen_module_v(cfg, fi, (ms.len() - 1) as nat, gen_modules_v(cfg, fi, st, ms.drop_last()), ms.last())
    }
}

/// Renders one file: heading with the path's base name, then its modules.
pub open spec fn gen_file_v(cfg: GenCfgV, fi: nat, st: GenStateV, f: SvFileV) -> GenStateV {
    let st1 = GenStateV {
        out: st.out + "# "@ + spec_recall(st.idx) + ". File "@ + base_name_v(f.name) + "\n\n"@,
        idx: st.idx.push(1u32),
        jobs: st.jobs,
    };
    if f.modules.len() > 0 {
        gen_modules_v(cfg, fi, st1, f.modules)
    } else {
        st1
    }
}

pub open spec fn gen_files_v(cfg: GenCfgV, st: GenStateV, fs: Seq<SvFileV>) -> GenStateV
    decreases fs.len(),
{
    if fs.len() == 0 {
        st
    } else {
        gen_file_v(cfg, (fs.len() - 1) as nat, gen_files_v(cfg, st, fs.drop_last()), fs.last())
    }
}

/// What the Markdown back end produces for a list of files: the document and
/// the image jobs, in order.
pub open spec fn spec_generate(cfg: GenCfgV, fs: Seq<SvFileV>) -> GenStateV {
    gen_files_v(cfg, GenStateV { out: Seq::empty(), idx: seq![1u32], jobs: seq![] }, fs)
}

// ---------------------------------------------------------------------------
// Executable rendering
// ---------------------------------------------------------------------------

fn opt_str<'a>(o: &'a Option<String>) -> (r: &'a str)
    ensures
        r@ == opt_or_empty(o.deep_view()),
{
    match o {
        Some(s) => s.as_str(),
        None => {
            proof {
                reveal_strlit("");
                assert(""@ =~= Seq::<char>::empty());
            }
            ""
        },
    }
}

fn fsm_png_name_exec(fi: usize, mi: usize, k: usize) -> (r: String)
    ensures
        r@ == fsm_png_name(fi as nat, mi as nat, k as nat),
{
    let mut r = "docgen_fsm_".to_owned();
    r.append(usize_to_string(fi).as_str());
    r.append("_");
    r.append(usize_to_string(mi).as_str());
    r.append("_");
    r.append(usize_to_string(k).as_str());
    r.append(".png");
    r
}

fn wave_png_name_exec(fi: usize, mi: usize, k: usize) -> (r: String)
    ensures
        r@ == wave_png_name(fi as nat, mi as nat, k as nat),
{
    let mut r = "docgen_wave_".to_owned();
    r.append(usize_to_string(fi).as_str());
    r.append("_");
    r.append(usize_to_string(mi).as_str());
    r.append("_");
    r.append(usize_to_string(k).as_str());
    r.append(".png");
    r
}

/// The lines of `s` (split on newlines, empty lines kept).
fn split_lines(s: &String) -> (r: Vec<String>)
    ensures
        r.deep_view() == split_char(s@, '\n'),
{
    let chars = str_chars(s.as_str());
    let ghost comps = split_char(s@, '\n');
    let mut r: Vec<String> = Vec::new();
    let mut pos: usize = 0;
    let ghost k: int = 0;
    proof {
        assert(r.deep_view() =~= Seq::<Seq<char>>::empty());
    }
    loop
        invariant
            0 <= k,
            pos <= chars@.len(),
            chars@ == s@,
            r.deep_view().len() == k,
            k + split_char_from(s@, pos as int, '\n').len() == comps.len(),
            comps.skip(k) =~= split_char_from(s@, pos as int, '\n'),
            forall|m: int| 0 <= m < k ==> (#[trigger] r.deep_view()[m]) == comps[m],
        decreases chars@.len() - pos + 1,
    {
        let mut j: usize = pos;
        while j < chars.len() && chars[j] != '\n'
            invariant
                pos <= j <= chars@.len(),
                scan_to_char(chars@, pos as int, '\n') == scan_to_char(chars@, j as int, '\n'),
            decreases chars@.len() - j,
        {
            j = j + 1;
        }
        assert(scan_to_char(chars@, pos as int, '\n') == j as int);
        proof {
            assert(comps.skip(k)[0] =~= comps[k]);
        }
        let ghost rv = r.deep_view();
        r.push(string_from_range(&chars, pos, j));
        proof {
            assert(r.deep_view() =~= rv.push(s@.subrange(pos as int, j as int)));
            assert(comps.skip(k + 1) =~= comps.skip(k).skip(1));
        }
        if j == chars.len() {
            proof {
                assert(split_char_from(s@, pos as int, '\n').len() == 1);
            }
            break;
        }
        pos = j + 1;
        proof {
            k = k + 1;
        }
    }
    assert(r.deep_view() =~= comps);
    r
}

/// The quoted block of a multi-line note.
fn note_block(s: &String) -> (r: String)
    ensures
        r@ == note_block_v(split_char(s@, '\n')),
{
    let lines = split_lines(s);
    let ghost lv = split_char(s@, '\n');
    let mut r = String::new();
    let mut i: usize = 0;
    while i < lines.len()
        invariant
            i <= lines@.len(),
            lines.deep_view() == lv,
            r@ == note_block_v(lv.take(i as int)),
        decreases lines@.len() - i,
    {
        r.append("> ");
        r.append(lines[i].as_str());
        r.append("\n>\n");
        proof {
            let t = lv.take(i as int + 1);
            assert(t.drop_last() =~= lv.take(i as int));
            assert(t.last() == lv[i as int]);
            assert(lv[i as int] == lines@[i as int]@);
            assert(r@ =~= note_block_v(t));
        }
        i = i + 1;
    }
    assert(lv.take(lv.len() as int) =~= lv);
    r
}

/// The Graphviz source of one state machine.
fn gv_source(f: &Fsm) -> (r: String)
    ensures
        r@ == gv_source_v(f.deep_view()),
{
    let mut r = "digraph G {\n".to_owned();
    let ghost ts = f.deep_view().transits;
    let mut i: usize = 0;
    while i < f.transits.len()
        invariant
            i <= f.transits@.len(),
            ts == f.deep_view().transits,
            r@ == "digraph G {\n"@ + gv_transits(ts.take(i as int)),
        decreases f.transits@.len() - i,
    {
        let t = &f.transits[i];
        r.append(t.0.as_str());
        r.append("->");
        r.append(t.1.as_str());
        r.append("[label=\"");
        r.append(t.2.as_str());
        r.append("\"]\n");
        proof {
            let tt = ts.take(i as int + 1);
            assert(tt.drop_last() =~= ts.take(i as int));
            assert(tt.last() == ts[i as int]);
            assert(ts[i as int] == f.transits@[i as int].deep_view());
            assert(r@ =~= "digraph G {\n"@ + gv_transits(tt));
        }
        i = i + 1;
    }
    assert(ts.take(ts.len() as int) =~= ts);
    if f.states.len() > 0 {
        r.append("xxxxxxxxxxxxx[shape=record,label=\" { States | ");
        let ghost ss = f.deep_view().states;
        let mut j: usize = 0;
        let mut cells = String::new();
        while j < f.states.len()
            invariant
                j <= f.states@.len(),
                ss == f.deep_view().states,
                cells@ == gv_state_cells(ss.take(j as int)),
        decreases f.states@.len() - j,
        {
            if j > 0 {
                cells.append("|");
            }
            let st = &f.states[j];
            cells.append("{ ");
            cells.append(st.0.as_str());
            cells.append(" | ");
            cells.append(st.1.as_str());
            cells.append(" }");
            proof {
                let tt = ss.take(j as int + 1);
                assert(tt.drop_last() =~= ss.take(j as int));
                assert(tt.last() == ss[j as int]);
                assert(ss[j as int] == f.states@[j as int].deep_view());
                assert(tt[0] == ss[0]);
                assert(cells@ =~= gv_state_cells(tt));
            }
            j = j + 1;
        }
        assert(ss.take(ss.len() as int) =~= ss);
        r.append(cells.as_str());
        r.append(" } \"]\n");
    }
    r.append("}");
    assert(r@ =~= gv_source_v(f.deep_view()));
    r
}

/// The bullet-list fallback rendering of one state machine's transitions.
fn fsm_bullets_exec(transits: &Vec<(String, String, String)>) -> (r: String)
    ensures
        r@ == fsm_bullets(transits.deep_view()),
{
    let ghost ts = transits.deep_view();
    let mut r = String::new();
    let mut i: usize = 0;
    while i < transits.len()
        invariant
            i <= transits@.len(),
            ts == transits.deep_view(),
            r@ == fsm_bullets(ts.take(i as int)),
        decreases transits@.len() - i,
    {
        let t = &transits[i];
        r.append("* ");
        r.append(t.0.as_str());
        r.append("->");
        r.append(t.1.as_str());
        r.append(": ");
        r.append(t.2.as_str());
        r.append("\n");
        proof {
            let tt = ts.take(i as int + 1);
            assert(tt.drop_last() =~= ts.take(i as int));
            assert(tt.last() == ts[i as int]);
            assert(ts[i as int] == transits@[i as int].deep_view());
            assert(r@ =~= fsm_bullets(tt));
        }
        i = i + 1;
    }
    assert(ts.take(ts.len() as int) =~= ts);
    r
}

impl MarkdownGenerator {
    pub fn new(cwd: String, wavedrom: Option<String>, graphviz: Option<String>) -> (r: Self)
        ensures
            r.cwd == cwd,
            r.wavedrom == wavedrom,
            r.graphviz == graphviz,
    {
        MarkdownGenerator { cwd, wavedrom, graphviz }
    }

    /// Emits the gathered state machine, if any.
    fn flush_fsm(
        &self,
        fi: usize,
        mi: usize,
        k: usize,
        out: &mut String,
        jobs: &mut Vec<ImageJob>,
        cur: &Option<Fsm>,
    )
        ensures
            ({
                let fs = flush_fsm_v(
                    self.cfg(),
                    fi as nat,
                    mi as nat,
                    k as nat,
                    FmtStateV {
                        out: old(out)@,
                        jobs: old(jobs).deep_view(),
                        cur: cur.deep_view(),
                    },
                );
                final(out)@ == fs.out && final(jobs).deep_view() == fs.jobs
            }),
    {
        match cur {
            Some(f) => {
                out.append("**State Machine:** ");
                out.append(f.name.as_str());
                out.append("\n\n ");
                match &self.graphviz {
                    Some(_) => {
                        let name = fsm_png_name_exec(fi, mi, k);
                        out.append("![fsm](");
                        out.append(name.as_str());
                        out.append(")");
                        let ghost jv = jobs.deep_view();
                        let job = ImageJob {
                            kind: ImageKind::Fsm,
                            file_name: name,
                            source: gv_source(f),
                        };
                        jobs.push(job);
                        proof {
                            assert(jobs.deep_view() =~= jv.push(job.deep_view()));
                        }
                    },
                    None => {
                        let body = fsm_bullets_exec(&f.transits);
                        out.append(body.as_str());
                        out.append("\n");
                    },
                }
                out.append("\n\n");
            },
            None => {},
        }
    }

    /// Renders one item list to Markdown, emitting the image jobs its state
    /// machines and waveforms call for.
    #[verifier::rlimit(100)]
    #[verifier::spinoff_prover]
    fn format_comment(&self, fi: usize, mi: usize, comments: &Vec<CommentItem>) -> (r: (
        String,
        Vec<ImageJob>,
    ))
        ensures
            ({
                let fs = format_comment_v(self.cfg(), fi as nat, mi as nat, comments.deep_view());
                r.0@ == fs.out && r.1.deep_view() == fs.jobs
            }),
    {
        let ghost items = comments.deep_view();
        let mut out = String::new();
        let mut jobs: Vec<ImageJob> = Vec::new();
        let mut cur: Option<Fsm> = None;
        let mut k: usize = 0;
        proof {
            assert(jobs.deep_view() =~= Seq::<ImageJobV>::empty());
        }
        while k < comments.len()
            invariant
                k <= items.len(),
                items == comments.deep_view(),
                ({
                    let fs = fmt_items_v(self.cfg(), fi as nat, mi as nat, items.take(k as int));
                    out@ == fs.out && jobs.deep_view() == fs.jobs && cur.deep_view() == fs.cur
                }),
            decreases items.len() - k,
        {
            let ghost fs = fmt_items_v(self.cfg(), fi as nat, mi as nat, items.take(k as int));
            proof {
                assert(items.take(k as int + 1).drop_last() =~= items.take(k as int));
                assert(items.take(k as int + 1).last() == items[k as int]);
                assert(items[k as int] == comments@[k as int].deep_view());
            }
            match &comments[k] {
                CommentItem::Author(s) => {
                    out.append("**Author:** ");
                    out.append(s.as_str());
                    out.append("\n\n");
                },
                CommentItem::Example(s) => {
                    if str_contains_char(s, '\n') {
                        out.append("**Example:** \n```\n");
                        out.append(s.as_str());
                        out.append("\n```\n\n");
                    } else {
                        out.append("**Example:** `");
                        out.append(s.as_str());
                        out.append("`\n\n");
                    }
                },
                CommentItem::Note(s) => {
                    if str_contains_char(s, '\n') {
                        out.append("> **Note:**\n>\n");
                        let block = note_block(s);
                        out.append(block.as_str());
                        out.append("\n");
                    } else {
                        out.append("> **Note:** ");
                        out.append(s.as_str());
                        out.append("\n\n");
                    }
                },
                CommentItem::Ref(s) => {
                    out.append("**Ref:** [");
                    out.append(s.as_str());
                    out.append("](");
                    out.append(s.as_str());
                    out.append(")\n\n");
                },
                CommentItem::Return(s) => {
                    out.append("**Return:** ");
                    out.append(s.as_str());
                    out.append("\n\n");
                },
                CommentItem::See(s) => {
                    out.append("**Ref:** [");
                    out.append(s.as_str());
                    out.append("](");
                    out.append(s.as_str());
                    out.append(")\n\n");
                },
                CommentItem::Wave(s) => {
                    out.append("**Waveform:** \n\n ");
                    match &self.wavedrom {
                        Some(_) => {
                            let name = wave_png_name_exec(fi, mi, k);
                            out.append("![wave](");
                            out.append(name.as_str());
                            out.append(")");
                            let ghost jv = jobs.deep_view();
                            let job = ImageJob {
                                kind: ImageKind::Waveform,
                                file_name: name,
                                source: s.clone(),
                            };
                            jobs.push(job);
                            proof {
                                assert(jobs.deep_view() =~= jv.push(job.deep_view()));
                            }
                        },
                        None => {
                            out.append(s.as_str());
                        },
                    }
                    out.append("\n\n");
                },
                CommentItem::State { name, desc } => {
                    cur = match cur {
                        Some(mut f) => {
                            let ghost fv = f.deep_view();
                            f.states.push((name.clone(), desc.clone()));
                            proof {
                                assert(f.deep_view().states =~= fv.states.push((name@, desc@)));
                            }
                            Some(f)
                        },
                        None => None,
                    };
                },
                CommentItem::Transit { from, to, desc } => {
                    cur = match cur {
                        Some(mut f) => {
                            let ghost fv = f.deep_view();
                            f.transits.push((from.clone(), to.clone(), desc.clone()));
                            proof {
                                assert(f.deep_view().transits =~= fv.transits.push(
                                    (from@, to@, desc@),
                                ));
                            }
                            Some(f)
                        },
                        None => None,
                    };
                },
                CommentItem::FSM(s) => {
                    self.flush_fsm(fi, mi, k, &mut out, &mut jobs, &cur);
                    cur = Some(Fsm { name: s.clone(), transits: Vec::new(), states: Vec::new() });
                    proof {
                        assert(cur.deep_view() =~= Some(
                            FsmV { name: s@, transits: seq![], states: seq![] },
                        ));
                    }
                },
                _ => {},
            }
            k = k + 1;
        }
        proof {
            assert(items.take(items.len() as int) =~= items);
        }
        self.flush_fsm(fi, mi, comments.len(), &mut out, &mut jobs, &cur);
        (out, jobs)
    }
}

/// The table rows of a module's parameters.
fn param_rows(params: &Vec<crate::docgen::SvParam>) -> (r: String)
    ensures
        r@ == param_rows_v(params.deep_view()),
{
    let ghost ps = params.deep_view();
    let mut r = String::new();
    let mut i: usize = 0;
    while i < params.len()
        invariant
            i <= params@.len(),
            ps == params.deep_view(),
            r@ == param_rows_v(ps.take(i as int)),
        decreases params@.len() - i,
    {
        let p = &params[i];
        r.append("| ");
        r.append(p.name.as_str());
        r.append(" | ");
        r.append(opt_str(&p.default));
        r.append(" | ");
        r.append(opt_str(&p.param_type));
        r.append(" | ");
        r.append(opt_str(&p.dimensions));
        r.append(" | ");
        r.append(p.comment.as_str());
        r.append(" |\n");
        proof {
            let t = ps.take(i as int + 1);
            assert(t.drop_last() =~= ps.take(i as int));
            assert(t.last() == ps[i as int]);
            assert(ps[i as int] == params@[i as int].deep_view());
            assert(r@ =~= param_rows_v(t));
        }
        i = i + 1;
    }
    assert(ps.take(ps.len() as int) =~= ps);
    r
}

/// The table rows of a module's ports.
fn port_rows(ports: &Vec<crate::docgen::SvPort>) -> (r: String)
    ensures
        r@ == port_rows_v(ports.deep_view()),
{
    let ghost ps = ports.deep_view();
    let mut r = String::new();
    let mut i: usize = 0;
    while i < ports.len()
        invariant
            i <= ports@.len(),
            ps == ports.deep_view(),
            r@ == port_rows_v(ps.take(i as int)),
        decreases ports@.len() - i,
    {
        let p = &ports[i];
        r.append("| ");
        r.append(p.name.as_str());
        r.append(" | ");
        r.append(opt_str(&p.direction));
        r.append(" | ");
        r.append(opt_str(&p.port_type));
        r.append(" | ");
        r.append(opt_str(&p.dimensions));
        r.append(" | ");
        r.append(p.comment.as_str());
        r.append(" |\n");
        proof {
            let t = ps.take(i as int + 1);
            assert(t.drop_last() =~= ps.take(i as int));
            assert(t.last() == ps[i as int]);
            assert(ps[i as int] == ports@[i as int].deep_view());
            assert(r@ =~= port_rows_v(t));
        }
        i = i + 1;
    }
    assert(ps.take(ps.len() as int) =~= ps);
    r
}

/// The part of a path after its last `/`.
pub fn base_name(s: &String) -> (r: String)
    ensures
        r@ == base_name_v(s@),
{
    let chars = str_chars(s.as_str());
    let mut j: usize = chars.len();
    proof {
        assert(s@.take(s@.len() as int) =~= s@);
    }
    while j > 0 && chars[j - 1] != '/'
        invariant
            j <= chars@.len(),
            chars@ == s@,
            after_last_slash(s@) == after_last_slash(s@.take(j as int)),
        decreases j,
    {
        proof {
            assert(s@.take(j as int).drop_last() =~= s@.take(j as int - 1));
        }
        j = j - 1;
    }
    proof {
        lemma_after_last_slash_bounds(s@);
        if j > 0 {
            assert(s@.take(j as int).last() == s@[j as int - 1]);
        }
        assert(after_last_slash(s@) == j as int);
    }
    string_from_range(&chars, j, chars.len())
}

impl MarkdownGenerator {
    /// Renders one module into `out`, numbered by `index`, appending the
    /// image jobs to `jobs`.
    #[verifier::rlimit(60)]
    #[verifier::spinoff_prover]
    fn gen_module(
        &self,
        fi: usize,
        mi: usize,
        out: &mut String,
        jobs: &mut Vec<ImageJob>,
        index: &mut NumberedList,
        m: &SvModule,
    )
        requires
            old(index).wf(),
        ensures
            final(index).wf(),
            ({
                let gs = gen_module_v(
                    self.cfg(),
                    fi as nat,
                    mi as nat,
                    GenStateV {
                        out: old(out)@,
                        idx: old(index)@,
                        jobs: old(jobs).deep_view(),
                    },
                    m.deep_view(),
                );
                final(out)@ == gs.out && final(index)@ == gs.idx && final(jobs).deep_view()
                    == gs.jobs
            }),
    {
        let num = index.recall_and_go_downstairs();
        out.append("## ");
        out.append(num.as_str());
        out.append(". module ");
        out.append(m.name.as_str());
        out.append("\n\n");
        match &m.brief {
            Some(b) => {
                if !b.as_str().is_empty() {
                    out.append(b.as_str());
                    out.append("\n\n");
                }
            },
            None => {},
        }
        let (fc_out, fc_jobs) = self.format_comment(fi, mi, &m.comment);
        out.append(fc_out.as_str());
        let ghost jv = jobs.deep_view();
        let mut fc_jobs = fc_jobs;
        let ghost fcv = fc_jobs.deep_view();
        jobs.append(&mut fc_jobs);
        proof {
            assert(jobs.deep_view() =~= jv + fcv);
        }
        if m.params.len() > 0 {
            let num2 = index.recall_and_step_forward();
            out.append("### ");
            out.append(num2.as_str());
            out.append(". Parameters\n\n");
            out.append("| name | default | type | dimensions | brief |\n");
            out.append("| ---- | ------- | ---- | ---------- | ----- |\n");
            let rows = param_rows(&m.params);
            out.append(rows.as_str());
            out.append("\n");
        }
        if m.ports.len() > 0 {
            let num3 = index.recall_and_step_forward();
            out.append("### ");
            out.append(num3.as_str());
            out.append(". Ports\n\n");
            out.append("| name | direction | type | dimensions | brief |\n");
            out.append("| ---- | --------- | ---- | ---------- | ----- |\n");
            let rows = port_rows(&m.ports);
            out.append(rows.as_str());
            out.append("\n");
        }
        index.go_upstairs();
    }

    /// Renders the whole document: the Markdown text and the image jobs the
    /// outer driver must run for it.
    #[verifier::rlimit(100)]
    #[verifier::spinoff_prover]
    pub fn generate_with_images(&self, items: &Vec<SvFile>) -> (r: (String, Vec<ImageJob>))
        ensures
            ({
                let gs = spec_generate(self.cfg(), items.deep_view());
                r.0@ == gs.out && r.1.deep_view() == gs.jobs
            }),
    {
        let ghost fs = items.deep_view();
        let ghost init = GenStateV { out: Seq::empty(), idx: seq![1u32], jobs: seq![] };
        let mut out = String::new();
        let mut jobs: Vec<ImageJob> = Vec::new();
        let mut index = NumberedList::new();
        let mut fi: usize = 0;
        proof {
            assert(jobs.deep_view() =~= Seq::<ImageJobV>::empty());
        }
        while fi < items.len()
            invariant
                fi <= fs.len(),
                fs == items.deep_view(),
                index.wf(),
                ({
                    let gs = gen_files_v(self.cfg(), init, fs.take(fi as int));
                    out@ == gs.out && index@ == gs.idx && jobs.deep_view() == gs.jobs
                }),
            decreases fs.len() - fi,
        {
            let ghost gs = gen_files_v(self.cfg(), init, fs.take(fi as int));
            proof {
                assert(fs.take(fi as int + 1).drop_last() =~= fs.take(fi as int));
                assert(fs.take(fi as int + 1).last() == fs[fi as int]);
                assert(fs[fi as int] == items@[fi as int].deep_view());
            }
            let file = &items[fi];
            let num = index.recall_and_go_downstairs();
            out.append("# ");
            out.append(num.as_str());
            out.append(". File ");
            let bn = base_name(&file.name);
            out.append(bn.as_str());
            out.append("\n\n");
            let ghost st1 = GenStateV {
                out: gs.out + "# "@ + spec_recall(gs.idx) + ". File "@ + base_name_v(
                    fs[fi as int].name,
                ) + "\n\n"@,
                idx: gs.idx.push(1u32),
                jobs: gs.jobs,
            };
            proof {
                assert(out@ == st1.out && index@ == st1.idx && jobs.deep_view() == st1.jobs);
            }
            if file.modules.len() > 0 {
                let ghost ms = fs[fi as int].modules;
                let mut mi: usize = 0;
                while mi < file.modules.len()
                    invariant
                        mi <= ms.len(),
                        fs == items.deep_view(),
                        ms == items@[fi as int].deep_view().modules,
                        fi < items@.len(),
                        index.wf(),
                        ({
                            let gms = gen_modules_v(self.cfg(), fi as nat, st1, ms.take(mi as int));
                            out@ == gms.out && index@ == gms.idx && jobs.deep_view() == gms.jobs
                        }),
                    decreases ms.len() - mi,
                {
                    proof {
                        assert(ms.take(mi as int + 1).drop_last() =~= ms.take(mi as int));
                        assert(ms.take(mi as int + 1).last() == ms[mi as int]);
                        assert(ms[mi as int] == items@[fi as int].modules@[mi as int].deep_view());
                    }
                    self.gen_module(fi, mi, &mut out, &mut jobs, &mut index, &file.modules[mi]);
                    mi = mi + 1;
                }
                proof {
                    assert(ms.take(ms.len() as int) =~= ms);
                }
            }
            fi = fi + 1;
        }
        proof {
            assert(fs.take(fs.len() as int) =~= fs);
        }
        (out, jobs)
    }
}

impl DocgenGenerator for MarkdownGenerator {
    /// The Markdown document alone; the image jobs of
    /// [`MarkdownGenerator::generate_with_images`] are dropped.
    fn generate(&self, items: Vec<SvFile>) -> (r: String)
        ensures
            r@ == spec_generate(self.cfg(), items.deep_view()).out,
    {
        let (out, _jobs) = self.generate_with_images(&items);
        out
    }
}

} // verus!
