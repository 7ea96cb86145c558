//! The document model and the document assembler: a stack machine driven by
//! structural events (module entered, port declared, parameter declared,
//! comment encountered, module left) that owns a per-scope buffer of pending
//! annotation items and produces the documentation tree for one source file.
//!
//! The structural events carry plain values; producing them from a
//! SystemVerilog syntax tree is the external parser driver's job.
use vstd::prelude::*;
use std::collections::HashMap;
use crate::comment_parser::{parse_comment, spec_parse_comment, CommentItem, CommentItemV};

verus! {

// ---------------------------------------------------------------------------
// Document model
// ---------------------------------------------------------------------------

/// One port of a module: declaration data plus the associated description.
#[derive(Debug, Clone)]
pub struct SvPort {
    pub name: String,
    pub port_type: Option<String>,
    pub direction: Option<String>,
    pub dimensions: Option<String>,
    pub comment: String,
}

/// One parameter of a module.
#[derive(Debug, Clone)]
pub struct SvParam {
    pub name: String,
    pub param_type: Option<String>,
    pub default: Option<String>,
    pub dimensions: Option<String>,
    pub comment: String,
}

/// One state of a documented state machine, with its outgoing transitions
/// (destination state name to transition description).
#[derive(Debug, Clone)]
pub struct SvState {
    pub name: String,
    pub transits: HashMap<String, String>,
    pub comment: Vec<CommentItem>,
}

/// One internal signal of a module.
#[derive(Debug, Clone)]
pub struct SvSignal {
    pub name: String,
    pub brief: Option<String>,
    pub signal_type: Option<String>,
    pub width: Option<String>,
    pub dimensions: Option<String>,
    pub comment: Vec<CommentItem>,
}

/// One documented state machine.
#[derive(Debug, Clone)]
pub struct SvStateMachine {
    pub name: String,
    pub brief: Option<String>,
    pub states: Vec<SvState>,
}

/// One function or task of a module.
#[derive(Debug, Clone)]
pub struct SvFunctionTask {
    pub name: String,
    pub is_function: bool,
    pub brief: Option<String>,
    pub ports: Vec<SvPort>,
    pub params: Vec<SvParam>,
    pub signals: Vec<SvSignal>,
    pub comment: Vec<CommentItem>,
}

/// One module: its interface records and the annotation items that remain
/// attached to the module itself.
#[derive(Debug, Clone)]
pub struct SvModule {
    pub name: String,
    pub brief: Option<String>,
    pub ports: Vec<SvPort>,
    pub params: Vec<SvParam>,
    pub signals: Vec<SvSignal>,
    pub state_machines: Vec<SvStateMachine>,
    pub tasks: Vec<SvFunctionTask>,
    pub comment: Vec<CommentItem>,
}

/// One source file's documentation tree.
#[derive(Debug, Clone)]
pub struct SvFile {
    pub name: String,
    pub brief: Option<String>,
    pub author: Option<String>,
    pub rev: Vec<String>,
    pub modules: Vec<SvModule>,
    pub comment: Vec<CommentItem>,
}

/// A scope record that can sit on the assembler's stack.
#[derive(Debug, Clone)]
pub enum DocStackable {
    Module(SvModule),
    File(SvFile),
    Task(SvFunctionTask),
}

// ---------------------------------------------------------------------------
// Mathematical models of the document types
// ---------------------------------------------------------------------------

#[verifier::ext_equal]
pub struct SvPortV {
    pub name: Seq<char>,
    pub port_type: Option<Seq<char>>,
    pub direction: Option<Seq<char>>,
    pub dimensions: Option<Seq<char>>,
    pub comment: Seq<char>,
}

#[verifier::ext_equal]
pub struct SvParamV {
    pub name: Seq<char>,
    pub param_type: Option<Seq<char>>,
    pub default: Option<Seq<char>>,
    pub dimensions: Option<Seq<char>>,
    pub comment: Seq<char>,
}

#[verifier::ext_equal]
pub struct SvStateV {
    pub name: Seq<char>,
    pub transits: Map<Seq<char>, Seq<char>>,
    pub comment: Seq<CommentItemV>,
}

#[verifier::ext_equal]
pub struct SvSignalV {
    pub name: Seq<char>,
    pub brief: Option<Seq<char>>,
    pub signal_type: Option<Seq<char>>,
    pub width: Option<Seq<char>>,
    pub dimensions: Option<Seq<char>>,
    pub comment: Seq<CommentItemV>,
}

#[verifier::ext_equal]
pub struct SvStateMachineV {
    pub name: Seq<char>,
    pub brief: Option<Seq<char>>,
    pub states: Seq<SvStateV>,
}

#[verifier::ext_equal]
pub struct SvFunctionTaskV {
    pub name: Seq<char>,
    pub is_function: bool,
    pub brief: Option<Seq<char>>,
    pub ports: Seq<SvPortV>,
    pub params: Seq<SvParamV>,
    pub signals: Seq<SvSignalV>,
    pub comment: Seq<CommentItemV>,
}

#[verifier::ext_equal]
pub struct SvModuleV {
    pub name: Seq<char>,
    pub brief: Option<Seq<char>>,
    pub ports: Seq<SvPortV>,
    pub params: Seq<SvParamV>,
    pub signals: Seq<SvSignalV>,
    pub state_machines: Seq<SvStateMachineV>,
    pub tasks: Seq<SvFunctionTaskV>,
    pub comment: Seq<CommentItemV>,
}

#[verifier::ext_equal]
pub struct SvFileV {
    pub name: Seq<char>,
    pub brief: Option<Seq<char>>,
    pub author: Option<Seq<char>>,
    pub rev: Seq<Seq<char>>,
    pub modules: Seq<SvModuleV>,
    pub comment: Seq<CommentItemV>,
}

impl DeepView for SvPort {
    type V = SvPortV;

    open spec fn deep_view(&self) -> SvPortV {
        SvPortV {
            name: self.name@,
            port_type: self.port_type.deep_view(),
            direction: self.direction.deep_view(),
            dimensions: self.dimensions.deep_view(),
            comment: self.comment@,
        }
    }
}

impl DeepView for SvParam {
    type V = SvParamV;

    open spec fn deep_view(&self) -> SvParamV {
        SvParamV {
            name: self.name@,
            param_type: self.param_type.deep_view(),
            default: self.default.deep_view(),
            dimensions: self.dimensions.deep_view(),
            comment: self.comment@,
        }
    }
}

impl DeepView for SvState {
    type V = SvStateV;

    open spec fn deep_view(&self) -> SvStateV {
        SvStateV {
            name: self.name@,
            transits: self.transits.deep_view(),
            comment: self.comment.deep_view(),
        }
    }
}

impl DeepView for SvSignal {
    type V = SvSignalV;

    open spec fn deep_view(&self) -> SvSignalV {
        SvSignalV {
            name: self.name@,
            brief: self.brief.deep_view(),
            signal_type: self.signal_type.deep_view(),
            width: self.width.deep_view(),
            dimensions: self.dimensions.deep_view(),
            comment: self.comment.deep_view(),
        }
    }
}

impl DeepView for SvStateMachine {
    type V = SvStateMachineV;

    open spec fn deep_view(&self) -> SvStateMachineV {
        SvStateMachineV {
            name: self.name@,
            brief: self.brief.deep_view(),
            states: self.states.deep_view(),
        }
    }
}

impl DeepView for SvFunctionTask {
    type V = SvFunctionTaskV;

    open spec fn deep_view(&self) -> SvFunctionTaskV {
        SvFunctionTaskV {
            name: self.name@,
            is_function: self.is_function,
            brief: self.brief.deep_view(),
            ports: self.ports.deep_view(),
            params: self.params.deep_view(),
            signals: self.signals.deep_view(),
            comment: self.comment.deep_view(),
        }
    }
}

impl DeepView for SvModule {
    type V = SvModuleV;

    open spec fn deep_view(&self) -> SvModuleV {
        SvModuleV {
            name: self.name@,
            brief: self.brief.deep_view(),
            ports: self.ports.deep_view(),
            params: self.params.deep_view(),
            signals: self.signals.deep_view(),
            state_machines: self.state_machines.deep_view(),
            tasks: self.tasks.deep_view(),
            comment: self.comment.deep_view(),
        }
    }
}

impl DeepView for SvFile {
    type V = SvFileV;

    open spec fn deep_view(&self) -> SvFileV {
        SvFileV {
            name: self.name@,
            brief: self.brief.deep_view(),
            author: self.author.deep_view(),
            rev: self.rev.deep_view(),
            modules: self.modules.deep_view(),
            comment: self.comment.deep_view(),
        }
    }
}

// ---------------------------------------------------------------------------
// Structural events
// ---------------------------------------------------------------------------

/// One name/dimension pair of a non-ANSI port declaration.
#[derive(Debug, Clone)]
pub struct SvPortName {
    pub name: String,
    pub dimensions: String,
}

/// One assignment of a parameter declaration.
#[derive(Debug, Clone)]
pub struct SvParamAssign {
    pub name: String,
    pub dimensions: String,
    pub default: Option<String>,
}

/// One structural event of a source file, in document order. The external
/// syntax-tree driver reduces each relevant node to one of these plain-value
/// events.
#[derive(Debug, Clone)]
pub enum SvEvent {
    /// A comment's full source text, delimiters included.
    Comment(String),
    /// A module declaration opens; carries the module's identifier.
    ModuleEnter(String),
    /// One ANSI port declaration.
    AnsiPort {
        name: String,
        port_type: Option<String>,
        direction: Option<String>,
        dimensions: Option<String>,
    },
    /// One non-ANSI port declaration: several names sharing one direction and
    /// type, each with its own dimension text.
    NonAnsiPorts { direction: String, port_type: String, ports: Vec<SvPortName> },
    /// One parameter declaration: several assignments sharing one type.
    ParamDecl { param_type: Option<String>, assigns: Vec<SvParamAssign> },
    /// The innermost open module declaration closes.
    ModuleLeave,
}

#[verifier::ext_equal]
pub struct SvPortNameV {
    pub name: Seq<char>,
    pub dimensions: Seq<char>,
}

#[verifier::ext_equal]
pub struct SvParamAssignV {
    pub name: Seq<char>,
    pub dimensions: Seq<char>,
    pub default: Option<Seq<char>>,
}

pub enum SvEventV {
    Comment(Seq<char>),
    ModuleEnter(Seq<char>),
    AnsiPort {
        name: Seq<char>,
        port_type: Option<Seq<char>>,
        direction: Option<Seq<char>>,
        dimensions: Option<Seq<char>>,
    },
    NonAnsiPorts { direction: Seq<char>, port_type: Seq<char>, ports: Seq<SvPortNameV> },
    ParamDecl { param_type: Option<Seq<char>>, assigns: Seq<SvParamAssignV> },
    ModuleLeave,
}

impl DeepView for SvPortName {
    type V = SvPortNameV;

    open spec fn deep_view(&self) -> SvPortNameV {
        SvPortNameV { name: self.name@, dimensions: self.dimensions@ }
    }
}

impl DeepView for SvParamAssign {
    type V = SvParamAssignV;

    open spec fn deep_view(&self) -> SvParamAssignV {
        SvParamAssignV {
            name: self.name@,
            dimensions: self.dimensions@,
            default: self.default.deep_view(),
        }
    }
}

impl DeepView for SvEvent {
    type V = SvEventV;

    open spec fn deep_view(&self) -> SvEventV {
        match self {
            SvEvent::Comment(t) => SvEventV::Comment(t@),
            SvEvent::ModuleEnter(n) => SvEventV::ModuleEnter(n@),
            SvEvent::AnsiPort { name, port_type, direction, dimensions } => SvEventV::AnsiPort {
                name: name@,
                port_type: port_type.deep_view(),
                direction: direction.deep_view(),
                dimensions: dimensions.deep_view(),
            },
            SvEvent::NonAnsiPorts { direction, port_type, ports } => SvEventV::NonAnsiPorts {
                direction: direction@,
                port_type: port_type@,
                ports: ports.deep_view(),
            },
            SvEvent::ParamDecl { param_type, assigns } => SvEventV::ParamDecl {
                param_type: param_type.deep_view(),
                assigns: assigns.deep_view(),
            },
            SvEvent::ModuleLeave => SvEventV::ModuleLeave,
        }
    }
}

// ---------------------------------------------------------------------------
// Association and refinement (run once when a module scope closes)
// ---------------------------------------------------------------------------

/// The index of the first port at or after `i` whose name is exactly `name`,
/// or `ports.len()` if there is none.
pub open spec fn find_port_from(ports: Seq<SvPortV>, name: Seq<char>, i: int) -> int
    decreases ports.len() - i,
{
    if 0 <= i && i < ports.len() {
        if ports[i].name == name {
            i
        } else {
            find_port_from(ports, name, i + 1)
        }
    } else {
        ports.len() as int
    }
}

/// Sets the description of the first port named exactly `name`, if any.
pub open spec fn set_port_desc(ports: Seq<SvPortV>, name: Seq<char>, desc: Seq<char>) -> Seq<
    SvPortV,
> {
    let k = find_port_from(ports, name, 0);
    if k < ports.len() {
        ports.update(k, SvPortV { comment: desc, ..ports[k] })
    } else {
        ports
    }
}

/// The index of the first parameter at or after `i` whose name is exactly
/// `name`, or `params.len()` if there is none.
pub open spec fn find_param_from(params: Seq<SvParamV>, name: Seq<char>, i: int) -> int
    decreases params.len() - i,
{
    if 0 <= i && i < params.len() {
        if params[i].name == name {
            i
        } else {
            find_param_from(params, name, i + 1)
        }
    } else {
        params.len() as int
    }
}

/// Sets the description of the first parameter named exactly `name`, if any.
pub open spec fn set_param_desc(params: Seq<SvParamV>, name: Seq<char>, desc: Seq<char>) -> Seq<
    SvParamV,
> {
    let k = find_param_from(params, name, 0);
    if k < params.len() {
        params.update(k, SvParamV { comment: desc, ..params[k] })
    } else {
        params
    }
}

/// `v` joined with newline separators.
pub open spec fn join_nl(v: Seq<Seq<char>>) -> Seq<char>
    decreases v.len(),
{
    if v.len() == 0 {
        seq![]
    } else if v.len() == 1 {
        v[0]
    } else {
        join_nl(v.drop_last()) + seq!['\n'] + v.last()
    }
}

/// The texts of the summary items of `items`, in order.
pub open spec fn briefs_of(items: Seq<CommentItemV>) -> Seq<Seq<char>>
    decreases items.len(),
{
    if items.len() == 0 {
        seq![]
    } else {
        let rest = briefs_of(items.drop_last());
        match items.last() {
            CommentItemV::Brief(t) => rest.push(t),
            _ => rest,
        }
    }
}

/// The joined summary text of a pending-item buffer.
pub open spec fn get_brief_v(items: Seq<CommentItemV>) -> Seq<char> {
    join_nl(briefs_of(items))
}

/// The state of the association fold over a module's item list.
#[verifier::ext_equal]
pub struct RefineAccV {
    pub briefs: Seq<Seq<char>>,
    pub ports: Seq<SvPortV>,
    pub params: Seq<SvParamV>,
    pub kept: Seq<CommentItemV>,
}

/// Folds a module's raw item list, in encounter order: summary items gather
/// into the module summary; port and parameter items attach their description
/// to the first record with the exactly matching name (later items overwrite
/// earlier ones; unmatched items are dropped); every other item is retained.
pub open spec fn refine_fold(
    ports0: Seq<SvPortV>,
    params0: Seq<SvParamV>,
    items: Seq<CommentItemV>,
) -> RefineAccV
    decreases items.len(),
{
    if items.len() == 0 {
        RefineAccV { briefs: seq![], ports: ports0, params: params0, kept: seq![] }
    } else {
        let acc = refine_fold(ports0, params0, items.drop_last());
        match items.last() {
            CommentItemV::Brief(t) => RefineAccV { briefs: acc.briefs.push(t), ..acc },
            CommentItemV::Port { name, desc } => RefineAccV {
                ports: set_port_desc(acc.ports, name, desc),
                ..acc
            },
            CommentItemV::Param { name, desc } => RefineAccV {
                params: set_param_desc(acc.params, name, desc),
                ..acc
            },
            it => RefineAccV { kept: acc.kept.push(it), ..acc },
        }
    }
}

/// A closing module's final form: summaries joined into `brief`, port and
/// parameter descriptions associated by exact name, and the remaining items
/// kept for the renderer.
pub open spec fn refine_module_v(m: SvModuleV) -> SvModuleV {
    let acc = refine_fold(m.ports, m.params, m.comment);
    SvModuleV {
        name: m.name,
        brief: if acc.briefs.len() == 0 {
            None
        } else {
            Some(join_nl(acc.briefs))
        },
        ports: acc.ports,
        params: acc.params,
        signals: m.signals,
        state_machines: m.state_machines,
        tasks: m.tasks,
        comment: acc.kept,
    }
}

// ---------------------------------------------------------------------------
// Laws of association
// ---------------------------------------------------------------------------

pub proof fn lemma_find_port_props(ports: Seq<SvPortV>, name: Seq<char>, i: int)
    requires
        0 <= i <= ports.len(),
    ensures
        i <= find_port_from(ports, name, i) <= ports.len(),
        find_port_from(ports, name, i) < ports.len() ==> ports[find_port_from(
            ports,
            name,
            i,
        )].name == name,
    decreases ports.len() - i,
{
    if i < ports.len() && ports[i].name != name {
        lemma_find_port_props(ports, name, i + 1);
    }
}

pub proof fn lemma_find_param_props(params: Seq<SvParamV>, name: Seq<char>, i: int)
    requires
        0 <= i <= params.len(),
    ensures
        i <= find_param_from(params, name, i) <= params.len(),
        find_param_from(params, name, i) < params.len() ==> params[find_param_from(
            params,
            name,
            i,
        )].name == name,
    decreases params.len() - i,
{
    if i < params.len() && params[i].name != name {
        lemma_find_param_props(params, name, i + 1);
    }
}

proof fn lemma_find_port_none(ports: Seq<SvPortV>, name: Seq<char>, i: int)
    requires
        0 <= i <= ports.len(),
        forall|k: int| 0 <= k < ports.len() ==> (#[trigger] ports[k]).name != name,
    ensures
        find_port_from(ports, name, i) == ports.len(),
    decreases ports.len() - i,
{
    if i < ports.len() {
        lemma_find_port_none(ports, name, i + 1);
    }
}

/// Association changes only descriptions: the number, order and declaration
/// fields (name, type, direction, default, dimensions) of the port and
/// parameter records are exactly those the fold started from.
pub proof fn lemma_refine_fold_shape(
    ports0: Seq<SvPortV>,
    params0: Seq<SvParamV>,
    items: Seq<CommentItemV>,
)
    ensures
        ({
            let acc = refine_fold(ports0, params0, items);
            &&& acc.ports.len() == ports0.len()
            &&& forall|k: int|
                0 <= k < ports0.len() ==> (#[trigger] acc.ports[k]).name == ports0[k].name
                    && acc.ports[k].port_type == ports0[k].port_type && acc.ports[k].direction
                    == ports0[k].direction && acc.ports[k].dimensions == ports0[k].dimensions
            &&& acc.params.len() == params0.len()
            &&& forall|k: int|
                0 <= k < params0.len() ==> (#[trigger] acc.params[k]).name == params0[k].name
                    && acc.params[k].param_type == params0[k].param_type && acc.params[k].default
                    == params0[k].default && acc.params[k].dimensions == params0[k].dimensions
        }),
    decreases items.len(),
{
    if items.len() > 0 {
        lemma_refine_fold_shape(ports0, params0, items.drop_last());
        let acc = refine_fold(ports0, params0, items.drop_last());
        match items.last() {
            CommentItemV::Port { name, desc } => {
                lemma_find_port_props(acc.ports, name, 0);
            },
            CommentItemV::Param { name, desc } => {
                lemma_find_param_props(acc.params, name, 0);
            },
            _ => {},
        }
    }
}

/// Association is name-exact (and so case-sensitive): a port whose exact name
/// no port item of the scope bears comes out of association completely
/// unchanged, its description included.
pub proof fn lemma_association_name_exact(
    ports0: Seq<SvPortV>,
    params0: Seq<SvParamV>,
    items: Seq<CommentItemV>,
    k: int,
)
    requires
        0 <= k < ports0.len(),
        forall|j: int|
            0 <= j < items.len() ==> !((#[trigger] items[j]) matches CommentItemV::Port {
                name,
                desc,
            } && name == ports0[k].name),
    ensures
        refine_fold(ports0, params0, items).ports[k] == ports0[k],
    decreases items.len(),
{
    lemma_refine_fold_shape(ports0, params0, items);
    if items.len() > 0 {
        assert(!(items[items.len() - 1] matches CommentItemV::Port { name, desc } && name
            == ports0[k].name));
        lemma_association_name_exact(ports0, params0, items.drop_last(), k);
        let acc = refine_fold(ports0, params0, items.drop_last());
        lemma_refine_fold_shape(ports0, params0, items.drop_last());
        match items.last() {
            CommentItemV::Port { name, desc } => {
                lemma_find_port_props(acc.ports, name, 0);
                let j = find_port_from(acc.ports, name, 0);
                if j < acc.ports.len() {
                    assert(acc.ports[j].name == name);
                    assert(j != k);
                }
            },
            _ => {},
        }
    }
}

/// A port item for a name with no matching port is a no-op: the module
/// refines to exactly what it refines to without that item.
pub proof fn lemma_unmatched_port_doc_is_noop(m: SvModuleV, name: Seq<char>, desc: Seq<char>)
    requires
        forall|k: int| 0 <= k < m.ports.len() ==> (#[trigger] m.ports[k]).name != name,
    ensures
        refine_module_v(
            SvModuleV { comment: m.comment.push(CommentItemV::Port { name, desc }), ..m },
        ) == refine_module_v(m),
{
    let items = m.comment.push(CommentItemV::Port { name, desc });
    assert(items.drop_last() =~= m.comment);
    assert(items.last() == CommentItemV::Port { name, desc });
    let acc = refine_fold(m.ports, m.params, m.comment);
    lemma_refine_fold_shape(m.ports, m.params, m.comment);
    assert(forall|k: int| 0 <= k < acc.ports.len() ==> (#[trigger] acc.ports[k]).name != name);
    lemma_find_port_none(acc.ports, name, 0);
    assert(set_port_desc(acc.ports, name, desc) == acc.ports);
    assert(refine_fold(m.ports, m.params, items) =~= acc);
    assert(refine_module_v(SvModuleV { comment: items, ..m }) =~= refine_module_v(m));
}

proof fn lemma_find_param_none(params: Seq<SvParamV>, name: Seq<char>, i: int)
    requires
        0 <= i <= params.len(),
        forall|k: int| 0 <= k < params.len() ==> (#[trigger] params[k]).name != name,
    ensures
        find_param_from(params, name, i) == params.len(),
    decreases params.len() - i,
{
    if i < params.len() {
        lemma_find_param_none(params, name, i + 1);
    }
}

/// Association is name-exact for parameters as well: a parameter whose exact
/// name no parameter item of the scope bears comes out of association
/// completely unchanged.
pub proof fn lemma_param_association_name_exact(
    ports0: Seq<SvPortV>,
    params0: Seq<SvParamV>,
    items: Seq<CommentItemV>,
    k: int,
)
    requires
        0 <= k < params0.len(),
        forall|j: int|
            0 <= j < items.len() ==> !((#[trigger] items[j]) matches CommentItemV::Param {
                name,
                desc,
            } && name == params0[k].name),
    ensures
        refine_fold(ports0, params0, items).params[k] == params0[k],
    decreases items.len(),
{
    lemma_refine_fold_shape(ports0, params0, items);
    if items.len() > 0 {
        assert(!(items[items.len() - 1] matches CommentItemV::Param { name, desc } && name
            == params0[k].name));
        lemma_param_association_name_exact(ports0, params0, items.drop_last(), k);
        let acc = refine_fold(ports0, params0, items.drop_last());
        lemma_refine_fold_shape(ports0, params0, items.drop_last());
        match items.last() {
            CommentItemV::Param { name, desc } => {
                lemma_find_param_props(acc.params, name, 0);
                let j = find_param_from(acc.params, name, 0);
                if j < acc.params.len() {
                    assert(acc.params[j].name == name);
                    assert(j != k);
                }
            },
            _ => {},
        }
    }
}

/// A parameter item for a name with no matching parameter is a no-op: the
/// module refines to exactly what it refines to without that item.
pub proof fn lemma_unmatched_param_doc_is_noop(m: SvModuleV, name: Seq<char>, desc: Seq<char>)
    requires
        forall|k: int| 0 <= k < m.params.len() ==> (#[trigger] m.params[k]).name != name,
    ensures
        refine_module_v(
            SvModuleV { comment: m.comment.push(CommentItemV::Param { name, desc }), ..m },
        ) == refine_module_v(m),
{
    let items = m.comment.push(CommentItemV::Param { name, desc });
    assert(items.drop_last() =~= m.comment);
    assert(items.last() == CommentItemV::Param { name, desc });
    let acc = refine_fold(m.ports, m.params, m.comment);
    lemma_refine_fold_shape(m.ports, m.params, m.comment);
    assert(forall|k: int| 0 <= k < acc.params.len() ==> (#[trigger] acc.params[k]).name != name);
    lemma_find_param_none(acc.params, name, 0);
    assert(set_param_desc(acc.params, name, desc) == acc.params);
    assert(refine_fold(m.ports, m.params, items) =~= acc);
    assert(refine_module_v(SvModuleV { comment: items, ..m }) =~= refine_module_v(m));
}

// ---------------------------------------------------------------------------
// Laws of the assembler's event handling
// ---------------------------------------------------------------------------

/// A comment event only grows the pending buffer: every open scope and the
/// finished part of the file are untouched.
pub proof fn lemma_comment_preserves_structure(st: AsmStateV, text: Seq<char>)
    ensures
        asm_step(st, SvEventV::Comment(text)).stack == st.stack,
        asm_step(st, SvEventV::Comment(text)).file == st.file,
{
}

/// A parameter declaration appends its records to the innermost module's
/// parameter list, in assignment order, after the records already present:
/// parameters end up in declaration order, however many comment events come
/// between the declarations.
pub proof fn lemma_param_decl_appends(
    st: AsmStateV,
    param_type: Option<Seq<char>>,
    assigns: Seq<SvParamAssignV>,
)
    requires
        st.stack.len() > 0,
    ensures
        ({
            let st2 = asm_step(st, SvEventV::ParamDecl { param_type, assigns });
            let old_m = st.stack.last();
            let new_m = st2.stack.last();
            &&& st2.stack.len() == st.stack.len()
            &&& new_m.params.len() == old_m.params.len() + assigns.len()
            &&& forall|k: int|
                0 <= k < old_m.params.len() ==> (#[trigger] new_m.params[k]) == old_m.params[k]
            &&& forall|k: int|
                0 <= k < assigns.len() ==> (#[trigger] new_m.params[old_m.params.len() + k]).name
                    == assigns[k].name
            &&& forall|j: int| 0 <= j < st.stack.len() - 1 ==> (#[trigger] st2.stack[j]) == st.stack[j]
            &&& st2.file == st.file
        }),
{
}

/// The parameter names declared by the parameter-declaration events of
/// `evs`, in order.
pub open spec fn declared_param_names(evs: Seq<SvEventV>) -> Seq<Seq<char>>
    decreases evs.len(),
{
    if evs.len() == 0 {
        seq![]
    } else {
        let rest = declared_param_names(evs.drop_last());
        match evs.last() {
            SvEventV::ParamDecl { param_type, assigns } => rest + assigns.map(
                |i: int, a: SvParamAssignV| a.name,
            ),
            _ => rest,
        }
    }
}

/// The names of a parameter list, in order.
pub open spec fn param_names(ps: Seq<SvParamV>) -> Seq<Seq<char>> {
    ps.map(|i: int, p: SvParamV| p.name)
}

/// Parameters appear in declaration order: over any stretch of events that
/// opens or closes no scope, the innermost module's parameter names grow by
/// exactly the names the parameter declarations carry, in their order —
/// however many comment or port events come between the declarations.
pub proof fn lemma_params_in_declaration_order(st: AsmStateV, evs: Seq<SvEventV>)
    requires
        st.stack.len() > 0,
        forall|j: int|
            0 <= j < evs.len() ==> !((#[trigger] evs[j]) is ModuleEnter) && !(evs[j] is ModuleLeave),
    ensures
        asm_run(st, evs).stack.len() == st.stack.len(),
        param_names(asm_run(st, evs).stack.last().params) == param_names(st.stack.last().params)
            + declared_param_names(evs),
    decreases evs.len(),
{
    if evs.len() == 0 {
        assert(param_names(st.stack.last().params) + declared_param_names(evs) =~= param_names(
            st.stack.last().params,
        ));
    } else {
        assert(!(evs[evs.len() - 1] is ModuleEnter) && !(evs[evs.len() - 1] is ModuleLeave));
        lemma_params_in_declaration_order(st, evs.drop_last());
        let mid = asm_run(st, evs.drop_last());
        let base = param_names(st.stack.last().params);
        let d0 = declared_param_names(evs.drop_last());
        match evs.last() {
            SvEventV::ParamDecl { param_type, assigns } => {
                let built = assigns.map(
                    |i: int, a: SvParamAssignV| SvParamV {
                        name: a.name,
                        param_type: param_type,
                        default: a.default,
                        dimensions: Some(a.dimensions),
                        comment: get_brief_v(mid.pending),
                    },
                );
                let top = mid.stack.last();
                assert(asm_run(st, evs).stack.last() =~= (SvModuleV {
                    params: top.params + built,
                    ..top
                }));
                assert(param_names(top.params + built) =~= param_names(top.params) + param_names(
                    built,
                ));
                assert(param_names(built) =~= assigns.map(|i: int, a: SvParamAssignV| a.name));
                assert(declared_param_names(evs) =~= d0 + assigns.map(
                    |i: int, a: SvParamAssignV| a.name,
                ));
                assert(param_names(asm_run(st, evs).stack.last().params) =~= base
                    + declared_param_names(evs));
            },
            SvEventV::Comment(text) => {
                assert(declared_param_names(evs) =~= d0);
            },
            SvEventV::AnsiPort { name, port_type, direction, dimensions } => {
                let top = mid.stack.last();
                assert(asm_run(st, evs).stack.last().params == top.params);
                assert(declared_param_names(evs) =~= d0);
            },
            SvEventV::NonAnsiPorts { direction, port_type, ports } => {
                let top = mid.stack.last();
                assert(asm_run(st, evs).stack.last().params == top.params);
                assert(declared_param_names(evs) =~= d0);
            },
            _ => {},
        }
    }
}

/// Association preserves the parameter list's length and order; only the
/// descriptions change. Together with [`lemma_param_decl_appends`] and
/// [`lemma_comment_preserves_structure`] this puts a finished module's
/// parameters in declaration order.
pub proof fn lemma_refine_preserves_param_order(m: SvModuleV)
    ensures
        ({
            let r = refine_module_v(m);
            &&& r.params.len() == m.params.len()
            &&& forall|k: int|
                0 <= k < m.params.len() ==> (#[trigger] r.params[k]).name == m.params[k].name
                    && r.params[k].param_type == m.params[k].param_type && r.params[k].default
                    == m.params[k].default && r.params[k].dimensions == m.params[k].dimensions
        }),
{
    lemma_refine_fold_shape(m.ports, m.params, m.comment);
}

// ---------------------------------------------------------------------------
// The assembler's state machine
// ---------------------------------------------------------------------------

pub open spec fn empty_module_v(name: Seq<char>, comment: Seq<CommentItemV>) -> SvModuleV {
    SvModuleV {
        name: name,
        brief: None,
        ports: seq![],
        params: seq![],
        signals: seq![],
        state_machines: seq![],
        tasks: seq![],
        comment: comment,
    }
}

pub open spec fn empty_file_v(name: Seq<char>) -> SvFileV {
    SvFileV { name: name, brief: None, author: None, rev: seq![], modules: seq![], comment: seq![] }
}

/// The assembler's state: the file under construction, the stack of open
/// module scopes (innermost last), and the pending annotation items not yet
/// attached to a scope.
#[verifier::ext_equal]
pub struct AsmStateV {
    pub file: SvFileV,
    pub stack: Seq<SvModuleV>,
    pub pending: Seq<CommentItemV>,
}

pub open spec fn init_state_v(file_name: Seq<char>) -> AsmStateV {
    AsmStateV { file: empty_file_v(file_name), stack: seq![], pending: seq![] }
}

/// Appends ports to the innermost open module of a stack, if any.
pub open spec fn stack_push_ports(stack: Seq<SvModuleV>, new_ports: Seq<SvPortV>) -> Seq<
    SvModuleV,
> {
    if stack.len() > 0 {
        let m = stack.last();
        stack.update(stack.len() - 1, SvModuleV { ports: m.ports + new_ports, ..m })
    } else {
        stack
    }
}

/// Appends parameters to the innermost open module of a stack, if any.
pub open spec fn stack_push_params(stack: Seq<SvModuleV>, new_params: Seq<SvParamV>) -> Seq<
    SvModuleV,
> {
    if stack.len() > 0 {
        let m = stack.last();
        stack.update(stack.len() - 1, SvModuleV { params: m.params + new_params, ..m })
    } else {
        stack
    }
}

/// Appends ports to the innermost open module, if any.
pub open spec fn push_ports_v(st: AsmStateV, new_ports: Seq<SvPortV>) -> AsmStateV {
    AsmStateV { stack: stack_push_ports(st.stack, new_ports), ..st }
}

/// Appends parameters to the innermost open module, if any.
pub open spec fn push_params_v(st: AsmStateV, new_params: Seq<SvParamV>) -> AsmStateV {
    AsmStateV { stack: stack_push_params(st.stack, new_params), ..st }
}

/// One step of the assembler.
///
/// - A comment's parsed items append to the pending buffer.
/// - A module enter pushes a fresh scope seeded with the pending buffer.
/// - A port declaration appends port records to the innermost module.
/// - A parameter declaration appends parameter records, each carrying the
///   pending buffer's joined summary text, and clears the buffer.
/// - A module leave runs association on the closing scope and moves it into
///   the file's module list.
pub open spec fn asm_step(st: AsmStateV, ev: SvEventV) -> AsmStateV {
    match ev {
        SvEventV::Comment(text) => AsmStateV {
            pending: st.pending + spec_parse_comment(text),
            ..st
        },
        SvEventV::ModuleEnter(name) => AsmStateV {
            stack: st.stack.push(empty_module_v(name, st.pending)),
            pending: seq![],
            ..st
        },
        SvEventV::AnsiPort { name, port_type, direction, dimensions } => push_ports_v(
            st,
            seq![
                SvPortV {
                    name: name,
                    port_type: port_type,
                    direction: direction,
                    dimensions: dimensions,
                    comment: seq![],
                },
            ],
        ),
        SvEventV::NonAnsiPorts { direction, port_type, ports } => push_ports_v(
            st,
            ports.map(
                |i: int, p: SvPortNameV| SvPortV {
                    name: p.name,
                    port_type: Some(port_type),
                    direction: Some(direction),
                    dimensions: Some(p.dimensions),
                    comment: seq![],
                },
            ),
        ),
        SvEventV::ParamDecl { param_type, assigns } => {
            let c = get_brief_v(st.pending);
            let st2 = push_params_v(
                st,
                assigns.map(
                    |i: int, a: SvParamAssignV| SvParamV {
                        name: a.name,
                        param_type: param_type,
                        default: a.default,
                        dimensions: Some(a.dimensions),
                        comment: c,
                    },
                ),
            );
            AsmStateV { pending: seq![], ..st2 }
        },
        SvEventV::ModuleLeave => {
            if st.stack.len() > 0 {
                AsmStateV {
                    file: SvFileV {
                        modules: st.file.modules.push(refine_module_v(st.stack.last())),
                        ..st.file
                    },
                    stack: st.stack.drop_last(),
                    ..st
                }
            } else {
                st
            }
        },
    }
}

/// The assembler run over a whole event sequence.
pub open spec fn asm_run(st: AsmStateV, evs: Seq<SvEventV>) -> AsmStateV
    decreases evs.len(),
{
    if evs.len() == 0 {
        st
    } else {
        asm_step(asm_run(st, evs.drop_last()), evs.last())
    }
}

/// What [`parse_tree`] returns: the file built by running the assembler over
/// the events, with unclosed scopes discarded.
pub open spec fn spec_parse_tree(file_name: Seq<char>, evs: Seq<SvEventV>) -> SvFileV {
    asm_run(init_state_v(file_name), evs).file
}

// ---------------------------------------------------------------------------
// Executable helpers
// ---------------------------------------------------------------------------

fn clone_opt_string(s: &Option<String>) -> (r: Option<String>)
    ensures
        r.deep_view() == s.deep_view(),
{
    match s {
        Some(x) => Some(x.clone()),
        None => None,
    }
}

fn clone_item(it: &CommentItem) -> (r: CommentItem)
    ensures
        r.deep_view() == it.deep_view(),
{
    match it {
        CommentItem::Plain(t) => CommentItem::Plain(t.clone()),
        CommentItem::Brief(t) => CommentItem::Brief(t.clone()),
        CommentItem::Note(t) => CommentItem::Note(t.clone()),
        CommentItem::Ref(t) => CommentItem::Ref(t.clone()),
        CommentItem::See(t) => CommentItem::See(t.clone()),
        CommentItem::Example(t) => CommentItem::Example(t.clone()),
        CommentItem::Wave(t) => CommentItem::Wave(t.clone()),
        CommentItem::Author(t) => CommentItem::Author(t.clone()),
        CommentItem::Rev { name, desc } => CommentItem::Rev {
            name: name.clone(),
            desc: desc.clone(),
        },
        CommentItem::Port { name, desc } => CommentItem::Port {
            name: name.clone(),
            desc: desc.clone(),
        },
        CommentItem::Param { name, desc } => CommentItem::Param {
            name: name.clone(),
            desc: desc.clone(),
        },
        CommentItem::Return(t) => CommentItem::Return(t.clone()),
        CommentItem::FSM(t) => CommentItem::FSM(t.clone()),
        CommentItem::State { name, desc } => CommentItem::State {
            name: name.clone(),
            desc: desc.clone(),
        },
        CommentItem::Transit { from, to, desc } => CommentItem::Transit {
            from: from.clone(),
            to: to.clone(),
            desc: desc.clone(),
        },
    }
}

fn clone_port(p: &SvPort) -> (r: SvPort)
    ensures
        r.deep_view() == p.deep_view(),
{
    SvPort {
        name: p.name.clone(),
        port_type: clone_opt_string(&p.port_type),
        direction: clone_opt_string(&p.direction),
        dimensions: clone_opt_string(&p.dimensions),
        comment: p.comment.clone(),
    }
}

fn clone_param(p: &SvParam) -> (r: SvParam)
    ensures
        r.deep_view() == p.deep_view(),
{
    SvParam {
        name: p.name.clone(),
        param_type: clone_opt_string(&p.param_type),
        default: clone_opt_string(&p.default),
        dimensions: clone_opt_string(&p.dimensions),
        comment: p.comment.clone(),
    }
}

/// Joins the given strings with newline separators.
fn join_strings_nl(v: &Vec<String>) -> (r: String)
    ensures
        r@ == join_nl(v.deep_view()),
{
    let mut r = String::new();
    let mut i: usize = 0;
    while i < v.len()
        invariant
            i <= v@.len(),
            r@ == join_nl(v.deep_view().take(i as int)),
        decreases v@.len() - i,
    {
        if i > 0 {
            r.append("\n");
            proof {
                reveal_strlit("\n");
                assert("\n"@ =~= seq!['\n']);
            }
        }
        r.append(v[i].as_str());
        proof {
            let t = v.deep_view().take(i as int + 1);
            assert(t.drop_last() =~= v.deep_view().take(i as int));
            assert(t.last() == v.deep_view()[i as int]);
            assert(r@ =~= join_nl(t));
        }
        i = i + 1;
    }
    assert(v.deep_view().take(v@.len() as int) =~= v.deep_view());
    r
}

/// The joined summary text of an item list: every summary item's text, in
/// order, joined with newlines.
pub fn get_brief(items: &Vec<CommentItem>) -> (r: String)
    ensures
        r@ == get_brief_v(items.deep_view()),
{
    let mut r = String::new();
    let mut any = false;
    let mut i: usize = 0;
    while i < items.len()
        invariant
            i <= items@.len(),
            any <==> briefs_of(items.deep_view().take(i as int)).len() > 0,
            r@ == join_nl(briefs_of(items.deep_view().take(i as int))),
        decreases items@.len() - i,
    {
        proof {
            let t = items.deep_view().take(i as int + 1);
            assert(t.drop_last() =~= items.deep_view().take(i as int));
            assert(t.last() == items.deep_view()[i as int]);
            assert(items.deep_view()[i as int] == items@[i as int].deep_view());
        }
        match &items[i] {
            CommentItem::Brief(t) => {
                if any {
                    r.append("\n");
                    proof {
                        reveal_strlit("\n");
                        assert("\n"@ =~= seq!['\n']);
                    }
                }
                r.append(t.as_str());
                any = true;
                proof {
                    let prevb = briefs_of(items.deep_view().take(i as int));
                    let bt = briefs_of(items.deep_view().take(i as int + 1));
                    assert(bt =~= prevb.push(t@));
                    assert(bt.drop_last() =~= prevb);
                    assert(bt.last() == t@);
                    if prevb.len() == 0 {
                        assert(join_nl(bt) == t@);
                    } else {
                        assert(join_nl(bt) == join_nl(prevb) + seq!['\n'] + t@);
                    }
                    assert(r@ =~= join_nl(bt));
                }
            },
            _ => {
                proof {
                    assert(briefs_of(items.deep_view().take(i as int + 1)) =~= briefs_of(
                        items.deep_view().take(i as int),
                    ));
                }
            },
        }
        i = i + 1;
    }
    assert(items.deep_view().take(items@.len() as int) =~= items.deep_view());
    r
}

impl SvFile {
    /// A fresh, empty file record.
    pub fn new(file: &str) -> (r: SvFile)
        ensures
            r.deep_view() == empty_file_v(file@),
    {
        let r = SvFile {
            name: file.to_owned(),
            brief: None,
            author: None,
            rev: Vec::new(),
            modules: Vec::new(),
            comment: Vec::new(),
        };
        proof {
            assert(r.rev.deep_view() =~= Seq::<Seq<char>>::empty());
            assert(r.modules.deep_view() =~= Seq::<SvModuleV>::empty());
            assert(r.comment.deep_view() =~= Seq::<CommentItemV>::empty());
        }
        r
    }

    /// File-level finalization; the file scope needs no association.
    pub fn refine(self) -> (r: SvFile)
        ensures
            r.deep_view() == self.deep_view(),
    {
        self
    }
}

impl SvModule {
    /// A fresh, empty module record.
    pub fn new(name: &str) -> (r: SvModule)
        ensures
            r.deep_view() == empty_module_v(name@, seq![]),
    {
        let r = SvModule {
            name: name.to_owned(),
            brief: None,
            ports: Vec::new(),
            params: Vec::new(),
            signals: Vec::new(),
            state_machines: Vec::new(),
            tasks: Vec::new(),
            comment: Vec::new(),
        };
        proof {
            assert(r.ports.deep_view() =~= Seq::<SvPortV>::empty());
            assert(r.params.deep_view() =~= Seq::<SvParamV>::empty());
            assert(r.signals.deep_view() =~= Seq::<SvSignalV>::empty());
            assert(r.state_machines.deep_view() =~= Seq::<SvStateMachineV>::empty());
            assert(r.tasks.deep_view() =~= Seq::<SvFunctionTaskV>::empty());
            assert(r.comment.deep_view() =~= Seq::<CommentItemV>::empty());
        }
        r
    }

    /// Runs association over this closing module's item list: summaries join
    /// into `brief`, port and parameter descriptions attach by exact name,
    /// and the remaining items stay for the renderer.
    pub fn refine(self) -> (r: SvModule)
        ensures
            r.deep_view() == refine_module_v(self.deep_view()),
    {
        let ghost m = self.deep_view();
        let SvModule {
            name,
            brief: _,
            mut ports,
            mut params,
            signals,
            state_machines,
            tasks,
            comment,
        } = self;
        let mut briefs: Vec<String> = Vec::new();
        let mut kept: Vec<CommentItem> = Vec::new();
        let mut i: usize = 0;
        proof {
            assert(briefs.deep_view() =~= Seq::<Seq<char>>::empty());
            assert(kept.deep_view() =~= Seq::<CommentItemV>::empty());
        }
        while i < comment.len()
            invariant
                i <= comment@.len(),
                comment.deep_view() == m.comment,
                ({
                    let acc = refine_fold(m.ports, m.params, m.comment.take(i as int));
                    briefs.deep_view() == acc.briefs && ports.deep_view() == acc.ports
                        && params.deep_view() == acc.params && kept.deep_view() == acc.kept
                }),
            decreases comment@.len() - i,
        {
            let ghost acc = refine_fold(m.ports, m.params, m.comment.take(i as int));
            proof {
                let t = m.comment.take(i as int + 1);
                assert(t.drop_last() =~= m.comment.take(i as int));
                assert(t.last() == m.comment[i as int]);
                assert(m.comment[i as int] == comment@[i as int].deep_view());
            }
            match &comment[i] {
                CommentItem::Brief(t) => {
                    briefs.push(t.clone());
                    proof {
                        assert(briefs.deep_view() =~= acc.briefs.push(t@));
                    }
                },
                CommentItem::Port { name: pname, desc } => {
                    let ghost pv = ports.deep_view();
                    let mut j: usize = 0;
                    while j < ports.len() && !ports[j].name.eq(pname)
                        invariant
                            j <= ports@.len(),
                            ports.deep_view() == pv,
                            find_port_from(pv, pname@, 0) == find_port_from(pv, pname@, j as int),
                        decreases ports@.len() - j,
                    {
                        j = j + 1;
                    }
                    if j < ports.len() {
                        assert(find_port_from(pv, pname@, 0) == j as int);
                        let mut np = clone_port(&ports[j]);
                        np.comment = desc.clone();
                        ports[j] = np;
                        proof {
                            assert(ports.deep_view() =~= set_port_desc(pv, pname@, desc@));
                        }
                    } else {
                        assert(find_port_from(pv, pname@, 0) == pv.len() as int);
                        proof {
                            assert(ports.deep_view() =~= set_port_desc(pv, pname@, desc@));
                        }
                    }
                },
                CommentItem::Param { name: pname, desc } => {
                    let ghost pv = params.deep_view();
                    let mut j: usize = 0;
                    while j < params.len() && !params[j].name.eq(pname)
                        invariant
                            j <= params@.len(),
                            params.deep_view() == pv,
                            find_param_from(pv, pname@, 0) == find_param_from(pv, pname@, j as int),
                        decreases params@.len() - j,
                    {
                        j = j + 1;
                    }
                    if j < params.len() {
                        assert(find_param_from(pv, pname@, 0) == j as int);
                        let mut np = clone_param(&params[j]);
                        np.comment = desc.clone();
                        params[j] = np;
                        proof {
                            assert(params.deep_view() =~= set_param_desc(pv, pname@, desc@));
                        }
                    } else {
                        assert(find_param_from(pv, pname@, 0) == pv.len() as int);
                        proof {
                            assert(params.deep_view() =~= set_param_desc(pv, pname@, desc@));
                        }
                    }
                },
                other => {
                    let ghost kv = kept.deep_view();
                    kept.push(clone_item(other));
                    proof {
                        assert(kept.deep_view() =~= kv.push(m.comment[i as int]));
                    }
                },
            }
            i = i + 1;
        }
        proof {
            assert(m.comment.take(comment@.len() as int) =~= m.comment);
        }
        let brief = if briefs.len() == 0 {
            None
        } else {
            Some(join_strings_nl(&briefs))
        };
        let r = SvModule {
            name,
            brief,
            ports,
            params,
            signals,
            state_machines,
            tasks,
            comment: kept,
        };
        r
    }
}

// ---------------------------------------------------------------------------
// The assembler
// ---------------------------------------------------------------------------

fn append_ports_to_top(stack: &mut Vec<SvModule>, new_ports: Vec<SvPort>)
    ensures
        final(stack).deep_view() == stack_push_ports(old(stack).deep_view(), new_ports.deep_view()),
{
    let ghost sv = stack.deep_view();
    let ghost npv = new_ports.deep_view();
    let mut new_ports = new_ports;
    match stack.pop() {
        Some(m) => {
            let mut m = m;
            let ghost mv = m.deep_view();
            proof {
                assert(mv == sv.last());
            }
            m.ports.append(&mut new_ports);
            proof {
                assert(m.ports.deep_view() =~= mv.ports + npv);
            }
            stack.push(m);
            proof {
                assert(stack.deep_view() =~= sv.update(
                    sv.len() - 1,
                    SvModuleV { ports: mv.ports + npv, ..mv },
                ));
            }
        },
        None => {
            proof {
                assert(stack.deep_view() =~= sv);
            }
        },
    }
}

fn append_params_to_top(stack: &mut Vec<SvModule>, new_params: Vec<SvParam>)
    ensures
        final(stack).deep_view() == stack_push_params(
            old(stack).deep_view(),
            new_params.deep_view(),
        ),
{
    let ghost sv = stack.deep_view();
    let ghost npv = new_params.deep_view();
    let mut new_params = new_params;
    match stack.pop() {
        Some(m) => {
            let mut m = m;
            let ghost mv = m.deep_view();
            proof {
                assert(mv == sv.last());
            }
            m.params.append(&mut new_params);
            proof {
                assert(m.params.deep_view() =~= mv.params + npv);
            }
            stack.push(m);
            proof {
                assert(stack.deep_view() =~= sv.update(
                    sv.len() - 1,
                    SvModuleV { params: mv.params + npv, ..mv },
                ));
            }
        },
        None => {
            proof {
                assert(stack.deep_view() =~= sv);
            }
        },
    }
}

fn build_nonansi_ports(direction: &String, port_type: &String, ports: &Vec<SvPortName>) -> (r: Vec<
    SvPort,
>)
    ensures
        r.deep_view().len() == ports.deep_view().len(),
        forall|q: int|
            0 <= q < ports.deep_view().len() ==> r.deep_view()[q] == (SvPortV {
                name: ports.deep_view()[q].name,
                port_type: Some(port_type@),
                direction: Some(direction@),
                dimensions: Some(ports.deep_view()[q].dimensions),
                comment: seq![],
            }),
{
    let mut r: Vec<SvPort> = Vec::new();
    let mut t: usize = 0;
    while t < ports.len()
        invariant
            t <= ports@.len(),
            r.deep_view().len() == t,
            forall|q: int|
                0 <= q < t ==> r.deep_view()[q] == (SvPortV {
                    name: ports.deep_view()[q].name,
                    port_type: Some(port_type@),
                    direction: Some(direction@),
                    dimensions: Some(ports.deep_view()[q].dimensions),
                    comment: seq![],
                }),
        decreases ports@.len() - t,
    {
        let ghost rv = r.deep_view();
        let pn = &ports[t];
        proof {
            assert(ports.deep_view()[t as int] == ports@[t as int].deep_view());
        }
        let p = SvPort {
            name: pn.name.clone(),
            port_type: Some(port_type.clone()),
            direction: Some(direction.clone()),
            dimensions: Some(pn.dimensions.clone()),
            comment: String::new(),
        };
        proof {
            assert(p.deep_view() == (SvPortV {
                name: ports.deep_view()[t as int].name,
                port_type: Some(port_type@),
                direction: Some(direction@),
                dimensions: Some(ports.deep_view()[t as int].dimensions),
                comment: seq![],
            }));
        }
        r.push(p);
        proof {
            assert(r.deep_view() =~= rv.push(p.deep_view()));
        }
        t = t + 1;
    }
    r
}

fn build_params(param_type: &Option<String>, comment: &String, assigns: &Vec<SvParamAssign>) -> (r:
    Vec<SvParam>)
    ensures
        r.deep_view().len() == assigns.deep_view().len(),
        forall|q: int|
            0 <= q < assigns.deep_view().len() ==> r.deep_view()[q] == (SvParamV {
                name: assigns.deep_view()[q].name,
                param_type: param_type.deep_view(),
                default: assigns.deep_view()[q].default,
                dimensions: Some(assigns.deep_view()[q].dimensions),
                comment: comment@,
            }),
{
    let mut r: Vec<SvParam> = Vec::new();
    let mut t: usize = 0;
    while t < assigns.len()
        invariant
            t <= assigns@.len(),
            r.deep_view().len() == t,
            forall|q: int|
                0 <= q < t ==> r.deep_view()[q] == (SvParamV {
                    name: assigns.deep_view()[q].name,
                    param_type: param_type.deep_view(),
                    default: assigns.deep_view()[q].default,
                    dimensions: Some(assigns.deep_view()[q].dimensions),
                    comment: comment@,
                }),
        decreases assigns@.len() - t,
    {
        let ghost rv = r.deep_view();
        let a = &assigns[t];
        proof {
            assert(assigns.deep_view()[t as int] == assigns@[t as int].deep_view());
        }
        let p = SvParam {
            name: a.name.clone(),
            param_type: clone_opt_string(param_type),
            default: clone_opt_string(&a.default),
            dimensions: Some(a.dimensions.clone()),
            comment: comment.clone(),
        };
        proof {
            assert(p.deep_view() == (SvParamV {
                name: assigns.deep_view()[t as int].name,
                param_type: param_type.deep_view(),
                default: assigns.deep_view()[t as int].default,
                dimensions: Some(assigns.deep_view()[t as int].dimensions),
                comment: comment@,
            }));
        }
        r.push(p);
        proof {
            assert(r.deep_view() =~= rv.push(p.deep_view()));
        }
        t = t + 1;
    }
    r
}

/// Assembles one source file's documentation tree from its structural event
/// stream: the exact state machine described on [`asm_step`].
pub fn parse_tree(file: &str, events: &Vec<SvEvent>) -> (r: SvFile)
    ensures
        r.deep_view() == spec_parse_tree(file@, events.deep_view()),
{
    let ghost evs = events.deep_view();
    let mut result = SvFile::new(file);
    let mut stack: Vec<SvModule> = Vec::new();
    let mut pending: Vec<CommentItem> = Vec::new();
    let mut k: usize = 0;
    proof {
        assert(stack.deep_view() =~= Seq::<SvModuleV>::empty());
        assert(pending.deep_view() =~= Seq::<CommentItemV>::empty());
    }
    while k < events.len()
        invariant
            k <= evs.len(),
            evs == events.deep_view(),
            ({
                let st = asm_run(init_state_v(file@), evs.take(k as int));
                result.deep_view() == st.file && stack.deep_view() == st.stack
                    && pending.deep_view() == st.pending
            }),
        decreases evs.len() - k,
    {
        let ghost st = asm_run(init_state_v(file@), evs.take(k as int));
        proof {
            assert(evs.take(k as int + 1).drop_last() =~= evs.take(k as int));
            assert(evs.take(k as int + 1).last() == evs[k as int]);
            assert(evs[k as int] == events@[k as int].deep_view());
        }
        match &events[k] {
            SvEvent::Comment(text) => {
                let mut items = parse_comment(text.as_str());
                pending.append(&mut items);
                proof {
                    assert(pending.deep_view() =~= st.pending + spec_parse_comment(text@));
                }
            },
            SvEvent::ModuleEnter(name) => {
                let mut m = SvModule::new(name.as_str());
                m.comment = pending;
                stack.push(m);
                pending = Vec::new();
                proof {
                    assert(stack.deep_view() =~= st.stack.push(empty_module_v(name@, st.pending)));
                    assert(pending.deep_view() =~= Seq::<CommentItemV>::empty());
                }
            },
            SvEvent::AnsiPort { name, port_type, direction, dimensions } => {
                let port = SvPort {
                    name: name.clone(),
                    port_type: clone_opt_string(port_type),
                    direction: clone_opt_string(direction),
                    dimensions: clone_opt_string(dimensions),
                    comment: String::new(),
                };
                let mut new_ports: Vec<SvPort> = Vec::new();
                new_ports.push(port);
                proof {
                    assert(new_ports.deep_view() =~= seq![
                        SvPortV {
                            name: name@,
                            port_type: port_type.deep_view(),
                            direction: direction.deep_view(),
                            dimensions: dimensions.deep_view(),
                            comment: seq![],
                        },
                    ]);
                }
                append_ports_to_top(&mut stack, new_ports);
            },
            SvEvent::NonAnsiPorts { direction, port_type, ports } => {
                let new_ports = build_nonansi_ports(direction, port_type, ports);
                proof {
                    assert(new_ports.deep_view() =~= ports.deep_view().map(
                        |i: int, p: SvPortNameV| SvPortV {
                            name: p.name,
                            port_type: Some(port_type@),
                            direction: Some(direction@),
                            dimensions: Some(p.dimensions),
                            comment: seq![],
                        },
                    ));
                }
                append_ports_to_top(&mut stack, new_ports);
            },
            SvEvent::ParamDecl { param_type, assigns } => {
                let c = get_brief(&pending);
                let new_params = build_params(param_type, &c, assigns);
                proof {
                    assert(new_params.deep_view() =~= assigns.deep_view().map(
                        |i: int, a: SvParamAssignV| SvParamV {
                            name: a.name,
                            param_type: param_type.deep_view(),
                            default: a.default,
                            dimensions: Some(a.dimensions),
                            comment: get_brief_v(st.pending),
                        },
                    ));
                }
                append_params_to_top(&mut stack, new_params);
                pending = Vec::new();
                proof {
                    assert(pending.deep_view() =~= Seq::<CommentItemV>::empty());
                }
            },
            SvEvent::ModuleLeave => {
                match stack.pop() {
                    Some(m) => {
                        let ghost rm = result.modules.deep_view();
                        result.modules.push(m.refine());
                        proof {
                            assert(result.modules.deep_view() =~= rm.push(
                                refine_module_v(st.stack.last()),
                            ));
                        }
                    },
                    None => {},
                }
            },
        }
        k = k + 1;
    }
    proof {
        assert(evs.take(evs.len() as int) =~= evs);
    }
    result.refine()
}

} // verus!
