use svdocgen::comment_parser::CommentItem;
use svdocgen::docgen::{get_brief, parse_tree, SvEvent, SvParamAssign, SvPortName};

fn comment(text: &str) -> SvEvent {
    SvEvent::Comment(text.to_string())
}

fn ansi_port(name: &str, dir: &str, ty: &str) -> SvEvent {
    SvEvent::AnsiPort {
        name: name.to_string(),
        port_type: Some(ty.to_string()),
        direction: Some(dir.to_string()),
        dimensions: Some("".to_string()),
    }
}

#[test]
fn assembles_module_with_ports_and_summary() {
    let events = vec![
        comment("/**\n * @brief adds numbers\n * @port clk the clock\n */"),
        SvEvent::ModuleEnter("adder".to_string()),
        ansi_port("clk", "input", "wire"),
        ansi_port("q", "output", "wire"),
        SvEvent::ModuleLeave,
    ];
    let file = parse_tree("src/adder.sv", &events);
    assert_eq!(file.name, "src/adder.sv");
    assert_eq!(file.modules.len(), 1);
    let m = &file.modules[0];
    assert_eq!(m.name, "adder");
    assert_eq!(m.brief, Some("adds numbers".to_string()));
    assert_eq!(m.ports.len(), 2);
    assert_eq!(m.ports[0].name, "clk");
    assert_eq!(m.ports[0].comment, "the clock");
    assert_eq!(m.ports[0].direction, Some("input".to_string()));
    assert_eq!(m.ports[1].name, "q");
    assert_eq!(m.ports[1].comment, "");
    // consumed items (summary, port docs) do not stay in the raw list
    assert_eq!(m.comment.len(), 0);
}

#[test]
fn association_is_case_sensitive() {
    let events = vec![
        comment("/**\n * @port CLK capitalized doc\n */"),
        SvEvent::ModuleEnter("m".to_string()),
        ansi_port("clk", "input", "wire"),
        SvEvent::ModuleLeave,
    ];
    let file = parse_tree("f.sv", &events);
    // a port item for "CLK" never attaches to a port named "clk"
    assert_eq!(file.modules[0].ports[0].comment, "");
}

#[test]
fn unmatched_port_doc_changes_nothing() {
    let events = vec![
        comment("/**\n * @port clk real doc\n * @port nosuch orphan doc\n */"),
        SvEvent::ModuleEnter("m".to_string()),
        ansi_port("clk", "input", "wire"),
        ansi_port("rst", "input", "wire"),
        SvEvent::ModuleLeave,
    ];
    let file = parse_tree("f.sv", &events);
    let m = &file.modules[0];
    assert_eq!(m.ports[0].comment, "real doc");
    assert_eq!(m.ports[1].comment, "");
}

#[test]
fn last_port_doc_wins() {
    let events = vec![
        comment("/**\n * @port clk first\n * @port clk second\n */"),
        SvEvent::ModuleEnter("m".to_string()),
        ansi_port("clk", "input", "wire"),
        SvEvent::ModuleLeave,
    ];
    let file = parse_tree("f.sv", &events);
    assert_eq!(file.modules[0].ports[0].comment, "second");
}

#[test]
fn params_stay_in_declaration_order_despite_comments() {
    let events = vec![
        SvEvent::ModuleEnter("m".to_string()),
        comment("//* @brief width of the bus"),
        SvEvent::ParamDecl {
            param_type: None,
            assigns: vec![SvParamAssign {
                name: "WIDTH".to_string(),
                dimensions: "".to_string(),
                default: Some("8".to_string()),
            }],
        },
        comment("//* depth comment line one"),
        comment("//* and line two"),
        SvEvent::ParamDecl {
            param_type: Some("int".to_string()),
            assigns: vec![
                SvParamAssign {
                    name: "DEPTH".to_string(),
                    dimensions: "".to_string(),
                    default: None,
                },
                SvParamAssign {
                    name: "LANES".to_string(),
                    dimensions: "".to_string(),
                    default: Some("2".to_string()),
                },
            ],
        },
        SvEvent::ModuleLeave,
    ];
    let file = parse_tree("f.sv", &events);
    let m = &file.modules[0];
    let names: Vec<&str> = m.params.iter().map(|p| p.name.as_str()).collect();
    assert_eq!(names, vec!["WIDTH", "DEPTH", "LANES"]);
    // each parameter consumes the pending summary at its declaration
    assert_eq!(m.params[0].comment, "width of the bus");
    assert_eq!(m.params[1].comment, "depth comment line one\nand line two");
    assert_eq!(m.params[2].comment, "depth comment line one\nand line two");
    assert_eq!(m.params[1].param_type, Some("int".to_string()));
    assert_eq!(m.params[2].default, Some("2".to_string()));
}

#[test]
fn non_ansi_ports_share_direction_and_type() {
    let events = vec![
        SvEvent::ModuleEnter("m".to_string()),
        SvEvent::NonAnsiPorts {
            direction: "input".to_string(),
            port_type: "wire".to_string(),
            ports: vec![
                SvPortName {
                    name: "a".to_string(),
                    dimensions: "[3:0]".to_string(),
                },
                SvPortName {
                    name: "b".to_string(),
                    dimensions: "".to_string(),
                },
            ],
        },
        SvEvent::ModuleLeave,
    ];
    let file = parse_tree("f.sv", &events);
    let m = &file.modules[0];
    assert_eq!(m.ports.len(), 2);
    assert_eq!(m.ports[0].name, "a");
    assert_eq!(m.ports[0].dimensions, Some("[3:0]".to_string()));
    assert_eq!(m.ports[1].name, "b");
    assert_eq!(m.ports[0].direction, Some("input".to_string()));
    assert_eq!(m.ports[1].port_type, Some("wire".to_string()));
}

#[test]
fn unclosed_module_is_dropped() {
    let events = vec![
        SvEvent::ModuleEnter("open".to_string()),
        ansi_port("x", "input", "wire"),
    ];
    let file = parse_tree("f.sv", &events);
    assert_eq!(file.modules.len(), 0);
}

#[test]
fn ports_outside_any_module_are_ignored() {
    let events = vec![ansi_port("x", "input", "wire"), SvEvent::ModuleLeave];
    let file = parse_tree("f.sv", &events);
    assert_eq!(file.modules.len(), 0);
}

#[test]
fn nested_modules_close_innermost_first() {
    let events = vec![
        SvEvent::ModuleEnter("outer".to_string()),
        SvEvent::ModuleEnter("inner".to_string()),
        ansi_port("x", "input", "wire"),
        SvEvent::ModuleLeave,
        SvEvent::ModuleLeave,
    ];
    let file = parse_tree("f.sv", &events);
    assert_eq!(file.modules.len(), 2);
    assert_eq!(file.modules[0].name, "inner");
    assert_eq!(file.modules[0].ports.len(), 1);
    assert_eq!(file.modules[1].name, "outer");
    assert_eq!(file.modules[1].ports.len(), 0);
}

#[test]
fn module_keeps_unconsumed_items() {
    let events = vec![
        comment("/**\n * @brief summary\n * @note a note\n * @author me\n */"),
        SvEvent::ModuleEnter("m".to_string()),
        SvEvent::ModuleLeave,
    ];
    let file = parse_tree("f.sv", &events);
    let m = &file.modules[0];
    assert_eq!(m.brief, Some("summary".to_string()));
    assert_eq!(
        m.comment,
        vec![
            CommentItem::Note("a note".to_string()),
            CommentItem::Author("me".to_string()),
        ]
    );
}

#[test]
fn get_brief_joins_summaries() {
    let items = vec![
        CommentItem::Brief("one".to_string()),
        CommentItem::Note("skip".to_string()),
        CommentItem::Brief("two".to_string()),
    ];
    assert_eq!(get_brief(&items), "one\ntwo");
    assert_eq!(get_brief(&Vec::new()), "");
}
