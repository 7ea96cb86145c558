use svdocgen::comment_parser::CommentItem;
use svdocgen::docgen::{SvFile, SvModule, SvParam, SvPort};
use svdocgen::generator::{base_name, DocgenGenerator, ImageKind, MarkdownGenerator};

fn empty_module(name: &str) -> SvModule {
    SvModule {
        name: name.to_string(),
        brief: None,
        ports: Vec::new(),
        params: Vec::new(),
        signals: Vec::new(),
        state_machines: Vec::new(),
        tasks: Vec::new(),
        comment: Vec::new(),
    }
}

fn empty_file(name: &str) -> SvFile {
    SvFile {
        name: name.to_string(),
        brief: None,
        author: None,
        rev: Vec::new(),
        modules: Vec::new(),
        comment: Vec::new(),
    }
}

#[test]
fn base_name_takes_the_part_after_the_last_slash() {
    assert_eq!(base_name(&"a/b/c.sv".to_string()), "c.sv");
    assert_eq!(base_name(&"name.sv".to_string()), "name.sv");
    assert_eq!(base_name(&"".to_string()), "");
}

#[test]
fn renders_module_tables() {
    let mut m = empty_module("top");
    m.brief = Some("does things".to_string());
    m.comment = vec![CommentItem::Note("hello".to_string())];
    m.params = vec![SvParam {
        name: "W".to_string(),
        param_type: None,
        default: Some("8".to_string()),
        dimensions: Some("".to_string()),
        comment: "width".to_string(),
    }];
    m.ports = vec![SvPort {
        name: "clk".to_string(),
        port_type: Some("wire".to_string()),
        direction: Some("input".to_string()),
        dimensions: Some("".to_string()),
        comment: "clock".to_string(),
    }];
    let mut f = empty_file("src/top.sv");
    f.modules.push(m);
    let gen = MarkdownGenerator::new("./".to_string(), None, None);
    let md = gen.generate(vec![f]);
    let expected = "# 1. File top.sv\n\n\
        ## 1.1. module top\n\n\
        does things\n\n\
        > **Note:** hello\n\n\
        ### 1.1.1. Parameters\n\n\
        | name | default | type | dimensions | brief |\n\
        | ---- | ------- | ---- | ---------- | ----- |\n\
        | W | 8 |  |  | width |\n\n\
        ### 1.1.2. Ports\n\n\
        | name | direction | type | dimensions | brief |\n\
        | ---- | --------- | ---- | ---------- | ----- |\n\
        | clk | input | wire |  | clock |\n\n";
    assert_eq!(md, expected);
}

#[test]
fn fsm_renders_as_bullets_without_graphviz() {
    let mut m = empty_module("m");
    m.comment = vec![
        CommentItem::FSM("ctrl".to_string()),
        CommentItem::Transit {
            from: "a".to_string(),
            to: "b".to_string(),
            desc: "go".to_string(),
        },
    ];
    let mut f = empty_file("f.sv");
    f.modules.push(m);
    let gen = MarkdownGenerator::new("./".to_string(), None, None);
    let (md, jobs) = gen.generate_with_images(&vec![f]);
    assert!(jobs.is_empty());
    assert!(md.contains("**State Machine:** ctrl\n\n * a->b: go\n\n\n\n"));
}

#[test]
fn fsm_renders_as_image_with_graphviz() {
    let mut m = empty_module("m");
    m.comment = vec![
        CommentItem::FSM("ctrl".to_string()),
        CommentItem::Transit {
            from: "a".to_string(),
            to: "b".to_string(),
            desc: "go".to_string(),
        },
        CommentItem::State {
            name: "IDLE".to_string(),
            desc: "waiting".to_string(),
        },
    ];
    let mut f = empty_file("f.sv");
    f.modules.push(m);
    let gen = MarkdownGenerator::new("./".to_string(), None, Some("dot".to_string()));
    let (md, jobs) = gen.generate_with_images(&vec![f]);
    assert!(md.contains("**State Machine:** ctrl\n\n ![fsm](docgen_fsm_0_0_3.png)\n\n"));
    assert_eq!(jobs.len(), 1);
    assert_eq!(jobs[0].kind, ImageKind::Fsm);
    assert_eq!(jobs[0].file_name, "docgen_fsm_0_0_3.png");
    assert_eq!(
        jobs[0].source,
        "digraph G {\na->b[label=\"go\"]\n\
         xxxxxxxxxxxxx[shape=record,label=\" { States | { IDLE | waiting } } \"]\n}"
    );
}

#[test]
fn waveform_renders_raw_without_wavedrom() {
    let mut m = empty_module("m");
    m.comment = vec![CommentItem::Wave("{signal}".to_string())];
    let mut f = empty_file("f.sv");
    f.modules.push(m);
    let gen = MarkdownGenerator::new("./".to_string(), None, None);
    let (md, jobs) = gen.generate_with_images(&vec![f]);
    assert!(jobs.is_empty());
    assert!(md.contains("**Waveform:** \n\n {signal}\n\n"));
}

#[test]
fn waveform_renders_as_image_with_wavedrom() {
    let mut m = empty_module("m");
    m.comment = vec![CommentItem::Wave("{signal}".to_string())];
    let mut f = empty_file("f.sv");
    f.modules.push(m);
    let gen = MarkdownGenerator::new("./".to_string(), Some("wavedrom-cli".to_string()), None);
    let (md, jobs) = gen.generate_with_images(&vec![f]);
    assert!(md.contains("**Waveform:** \n\n ![wave](docgen_wave_0_0_0.png)\n\n"));
    assert_eq!(jobs.len(), 1);
    assert_eq!(jobs[0].kind, ImageKind::Waveform);
    assert_eq!(jobs[0].file_name, "docgen_wave_0_0_0.png");
    assert_eq!(jobs[0].source, "{signal}");
}

#[test]
fn multiline_note_is_quoted_line_by_line() {
    let mut m = empty_module("m");
    m.comment = vec![CommentItem::Note("one\ntwo".to_string())];
    let mut f = empty_file("f.sv");
    f.modules.push(m);
    let gen = MarkdownGenerator::new("./".to_string(), None, None);
    let md = gen.generate(vec![f]);
    assert!(md.contains("> **Note:**\n>\n> one\n>\n> two\n>\n\n"));
}

#[test]
fn example_with_newline_becomes_a_code_block() {
    let mut m = empty_module("m");
    m.comment = vec![
        CommentItem::Example("short".to_string()),
        CommentItem::Example("a\nb".to_string()),
    ];
    let mut f = empty_file("f.sv");
    f.modules.push(m);
    let gen = MarkdownGenerator::new("./".to_string(), None, None);
    let md = gen.generate(vec![f]);
    assert!(md.contains("**Example:** `short`\n\n"));
    assert!(md.contains("**Example:** \n```\na\nb\n```\n\n"));
}

#[test]
fn empty_file_renders_heading_only() {
    let f = empty_file("only.sv");
    let gen = MarkdownGenerator::new("./".to_string(), None, None);
    let md = gen.generate(vec![f]);
    assert_eq!(md, "# 1. File only.sv\n\n");
}
