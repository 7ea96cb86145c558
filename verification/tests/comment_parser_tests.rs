use svdocgen::comment_parser::{parse_comment, post_process, CommentItem};

#[test]
fn test_parse_comment1() {
    assert_eq!(
        parse_comment("//* @brief test"),
        vec![CommentItem::Brief("test".to_string())]
    );
}

#[test]
fn test_parse_comment2() {
    assert_eq!(
        parse_comment("//* test"),
        vec![CommentItem::Brief("test".to_string())]
    );
}

#[test]
fn test_parse_comment3() {
    assert_eq!(
        parse_comment("/** test */"),
        vec![CommentItem::Brief("test ".to_string())]
    );
}

#[test]
fn test_parse_comment4() {
    let input = "/**
    * @brief test
    * @note noooooote
    */";
    assert_eq!(
        parse_comment(input),
        vec![
            CommentItem::Brief("test".to_string()),
            CommentItem::Note("noooooote".to_string())
        ]
    );
}

#[test]
fn test_parse_comment5() {
    let input = "/**
    * @brief test
    * second line
    * @param a:aaa
      @param b bbb
    */";
    assert_eq!(
        parse_comment(input),
        vec![
            CommentItem::Brief("test\nsecond line".to_string()),
            CommentItem::Param {
                name: "a".to_string(),
                desc: "aaa".to_string()
            },
            CommentItem::Param {
                name: "b".to_string(),
                desc: "bbb".to_string()
            },
        ]
    );
}

#[test]
fn test_parse_comment6() {
    let input = "/**
    * @fsm test
    * @a-> b transit1
    * @b ->c:transit2
    */";
    assert_eq!(
        parse_comment(input),
        vec![
            CommentItem::FSM("test".to_string()),
            CommentItem::Transit {
                from: "a".to_string(),
                to: "b".to_string(),
                desc: "transit1".to_string()
            },
            CommentItem::Transit {
                from: "b".to_string(),
                to: "c".to_string(),
                desc: "transit2".to_string()
            },
        ]
    );
}

#[test]
fn test_not_a_comment_yields_nothing() {
    assert_eq!(parse_comment(""), vec![]);
    assert_eq!(parse_comment("plain text"), vec![]);
    assert_eq!(parse_comment("// ordinary comment"), vec![]);
}

#[test]
fn test_unterminated_block_yields_nothing() {
    assert_eq!(parse_comment("/** @brief lost"), vec![]);
}

#[test]
fn test_empty_oneline_yields_nothing() {
    assert_eq!(parse_comment("//*"), vec![]);
    assert_eq!(parse_comment("//*   "), vec![]);
}

#[test]
fn test_simple_tags() {
    assert_eq!(
        parse_comment("//* @note be careful"),
        vec![CommentItem::Note("be careful".to_string())]
    );
    assert_eq!(
        parse_comment("//* @ref chapter 3"),
        vec![CommentItem::Ref("chapter 3".to_string())]
    );
    assert_eq!(
        parse_comment("//* @see elsewhere"),
        vec![CommentItem::See("elsewhere".to_string())]
    );
    assert_eq!(
        parse_comment("//* @example x <= y"),
        vec![CommentItem::Example("x <= y".to_string())]
    );
    assert_eq!(
        parse_comment("//* @wave {signal: []}"),
        vec![CommentItem::Wave("{signal: []}".to_string())]
    );
    assert_eq!(
        parse_comment("//* @author someone"),
        vec![CommentItem::Author("someone".to_string())]
    );
    assert_eq!(
        parse_comment("//* @return the sum"),
        vec![CommentItem::Return("the sum".to_string())]
    );
}

#[test]
fn test_colon_separator() {
    assert_eq!(
        parse_comment("//* @brief:test"),
        vec![CommentItem::Brief("test".to_string())]
    );
}

#[test]
fn test_pair_tags() {
    assert_eq!(
        parse_comment("//* @rev v1:first cut"),
        vec![CommentItem::Rev {
            name: "v1".to_string(),
            desc: "first cut".to_string()
        }]
    );
    assert_eq!(
        parse_comment("//* @port clk the clock"),
        vec![CommentItem::Port {
            name: "clk".to_string(),
            desc: "the clock".to_string()
        }]
    );
    assert_eq!(
        parse_comment("//* @state IDLE waiting"),
        vec![CommentItem::State {
            name: "IDLE".to_string(),
            desc: "waiting".to_string()
        }]
    );
}

#[test]
fn test_tag_without_separator_is_plain_text() {
    // "@brief" not followed by a space or colon falls through to the
    // catch-all, and a leading plain line becomes the summary.
    assert_eq!(
        parse_comment("//* @briefless"),
        vec![CommentItem::Brief("@briefless".to_string())]
    );
}

#[test]
fn test_malformed_transition_is_plain_text() {
    assert_eq!(
        parse_comment("//* @a -> : text"),
        vec![CommentItem::Brief("@a -> : text".to_string())]
    );
}

#[test]
fn test_identifier_with_dollar() {
    assert_eq!(
        parse_comment("//* @port data$x bus"),
        vec![CommentItem::Port {
            name: "data$x".to_string(),
            desc: "bus".to_string()
        }]
    );
}

#[test]
fn test_continuation_folds_into_preceding_tag() {
    let input = "/**
    * @note first
    * second
    */";
    assert_eq!(
        parse_comment(input),
        vec![CommentItem::Note("first\nsecond".to_string())]
    );
}

#[test]
fn test_post_process_promotes_leading_text() {
    let v = vec![
        CommentItem::Plain("one".to_string()),
        CommentItem::Plain("two".to_string()),
    ];
    assert_eq!(
        post_process(v),
        vec![CommentItem::Brief("one\ntwo".to_string())]
    );
}

#[test]
fn test_post_process_idempotent() {
    let v = vec![
        CommentItem::Plain("lead".to_string()),
        CommentItem::Note("n".to_string()),
        CommentItem::Plain("more".to_string()),
        CommentItem::Port {
            name: "p".to_string(),
            desc: "d".to_string(),
        },
    ];
    let once = post_process(v);
    let twice = post_process(once.clone());
    assert_eq!(once, twice);
    assert_eq!(
        once,
        vec![
            CommentItem::Brief("lead".to_string()),
            CommentItem::Note("n\nmore".to_string()),
            CommentItem::Port {
                name: "p".to_string(),
                desc: "d".to_string(),
            },
        ]
    );
}
