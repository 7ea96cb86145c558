//! The annotation-comment grammar: parses the text of one comment —
//! single-line (`//*` ...) or block (`/** ... */`) — into an ordered sequence
//! of tagged items, then folds free-text lines into the preceding item.
//!
//! Grammar per line, alternatives tried in order (first match wins):
//! 1. strip leading whitespace and at most one `*` continuation marker;
//! 2. a simple tag (`@brief`, `@note`, `@ref`, `@see`, `@example`, `@wave`,
//!    `@author`, `@return`, `@fsm`) followed by a space or colon, taking the
//!    rest of the line as payload;
//! 3. a named tag (`@rev`, `@port`, `@param`, `@state`) followed by a space,
//!    an identifier, a space or colon, and the payload;
//! 4. a transition `@<id> -> <id>` followed by a space or colon and the
//!    payload;
//! 5. otherwise the whole line is a plain-text item.
use vstd::prelude::*;
use vstd::string::StringExecFns;
use crate::text::{str_chars, string_from_range};

verus! {

/// One parsed unit of an annotation comment.
#[derive(Debug, Clone, PartialEq)]
pub enum CommentItem {
    Plain(String),
    Brief(String),
    Note(String),
    Ref(String),
    See(String),
    Example(String),
    Wave(String),
    Author(String),
    Rev { name: String, desc: String },
    Port { name: String, desc: String },
    Param { name: String, desc: String },
    Return(String),
    FSM(String),
    State { name: String, desc: String },
    Transit { from: String, to: String, desc: String },
}

/// The mathematical model of a [`CommentItem`]: the same variants over
/// character sequences.
pub enum CommentItemV {
    Plain(Seq<char>),
    Brief(Seq<char>),
    Note(Seq<char>),
    Ref(Seq<char>),
    See(Seq<char>),
    Example(Seq<char>),
    Wave(Seq<char>),
    Author(Seq<char>),
    Rev { name: Seq<char>, desc: Seq<char> },
    Port { name: Seq<char>, desc: Seq<char> },
    Param { name: Seq<char>, desc: Seq<char> },
    Return(Seq<char>),
    FSM(Seq<char>),
    State { name: Seq<char>, desc: Seq<char> },
    Transit { from: Seq<char>, to: Seq<char>, desc: Seq<char> },
}

impl View for CommentItem {
    type V = CommentItemV;

    open spec fn view(&self) -> CommentItemV {
        match self {
            CommentItem::Plain(t) => CommentItemV::Plain(t@),
            CommentItem::Brief(t) => CommentItemV::Brief(t@),
            CommentItem::Note(t) => CommentItemV::Note(t@),
            CommentItem::Ref(t) => CommentItemV::Ref(t@),
            CommentItem::See(t) => CommentItemV::See(t@),
            CommentItem::Example(t) => CommentItemV::Example(t@),
            CommentItem::Wave(t) => CommentItemV::Wave(t@),
            CommentItem::Author(t) => CommentItemV::Author(t@),
            CommentItem::Rev { name, desc } => CommentItemV::Rev { name: name@, desc: desc@ },
            CommentItem::Port { name, desc } => CommentItemV::Port { name: name@, desc: desc@ },
            CommentItem::Param { name, desc } => CommentItemV::Param { name: name@, desc: desc@ },
            CommentItem::Return(t) => CommentItemV::Return(t@),
            CommentItem::FSM(t) => CommentItemV::FSM(t@),
            CommentItem::State { name, desc } => CommentItemV::State { name: name@, desc: desc@ },
            CommentItem::Transit { from, to, desc } => CommentItemV::Transit {
                from: from@,
                to: to@,
                desc: desc@,
            },
        }
    }
}

impl DeepView for CommentItem {
    type V = CommentItemV;

    open spec fn deep_view(&self) -> CommentItemV {
        self.view()
    }
}

// ---------------------------------------------------------------------------
// Character classes and low-level scans
// ---------------------------------------------------------------------------

/// The whitespace characters skipped by the line-marker stripper.
pub open spec fn is_space(c: char) -> bool {
    c == ' ' || c == '\t' || c == '\n' || c == '\r'
}

/// First character of an identifier: a letter or underscore.
pub open spec fn is_ident_start(c: char) -> bool {
    ('a' <= c && c <= 'z') || ('A' <= c && c <= 'Z') || c == '_'
}

/// Later characters of an identifier: letters, digits, underscore, `$`.
pub open spec fn is_ident_char(c: char) -> bool {
    is_ident_start(c) || ('0' <= c && c <= '9') || c == '$'
}

/// The index of the first non-whitespace character at or after `i`.
pub open spec fn skip_spaces(s: Seq<char>, i: int) -> int
    decreases s.len() - i,
{
    if i < s.len() && is_space(s[i]) {
        skip_spaces(s, i + 1)
    } else {
        i
    }
}

/// The index just past the run of non-newline characters starting at `i`.
pub open spec fn take_not_nl(s: Seq<char>, i: int) -> int
    decreases s.len() - i,
{
    if i < s.len() && s[i] != '\n' {
        take_not_nl(s, i + 1)
    } else {
        i
    }
}

/// The index just past the run of identifier characters starting at `i`.
pub open spec fn skip_ident_chars(s: Seq<char>, i: int) -> int
    decreases s.len() - i,
{
    if i < s.len() && is_ident_char(s[i]) {
        skip_ident_chars(s, i + 1)
    } else {
        i
    }
}

/// The position after stripping leading whitespace, at most one `*`
/// continuation marker, and the whitespace that follows it.
pub open spec fn after_marker(s: Seq<char>, i: int) -> int {
    let j = skip_spaces(s, i);
    let k = if j < s.len() && s[j] == '*' {
        j + 1
    } else {
        j
    };
    skip_spaces(s, k)
}

/// Whether `t` occurs in `s` starting exactly at position `i`.
pub open spec fn match_at(s: Seq<char>, i: int, t: Seq<char>) -> bool {
    0 <= i && i + t.len() <= s.len() && s.subrange(i, i + t.len()) == t
}

pub proof fn lemma_skip_spaces_bounds(s: Seq<char>, i: int)
    requires
        0 <= i <= s.len(),
    ensures
        i <= skip_spaces(s, i) <= s.len(),
    decreases s.len() - i,
{
    if i < s.len() && is_space(s[i]) {
        lemma_skip_spaces_bounds(s, i + 1);
    }
}

pub proof fn lemma_take_not_nl_bounds(s: Seq<char>, i: int)
    requires
        0 <= i <= s.len(),
    ensures
        i <= take_not_nl(s, i) <= s.len(),
        take_not_nl(s, i) < s.len() ==> s[take_not_nl(s, i)] == '\n',
    decreases s.len() - i,
{
    if i < s.len() && s[i] != '\n' {
        lemma_take_not_nl_bounds(s, i + 1);
    }
}

pub proof fn lemma_skip_ident_bounds(s: Seq<char>, i: int)
    requires
        0 <= i <= s.len(),
    ensures
        i <= skip_ident_chars(s, i) <= s.len(),
    decreases s.len() - i,
{
    if i < s.len() && is_ident_char(s[i]) {
        lemma_skip_ident_bounds(s, i + 1);
    }
}

pub proof fn lemma_after_marker_bounds(s: Seq<char>, i: int)
    requires
        0 <= i <= s.len(),
    ensures
        i <= after_marker(s, i) <= s.len(),
{
    lemma_skip_spaces_bounds(s, i);
    let j = skip_spaces(s, i);
    let k = if j < s.len() && s[j] == '*' {
        j + 1
    } else {
        j
    };
    lemma_skip_spaces_bounds(s, k);
}

// ---------------------------------------------------------------------------
// Tag keywords
// ---------------------------------------------------------------------------

pub open spec fn kw_brief() -> Seq<char> {
    seq!['@', 'b', 'r', 'i', 'e', 'f']
}

pub open spec fn kw_note() -> Seq<char> {
    seq!['@', 'n', 'o', 't', 'e']
}

pub open spec fn kw_ref() -> Seq<char> {
    seq!['@', 'r', 'e', 'f']
}

pub open spec fn kw_see() -> Seq<char> {
    seq!['@', 's', 'e', 'e']
}

pub open spec fn kw_example() -> Seq<char> {
    seq!['@', 'e', 'x', 'a', 'm', 'p', 'l', 'e']
}

pub open spec fn kw_wave() -> Seq<char> {
    seq!['@', 'w', 'a', 'v', 'e']
}

pub open spec fn kw_author() -> Seq<char> {
    seq!['@', 'a', 'u', 't', 'h', 'o', 'r']
}

pub open spec fn kw_return() -> Seq<char> {
    seq!['@', 'r', 'e', 't', 'u', 'r', 'n']
}

pub open spec fn kw_fsm() -> Seq<char> {
    seq!['@', 'f', 's', 'm']
}

pub open spec fn kw_rev() -> Seq<char> {
    seq!['@', 'r', 'e', 'v']
}

pub open spec fn kw_port() -> Seq<char> {
    seq!['@', 'p', 'o', 'r', 't']
}

pub open spec fn kw_param() -> Seq<char> {
    seq!['@', 'p', 'a', 'r', 'a', 'm']
}

pub open spec fn kw_state() -> Seq<char> {
    seq!['@', 's', 't', 'a', 't', 'e']
}

// ---------------------------------------------------------------------------
// Grammar alternatives (each returns the parsed payload and the position
// after the consumed input, or `None` if the alternative does not apply)
// ---------------------------------------------------------------------------

/// A plain text line: marker stripping, then at least one non-newline
/// character, then an optional newline.
pub open spec fn parse_plain_at(s: Seq<char>, i: int) -> Option<(Seq<char>, int)> {
    let j = after_marker(s, i);
    let e = take_not_nl(s, j);
    if e == j {
        None
    } else {
        let np = if e < s.len() {
            e + 1
        } else {
            e
        };
        Some((s.subrange(j, e), np))
    }
}

/// A simple tag `cmd` followed by a space or colon; the payload is the rest
/// of the line (possibly empty), and a trailing newline is consumed.
pub open spec fn parse_tagged_at(s: Seq<char>, i: int, cmd: Seq<char>) -> Option<(Seq<char>, int)> {
    let j = after_marker(s, i);
    if match_at(s, j, cmd) {
        let k = j + cmd.len();
        if k < s.len() && (s[k] == ' ' || s[k] == ':') {
            let p = k + 1;
            let e = take_not_nl(s, p);
            let np = if e < s.len() {
                e + 1
            } else {
                e
            };
            Some((s.subrange(p, e), np))
        } else {
            None
        }
    } else {
        None
    }
}

/// An identifier: a letter or underscore, then the maximal run of identifier
/// characters.
pub open spec fn parse_ident_at(s: Seq<char>, i: int) -> Option<(Seq<char>, int)> {
    if 0 <= i && i < s.len() && is_ident_start(s[i]) {
        let e = skip_ident_chars(s, i);
        Some((s.subrange(i, e), e))
    } else {
        None
    }
}

/// A named tag `cmd`, a space, an identifier, a space or colon, then the
/// payload.
pub open spec fn parse_pair_at(s: Seq<char>, i: int, cmd: Seq<char>) -> Option<
    (Seq<char>, Seq<char>, int),
> {
    let j = after_marker(s, i);
    if match_at(s, j, cmd) {
        let k = j + cmd.len();
        if k < s.len() && s[k] == ' ' {
            match parse_ident_at(s, k + 1) {
                Some(pi) => {
                    let m = pi.1;
                    if m < s.len() && (s[m] == ' ' || s[m] == ':') {
                        let p = m + 1;
                        let e = take_not_nl(s, p);
                        let np = if e < s.len() {
                            e + 1
                        } else {
                            e
                        };
                        Some((pi.0, s.subrange(p, e), np))
                    } else {
                        None
                    }
                },
                None => None,
            }
        } else {
            None
        }
    } else {
        None
    }
}

/// A transition `@<id> -> <id>` followed by a space or colon and the payload;
/// whitespace is allowed around the arrow.
pub open spec fn parse_transit_at(s: Seq<char>, i: int) -> Option<
    (Seq<char>, Seq<char>, Seq<char>, int),
> {
    let j = after_marker(s, i);
    if j < s.len() && s[j] == '@' {
        match parse_ident_at(s, j + 1) {
            Some(pf) => {
                let a = skip_spaces(s, pf.1);
                if match_at(s, a, seq!['-', '>']) {
                    let b = skip_spaces(s, a + 2);
                    match parse_ident_at(s, b) {
                        Some(pt) => {
                            let m = pt.1;
                            if m < s.len() && (s[m] == ' ' || s[m] == ':') {
                                let p = m + 1;
                                let e = take_not_nl(s, p);
                                let np = if e < s.len() {
                                    e + 1
                                } else {
                                    e
                                };
                                Some((pf.0, pt.0, s.subrange(p, e), np))
                            } else {
                                None
                            }
                        },
                        None => None,
                    }
                } else {
                    None
                }
            },
            None => None,
        }
    } else {
        None
    }
}

// ---------------------------------------------------------------------------
// One comment item: the ordered choice over all alternatives
// ---------------------------------------------------------------------------

pub open spec fn or_item(
    a: Option<(CommentItemV, int)>,
    b: Option<(CommentItemV, int)>,
) -> Option<(CommentItemV, int)> {
    if a is Some {
        a
    } else {
        b
    }
}

pub open spec fn mk_simple(
    r: Option<(Seq<char>, int)>,
    f: spec_fn(Seq<char>) -> CommentItemV,
) -> Option<(CommentItemV, int)> {
    match r {
        Some(p) => Some((f(p.0), p.1)),
        None => None,
    }
}

pub open spec fn mk_pair(
    r: Option<(Seq<char>, Seq<char>, int)>,
    f: spec_fn(Seq<char>, Seq<char>) -> CommentItemV,
) -> Option<(CommentItemV, int)> {
    match r {
        Some(p) => Some((f(p.0, p.1), p.2)),
        None => None,
    }
}

pub open spec fn mk_transit(r: Option<(Seq<char>, Seq<char>, Seq<char>, int)>) -> Option<
    (CommentItemV, int),
> {
    match r {
        Some(p) => Some((CommentItemV::Transit { from: p.0, to: p.1, desc: p.2 }, p.3)),
        None => None,
    }
}

/// One comment item starting at `i`: the alternatives are tried in the listed
/// order and the first that applies wins; a plain line is the catch-all.
pub open spec fn item_at(s: Seq<char>, i: int) -> Option<(CommentItemV, int)> {
    or_item(
        mk_simple(parse_tagged_at(s, i, kw_brief()), |t: Seq<char>| CommentItemV::Brief(t)),
        or_item(
            mk_simple(parse_tagged_at(s, i, kw_note()), |t: Seq<char>| CommentItemV::Note(t)),
            or_item(
                mk_simple(parse_tagged_at(s, i, kw_ref()), |t: Seq<char>| CommentItemV::Ref(t)),
                or_item(
                    mk_simple(parse_tagged_at(s, i, kw_see()), |t: Seq<char>| CommentItemV::See(t)),
                    or_item(
                        mk_simple(
                            parse_tagged_at(s, i, kw_example()),
                            |t: Seq<char>| CommentItemV::Example(t),
                        ),
                        or_item(
                            mk_simple(
                                parse_tagged_at(s, i, kw_wave()),
                                |t: Seq<char>| CommentItemV::Wave(t),
                            ),
                            or_item(
                                mk_simple(
                                    parse_tagged_at(s, i, kw_author()),
                                    |t: Seq<char>| CommentItemV::Author(t),
                                ),
                                or_item(
                                    mk_simple(
                                        parse_tagged_at(s, i, kw_return()),
                                        |t: Seq<char>| CommentItemV::Return(t),
                                    ),
                                    or_item(
                                        mk_simple(
                                            parse_tagged_at(s, i, kw_fsm()),
                                            |t: Seq<char>| CommentItemV::FSM(t),
                                        ),
                                        or_item(
                                            mk_pair(
                                                parse_pair_at(s, i, kw_rev()),
                                                |n: Seq<char>, d: Seq<char>| CommentItemV::Rev {
                                                    name: n,
                                                    desc: d,
                                                },
                                            ),
                                            or_item(
                                                mk_pair(
                                                    parse_pair_at(s, i, kw_port()),
                                                    |n: Seq<char>, d: Seq<char>| CommentItemV::Port {
                                                        name: n,
                                                        desc: d,
                                                    },
                                                ),
                                                or_item(
                                                    mk_pair(
                                                        parse_pair_at(s, i, kw_param()),
                                                        |n: Seq<char>, d: Seq<char>|
                                                            CommentItemV::Param {
                                                                name: n,
                                                                desc: d,
                                                            },
                                                    ),
                                                    or_item(
                                                        mk_pair(
                                                            parse_pair_at(s, i, kw_state()),
                                                            |n: Seq<char>, d: Seq<char>|
                                                                CommentItemV::State {
                                                                    name: n,
                                                                    desc: d,
                                                                },
                                                        ),
                                                        or_item(
                                                            mk_transit(parse_transit_at(s, i)),
                                                            mk_simple(
                                                                parse_plain_at(s, i),
                                                                |t: Seq<char>| CommentItemV::Plain(
                                                                    t,
                                                                ),
                                                            ),
                                                        ),
                                                    ),
                                                ),
                                            ),
                                        ),
                                    ),
                                ),
                            ),
                        ),
                    ),
                ),
            ),
        ),
    )
}

pub proof fn lemma_item_at_advances(s: Seq<char>, i: int)
    requires
        0 <= i <= s.len(),
    ensures
        item_at(s, i) matches Some(p) ==> i < p.1 <= s.len(),
{
    lemma_after_marker_bounds(s, i);
    let j = after_marker(s, i);
    lemma_take_not_nl_bounds(s, j);
    assert forall|cmd: Seq<char>|
        cmd.len() >= 1 && (#[trigger] parse_tagged_at(s, i, cmd)) is Some implies i
        < (parse_tagged_at(s, i, cmd)->Some_0).1 <= s.len() by {
        let k = j + cmd.len();
        lemma_take_not_nl_bounds(s, k + 1);
    };
    assert forall|cmd: Seq<char>|
        cmd.len() >= 1 && (#[trigger] parse_pair_at(s, i, cmd)) is Some implies i
        < (parse_pair_at(s, i, cmd)->Some_0).2 <= s.len() by {
        let k = j + cmd.len();
        if match_at(s, j, cmd) && k < s.len() && s[k] == ' ' {
            if parse_ident_at(s, k + 1) is Some {
                let pi = parse_ident_at(s, k + 1)->Some_0;
                lemma_skip_ident_bounds(s, k + 1);
                lemma_take_not_nl_bounds(s, pi.1 + 1);
            }
        }
    };
    if parse_transit_at(s, i) is Some {
        lemma_skip_ident_bounds(s, j + 1);
        if parse_ident_at(s, j + 1) is Some {
            let pf = parse_ident_at(s, j + 1)->Some_0;
            lemma_skip_spaces_bounds(s, pf.1);
            let a = skip_spaces(s, pf.1);
            lemma_skip_spaces_bounds(s, a + 2);
            let b = skip_spaces(s, a + 2);
            if parse_ident_at(s, b) is Some {
                let pt = parse_ident_at(s, b)->Some_0;
                lemma_skip_ident_bounds(s, b);
                lemma_take_not_nl_bounds(s, pt.1 + 1);
            }
        }
    }
    assert(kw_brief().len() >= 1);
    assert(kw_note().len() >= 1);
    assert(kw_ref().len() >= 1);
    assert(kw_see().len() >= 1);
    assert(kw_example().len() >= 1);
    assert(kw_wave().len() >= 1);
    assert(kw_author().len() >= 1);
    assert(kw_return().len() >= 1);
    assert(kw_fsm().len() >= 1);
    assert(kw_rev().len() >= 1);
    assert(kw_port().len() >= 1);
    assert(kw_param().len() >= 1);
    assert(kw_state().len() >= 1);
}

// ---------------------------------------------------------------------------
// Item sequences, block comments, post-processing
// ---------------------------------------------------------------------------

/// All items parsed from position `i` on, until no alternative applies.
pub open spec fn items_from(s: Seq<char>, i: int) -> Seq<CommentItemV>
    decreases s.len() - i when 0 <= i <= s.len() via items_from_decreases
{
    match item_at(s, i) {
        Some(p) => seq![p.0] + items_from(s, p.1),
        None => seq![],
    }
}

#[via_fn]
proof fn items_from_decreases(s: Seq<char>, i: int) {
    lemma_item_at_advances(s, i);
}

/// The position of the first `*/` at or after `i`, if any.
pub open spec fn find_close(s: Seq<char>, i: int) -> Option<int>
    decreases s.len() - i,
{
    if i + 2 <= s.len() {
        if s[i] == '*' && s[i + 1] == '/' {
            Some(i)
        } else {
            find_close(s, i + 1)
        }
    } else {
        None
    }
}

pub proof fn lemma_find_close_bounds(s: Seq<char>, i: int)
    requires
        0 <= i,
    ensures
        find_close(s, i) matches Some(k) ==> i <= k && k + 2 <= s.len(),
    decreases s.len() - i,
{
    if i + 2 <= s.len() && !(s[i] == '*' && s[i + 1] == '/') {
        lemma_find_close_bounds(s, i + 1);
    }
}

/// Appends `t` to an item's growable text payload (for pair-shaped items,
/// to the description).
pub open spec fn append_text_v(it: CommentItemV, t: Seq<char>) -> CommentItemV {
    match it {
        CommentItemV::Plain(x) => CommentItemV::Plain(x + t),
        CommentItemV::Brief(x) => CommentItemV::Brief(x + t),
        CommentItemV::Note(x) => CommentItemV::Note(x + t),
        CommentItemV::Ref(x) => CommentItemV::Ref(x + t),
        CommentItemV::See(x) => CommentItemV::See(x + t),
        CommentItemV::Example(x) => CommentItemV::Example(x + t),
        CommentItemV::Wave(x) => CommentItemV::Wave(x + t),
        CommentItemV::Author(x) => CommentItemV::Author(x + t),
        CommentItemV::Rev { name, desc } => CommentItemV::Rev { name, desc: desc + t },
        CommentItemV::Port { name, desc } => CommentItemV::Port { name, desc: desc + t },
        CommentItemV::Param { name, desc } => CommentItemV::Param { name, desc: desc + t },
        CommentItemV::Return(x) => CommentItemV::Return(x + t),
        CommentItemV::FSM(x) => CommentItemV::FSM(x + t),
        CommentItemV::State { name, desc } => CommentItemV::State { name, desc: desc + t },
        CommentItemV::Transit { from, to, desc } => CommentItemV::Transit {
            from,
            to,
            desc: desc + t,
        },
    }
}

/// Folds plain-text items into their predecessor: a `Plain` item's text is
/// appended (after a newline) to the item before it in the result; a `Plain`
/// item with no predecessor becomes a `Brief` (implicit summary).
pub open spec fn post_process_v(v: Seq<CommentItemV>) -> Seq<CommentItemV>
    decreases v.len(),
{
    if v.len() == 0 {
        seq![]
    } else {
        let prev = post_process_v(v.drop_last());
        match v.last() {
            CommentItemV::Plain(t) => {
                if prev.len() == 0 {
                    seq![CommentItemV::Brief(t)]
                } else {
                    prev.update(
                        prev.len() - 1,
                        append_text_v(append_text_v(prev.last(), seq!['\n']), t),
                    )
                }
            },
            it => prev.push(it),
        }
    }
}

/// The item sequence of one whole comment, before post-processing: a `//*`
/// comment yields its one item; a `/** ... */` comment yields the items of
/// the text up to the first `*/`; anything else yields nothing.
pub open spec fn raw_items(s: Seq<char>) -> Seq<CommentItemV> {
    if match_at(s, 0, seq!['/', '/', '*']) {
        match item_at(s, 3) {
            Some(p) => seq![p.0],
            None => seq![],
        }
    } else if match_at(s, 0, seq!['/', '*', '*']) {
        match find_close(s, 3) {
            Some(k) => items_from(s.subrange(3, k), 0),
            None => seq![],
        }
    } else {
        seq![]
    }
}

/// What [`parse_comment`] returns: the comment's items, post-processed.
pub open spec fn spec_parse_comment(s: Seq<char>) -> Seq<CommentItemV> {
    post_process_v(raw_items(s))
}

// ---------------------------------------------------------------------------
// Laws of the post-processor
// ---------------------------------------------------------------------------

/// Post-processing leaves no plain-text item in the result: each one has been
/// folded into its predecessor or promoted to a summary.
pub proof fn lemma_post_process_no_plain(v: Seq<CommentItemV>)
    ensures
        forall|k: int|
            0 <= k < post_process_v(v).len() ==> !((#[trigger] post_process_v(v)[k]) is Plain),
    decreases v.len(),
{
    if v.len() > 0 {
        lemma_post_process_no_plain(v.drop_last());
        let prev = post_process_v(v.drop_last());
        match v.last() {
            CommentItemV::Plain(t) => {
                if prev.len() > 0 {
                    assert(!(prev.last() is Plain));
                    assert(!(append_text_v(append_text_v(prev.last(), seq!['\n']), t) is Plain));
                }
            },
            _ => {},
        }
    }
}

/// Post-processing a sequence without plain-text items changes nothing.
pub proof fn lemma_post_process_fixed_point(v: Seq<CommentItemV>)
    requires
        forall|k: int| 0 <= k < v.len() ==> !((#[trigger] v[k]) is Plain),
    ensures
        post_process_v(v) == v,
    decreases v.len(),
{
    if v.len() > 0 {
        lemma_post_process_fixed_point(v.drop_last());
        assert(!(v.last() is Plain));
        assert(post_process_v(v) =~= v);
    }
}

/// Idempotence: running the post-processor on its own output is a no-op.
pub proof fn lemma_post_process_idempotent(v: Seq<CommentItemV>)
    ensures
        post_process_v(post_process_v(v)) == post_process_v(v),
{
    lemma_post_process_no_plain(v);
    lemma_post_process_fixed_point(post_process_v(v));
}

/// The plain payloads of `v`, joined with newline separators.
pub open spec fn joined_plain_text(v: Seq<CommentItemV>) -> Seq<char>
    decreases v.len(),
{
    if v.len() == 0 {
        seq![]
    } else if v.len() == 1 {
        v[0]->Plain_0
    } else {
        joined_plain_text(v.drop_last()) + seq!['\n'] + (v.last()->Plain_0)
    }
}

/// A non-empty run of plain-text items folds to exactly one summary item
/// holding the texts joined with newlines.
pub proof fn lemma_all_plain_folds_to_single_summary(v: Seq<CommentItemV>)
    requires
        v.len() > 0,
        forall|k: int| 0 <= k < v.len() ==> (#[trigger] v[k]) is Plain,
    ensures
        post_process_v(v) =~= seq![CommentItemV::Brief(joined_plain_text(v))],
    decreases v.len(),
{
    let t = v.last()->Plain_0;
    if v.len() == 1 {
        assert(v.drop_last() =~= Seq::<CommentItemV>::empty());
        assert(post_process_v(v.drop_last()) =~= Seq::<CommentItemV>::empty());
        assert(post_process_v(v) =~= seq![CommentItemV::Brief(t)]);
    } else {
        lemma_all_plain_folds_to_single_summary(v.drop_last());
        let j = joined_plain_text(v.drop_last());
        let prev = post_process_v(v.drop_last());
        assert(prev =~= seq![CommentItemV::Brief(j)]);
        assert(prev.last() == CommentItemV::Brief(j));
        assert(append_text_v(append_text_v(prev.last(), seq!['\n']), t) == CommentItemV::Brief(
            j + seq!['\n'] + t,
        ));
        assert(joined_plain_text(v) == j + seq!['\n'] + t);
        assert(post_process_v(v) =~= prev.update(0, CommentItemV::Brief(j + seq!['\n'] + t)));
        assert(post_process_v(v) =~= seq![CommentItemV::Brief(joined_plain_text(v))]);
    }
}

/// Plain-comment round trip: a comment none of whose lines matches any tag
/// (its raw items are all plain text) yields exactly one summary item, whose
/// text is the marker-stripped lines joined with newlines.
pub proof fn lemma_plain_comment_round_trip(s: Seq<char>)
    requires
        raw_items(s).len() > 0,
        forall|k: int| 0 <= k < raw_items(s).len() ==> (#[trigger] raw_items(s)[k]) is Plain,
    ensures
        spec_parse_comment(s) =~= seq![CommentItemV::Brief(joined_plain_text(raw_items(s)))],
{
    lemma_all_plain_folds_to_single_summary(raw_items(s));
}

// ---------------------------------------------------------------------------
// Executable scanners
// ---------------------------------------------------------------------------

fn is_space_c(c: char) -> (b: bool)
    ensures
        b == is_space(c),
{
    c == ' ' || c == '\t' || c == '\n' || c == '\r'
}

fn is_ident_start_c(c: char) -> (b: bool)
    ensures
        b == is_ident_start(c),
{
    ('a' <= c && c <= 'z') || ('A' <= c && c <= 'Z') || c == '_'
}

fn is_ident_char_c(c: char) -> (b: bool)
    ensures
        b == is_ident_char(c),
{
    is_ident_start_c(c) || ('0' <= c && c <= '9') || c == '$'
}

fn scan_spaces(v: &Vec<char>, i: usize) -> (r: usize)
    requires
        i <= v@.len(),
    ensures
        r as int == skip_spaces(v@, i as int),
        i <= r <= v@.len(),
{
    let mut j = i;
    while j < v.len() && is_space_c(v[j])
        invariant
            i <= j <= v@.len(),
            skip_spaces(v@, i as int) == skip_spaces(v@, j as int),
        decreases v@.len() - j,
    {
        j = j + 1;
    }
    j
}

fn scan_not_nl(v: &Vec<char>, i: usize) -> (r: usize)
    requires
        i <= v@.len(),
    ensures
        r as int == take_not_nl(v@, i as int),
        i <= r <= v@.len(),
{
    let mut j = i;
    while j < v.len() && v[j] != '\n'
        invariant
            i <= j <= v@.len(),
            take_not_nl(v@, i as int) == take_not_nl(v@, j as int),
        decreases v@.len() - j,
    {
        j = j + 1;
    }
    j
}

fn scan_ident_chars(v: &Vec<char>, i: usize) -> (r: usize)
    requires
        i <= v@.len(),
    ensures
        r as int == skip_ident_chars(v@, i as int),
        i <= r <= v@.len(),
{
    let mut j = i;
    while j < v.len() && is_ident_char_c(v[j])
        invariant
            i <= j <= v@.len(),
            skip_ident_chars(v@, i as int) == skip_ident_chars(v@, j as int),
        decreases v@.len() - j,
    {
        j = j + 1;
    }
    j
}

fn scan_after_marker(v: &Vec<char>, i: usize) -> (r: usize)
    requires
        i <= v@.len(),
    ensures
        r as int == after_marker(v@, i as int),
        i <= r <= v@.len(),
{
    let j = scan_spaces(v, i);
    let k = if j < v.len() && v[j] == '*' {
        j + 1
    } else {
        j
    };
    scan_spaces(v, k)
}

fn match_seq(v: &Vec<char>, i: usize, pat: &Vec<char>) -> (b: bool)
    requires
        i <= v@.len(),
    ensures
        b == match_at(v@, i as int, pat@),
{
    if pat.len() > v.len() - i {
        return false;
    }
    let mut m: usize = 0;
    while m < pat.len()
        invariant
            0 <= m <= pat@.len(),
            i + pat@.len() <= v@.len(),
            forall|t: int| 0 <= t < m ==> v@[i + t] == pat@[t],
        decreases pat@.len() - m,
    {
        if v[i + m] != pat[m] {
            proof {
                assert(v@.subrange(i as int, i + pat@.len())[m as int] == v@[i + m]);
            }
            return false;
        }
        m = m + 1;
    }
    proof {
        assert(v@.subrange(i as int, i + pat@.len()) =~= pat@);
    }
    true
}

fn scan_plain(v: &Vec<char>, i: usize) -> (r: Option<(String, usize)>)
    requires
        i <= v@.len(),
    ensures
        r is Some <==> parse_plain_at(v@, i as int) is Some,
        r matches Some(p) ==> ({
            let q = parse_plain_at(v@, i as int)->Some_0;
            p.0@ == q.0 && p.1 as int == q.1
        }),
{
    let j = scan_after_marker(v, i);
    let e = scan_not_nl(v, j);
    if e == j {
        None
    } else {
        let np = if e < v.len() {
            e + 1
        } else {
            e
        };
        Some((string_from_range(v, j, e), np))
    }
}

fn scan_tagged(v: &Vec<char>, i: usize, pat: &Vec<char>) -> (r: Option<(String, usize)>)
    requires
        i <= v@.len(),
    ensures
        r is Some <==> parse_tagged_at(v@, i as int, pat@) is Some,
        r matches Some(p) ==> ({
            let q = parse_tagged_at(v@, i as int, pat@)->Some_0;
            p.0@ == q.0 && p.1 as int == q.1
        }),
{
    let j = scan_after_marker(v, i);
    if !match_seq(v, j, pat) {
        return None;
    }
    let n = v.len();
    assert(j + pat@.len() <= n);
    let k = j + pat.len();
    if k < v.len() {
        let c = v[k];
        if c == ' ' || c == ':' {
            let p = k + 1;
            let e = scan_not_nl(v, p);
            let np = if e < v.len() {
                e + 1
            } else {
                e
            };
            return Some((string_from_range(v, p, e), np));
        }
    }
    None
}

fn scan_ident(v: &Vec<char>, i: usize) -> (r: Option<(String, usize)>)
    requires
        i <= v@.len(),
    ensures
        r is Some <==> parse_ident_at(v@, i as int) is Some,
        r matches Some(p) ==> ({
            let q = parse_ident_at(v@, i as int)->Some_0;
            p.0@ == q.0 && p.1 as int == q.1 && i <= p.1 <= v@.len()
        }),
{
    if i < v.len() && is_ident_start_c(v[i]) {
        let e = scan_ident_chars(v, i);
        Some((string_from_range(v, i, e), e))
    } else {
        None
    }
}

fn scan_pair(v: &Vec<char>, i: usize, pat: &Vec<char>) -> (r: Option<(String, String, usize)>)
    requires
        i <= v@.len(),
    ensures
        r is Some <==> parse_pair_at(v@, i as int, pat@) is Some,
        r matches Some(p) ==> ({
            let q = parse_pair_at(v@, i as int, pat@)->Some_0;
            p.0@ == q.0 && p.1@ == q.1 && p.2 as int == q.2
        }),
{
    let j = scan_after_marker(v, i);
    if !match_seq(v, j, pat) {
        return None;
    }
    let n = v.len();
    assert(j + pat@.len() <= n);
    let k = j + pat.len();
    if k < v.len() && v[k] == ' ' {
        match scan_ident(v, k + 1) {
            Some((name, m)) => {
                if m < v.len() {
                    let c = v[m];
                    if c == ' ' || c == ':' {
                        let p = m + 1;
                        let e = scan_not_nl(v, p);
                        let np = if e < v.len() {
                            e + 1
                        } else {
                            e
                        };
                        return Some((name, string_from_range(v, p, e), np));
                    }
                }
                None
            },
            None => None,
        }
    } else {
        None
    }
}

fn scan_transit(v: &Vec<char>, i: usize) -> (r: Option<(String, String, String, usize)>)
    requires
        i <= v@.len(),
    ensures
        r is Some <==> parse_transit_at(v@, i as int) is Some,
        r matches Some(p) ==> ({
            let q = parse_transit_at(v@, i as int)->Some_0;
            p.0@ == q.0 && p.1@ == q.1 && p.2@ == q.2 && p.3 as int == q.3
        }),
{
    let j = scan_after_marker(v, i);
    if j < v.len() && v[j] == '@' {
        match scan_ident(v, j + 1) {
            Some((from, a0)) => {
                let a = scan_spaces(v, a0);
                let arrow = vec!['-', '>'];
                assert(arrow@ =~= seq!['-', '>']);
                if !match_seq(v, a, &arrow) {
                    return None;
                }
                let b = scan_spaces(v, a + 2);
                match scan_ident(v, b) {
                    Some((to, m)) => {
                        if m < v.len() {
                            let c = v[m];
                            if c == ' ' || c == ':' {
                                let p = m + 1;
                                let e = scan_not_nl(v, p);
                                let np = if e < v.len() {
                                    e + 1
                                } else {
                                    e
                                };
                                return Some((from, to, string_from_range(v, p, e), np));
                            }
                        }
                        None
                    },
                    None => None,
                }
            },
            None => None,
        }
    } else {
        None
    }
}

/// Scans one comment item at position `i`, trying the grammar's alternatives
/// in order.
#[verifier::rlimit(30)]
fn scan_item(v: &Vec<char>, i: usize) -> (r: Option<(CommentItem, usize)>)
    requires
        i <= v@.len(),
    ensures
        r is Some <==> item_at(v@, i as int) is Some,
        r matches Some(p) ==> ({
            let q = item_at(v@, i as int)->Some_0;
            p.0@ == q.0 && p.1 as int == q.1 && i < p.1 <= v@.len()
        }),
{
    proof {
        lemma_item_at_advances(v@, i as int);
    }
    let pat = vec!['@', 'b', 'r', 'i', 'e', 'f'];
    assert(pat@ =~= kw_brief());
    if let Some((t, n)) = scan_tagged(v, i, &pat) {
        return Some((CommentItem::Brief(t), n));
    }
    let pat = vec!['@', 'n', 'o', 't', 'e'];
    assert(pat@ =~= kw_note());
    if let Some((t, n)) = scan_tagged(v, i, &pat) {
        return Some((CommentItem::Note(t), n));
    }
    let pat = vec!['@', 'r', 'e', 'f'];
    assert(pat@ =~= kw_ref());
    if let Some((t, n)) = scan_tagged(v, i, &pat) {
        return Some((CommentItem::Ref(t), n));
    }
    let pat = vec!['@', 's', 'e', 'e'];
    assert(pat@ =~= kw_see());
    if let Some((t, n)) = scan_tagged(v, i, &pat) {
        return Some((CommentItem::See(t), n));
    }
    let pat = vec!['@', 'e', 'x', 'a', 'm', 'p', 'l', 'e'];
    assert(pat@ =~= kw_example());
    if let Some((t, n)) = scan_tagged(v, i, &pat) {
        return Some((CommentItem::Example(t), n));
    }
    let pat = vec!['@', 'w', 'a', 'v', 'e'];
    assert(pat@ =~= kw_wave());
    if let Some((t, n)) = scan_tagged(v, i, &pat) {
        return Some((CommentItem::Wave(t), n));
    }
    let pat = vec!['@', 'a', 'u', 't', 'h', 'o', 'r'];
    assert(pat@ =~= kw_author());
    if let Some((t, n)) = scan_tagged(v, i, &pat) {
        return Some((CommentItem::Author(t), n));
    }
    let pat = vec!['@', 'r', 'e', 't', 'u', 'r', 'n'];
    assert(pat@ =~= kw_return());
    if let Some((t, n)) = scan_tagged(v, i, &pat) {
        return Some((CommentItem::Return(t), n));
    }
    let pat = vec!['@', 'f', 's', 'm'];
    assert(pat@ =~= kw_fsm());
    if let Some((t, n)) = scan_tagged(v, i, &pat) {
        return Some((CommentItem::FSM(t), n));
    }
    let pat = vec!['@', 'r', 'e', 'v'];
    assert(pat@ =~= kw_rev());
    if let Some((name, desc, n)) = scan_pair(v, i, &pat) {
        return Some((CommentItem::Rev { name, desc }, n));
    }
    let pat = vec!['@', 'p', 'o', 'r', 't'];
    assert(pat@ =~= kw_port());
    if let Some((name, desc, n)) = scan_pair(v, i, &pat) {
        return Some((CommentItem::Port { name, desc }, n));
    }
    let pat = vec!['@', 'p', 'a', 'r', 'a', 'm'];
    assert(pat@ =~= kw_param());
    if let Some((name, desc, n)) = scan_pair(v, i, &pat) {
        return Some((CommentItem::Param { name, desc }, n));
    }
    let pat = vec!['@', 's', 't', 'a', 't', 'e'];
    assert(pat@ =~= kw_state());
    if let Some((name, desc, n)) = scan_pair(v, i, &pat) {
        return Some((CommentItem::State { name, desc }, n));
    }
    if let Some((from, to, desc, n)) = scan_transit(v, i) {
        return Some((CommentItem::Transit { from, to, desc }, n));
    }
    if let Some((t, n)) = scan_plain(v, i) {
        return Some((CommentItem::Plain(t), n));
    }
    None
}

/// Scans all items of a block comment's inner text.
fn scan_items(v: &Vec<char>) -> (r: Vec<CommentItem>)
    ensures
        r.deep_view() == items_from(v@, 0),
{
    let mut r: Vec<CommentItem> = Vec::new();
    let mut i: usize = 0;
    loop
        invariant
            i <= v@.len(),
            items_from(v@, 0) =~= r.deep_view() + items_from(v@, i as int),
        decreases v@.len() - i,
    {
        let ghost old_r = r.deep_view();
        match scan_item(v, i) {
            Some((it, n)) => {
                proof {
                    assert(items_from(v@, i as int) =~= seq![it.deep_view()] + items_from(
                        v@,
                        n as int,
                    ));
                }
                r.push(it);
                proof {
                    assert(r.deep_view() =~= old_r.push(it.deep_view()));
                    assert(r.deep_view() + items_from(v@, n as int) =~= old_r + (seq![
                        it.deep_view(),
                    ] + items_from(v@, n as int)));
                }
                i = n;
            },
            None => {
                break;
            },
        }
    }
    assert(items_from(v@, i as int) =~= Seq::<CommentItemV>::empty());
    assert(r.deep_view() =~= items_from(v@, 0));
    r
}

fn scan_close(v: &Vec<char>, i: usize) -> (r: Option<usize>)
    requires
        i <= v@.len(),
    ensures
        r is Some <==> find_close(v@, i as int) is Some,
        r matches Some(k) ==> k as int == find_close(v@, i as int)->Some_0,
        r matches Some(k) ==> i <= k && k + 2 <= v@.len(),
{
    proof {
        lemma_find_close_bounds(v@, i as int);
    }
    let mut j = i;
    loop
        invariant
            i <= j <= v@.len(),
            find_close(v@, i as int) == find_close(v@, j as int),
        decreases v@.len() - j,
    {
        if j < v.len() && j + 1 < v.len() {
            if v[j] == '*' && v[j + 1] == '/' {
                return Some(j);
            }
            j = j + 1;
        } else {
            return None;
        }
    }
}

impl CommentItem {
    /// Appends `s` to this item's growable text payload.
    pub fn append_str(self, s: &str) -> (r: Self)
        ensures
            r@ == append_text_v(self@, s@),
    {
        match self {
            CommentItem::Plain(mut x) => {
                x.append(s);
                CommentItem::Plain(x)
            },
            CommentItem::Brief(mut x) => {
                x.append(s);
                CommentItem::Brief(x)
            },
            CommentItem::Note(mut x) => {
                x.append(s);
                CommentItem::Note(x)
            },
            CommentItem::Ref(mut x) => {
                x.append(s);
                CommentItem::Ref(x)
            },
            CommentItem::See(mut x) => {
                x.append(s);
                CommentItem::See(x)
            },
            CommentItem::Example(mut x) => {
                x.append(s);
                CommentItem::Example(x)
            },
            CommentItem::Wave(mut x) => {
                x.append(s);
                CommentItem::Wave(x)
            },
            CommentItem::Author(mut x) => {
                x.append(s);
                CommentItem::Author(x)
            },
            CommentItem::Rev { name, mut desc } => {
                desc.append(s);
                CommentItem::Rev { name, desc }
            },
            CommentItem::Port { name, mut desc } => {
                desc.append(s);
                CommentItem::Port { name, desc }
            },
            CommentItem::Param { name, mut desc } => {
                desc.append(s);
                CommentItem::Param { name, desc }
            },
            CommentItem::Return(mut x) => {
                x.append(s);
                CommentItem::Return(x)
            },
            CommentItem::FSM(mut x) => {
                x.append(s);
                CommentItem::FSM(x)
            },
            CommentItem::State { name, mut desc } => {
                desc.append(s);
                CommentItem::State { name, desc }
            },
            CommentItem::Transit { from, to, mut desc } => {
                desc.append(s);
                CommentItem::Transit { from, to, desc }
            },
        }
    }
}

/// Folds the raw item sequence: each plain-text line is appended to the item
/// before it, and a leading plain-text run becomes the implicit summary.
pub fn post_process(v: Vec<CommentItem>) -> (r: Vec<CommentItem>)
    ensures
        r.deep_view() == post_process_v(v.deep_view()),
    decreases v@.len(),
{
    let mut v = v;
    let ghost orig = v.deep_view();
    match v.pop() {
        None => {
            let r: Vec<CommentItem> = Vec::new();
            assert(r.deep_view() =~= post_process_v(orig));
            r
        },
        Some(item) => {
            proof {
                assert(v.deep_view() =~= orig.drop_last());
                assert(item.deep_view() == orig.last());
            }
            let mut r = post_process(v);
            let ghost prev = post_process_v(orig.drop_last());
            match item {
                CommentItem::Plain(x) => {
                    match r.pop() {
                        Some(last) => {
                            proof {
                                assert(last.deep_view() == prev.last());
                                reveal_strlit("\n");
                                assert("\n"@ =~= seq!['\n']);
                            }
                            let ghost popped = r.deep_view();
                            let last = last.append_str("\n");
                            let last = last.append_str(x.as_str());
                            r.push(last);
                            proof {
                                assert(popped =~= prev.drop_last());
                                assert(r.deep_view() =~= prev.drop_last().push(last.deep_view()));
                                assert(r.deep_view() =~= post_process_v(orig));
                            }
                        },
                        None => {
                            r.push(CommentItem::Brief(x));
                            proof {
                                assert(prev.len() == 0);
                                assert(r.deep_view() =~= post_process_v(orig));
                            }
                        },
                    }
                },
                other => {
                    let ghost before = r.deep_view();
                    r.push(other);
                    proof {
                        assert(!(orig.last() is Plain));
                        assert(r.deep_view() =~= before.push(other.deep_view()));
                        assert(r.deep_view() =~= post_process_v(orig));
                    }
                },
            }
            r
        },
    }
}

/// Parses the full text of one comment (delimiters included) into its
/// post-processed annotation items; text that is not a recognized comment
/// yields no items.
pub fn parse_comment(comment_str: &str) -> (r: Vec<CommentItem>)
    ensures
        r.deep_view() == spec_parse_comment(comment_str@),
{
    let chars = str_chars(comment_str);
    let oneline_pat = vec!['/', '/', '*'];
    assert(oneline_pat@ =~= seq!['/', '/', '*']);
    let block_pat = vec!['/', '*', '*'];
    assert(block_pat@ =~= seq!['/', '*', '*']);
    if match_seq(&chars, 0, &oneline_pat) {
        match scan_item(&chars, 3) {
            Some((it, _n)) => {
                let items = vec![it];
                assert(items.deep_view() =~= raw_items(comment_str@));
                post_process(items)
            },
            None => {
                let r: Vec<CommentItem> = Vec::new();
                assert(r.deep_view() =~= spec_parse_comment(comment_str@));
                r
            },
        }
    } else if match_seq(&chars, 0, &block_pat) {
        match scan_close(&chars, 3) {
            Some(k) => {
                let inner = crate::text::chars_range(&chars, 3, k);
                let items = scan_items(&inner);
                assert(items.deep_view() == raw_items(comment_str@));
                post_process(items)
            },
            None => {
                let r: Vec<CommentItem> = Vec::new();
                assert(r.deep_view() =~= spec_parse_comment(comment_str@));
                r
            },
        }
    } else {
        let r: Vec<CommentItem> = Vec::new();
        assert(r.deep_view() =~= spec_parse_comment(comment_str@));
        r
    }
}

} // verus!
