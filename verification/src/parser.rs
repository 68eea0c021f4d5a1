//! The source-text grammar.
//!
//! A source unit is a sequence of lines: `NAME = VALUE` defines,
//! `#NAME ARG...` macro invocations, `NAME ARG...` calls, and
//! `NAME ARG... =` headers followed by an indented block of statements.
//! `;` starts a comment running to the end of the line.  An identifier is
//! any run of non-whitespace characters other than `=` and `;`.
//!
//! Parsing works on character indices.  Each rule is mirrored by a spec
//! function over the character sequence; an alternative that fails to
//! match leaves the cursor where it was and the next alternative is
//! tried, so the executable functions simply return the cursor alongside
//! their result.

use vstd::prelude::*;
use vstd::string::StrSliceExecFns;

use crate::ast::{
    idents_view, items_view, stmts_view, Calling, CallingV, Define, DefineV, Function, FunctionV,
    Ident, IdentV, Item, ItemV, Macro, MacroV, Span, Stmt, StmtV,
};

verus! {

/// Why a piece of text failed to parse.
#[derive(Debug, Clone, Copy, PartialEq, Eq, Structural)]
pub enum ParseIssue {
    /// A specific character was expected here.
    ExpectedChar(char),
    /// An identifier was expected here.
    ExpectedIdent,
    /// The line should have ended here.
    ExpectedEol,
    /// A tab or four whitespace characters of indentation were expected.
    ExpectedIndent,
    /// No item form matches here.
    InvalidSyntax,
}

/// A parse failure, with the character range it points at.
#[derive(Debug, Clone, Copy, PartialEq, Eq, Structural)]
pub struct ParseFault {
    pub issue: ParseIssue,
    pub location: Span,
}

/// Whitespace as the identifier rule sees it: the White_Space characters.
pub open spec fn is_ws_char(c: char) -> bool {
    let u = c as u32;
    ||| u == 9
    ||| u == 10
    ||| u == 11
    ||| u == 12
    ||| u == 13
    ||| u == 32
    ||| u == 0x85
    ||| u == 0xA0
    ||| u == 0x1680
    ||| (0x2000 <= u && u <= 0x200A)
    ||| u == 0x2028
    ||| u == 0x2029
    ||| u == 0x202F
    ||| u == 0x205F
    ||| u == 0x3000
}

/// Whitespace that may sit inside a line: ASCII whitespace except newline.
pub open spec fn is_inline_ws(c: char) -> bool {
    let u = c as u32;
    u == 9 || u == 12 || u == 13 || u == 32
}

/// A character an identifier may contain.
pub open spec fn is_ident_char(c: char) -> bool {
    !is_ws_char(c) && c != '=' && c != ';'
}

/// The cursor after any inline whitespace at `i`.
pub open spec fn skip_ws_spec(s: Seq<char>, i: int) -> int
    decreases s.len() - i,
    when 0 <= i <= s.len()
{
    if i < s.len() && is_inline_ws(s[i]) {
        skip_ws_spec(s, i + 1)
    } else {
        i
    }
}

/// The end of the identifier-character run starting at `i`.
pub open spec fn ident_end_spec(s: Seq<char>, i: int) -> int
    decreases s.len() - i,
    when 0 <= i <= s.len()
{
    if i < s.len() && is_ident_char(s[i]) {
        ident_end_spec(s, i + 1)
    } else {
        i
    }
}

/// The cursor after the rest of the line, and whether the end of input was
/// reached instead of a newline.
pub open spec fn after_line_spec(s: Seq<char>, i: int) -> (int, bool)
    decreases s.len() - i,
    when 0 <= i <= s.len()
{
    if i >= s.len() {
        (i, true)
    } else if s[i] == '\n' {
        (i + 1, false)
    } else {
        after_line_spec(s, i + 1)
    }
}

proof fn lemma_skip_ws(s: Seq<char>, i: int)
    requires
        0 <= i <= s.len(),
    ensures
        i <= skip_ws_spec(s, i) <= s.len(),
    decreases s.len() - i,
{
    if i < s.len() && is_inline_ws(s[i]) {
        lemma_skip_ws(s, i + 1);
    }
}

proof fn lemma_ident_end(s: Seq<char>, i: int)
    requires
        0 <= i <= s.len(),
    ensures
        i <= ident_end_spec(s, i) <= s.len(),
    decreases s.len() - i,
{
    if i < s.len() && is_ident_char(s[i]) {
        lemma_ident_end(s, i + 1);
    }
}

proof fn lemma_after_line(s: Seq<char>, i: int)
    requires
        0 <= i <= s.len(),
    ensures
        i <= after_line_spec(s, i).0 <= s.len(),
        !after_line_spec(s, i).1 ==> i < after_line_spec(s, i).0,
    decreases s.len() - i,
{
    if i < s.len() && s[i] != '\n' {
        lemma_after_line(s, i + 1);
    }
}

/// A single expected character.
pub open spec fn char_spec(s: Seq<char>, i: int, ch: char) -> Result<int, ParseFault> {
    if i < s.len() && s[i] == ch {
        Ok(i + 1)
    } else {
        Err(
            ParseFault {
                issue: ParseIssue::ExpectedChar(ch),
                location: Span { start: i as usize, end: (i + 1) as usize },
            },
        )
    }
}

/// A `;` comment running to the end of the line; the flag reports end of
/// input instead of a newline.
pub open spec fn comment_spec(s: Seq<char>, i: int) -> Result<(bool, int), ParseFault> {
    match char_spec(s, i, ';') {
        Ok(i2) => {
            let r = after_line_spec(s, i2);
            Ok((r.1, r.0))
        },
        Err(e) => Err(e),
    }
}

/// The end of a line: inline whitespace, then a comment, a newline, or the
/// end of input.  The flag reports that the input itself ended.
pub open spec fn eol_spec(s: Seq<char>, i: int) -> Result<(bool, int), ParseFault> {
    let j = skip_ws_spec(s, i);
    match comment_spec(s, j) {
        Ok(r) => Ok(r),
        Err(_) => {
            if j < s.len() && s[j] == '\n' {
                Ok((false, j + 1))
            } else if j >= s.len() {
                Ok((true, j))
            } else {
                Err(
                    ParseFault {
                        issue: ParseIssue::ExpectedEol,
                        location: Span { start: j as usize, end: (j + 1) as usize },
                    },
                )
            }
        },
    }
}

proof fn lemma_eol(s: Seq<char>, i: int)
    requires
        0 <= i <= s.len(),
    ensures
        eol_spec(s, i) matches Ok(r) ==> i <= r.1 <= s.len(),
        eol_spec(s, i) matches Ok(r) ==> (!r.0 ==> i < r.1),
{
    let j = skip_ws_spec(s, i);
    lemma_skip_ws(s, i);
    if j < s.len() && s[j] == ';' {
        lemma_after_line(s, j + 1);
    }
}

/// An identifier, carrying its source-unit name and span.
pub open spec fn ident_spec(s: Seq<char>, buf: Seq<char>, i: int) -> Result<
    (IdentV, int),
    ParseFault,
> {
    let j = skip_ws_spec(s, i);
    let e = ident_end_spec(s, j);
    if e == j {
        Err(
            ParseFault {
                issue: ParseIssue::ExpectedIdent,
                location: Span { start: j as usize, end: (j + 1) as usize },
            },
        )
    } else {
        Ok(
            (
                IdentV {
                    literal: s.subrange(j, e),
                    buf_name: buf,
                    location: Span { start: j as usize, end: e as usize },
                },
                e,
            ),
        )
    }
}

proof fn lemma_ident(s: Seq<char>, buf: Seq<char>, i: int)
    requires
        0 <= i <= s.len(),
    ensures
        ident_spec(s, buf, i) matches Ok(r) ==> i < r.1 <= s.len(),
{
    lemma_skip_ws(s, i);
    lemma_ident_end(s, skip_ws_spec(s, i));
}

/// As many identifiers as follow; never fails.
pub open spec fn args_spec(s: Seq<char>, buf: Seq<char>, i: int) -> (Seq<IdentV>, int)
    decreases s.len() - i,
    when 0 <= i <= s.len()
    via args_spec_decreases
{
    match ident_spec(s, buf, i) {
        Ok(r) => {
            let rest = args_spec(s, buf, r.1);
            (seq![r.0] + rest.0, rest.1)
        },
        Err(_) => (Seq::empty(), i),
    }
}

#[via_fn]
proof fn args_spec_decreases(s: Seq<char>, buf: Seq<char>, i: int) {
    lemma_ident(s, buf, i);
}

proof fn lemma_args(s: Seq<char>, buf: Seq<char>, i: int)
    requires
        0 <= i <= s.len(),
    ensures
        i <= args_spec(s, buf, i).1 <= s.len(),
    decreases s.len() - i,
{
    lemma_ident(s, buf, i);
    if let Ok(r) = ident_spec(s, buf, i) {
        lemma_args(s, buf, r.1);
    }
}

/// One level of indentation: a tab, or four whitespace characters.
pub open spec fn tab_spec(s: Seq<char>, i: int) -> Result<int, ParseFault> {
    if i < s.len() && s[i] == '\t' {
        Ok(i + 1)
    } else if i + 4 <= s.len() && is_ws_char(s[i]) && is_ws_char(s[i + 1]) && is_ws_char(s[i + 2])
        && is_ws_char(s[i + 3]) {
        Ok(i + 4)
    } else {
        Err(
            ParseFault {
                issue: ParseIssue::ExpectedIndent,
                location: Span { start: i as usize, end: (i + 1) as usize },
            },
        )
    }
}

/// A define: `NAME = VALUE`.
pub open spec fn define_spec(s: Seq<char>, buf: Seq<char>, i: int) -> Result<
    (DefineV, int),
    ParseFault,
> {
    match ident_spec(s, buf, i) {
        Ok(name) => {
            let j = skip_ws_spec(s, name.1);
            match char_spec(s, j, '=') {
                Ok(j2) => match ident_spec(s, buf, j2) {
                    Ok(value) => Ok((DefineV { name: name.0, value: value.0 }, value.1)),
                    Err(e) => Err(e),
                },
                Err(e) => Err(e),
            }
        },
        Err(e) => Err(e),
    }
}

/// A call: a called name and its arguments.
pub open spec fn calling_spec(s: Seq<char>, buf: Seq<char>, i: int) -> Result<
    (CallingV, int),
    ParseFault,
> {
    match ident_spec(s, buf, i) {
        Ok(called) => {
            let rest = args_spec(s, buf, called.1);
            Ok((CallingV { called: called.0, args: rest.0 }, rest.1))
        },
        Err(e) => Err(e),
    }
}

/// A macro invocation: `#NAME ARG...`.
pub open spec fn macro_spec(s: Seq<char>, buf: Seq<char>, i: int) -> Result<
    (MacroV, int),
    ParseFault,
> {
    match char_spec(s, i, '#') {
        Ok(i2) => match ident_spec(s, buf, i2) {
            Ok(called) => {
                let rest = args_spec(s, buf, called.1);
                Ok((MacroV { called: called.0, args: rest.0 }, rest.1))
            },
            Err(e) => Err(e),
        },
        Err(e) => Err(e),
    }
}

/// A body statement: a macro invocation, else a call.
pub open spec fn stmt_spec(s: Seq<char>, buf: Seq<char>, i: int) -> Result<
    (StmtV, int),
    ParseFault,
> {
    match macro_spec(s, buf, i) {
        Ok(m) => Ok((StmtV::Macro(m.0), m.1)),
        Err(_) => match calling_spec(s, buf, i) {
            Ok(c) => Ok((StmtV::Calling(c.0), c.1)),
            Err(e) => Err(e),
        },
    }
}

/// One indented body line: indentation, a statement, the end of the line.
pub open spec fn body_line_spec(s: Seq<char>, buf: Seq<char>, i: int) -> Result<
    (StmtV, int),
    ParseFault,
> {
    match tab_spec(s, i) {
        Ok(i2) => match stmt_spec(s, buf, i2) {
            Ok(st) => match eol_spec(s, st.1) {
                Ok(r) => Ok((st.0, r.1)),
                Err(e) => Err(e),
            },
            Err(e) => Err(e),
        },
        Err(e) => Err(e),
    }
}

proof fn lemma_stmt(s: Seq<char>, buf: Seq<char>, i: int)
    requires
        0 <= i <= s.len(),
    ensures
        stmt_spec(s, buf, i) matches Ok(r) ==> i < r.1 <= s.len(),
{
    lemma_ident(s, buf, i);
    if let Ok(i2) = char_spec(s, i, '#') {
        lemma_ident(s, buf, i2);
        if let Ok(c) = ident_spec(s, buf, i2) {
            lemma_args(s, buf, c.1);
        }
    }
    if let Ok(c) = ident_spec(s, buf, i) {
        lemma_args(s, buf, c.1);
    }
}

proof fn lemma_body_line(s: Seq<char>, buf: Seq<char>, i: int)
    requires
        0 <= i <= s.len(),
    ensures
        body_line_spec(s, buf, i) matches Ok(r) ==> i < r.1 <= s.len(),
{
    if let Ok(i2) = tab_spec(s, i) {
        assert(i < i2 <= s.len());
        lemma_stmt(s, buf, i2);
        if let Ok(st) = stmt_spec(s, buf, i2) {
            lemma_eol(s, st.1);
        }
    }
}

/// The statements of an indented block, until a line fails to match.
pub open spec fn stmts_spec(s: Seq<char>, buf: Seq<char>, i: int) -> (Seq<StmtV>, int)
    decreases s.len() - i,
    when 0 <= i <= s.len()
    via stmts_spec_decreases
{
    match body_line_spec(s, buf, i) {
        Ok(r) => {
            let rest = stmts_spec(s, buf, r.1);
            (seq![r.0] + rest.0, rest.1)
        },
        Err(_) => (Seq::empty(), i),
    }
}

#[via_fn]
proof fn stmts_spec_decreases(s: Seq<char>, buf: Seq<char>, i: int) {
    lemma_body_line(s, buf, i);
}

proof fn lemma_stmts(s: Seq<char>, buf: Seq<char>, i: int)
    requires
        0 <= i <= s.len(),
    ensures
        i <= stmts_spec(s, buf, i).1 <= s.len(),
    decreases s.len() - i,
{
    lemma_body_line(s, buf, i);
    if let Ok(r) = body_line_spec(s, buf, i) {
        lemma_stmts(s, buf, r.1);
    }
}

/// A top-level item.  A define line, else a macro line, else a name and
/// arguments that either open an indented function body after `=` or
/// stand as a call; anything else is invalid syntax, the parser's one
/// fatal error.
pub open spec fn item_spec(s: Seq<char>, buf: Seq<char>, i: int) -> Result<
    (ItemV, int),
    ParseFault,
> {
    let as_define = match define_spec(s, buf, i) {
        Ok(d) => match eol_spec(s, d.1) {
            Ok(r) => Some((ItemV::Define(d.0), r.1)),
            Err(_) => None,
        },
        Err(_) => None,
    };
    let as_macro = match macro_spec(s, buf, i) {
        Ok(m) => match eol_spec(s, m.1) {
            Ok(r) => Some((ItemV::Macro(m.0), r.1)),
            Err(_) => None,
        },
        Err(_) => None,
    };
    match as_define {
        Some(item) => Ok(item),
        None => match as_macro {
            Some(item) => Ok(item),
            None => match calling_spec(s, buf, i) {
                Ok(c) => {
                    let j = skip_ws_spec(s, c.1);
                    let as_function = match char_spec(s, j, '=') {
                        Ok(j2) => match eol_spec(s, j2) {
                            Ok(r) => Some(
                                {
                                    let body = stmts_spec(s, buf, r.1);
                                    (
                                        ItemV::Function(
                                            FunctionV {
                                                name: c.0.called,
                                                args: c.0.args,
                                                body: body.0,
                                            },
                                        ),
                                        body.1,
                                    )
                                },
                            ),
                            Err(_) => None,
                        },
                        Err(_) => None,
                    };
                    match as_function {
                        Some(item) => Ok(item),
                        None => match eol_spec(s, c.1) {
                            Ok(r) => Ok((ItemV::Calling(c.0), r.1)),
                            Err(_) => Err(
                                ParseFault {
                                    issue: ParseIssue::InvalidSyntax,
                                    location: Span {
                                        start: i as usize,
                                        end: (i + 1) as usize,
                                    },
                                },
                            ),
                        },
                    }
                },
                Err(_) => Err(
                    ParseFault {
                        issue: ParseIssue::InvalidSyntax,
                        location: Span { start: i as usize, end: (i + 1) as usize },
                    },
                ),
            },
        },
    }
}

proof fn lemma_item(s: Seq<char>, buf: Seq<char>, i: int)
    requires
        0 <= i <= s.len(),
    ensures
        item_spec(s, buf, i) matches Ok(r) ==> i < r.1 <= s.len(),
{
    lemma_ident(s, buf, i);
    if let Ok(name) = ident_spec(s, buf, i) {
        let j1 = skip_ws_spec(s, name.1);
        lemma_skip_ws(s, name.1);
        if let Ok(j2) = char_spec(s, j1, '=') {
            lemma_ident(s, buf, j2);
            if let Ok(value) = ident_spec(s, buf, j2) {
                lemma_eol(s, value.1);
            }
        }
        lemma_args(s, buf, name.1);
        let c1 = args_spec(s, buf, name.1).1;
        let j3 = skip_ws_spec(s, c1);
        lemma_skip_ws(s, c1);
        if let Ok(j4) = char_spec(s, j3, '=') {
            lemma_eol(s, j4);
            if let Ok(r) = eol_spec(s, j4) {
                lemma_stmts(s, buf, r.1);
            }
        }
        lemma_eol(s, c1);
    }
    if let Ok(i2) = char_spec(s, i, '#') {
        lemma_ident(s, buf, i2);
        if let Ok(called) = ident_spec(s, buf, i2) {
            lemma_args(s, buf, called.1);
            lemma_eol(s, args_spec(s, buf, called.1).1);
        }
    }
}

/// A whole source unit: blank and comment lines are skipped, items are
/// collected until the end of input or a fatal syntax error.
pub open spec fn items_spec(s: Seq<char>, buf: Seq<char>, i: int) -> Result<
    Seq<ItemV>,
    ParseFault,
>
    decreases s.len() - i,
    when 0 <= i <= s.len()
    via items_spec_decreases
{
    if i >= s.len() {
        Ok(Seq::empty())
    } else {
        match eol_spec(s, i) {
            Ok(r) => {
                if r.0 {
                    Ok(Seq::empty())
                } else {
                    items_spec(s, buf, r.1)
                }
            },
            Err(_) => match item_spec(s, buf, i) {
                Ok(r) => match items_spec(s, buf, r.1) {
                    Ok(rest) => Ok(seq![r.0] + rest),
                    Err(e) => Err(e),
                },
                Err(e) => Err(e),
            },
        }
    }
}

#[via_fn]
proof fn items_spec_decreases(s: Seq<char>, buf: Seq<char>, i: int) {
    lemma_eol(s, i);
    lemma_item(s, buf, i);
}

fn ws_exec(c: char) -> (r: bool)
    ensures
        r == is_ws_char(c),
{
    let u = c as u32;
    u == 9 || u == 10 || u == 11 || u == 12 || u == 13 || u == 32 || u == 0x85 || u == 0xA0
        || u == 0x1680 || (0x2000 <= u && u <= 0x200A) || u == 0x2028 || u == 0x2029 || u == 0x202F
        || u == 0x205F || u == 0x3000
}

fn inline_ws_exec(c: char) -> (r: bool)
    ensures
        r == is_inline_ws(c),
{
    let u = c as u32;
    u == 9 || u == 12 || u == 13 || u == 32
}

fn ident_char_exec(c: char) -> (r: bool)
    ensures
        r == is_ident_char(c),
{
    !ws_exec(c) && c != '=' && c != ';'
}

fn skip_ws(src: &str, n: usize, i: usize) -> (r: usize)
    requires
        n == src@.len(),
        n < usize::MAX,
        i <= n,
    ensures
        r as int == skip_ws_spec(src@, i as int),
        i <= r <= n,
{
    let mut j = i;
    loop
        invariant
            i <= j <= n,
            n == src@.len(),
            skip_ws_spec(src@, i as int) == skip_ws_spec(src@, j as int),
        ensures
            i <= j <= n,
            skip_ws_spec(src@, i as int) == j as int,
        decreases n - j,
    {
        if j >= n {
            break;
        }
        let c = src.get_char(j);
        if !inline_ws_exec(c) {
            break;
        }
        j = j + 1;
    }
    j
}

fn ident_end(src: &str, n: usize, i: usize) -> (r: usize)
    requires
        n == src@.len(),
        n < usize::MAX,
        i <= n,
    ensures
        r as int == ident_end_spec(src@, i as int),
        i <= r <= n,
{
    let mut j = i;
    loop
        invariant
            i <= j <= n,
            n == src@.len(),
            ident_end_spec(src@, i as int) == ident_end_spec(src@, j as int),
        ensures
            i <= j <= n,
            ident_end_spec(src@, i as int) == j as int,
        decreases n - j,
    {
        if j >= n {
            break;
        }
        let c = src.get_char(j);
        if !ident_char_exec(c) {
            break;
        }
        j = j + 1;
    }
    j
}

fn after_line(src: &str, n: usize, i: usize) -> (r: (usize, bool))
    requires
        n == src@.len(),
        n < usize::MAX,
        i <= n,
    ensures
        r.0 as int == after_line_spec(src@, i as int).0,
        r.1 == after_line_spec(src@, i as int).1,
        i <= r.0 <= n,
{
    let mut j = i;
    loop
        invariant
            i <= j <= n,
            n == src@.len(),
            after_line_spec(src@, i as int) == after_line_spec(src@, j as int),
        ensures
            i <= j <= n,
            after_line_spec(src@, i as int) == after_line_spec(src@, j as int),
            j >= n || src@[j as int] == '\n',
        decreases n - j,
    {
        if j >= n {
            break;
        }
        let c = src.get_char(j);
        if c == '\n' {
            break;
        }
        j = j + 1;
    }
    if j >= n {
        (j, true)
    } else {
        (j + 1, false)
    }
}

fn parse_one_char(src: &str, n: usize, i: usize, ch: char) -> (r: Result<usize, ParseFault>)
    requires
        n == src@.len(),
        n < usize::MAX,
        i <= n,
    ensures
        match char_spec(src@, i as int, ch) {
            Ok(i2) => r is Ok && r->Ok_0 == i2 && i < r->Ok_0 <= n,
            Err(e) => r == Err::<usize, ParseFault>(e),
        },
{
    if i < n {
        let c = src.get_char(i);
        if c == ch {
            return Ok(i + 1);
        }
    }
    Err(
        ParseFault {
            issue: ParseIssue::ExpectedChar(ch),
            location: Span { start: i, end: i + 1 },
        },
    )
}

fn parse_comment(src: &str, n: usize, i: usize) -> (r: Result<(bool, usize), ParseFault>)
    requires
        n == src@.len(),
        n < usize::MAX,
        i <= n,
    ensures
        match comment_spec(src@, i as int) {
            Ok(t) => r is Ok && r->Ok_0.0 == t.0 && r->Ok_0.1 == t.1 && i <= r->Ok_0.1 <= n,
            Err(e) => r == Err::<(bool, usize), ParseFault>(e),
        },
{
    let i2 = match parse_one_char(src, n, i, ';') {
        Ok(i2) => i2,
        Err(e) => {
            return Err(e);
        },
    };
    let rest = after_line(src, n, i2);
    Ok((rest.1, rest.0))
}

fn parse_eol_at(src: &str, n: usize, i: usize) -> (r: Result<(bool, usize), ParseFault>)
    requires
        n == src@.len(),
        n < usize::MAX,
        i <= n,
    ensures
        match eol_spec(src@, i as int) {
            Ok(t) => r is Ok && r->Ok_0.0 == t.0 && r->Ok_0.1 == t.1 && i <= r->Ok_0.1 <= n,
            Err(e) => r == Err::<(bool, usize), ParseFault>(e),
        },
{
    let j = skip_ws(src, n, i);
    match parse_comment(src, n, j) {
        Ok(t) => Ok(t),
        Err(_) => {
            if j < n {
                let c = src.get_char(j);
                if c == '\n' {
                    Ok((false, j + 1))
                } else {
                    Err(
                        ParseFault {
                            issue: ParseIssue::ExpectedEol,
                            location: Span { start: j, end: j + 1 },
                        },
                    )
                }
            } else {
                Ok((true, j))
            }
        },
    }
}

fn parse_ident_at(src: &str, buf_name: &str, n: usize, i: usize) -> (r: Result<
    (Ident, usize),
    ParseFault,
>)
    requires
        n == src@.len(),
        n < usize::MAX,
        i <= n,
    ensures
        match ident_spec(src@, buf_name@, i as int) {
            Ok(t) => r is Ok && r->Ok_0.0@ == t.0 && r->Ok_0.1 == t.1 && i < r->Ok_0.1 <= n,
            Err(e) => r == Err::<(Ident, usize), ParseFault>(e),
        },
{
    let j = skip_ws(src, n, i);
    let e = ident_end(src, n, j);
    if e == j {
        return Err(
            ParseFault {
                issue: ParseIssue::ExpectedIdent,
                location: Span { start: j, end: j + 1 },
            },
        );
    }
    let text = src.substring_char(j, e).to_owned();
    let id = Ident::new(text, buf_name.to_owned(), Span::new(j, e));
    Ok((id, e))
}

/// As many identifiers as follow the cursor; returns them with the cursor
/// after the last one.
pub fn parse_args(src: &str, buf_name: &str, at: usize) -> (r: (Vec<Ident>, usize))
    requires
        at <= src@.len(),
        src@.len() < usize::MAX,
    ensures
        idents_view(r.0@) == args_spec(src@, buf_name@, at as int).0,
        r.1 == args_spec(src@, buf_name@, at as int).1,
        at <= r.1 <= src@.len(),
{
    let n = src.unicode_len();
    parse_args_at(src, buf_name, n, at)
}

fn parse_args_at(src: &str, buf_name: &str, n: usize, at: usize) -> (r: (Vec<Ident>, usize))
    requires
        n == src@.len(),
        n < usize::MAX,
        at <= n,
    ensures
        idents_view(r.0@) == args_spec(src@, buf_name@, at as int).0,
        r.1 == args_spec(src@, buf_name@, at as int).1,
        at <= r.1 <= n,
{
    let ghost sv = src@;
    let ghost bv = buf_name@;
    let mut acc: Vec<Ident> = Vec::new();
    let mut i: usize = at;
    proof {
        lemma_args(sv, bv, at as int);
        assert(idents_view(acc@) =~= Seq::<IdentV>::empty());
        assert(Seq::<IdentV>::empty() + args_spec(sv, bv, at as int).0 =~= args_spec(
            sv,
            bv,
            at as int,
        ).0);
    }
    loop
        invariant
            at <= i <= n,
            n == src@.len(),
            n < usize::MAX,
            sv == src@,
            bv == buf_name@,
            args_spec(sv, bv, at as int).0 == idents_view(acc@) + args_spec(sv, bv, i as int).0,
            args_spec(sv, bv, at as int).1 == args_spec(sv, bv, i as int).1,
        ensures
            at <= i <= n,
            args_spec(sv, bv, at as int).0 == idents_view(acc@),
            args_spec(sv, bv, at as int).1 == i as int,
        decreases n - i,
    {
        proof {
            lemma_ident(sv, bv, i as int);
        }
        match parse_ident_at(src, buf_name, n, i) {
            Ok(t) => {
                let ghost acc0 = acc@;
                acc.push(t.0);
                proof {
                    lemma_args(sv, bv, t.1 as int);
                    assert(idents_view(acc@) =~= idents_view(acc0).push(t.0@));
                    assert(idents_view(acc0) + (seq![t.0@] + args_spec(sv, bv, t.1 as int).0)
                        =~= idents_view(acc@) + args_spec(sv, bv, t.1 as int).0);
                }
                i = t.1;
            },
            Err(_) => {
                proof {
                    assert(idents_view(acc@) + Seq::<IdentV>::empty() =~= idents_view(acc@));
                }
                break;
            },
        }
    }
    (acc, i)
}

fn parse_tab_at(src: &str, n: usize, i: usize) -> (r: Result<usize, ParseFault>)
    requires
        n == src@.len(),
        n < usize::MAX,
        i <= n,
    ensures
        match tab_spec(src@, i as int) {
            Ok(i2) => r is Ok && r->Ok_0 == i2 && i < r->Ok_0 <= n,
            Err(e) => r == Err::<usize, ParseFault>(e),
        },
{
    if i < n {
        let c = src.get_char(i);
        if c == '\t' {
            return Ok(i + 1);
        }
        if n >= 4 && i <= n - 4 && ws_exec(c) && ws_exec(src.get_char(i + 1)) && ws_exec(
            src.get_char(i + 2),
        ) && ws_exec(src.get_char(i + 3)) {
            return Ok(i + 4);
        }
    }
    Err(
        ParseFault {
            issue: ParseIssue::ExpectedIndent,
            location: Span { start: i, end: i + 1 },
        },
    )
}

fn parse_define_at(src: &str, buf_name: &str, n: usize, i: usize) -> (r: Result<
    (Define, usize),
    ParseFault,
>)
    requires
        n == src@.len(),
        n < usize::MAX,
        i <= n,
    ensures
        match define_spec(src@, buf_name@, i as int) {
            Ok(t) => r is Ok && r->Ok_0.0@ == t.0 && r->Ok_0.1 == t.1 && i < r->Ok_0.1 <= n,
            Err(e) => r == Err::<(Define, usize), ParseFault>(e),
        },
{
    let name = match parse_ident_at(src, buf_name, n, i) {
        Ok(t) => t,
        Err(e) => {
            return Err(e);
        },
    };
    let j = skip_ws(src, n, name.1);
    let j2 = match parse_one_char(src, n, j, '=') {
        Ok(j2) => j2,
        Err(e) => {
            return Err(e);
        },
    };
    let value = match parse_ident_at(src, buf_name, n, j2) {
        Ok(t) => t,
        Err(e) => {
            return Err(e);
        },
    };
    Ok((Define { name: name.0, value: value.0 }, value.1))
}

fn parse_calling_at(src: &str, buf_name: &str, n: usize, i: usize) -> (r: Result<
    (Calling, usize),
    ParseFault,
>)
    requires
        n == src@.len(),
        n < usize::MAX,
        i <= n,
    ensures
        match calling_spec(src@, buf_name@, i as int) {
            Ok(t) => r is Ok && r->Ok_0.0@ == t.0 && r->Ok_0.1 == t.1 && i < r->Ok_0.1 <= n,
            Err(e) => r == Err::<(Calling, usize), ParseFault>(e),
        },
{
    let called = match parse_ident_at(src, buf_name, n, i) {
        Ok(t) => t,
        Err(e) => {
            return Err(e);
        },
    };
    proof {
        lemma_args(src@, buf_name@, called.1 as int);
    }
    let rest = parse_args_at(src, buf_name, n, called.1);
    Ok((Calling { called: called.0, args: rest.0 }, rest.1))
}

fn parse_macro_at(src: &str, buf_name: &str, n: usize, i: usize) -> (r: Result<
    (Macro, usize),
    ParseFault,
>)
    requires
        n == src@.len(),
        n < usize::MAX,
        i <= n,
    ensures
        match macro_spec(src@, buf_name@, i as int) {
            Ok(t) => r is Ok && r->Ok_0.0@ == t.0 && r->Ok_0.1 == t.1 && i < r->Ok_0.1 <= n,
            Err(e) => r == Err::<(Macro, usize), ParseFault>(e),
        },
{
    let i2 = match parse_one_char(src, n, i, '#') {
        Ok(i2) => i2,
        Err(e) => {
            return Err(e);
        },
    };
    let called = match parse_ident_at(src, buf_name, n, i2) {
        Ok(t) => t,
        Err(e) => {
            return Err(e);
        },
    };
    proof {
        lemma_args(src@, buf_name@, called.1 as int);
    }
    let rest = parse_args_at(src, buf_name, n, called.1);
    Ok((Macro { called: called.0, args: rest.0 }, rest.1))
}

fn parse_stmt_at(src: &str, buf_name: &str, n: usize, i: usize) -> (r: Result<
    (Stmt, usize),
    ParseFault,
>)
    requires
        n == src@.len(),
        n < usize::MAX,
        i <= n,
    ensures
        match stmt_spec(src@, buf_name@, i as int) {
            Ok(t) => r is Ok && r->Ok_0.0@ == t.0 && r->Ok_0.1 == t.1 && i < r->Ok_0.1 <= n,
            Err(e) => r == Err::<(Stmt, usize), ParseFault>(e),
        },
{
    match parse_macro_at(src, buf_name, n, i) {
        Ok(t) => Ok((Stmt::Macro(t.0), t.1)),
        Err(_) => match parse_calling_at(src, buf_name, n, i) {
            Ok(t) => Ok((Stmt::Calling(t.0), t.1)),
            Err(e) => Err(e),
        },
    }
}

fn parse_body_line_at(src: &str, buf_name: &str, n: usize, i: usize) -> (r: Result<
    (Stmt, usize),
    ParseFault,
>)
    requires
        n == src@.len(),
        n < usize::MAX,
        i <= n,
    ensures
        match body_line_spec(src@, buf_name@, i as int) {
            Ok(t) => r is Ok && r->Ok_0.0@ == t.0 && r->Ok_0.1 == t.1 && i < r->Ok_0.1 <= n,
            Err(e) => r == Err::<(Stmt, usize), ParseFault>(e),
        },
{
    let i2 = match parse_tab_at(src, n, i) {
        Ok(i2) => i2,
        Err(e) => {
            return Err(e);
        },
    };
    let st = match parse_stmt_at(src, buf_name, n, i2) {
        Ok(t) => t,
        Err(e) => {
            return Err(e);
        },
    };
    proof {
        lemma_eol(src@, st.1 as int);
    }
    match parse_eol_at(src, n, st.1) {
        Ok(t) => Ok((st.0, t.1)),
        Err(e) => Err(e),
    }
}

fn parse_stmts_at(src: &str, buf_name: &str, n: usize, at: usize) -> (r: (Vec<Stmt>, usize))
    requires
        n == src@.len(),
        n < usize::MAX,
        at <= n,
    ensures
        stmts_view(r.0@) == stmts_spec(src@, buf_name@, at as int).0,
        r.1 == stmts_spec(src@, buf_name@, at as int).1,
        at <= r.1 <= n,
{
    let ghost sv = src@;
    let ghost bv = buf_name@;
    let mut acc: Vec<Stmt> = Vec::new();
    let mut i: usize = at;
    proof {
        lemma_stmts(sv, bv, at as int);
        assert(stmts_view(acc@) =~= Seq::<StmtV>::empty());
        assert(Seq::<StmtV>::empty() + stmts_spec(sv, bv, at as int).0 =~= stmts_spec(
            sv,
            bv,
            at as int,
        ).0);
    }
    loop
        invariant
            at <= i <= n,
            n == src@.len(),
            n < usize::MAX,
            sv == src@,
            bv == buf_name@,
            stmts_spec(sv, bv, at as int).0 == stmts_view(acc@) + stmts_spec(sv, bv, i as int).0,
            stmts_spec(sv, bv, at as int).1 == stmts_spec(sv, bv, i as int).1,
        ensures
            at <= i <= n,
            stmts_spec(sv, bv, at as int).0 == stmts_view(acc@),
            stmts_spec(sv, bv, at as int).1 == i as int,
        decreases n - i,
    {
        proof {
            lemma_body_line(sv, bv, i as int);
        }
        match parse_body_line_at(src, buf_name, n, i) {
            Ok(t) => {
                let ghost acc0 = acc@;
                acc.push(t.0);
                proof {
                    lemma_stmts(sv, bv, t.1 as int);
                    assert(stmts_view(acc@) =~= stmts_view(acc0).push(t.0@));
                    assert(stmts_view(acc0) + (seq![t.0@] + stmts_spec(sv, bv, t.1 as int).0)
                        =~= stmts_view(acc@) + stmts_spec(sv, bv, t.1 as int).0);
                }
                i = t.1;
            },
            Err(_) => {
                proof {
                    assert(stmts_view(acc@) + Seq::<StmtV>::empty() =~= stmts_view(acc@));
                }
                break;
            },
        }
    }
    (acc, i)
}

fn parse_item_at(src: &str, buf_name: &str, n: usize, i: usize) -> (r: Result<
    (Item, usize),
    ParseFault,
>)
    requires
        n == src@.len(),
        n < usize::MAX,
        i <= n,
    ensures
        match item_spec(src@, buf_name@, i as int) {
            Ok(t) => r is Ok && r->Ok_0.0@ == t.0 && r->Ok_0.1 == t.1 && i < r->Ok_0.1 <= n,
            Err(e) => r == Err::<(Item, usize), ParseFault>(e),
        },
{
    proof {
        lemma_item(src@, buf_name@, i as int);
    }
    if let Ok(d) = parse_define_at(src, buf_name, n, i) {
        proof {
            lemma_eol(src@, d.1 as int);
        }
        if let Ok(t) = parse_eol_at(src, n, d.1) {
            return Ok((Item::Define(d.0), t.1));
        }
    }
    if let Ok(m) = parse_macro_at(src, buf_name, n, i) {
        proof {
            lemma_eol(src@, m.1 as int);
        }
        if let Ok(t) = parse_eol_at(src, n, m.1) {
            return Ok((Item::Macro(m.0), t.1));
        }
    }
    let fault = ParseFault {
        issue: ParseIssue::InvalidSyntax,
        location: Span { start: i, end: i + 1 },
    };
    let c = match parse_calling_at(src, buf_name, n, i) {
        Ok(c) => c,
        Err(_) => {
            return Err(fault);
        },
    };
    let j = skip_ws(src, n, c.1);
    if let Ok(j2) = parse_one_char(src, n, j, '=') {
        proof {
            lemma_eol(src@, j2 as int);
        }
        if let Ok(t) = parse_eol_at(src, n, j2) {
            proof {
                lemma_stmts(src@, buf_name@, t.1 as int);
            }
            let body = parse_stmts_at(src, buf_name, n, t.1);
            let item = Item::Function(
                Function { name: c.0.called, args: c.0.args, body: body.0 },
            );
            return Ok((item, body.1));
        }
    }
    proof {
        lemma_eol(src@, c.1 as int);
    }
    match parse_eol_at(src, n, c.1) {
        Ok(t) => Ok((Item::Calling(c.0), t.1)),
        Err(_) => Err(fault),
    }
}

/// Parses a whole source unit into its items.
pub fn parse_items(src: &str, buf_name: &str) -> (r: Result<Vec<Item>, ParseFault>)
    requires
        src@.len() < usize::MAX,
    ensures
        match items_spec(src@, buf_name@, 0) {
            Ok(items) => r is Ok && items_view(r->Ok_0@) == items,
            Err(e) => r == Err::<Vec<Item>, ParseFault>(e),
        },
{
    let ghost sv = src@;
    let ghost bv = buf_name@;
    let n = src.unicode_len();
    let mut acc: Vec<Item> = Vec::new();
    let mut i: usize = 0;
    proof {
        assert(items_view(acc@) =~= Seq::<ItemV>::empty());
        if items_spec(sv, bv, 0) is Ok {
            assert(Seq::<ItemV>::empty() + items_spec(sv, bv, 0)->Ok_0 =~= items_spec(
                sv,
                bv,
                0,
            )->Ok_0);
        }
    }
    loop
        invariant
            0 <= i <= n,
            n == src@.len(),
            n < usize::MAX,
            sv == src@,
            bv == buf_name@,
            match items_spec(sv, bv, i as int) {
                Ok(rest) => items_spec(sv, bv, 0) == Ok::<Seq<ItemV>, ParseFault>(
                    items_view(acc@) + rest,
                ),
                Err(e) => items_spec(sv, bv, 0) == Err::<Seq<ItemV>, ParseFault>(e),
            },
        ensures
            items_spec(sv, bv, i as int) == Ok::<Seq<ItemV>, ParseFault>(Seq::empty()),
            items_spec(sv, bv, 0) == Ok::<Seq<ItemV>, ParseFault>(items_view(acc@)),
        decreases n - i,
    {
        if i >= n {
            proof {
                assert(items_view(acc@) + Seq::<ItemV>::empty() =~= items_view(acc@));
            }
            break;
        }
        proof {
            lemma_eol(sv, i as int);
        }
        match parse_eol_at(src, n, i) {
            Ok(t) => {
                if t.0 {
                    proof {
                        assert(items_view(acc@) + Seq::<ItemV>::empty() =~= items_view(acc@));
                    }
                    break;
                }
                i = t.1;
            },
            Err(_) => {
                proof {
                    lemma_item(sv, bv, i as int);
                }
                match parse_item_at(src, buf_name, n, i) {
                    Ok(t) => {
                        let ghost acc0 = acc@;
                        acc.push(t.0);
                        proof {
                            if items_spec(sv, bv, t.1 as int) is Ok {
                                let rest = items_spec(sv, bv, t.1 as int)->Ok_0;
                                assert(items_view(acc@) =~= items_view(acc0).push(t.0@));
                                assert(items_view(acc0) + (seq![t.0@] + rest) =~= items_view(
                                    acc@,
                                ) + rest);
                            }
                        }
                        i = t.1;
                    },
                    Err(e) => {
                        return Err(e);
                    },
                }
            },
        }
    }
    Ok(acc)
}

} // verus!
