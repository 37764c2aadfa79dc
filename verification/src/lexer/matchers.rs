//! The lexical grammar: one scanner for each kind of lexeme.
//!
//! Each scanner is anchored at a position of the template (given as its
//! characters) and returns how many characters its pattern matches there.
//! The pattern of each scanner is written in its doc comment in regular
//! expression syntax, with the default delimiters.
use vstd::prelude::*;
use crate::chars::{Klass, in_klass, is_digit, lemma_span_bound, span, span_of, is_white, is_name_start, starts_with_at, lit_at, lit2_at, klass_has, str_to_chars, char_is_alphabetic, alphabetic, utf8_offset};
use crate::lexer::options::Options;
use vstd::string::StringSliceAdditionalSpecFns;

verus! {

/// What a tag start marker opens.
#[derive(Clone, Copy, PartialEq, Eq, Structural, Debug)]
pub enum TagKind {
    Var,
    Block,
    Comment,
}

/// An operator pattern: its characters (a space stands for `\s+`), its
/// length in bytes, and whether it must be followed by `[\s()]` (it ends
/// with an alphabetic character).
pub struct OperatorPattern {
    pub chars: Vec<char>,
    pub byte_len: usize,
    pub needs_sep: bool,
}

/// The compiled lexical grammar.
pub struct Matchers {
    pub var_start: Vec<char>,
    pub var_end: Vec<char>,
    pub block_start: Vec<char>,
    pub block_end: Vec<char>,
    pub comment_start: Vec<char>,
    pub comment_end: Vec<char>,
    pub trim: Vec<char>,
    pub interp_start: Vec<char>,
    pub interp_end: Vec<char>,
    pub word_raw: Vec<char>,
    pub word_verbatim: Vec<char>,
    pub word_endraw: Vec<char>,
    pub word_endverbatim: Vec<char>,
    pub word_line: Vec<char>,
    /// `=` followed by the operators of the environment, in order.
    pub operators: Vec<OperatorPattern>,
}

/// Position just after a maximal run of white space at `i`.
pub open spec fn skip_ws(s: Seq<char>, i: int) -> int {
    i + span(s, i, Klass::White)
}

/// `\s*(?:{trim}{end}\s*|\s*{end})` at `j`: the length matched.
pub open spec fn close_len(s: Seq<char>, j: int, trim: Seq<char>, end: Seq<char>) -> Option<int> {
    let q = skip_ws(s, j);
    if starts_with_at(s, q, trim + end) {
        Some(skip_ws(s, q + trim.len() + end.len()) - j)
    } else if starts_with_at(s, q, end) {
        Some(q + end.len() - j)
    } else {
        None
    }
}

/// Matches a double quoted string body from `j` (after the opening quote):
/// `[^#"\\]*(?:\\.[^#"\\]*)*"`; the position after the closing quote.
pub open spec fn dq_end(s: Seq<char>, j: int) -> Option<int>
    decreases s.len() - j,
{
    if j < 0 || j >= s.len() {
        None
    } else if s[j] == '"' {
        Some(j + 1)
    } else if s[j] == '#' {
        None
    } else if s[j] == '\\' {
        if j + 1 < s.len() {
            dq_end(s, j + 2)
        } else {
            None
        }
    } else {
        dq_end(s, j + 1)
    }
}

/// Matches a single quoted string body from `j`: `[^'\\]*(?:\\.[^'\\]*)*'`;
/// the position after the closing quote.
pub open spec fn sq_end(s: Seq<char>, j: int) -> Option<int>
    decreases s.len() - j,
{
    if j < 0 || j >= s.len() {
        None
    } else if s[j] == '\'' {
        Some(j + 1)
    } else if s[j] == '\\' {
        if j + 1 < s.len() {
            sq_end(s, j + 2)
        } else {
            None
        }
    } else {
        sq_end(s, j + 1)
    }
}

/// `\A(?:"([^#"\\]*(?:\\.[^#"\\]*)*)"|'([^'\\]*(?:\\.[^'\\]*)*)')` at `i`:
/// the position after the closing quote.
pub open spec fn quoted_end(s: Seq<char>, i: int) -> Option<int> {
    if 0 <= i < s.len() && s[i] == '"' {
        dq_end(s, i + 1)
    } else if 0 <= i < s.len() && s[i] == '\'' {
        sq_end(s, i + 1)
    } else {
        None
    }
}

/// `\A[a-zA-Z_\x7F-\xFF][a-zA-Z0-9_\x7F-\xFF]*` at `i`: the length matched (0: no match).
pub open spec fn name_len(s: Seq<char>, i: int) -> nat {
    if 0 <= i < s.len() && is_name_start(s[i]) {
        1 + span(s, i + 1, Klass::NameChar)
    } else {
        0
    }
}

/// `\A[0-9]+(?:\.[0-9]+)?` at `i`: the length matched (0: no match).
pub open spec fn number_len(s: Seq<char>, i: int) -> nat {
    let d = span(s, i, Klass::Digit);
    if d == 0 {
        0
    } else if i + d < s.len() && s[i + d] == '.' && span(s, i + d + 1, Klass::Digit) > 0 {
        d + 1 + span(s, i + d + 1, Klass::Digit)
    } else {
        d
    }
}

/// The separator a word operator needs after it.
pub open spec fn is_separator(c: char) -> bool {
    is_white(c) || c == '(' || c == ')'
}

/// An operator pattern that needs a separator matches only where one
/// follows it: the match ends just after a white space character or a
/// parenthesis, and it is not empty.
pub proof fn law_operator_separator(s: Seq<char>, p: int, op: Seq<char>, k: int)
    ensures
        op_match(s, p, op, k, true) matches Some(e) ==> p < e <= s.len() && is_separator(s[e - 1]),
    decreases op.len() - k, s.len() + 2,
{
    if k < 0 || p < 0 || p > s.len() {
    } else if k >= op.len() {
    } else if op[k] == ' ' {
        let n = span(s, p, Klass::White) as int;
        if n <= s.len() {
            lemma_operator_separator_ws(s, p, op, k, n);
        }
    } else if p < s.len() && s[p] == op[k] {
        law_operator_separator(s, p + 1, op, k + 1);
    }
}

/// The same for the white space that a space of the pattern matches.
pub proof fn lemma_operator_separator_ws(s: Seq<char>, p: int, op: Seq<char>, k: int, n: int)
    ensures
        op_try_ws(s, p, op, k, true, n) matches Some(e) ==> p < e <= s.len() && is_separator(s[e - 1]),
    decreases op.len() - k, n,
{
    if n <= 0 || k < 0 || k >= op.len() {
    } else {
        law_operator_separator(s, p + n, op, k + 1);
        lemma_operator_separator_ws(s, p, op, k, n - 1);
    }
}

/// Among the first `n` operator patterns, the one `best_op_upto` picks
/// matches, and no pattern that matches is longer; none is picked only
/// when none matches.
pub proof fn lemma_best_op_upto(m: Matchers, s: Seq<char>, p: int, n: int)
    requires
        n <= m.operators@.len(),
    ensures
        m.best_op_upto(s, p, n) matches Some(j) ==> {
            &&& 0 <= j < n
            &&& m.operators@[j].matches_at(s, p) is Some
            &&& forall|j2: int|
                0 <= j2 < n && (#[trigger] m.operators@[j2]).matches_at(s, p) is Some ==> m.operators@[j2].byte_len
                    <= m.operators@[j].byte_len
        },
        m.best_op_upto(s, p, n) is None ==> forall|j2: int|
            0 <= j2 < n ==> (#[trigger] m.operators@[j2]).matches_at(s, p) is None,
    decreases n,
{
    if n > 0 {
        lemma_best_op_upto(m, s, p, n - 1);
    }
}

/// The operator the lexer takes at `p` is the longest one, in bytes, of
/// those that match there; it takes none only where none matches.
pub proof fn law_longest_operator(m: Matchers, s: Seq<char>, p: int)
    ensures
        m.best_op(s, p) matches Some(j) ==> {
            &&& 0 <= j < m.operators@.len()
            &&& m.operators@[j].matches_at(s, p) is Some
            &&& forall|j2: int|
                0 <= j2 < m.operators@.len() && (#[trigger] m.operators@[j2]).matches_at(s, p) is Some
                    ==> m.operators@[j2].byte_len <= m.operators@[j].byte_len
        },
        m.best_op(s, p) is None ==> forall|j2: int|
            0 <= j2 < m.operators@.len() ==> (#[trigger] m.operators@[j2]).matches_at(s, p) is None,
{
    lemma_best_op_upto(m, s, p, m.operators@.len() as int);
}

/// The end of a tag written with the trim mark (`-}}`, `-%}`) also takes
/// all the white space after it: what follows the match is not white
/// space.
pub proof fn law_trim_after_tag(s: Seq<char>, j: int, trim: Seq<char>, end: Seq<char>)
    requires
        0 <= j <= s.len(),
        starts_with_at(s, skip_ws(s, j), trim + end),
    ensures
        close_len(s, j, trim, end) matches Some(n) && (j + n == s.len() || !is_white(s[j + n])),
{
    lemma_span_bound(s, j, Klass::White);
    let q = skip_ws(s, j);
    let e = q + trim.len() + end.len();
    assert(e <= s.len()) by {
        assert((trim + end).len() == trim.len() + end.len());
    }
    lemma_span_bound(s, e, Klass::White);
    if skip_ws(s, e) < s.len() {
        assert(!in_klass(s[skip_ws(s, e)], Klass::White));
    }
}

/// A number literal is `[0-9]+(\.[0-9]+)?`, as long as it can be: it starts
/// with a digit and ends with one; a dot in it stands between two digits
/// and there is at most one; no digit follows it, and when it has no dot,
/// no dot followed by a digit follows it either.
pub proof fn law_number_literal(s: Seq<char>, i: int)
    requires
        0 <= i <= s.len(),
    ensures
        number_len(s, i) > 0 <==> (i < s.len() && is_digit(s[i])),
        number_len(s, i) > 0 ==> {
            let n = number_len(s, i) as int;
            &&& i + n <= s.len()
            &&& is_digit(s[i + n - 1])
            &&& forall|j: int|
                i <= j < i + n ==> is_digit(#[trigger] s[j]) || (s[j] == '.' && i < j && j + 1 < i + n
                    && is_digit(s[j - 1]) && is_digit(s[j + 1]))
            &&& forall|j1: int, j2: int| i <= j1 < j2 < i + n && #[trigger] s[j1] == '.' ==> #[trigger] s[j2] != '.'
            &&& !(i + n < s.len() && is_digit(s[i + n]))
            &&& (forall|j: int| i <= j < i + n ==> #[trigger] s[j] != '.') ==> !(i + n + 1 < s.len() && s[i + n]
                == '.' && is_digit(s[i + n + 1]))
        },
{
    lemma_span_bound(s, i, Klass::Digit);
    let d = span(s, i, Klass::Digit) as int;
    if i < s.len() && is_digit(s[i]) {
        assert(in_klass(s[i], Klass::Digit));
        assert(d > 0);
    }
    if d > 0 {
        assert(in_klass(s[i], Klass::Digit));
        if i + d < s.len() && s[i + d] == '.' {
            lemma_span_bound(s, i + d + 1, Klass::Digit);
            let f = span(s, i + d + 1, Klass::Digit) as int;
            if f > 0 {
                assert(in_klass(s[i + d - 1], Klass::Digit));
                assert(in_klass(s[i + d + 1], Klass::Digit));
                assert(in_klass(s[i + d + f], Klass::Digit));
                assert forall|j: int|
                    i <= j < i + d + 1 + f implies is_digit(#[trigger] s[j]) || (s[j] == '.' && i < j && j + 1 < i + d
                        + 1 + f && is_digit(s[j - 1]) && is_digit(s[j + 1])) by {
                    if j < i + d {
                        assert(in_klass(s[j], Klass::Digit));
                    } else if j > i + d {
                        assert(in_klass(s[j], Klass::Digit));
                    }
                }
                assert forall|j1: int, j2: int| i <= j1 < j2 < i + d + 1 + f && #[trigger] s[j1] == '.' implies #[trigger] s[j2]
                    != '.' by {
                    if j1 < i + d {
                        assert(in_klass(s[j1], Klass::Digit));
                    }
                    if j2 != i + d {
                        assert(in_klass(s[j2], Klass::Digit));
                    }
                }
                if i + d + 1 + f < s.len() {
                    assert(!in_klass(s[i + d + 1 + f], Klass::Digit));
                }
                assert(s[i + d] == '.');
            } else {
                assert(in_klass(s[i + d - 1], Klass::Digit));
                assert forall|j: int| i <= j < i + d implies is_digit(#[trigger] s[j]) by {
                    assert(in_klass(s[j], Klass::Digit));
                }
                assert forall|j1: int, j2: int| i <= j1 < j2 < i + d && #[trigger] s[j1] == '.' implies #[trigger] s[j2]
                    != '.' by {
                    assert(in_klass(s[j1], Klass::Digit));
                }
                if i + d + 1 < s.len() {
                    assert(!in_klass(s[i + d + 1], Klass::Digit));
                }
            }
        } else {
            assert(in_klass(s[i + d - 1], Klass::Digit));
            assert forall|j: int| i <= j < i + d implies is_digit(#[trigger] s[j]) by {
                assert(in_klass(s[j], Klass::Digit));
            }
            assert forall|j1: int, j2: int| i <= j1 < j2 < i + d && #[trigger] s[j1] == '.' implies #[trigger] s[j2]
                != '.' by {
                assert(in_klass(s[j1], Klass::Digit));
            }
            if i + d < s.len() {
                assert(!in_klass(s[i + d], Klass::Digit));
            }
        }
    }
}

/// The end of the longest run of `r` from index `k` on that the pattern
/// `[^#"\\]*(?:(?:\\.|#(?!\{))[^#"\\]*)*` matches: any character but `#`,
/// `"` and a backslash; a backslash with the character after it, whatever
/// it is; a `#` that is not followed by `{`.
pub open spec fn dq_scan(r: Seq<char>, k: int) -> int
    decreases r.len() - k,
{
    if k < 0 || k >= r.len() {
        k
    } else if r[k] == '"' {
        k
    } else if r[k] == '\\' {
        if k + 1 < r.len() {
            dq_scan(r, k + 2)
        } else {
            k
        }
    } else if r[k] == '#' {
        if k + 1 < r.len() && r[k + 1] == '{' {
            k
        } else {
            dq_scan(r, k + 1)
        }
    } else {
        dq_scan(r, k + 1)
    }
}

/// Length of the part of a double quoted string at the start of `r`: up to
/// the closing `"` or to `#{`, an escaped character included.
pub open spec fn dq_part(r: Seq<char>) -> int {
    dq_scan(r, 0)
}

/// One operator pattern matched at `p` from its `k`-th character on;
/// the end of the match. A space matches `\s+` (greedy, with backtracking),
/// and a trailing `[\s()]` is required when `sep` holds.
pub open spec fn op_match(s: Seq<char>, p: int, op: Seq<char>, k: int, sep: bool) -> Option<int>
    decreases op.len() - k, s.len() + 2,
{
    if k < 0 || p < 0 || p > s.len() {
        None
    } else if k >= op.len() {
        if !sep {
            Some(p)
        } else if p < s.len() && (is_white(s[p]) || s[p] == '(' || s[p] == ')') {
            Some(p + 1)
        } else {
            None
        }
    } else if op[k] == ' ' {
        let n = span(s, p, Klass::White) as int;
        if n <= s.len() {
            op_try_ws(s, p, op, k, sep, n)
        } else {
            None
        }
    } else if p < s.len() && s[p] == op[k] {
        op_match(s, p + 1, op, k + 1, sep)
    } else {
        None
    }
}

/// Tries `\s+` of length `n`, `n - 1`, ..., 1 at `p`, then the rest of the
/// operator pattern; the first end found.
pub open spec fn op_try_ws(s: Seq<char>, p: int, op: Seq<char>, k: int, sep: bool, n: int) -> Option<int>
    decreases op.len() - k, n,
{
    if n <= 0 || k < 0 || k >= op.len() {
        None
    } else {
        match op_match(s, p + n, op, k + 1, sep) {
            Some(e) => Some(e),
            None => op_try_ws(s, p, op, k, sep, n - 1),
        }
    }
}

impl OperatorPattern {
    pub open spec fn matches_at(&self, s: Seq<char>, p: int) -> Option<int> {
        op_match(s, p, self.chars@, 0, self.needs_sep)
    }
}

impl Matchers {
    pub open spec fn wf(&self) -> bool {
        &&& self.var_start@.len() > 0
        &&& self.var_end@.len() > 0
        &&& self.block_start@.len() > 0
        &&& self.block_end@.len() > 0
        &&& self.comment_start@.len() > 0
        &&& self.comment_end@.len() > 0
        &&& self.interp_start@.len() > 0
        &&& self.interp_end@.len() > 0
        &&& self.word_raw@.len() > 0
        &&& self.word_verbatim@.len() > 0
        &&& self.word_line@.len() > 0
        &&& forall|k: int|
            0 <= k < self.operators@.len() ==> (#[trigger] self.operators@[k]).chars@.len() > 0
    }

    /// The end of a print tag: `\A(?:\s*-}}\s*|\s*}})`.
    pub open spec fn var_end_len(&self, s: Seq<char>, i: int) -> Option<int> {
        close_len(s, i, self.trim@, self.var_end@)
    }

    /// The end of a block tag: `\A\s*(?:-%}\s*|\s*%})\n?`.
    pub open spec fn block_end_len(&self, s: Seq<char>, i: int) -> Option<int> {
        match close_len(s, i, self.trim@, self.block_end@) {
            Some(n) => if 0 <= i + n < s.len() && s[i + n] == '\n' {
                Some(n + 1)
            } else {
                Some(n)
            },
            None => None,
        }
    }

    /// `(?:{%-|{%)\s*{word}\s*(?:-%}\s*|\s*%})` at `p`: the length matched and
    /// whether the opening marker carries the trim mark.
    pub open spec fn raw_end_at(&self, s: Seq<char>, p: int, word: Seq<char>) -> Option<(int, bool)> {
        let bs = self.block_start@;
        let q1 = skip_ws(s, p + bs.len() + self.trim@.len());
        let q2 = skip_ws(s, p + bs.len());
        if starts_with_at(s, p, bs + self.trim@) && starts_with_at(s, q1, word) && close_len(
            s,
            q1 + word.len(),
            self.trim@,
            self.block_end@,
        ) is Some {
            Some(
                (
                    q1 + word.len() + close_len(
                        s,
                        q1 + word.len(),
                        self.trim@,
                        self.block_end@,
                    )->0 - p,
                    true,
                ),
            )
        } else if starts_with_at(s, p, bs) && starts_with_at(s, q2, word) && close_len(
            s,
            q2 + word.len(),
            self.trim@,
            self.block_end@,
        ) is Some {
            Some(
                (
                    q2 + word.len() + close_len(
                        s,
                        q2 + word.len(),
                        self.trim@,
                        self.block_end@,
                    )->0 - p,
                    false,
                ),
            )
        } else {
            None
        }
    }

    /// The first position at or after `p` where `raw_end_at` matches, with its match.
    pub open spec fn first_raw_end(&self, s: Seq<char>, p: int, word: Seq<char>) -> Option<(int, int, bool)>
        decreases s.len() - p,
    {
        if p < 0 || p >= s.len() {
            None
        } else {
            match self.raw_end_at(s, p, word) {
                Some((n, d)) => Some((p, n, d)),
                None => self.first_raw_end(s, p + 1, word),
            }
        }
    }

    /// `(?:-#}\s*|#})\n?` at `p`: the length matched.
    pub open spec fn comment_end_at(&self, s: Seq<char>, p: int) -> Option<int> {
        let ce = self.comment_end@;
        if starts_with_at(s, p, self.trim@ + ce) {
            Some(skip_ws(s, p + self.trim@.len() + ce.len()) - p)
        } else if starts_with_at(s, p, ce) {
            if 0 <= p + ce.len() < s.len() && s[p + ce.len()] == '\n' {
                Some(ce.len() + 1int)
            } else {
                Some(ce.len() as int)
            }
        } else {
            None
        }
    }

    /// The first position at or after `p` where `comment_end_at` matches,
    /// and the position after that match.
    pub open spec fn first_comment_end(&self, s: Seq<char>, p: int) -> Option<int>
        decreases s.len() - p,
    {
        if p < 0 || p >= s.len() {
            None
        } else if self.comment_end_at(s, p) is Some {
            Some(p + self.comment_end_at(s, p)->0)
        } else {
            self.first_comment_end(s, p + 1)
        }
    }

    /// `\A\s*(raw|verbatim)\s*(?:-%}\s*|\s*%})` at `i`: the length matched and
    /// whether the tag is `verbatim`.
    pub open spec fn block_raw_len(&self, s: Seq<char>, i: int) -> Option<(int, bool)> {
        let q = skip_ws(s, i);
        if starts_with_at(s, q, self.word_raw@) {
            match close_len(s, q + self.word_raw@.len(), self.trim@, self.block_end@) {
                Some(c) => Some((q + self.word_raw@.len() + c - i, false)),
                None => None,
            }
        } else if starts_with_at(s, q, self.word_verbatim@) {
            match close_len(s, q + self.word_verbatim@.len(), self.trim@, self.block_end@) {
                Some(c) => Some((q + self.word_verbatim@.len() + c - i, true)),
                None => None,
            }
        } else {
            None
        }
    }

    /// `\A\s*line\s+(\d+)\s*%}` at `i` (with ASCII digits): the length
    /// matched and the position and length of the digits.
    pub open spec fn block_line_len(&self, s: Seq<char>, i: int) -> Option<(int, int, int)> {
        let q = skip_ws(s, i);
        let a = q + self.word_line@.len();
        let d0 = skip_ws(s, a);
        let d = span(s, d0, Klass::Digit) as int;
        let b = skip_ws(s, d0 + d);
        if starts_with_at(s, q, self.word_line@) && d0 > a && d > 0 && starts_with_at(
            s,
            b,
            self.block_end@,
        ) {
            Some((b + self.block_end@.len() - i, d0, d))
        } else {
            None
        }
    }

    /// `({{|{%|{#)(-)?` at `p`: what the marker opens, its length without the
    /// trim mark, its full length and whether the trim mark follows.
    pub open spec fn tag_start_at(&self, s: Seq<char>, p: int) -> Option<(TagKind, int, int, bool)> {
        let (kind, len) = if starts_with_at(s, p, self.var_start@) {
            (TagKind::Var, self.var_start@.len() as int)
        } else if starts_with_at(s, p, self.block_start@) {
            (TagKind::Block, self.block_start@.len() as int)
        } else {
            (TagKind::Comment, self.comment_start@.len() as int)
        };
        if starts_with_at(s, p, self.var_start@) || starts_with_at(s, p, self.block_start@)
            || starts_with_at(s, p, self.comment_start@) {
            if starts_with_at(s, p + len, self.trim@) {
                Some((kind, len, len + self.trim@.len(), true))
            } else {
                Some((kind, len, len, false))
            }
        } else {
            None
        }
    }

    /// `\A#{\s*` at `i`: the length matched.
    pub open spec fn interp_start_len(&self, s: Seq<char>, i: int) -> Option<int> {
        if starts_with_at(s, i, self.interp_start@) {
            Some(skip_ws(s, i + self.interp_start@.len()) - i)
        } else {
            None
        }
    }

    /// `\A\s*}` at `i`: the length matched.
    pub open spec fn interp_end_len(&self, s: Seq<char>, i: int) -> Option<int> {
        if starts_with_at(s, skip_ws(s, i), self.interp_end@) {
            Some(skip_ws(s, i) + self.interp_end@.len() - i)
        } else {
            None
        }
    }

    /// Index of the operator matched at `p` among the first `n` operators:
    /// the longest one (in bytes) that matches, the first of those when
    /// several are equally long.
    pub open spec fn best_op_upto(&self, s: Seq<char>, p: int, n: int) -> Option<int>
        decreases n,
    {
        if n <= 0 {
            None
        } else {
            let b = self.best_op_upto(s, p, n - 1);
            if self.operators@[n - 1].matches_at(s, p) is Some && (b is None
                || self.operators@[n - 1].byte_len > self.operators@[b->0].byte_len) {
                Some(n - 1)
            } else {
                b
            }
        }
    }

    /// `\A(?:op_1|op_2|...)` over the operators sorted by decreasing byte
    /// length: the index of the operator that matches at `p`.
    pub open spec fn best_op(&self, s: Seq<char>, p: int) -> Option<int> {
        self.best_op_upto(s, p, self.operators@.len() as int)
    }
}

} // verus!

verus! {

/// The integers held by an optional exec result.
pub open spec fn opt_int(r: Option<usize>) -> Option<int> {
    match r {
        Some(n) => Some(n as int),
        None => None,
    }
}

pub open spec fn opt_int_bool(r: Option<(usize, bool)>) -> Option<(int, bool)> {
    match r {
        Some((n, b)) => Some((n as int, b)),
        None => None,
    }
}

pub open spec fn opt_int_int_bool(r: Option<(usize, usize, bool)>) -> Option<(int, int, bool)> {
    match r {
        Some((n, m, b)) => Some((n as int, m as int, b)),
        None => None,
    }
}

pub open spec fn opt_int3(r: Option<(usize, usize, usize)>) -> Option<(int, int, int)> {
    match r {
        Some((a, b, c)) => Some((a as int, b as int, c as int)),
        None => None,
    }
}

pub open spec fn opt_tag(r: Option<(TagKind, usize, usize, bool)>) -> Option<(TagKind, int, int, bool)> {
    match r {
        Some((k, a, b, t)) => Some((k, a as int, b as int, t)),
        None => None,
    }
}

/// Computes `skip_ws(s, i)`.
pub fn skip_white(s: &Vec<char>, i: usize) -> (r: usize)
    requires
        i <= s.len(),
    ensures
        r == skip_ws(s@, i as int),
        i <= r <= s.len(),
{
    i + span_of(s, i, Klass::White)
}

/// Computes `close_len(s, j, trim, end)`.
pub fn close_len_of(s: &Vec<char>, j: usize, trim: &Vec<char>, end: &Vec<char>) -> (r: Option<usize>)
    requires
        j <= s.len(),
    ensures
        opt_int(r) == close_len(s@, j as int, trim@, end@),
        r matches Some(n) ==> j + n <= s.len() && n >= end@.len(),
{
    let q = skip_white(s, j);
    if lit2_at(s, q, trim, end) {
        let e = skip_white(s, q + trim.len() + end.len());
        Some(e - j)
    } else if lit_at(s, q, end) {
        Some(q + end.len() - j)
    } else {
        None
    }
}

/// Computes `quoted_end(s, i)`.
pub fn quoted_end_of(s: &Vec<char>, i: usize) -> (r: Option<usize>)
    requires
        i <= s.len(),
    ensures
        opt_int(r) == quoted_end(s@, i as int),
        r matches Some(e) ==> i + 2 <= e <= s.len(),
{
    if i >= s.len() {
        return None;
    }
    let q = s[i];
    if q != '"' && q != '\'' {
        return None;
    }
    let dq = q == '"';
    let mut j = i + 1;
    while j < s.len()
        invariant
            i < j <= s.len(),
            s@[i as int] == q,
            dq == (q == '"'),
            q == '"' || q == '\'',
            quoted_end(s@, i as int) == (if dq { dq_end(s@, j as int) } else { sq_end(s@, j as int) }),
        decreases s.len() - j,
    {
        let c = s[j];
        if c == q {
            return Some(j + 1);
        } else if dq && c == '#' {
            return None;
        } else if c == '\\' {
            if j + 1 < s.len() {
                j = j + 2;
            } else {
                return None;
            }
        } else {
            j = j + 1;
        }
    }
    None
}

/// Computes `name_len(s, i)`.
pub fn name_len_of(s: &Vec<char>, i: usize) -> (n: usize)
    requires
        i <= s.len(),
    ensures
        n == name_len(s@, i as int),
        i + n <= s.len(),
{
    if i < s.len() && klass_has(s[i], Klass::NameStart) {
        1 + span_of(s, i + 1, Klass::NameChar)
    } else {
        0
    }
}

/// Computes `number_len(s, i)`.
pub fn number_len_of(s: &Vec<char>, i: usize) -> (n: usize)
    requires
        i <= s.len(),
    ensures
        n == number_len(s@, i as int),
        i + n <= s.len(),
{
    let d = span_of(s, i, Klass::Digit);
    if d == 0 {
        0
    } else if i + d < s.len() && s[i + d] == '.' {
        let f = span_of(s, i + d + 1, Klass::Digit);
        if f > 0 {
            d + 1 + f
        } else {
            d
        }
    } else {
        d
    }
}

/// Computes `dq_part(s@.subrange(i, s.len()))`.
pub fn dq_part_of(s: &Vec<char>, i: usize) -> (n: usize)
    requires
        i <= s.len(),
    ensures
        n == dq_part(s@.subrange(i as int, s@.len() as int)),
        i + n <= s.len(),
{
    let ghost r = s@.subrange(i as int, s@.len() as int);
    let mut k: usize = 0;
    while i + k < s.len()
        invariant
            i <= s.len(),
            r == s@.subrange(i as int, s@.len() as int),
            i + k <= s.len(),
            dq_part(r) == dq_scan(r, k as int),
        decreases s.len() - (i + k),
    {
        let c = s[i + k];
        assert(r[k as int] == c);
        if c == '"' {
            return k;
        } else if c == '\\' {
            if i + k + 1 < s.len() {
                k += 2;
            } else {
                return k;
            }
        } else if c == '#' {
            if i + k + 1 < s.len() && s[i + k + 1] == '{' {
                assert(r[k + 1] == '{');
                return k;
            }
            k += 1;
        } else {
            k += 1;
        }
    }
    k
}

/// Computes `op_match(s, p, op, k, sep)`.
pub fn op_match_of(s: &Vec<char>, p: usize, op: &Vec<char>, k: usize, sep: bool) -> (r: Option<usize>)
    requires
        p <= s.len(),
    ensures
        opt_int(r) == op_match(s@, p as int, op@, k as int, sep),
        r matches Some(e) ==> p <= e <= s.len() && e >= p + (op@.len() - k),
    decreases op@.len() - k, s@.len() + 2,
{
    if k >= op.len() {
        if !sep {
            Some(p)
        } else if p < s.len() && (klass_has(s[p], Klass::White) || s[p] == '(' || s[p] == ')') {
            Some(p + 1)
        } else {
            None
        }
    } else if op[k] == ' ' {
        let n = span_of(s, p, Klass::White);
        let mut m = n;
        while m > 0
            invariant
                k < op.len(),
                p + n <= s.len(),
                m <= n,
                n == span(s@, p as int, Klass::White),
                op@[k as int] == ' ',
                op_match(s@, p as int, op@, k as int, sep) == op_try_ws(
                    s@,
                    p as int,
                    op@,
                    k as int,
                    sep,
                    m as int,
                ),
            decreases m,
        {
            match op_match_of(s, p + m, op, k + 1, sep) {
                Some(e) => {
                    return Some(e);
                },
                None => {},
            }
            m -= 1;
        }
        None
    } else if p < s.len() && s[p] == op[k] {
        op_match_of(s, p + 1, op, k + 1, sep)
    } else {
        None
    }
}

impl Matchers {
    /// Compiles the grammar for the given delimiters and operators. Any
    /// delimiters are taken; the grammar is one the lexer can run (`wf`)
    /// exactly when none of them is empty.
    pub fn new(options: &Options, operators: &Vec<&'static str>) -> (m: Matchers)
        requires
            forall|k: int| 0 <= k < operators@.len() ==> (#[trigger] operators@[k])@.len() > 0,
        ensures
            m.wf() <==> options.delimiters_non_empty(),
            m.var_start@ == options.tag_variable.start@,
            m.var_end@ == options.tag_variable.end@,
            m.block_start@ == options.tag_block.start@,
            m.block_end@ == options.tag_block.end@,
            m.comment_start@ == options.tag_comment.start@,
            m.comment_end@ == options.tag_comment.end@,
            m.trim@ == options.whitespace_trim@,
            m.interp_start@ == options.interpolation.start@,
            m.interp_end@ == options.interpolation.end@,
            m.word_raw@ == "raw"@,
            m.word_verbatim@ == "verbatim"@,
            m.word_endraw@ == "endraw"@,
            m.word_endverbatim@ == "endverbatim"@,
            m.word_line@ == "line"@,
            m.operators@.len() == operators@.len() + 1,
            m.operators@[0].chars@ == "="@,
            m.operators@[0].byte_len == 1,
            !m.operators@[0].needs_sep,
            forall|k: int|
                0 <= k < operators@.len() ==> {
                    &&& (#[trigger] m.operators@[k + 1]).chars@ == operators@[k]@
                    &&& m.operators@[k + 1].byte_len == operators@[k].spec_bytes().len() as usize
                    &&& m.operators@[k + 1].needs_sep == alphabetic(operators@[k]@.last())
                },
    {
        let mut ops: Vec<OperatorPattern> = Vec::new();
        let eq = str_to_chars("=");
        proof {
            reveal_strlit("=");
        }
        ops.push(OperatorPattern { chars: eq, byte_len: 1, needs_sep: false });
        let mut i: usize = 0;
        while i < operators.len()
            invariant
                i <= operators@.len(),
                ops@.len() == i + 1,
                ops@[0].chars@ == "="@,
                ops@[0].byte_len == 1,
                !ops@[0].needs_sep,
                forall|k: int| 0 <= k < operators@.len() ==> (#[trigger] operators@[k])@.len() > 0,
                forall|k: int|
                    0 <= k < i ==> {
                        &&& (#[trigger] ops@[k + 1]).chars@ == operators@[k]@
                        &&& ops@[k + 1].byte_len == operators@[k].spec_bytes().len() as usize
                        &&& ops@[k + 1].needs_sep == alphabetic(operators@[k]@.last())
                    },
            decreases operators@.len() - i,
        {
            let op: &str = operators[i];
            let chars = str_to_chars(op);
            assert(operators@[i as int]@.len() > 0);
            let last = chars[chars.len() - 1];
            let needs_sep = char_is_alphabetic(last);
            let byte_len = op.len();
            let ghost prev = ops@;
            ops.push(OperatorPattern { chars, byte_len, needs_sep });
            assert forall|k: int| 0 <= k < i + 1 implies {
                &&& (#[trigger] ops@[k + 1]).chars@ == operators@[k]@
                &&& ops@[k + 1].byte_len == operators@[k].spec_bytes().len() as usize
                &&& ops@[k + 1].needs_sep == alphabetic(operators@[k]@.last())
            } by {
                if k < i {
                    assert(ops@[k + 1] == prev[k + 1]);
                }
            }
            i += 1;
        }
        let m = Matchers {
            var_start: str_to_chars(options.tag_variable.start),
            var_end: str_to_chars(options.tag_variable.end),
            block_start: str_to_chars(options.tag_block.start),
            block_end: str_to_chars(options.tag_block.end),
            comment_start: str_to_chars(options.tag_comment.start),
            comment_end: str_to_chars(options.tag_comment.end),
            trim: str_to_chars(options.whitespace_trim),
            interp_start: str_to_chars(options.interpolation.start),
            interp_end: str_to_chars(options.interpolation.end),
            word_raw: str_to_chars("raw"),
            word_verbatim: str_to_chars("verbatim"),
            word_endraw: str_to_chars("endraw"),
            word_endverbatim: str_to_chars("endverbatim"),
            word_line: str_to_chars("line"),
            operators: ops,
        };
        proof {
            reveal_strlit("raw");
            reveal_strlit("verbatim");
            reveal_strlit("line");
            assert forall|k: int| 0 <= k < m.operators@.len() implies (#[trigger] m.operators@[k]).chars@.len() > 0 by {
                if k > 0 {
                    assert(m.operators@[(k - 1) + 1].chars@ == operators@[k - 1]@);
                }
            }
        }
        m
    }

    /// The part of a double quoted string at the start of `code`, up to `#{`
    /// or to the closing `"`, as its position (start, end) in bytes.
    ///
    /// This is `/[^#"\\]*(?:(?:\\.|#(?!\{))[^#"\\]*)*/As` as a regular
    /// expression, written by hand.
    pub fn match_regex_dq_string_part(&self, code: &str) -> (r: (usize, usize))
        requires
            code.spec_bytes().len() <= usize::MAX,
        ensures
            r.0 == 0,
            r.1 == vstd::utf8::encode_utf8(code@.take(dq_part(code@))).len(),
    {
        let s = str_to_chars(code);
        assert(s@.subrange(0, s@.len() as int) =~= code@);
        let n = dq_part_of(&s, 0);
        (0, utf8_offset(&s, n))
    }

    /// Computes `var_end_len`.
    pub fn var_end_at(&self, s: &Vec<char>, i: usize) -> (r: Option<usize>)
        requires
            i <= s.len(),
        ensures
            opt_int(r) == self.var_end_len(s@, i as int),
            r matches Some(n) ==> i + n <= s.len() && n >= self.var_end@.len(),
    {
        close_len_of(s, i, &self.trim, &self.var_end)
    }

    /// Computes `block_end_len`.
    pub fn block_end_at(&self, s: &Vec<char>, i: usize) -> (r: Option<usize>)
        requires
            i <= s.len(),
        ensures
            opt_int(r) == self.block_end_len(s@, i as int),
            r matches Some(n) ==> i + n <= s.len() && n >= self.block_end@.len(),
    {
        match close_len_of(s, i, &self.trim, &self.block_end) {
            Some(n) => if i + n < s.len() && s[i + n] == '\n' {
                Some(n + 1)
            } else {
                Some(n)
            },
            None => None,
        }
    }

    /// Computes `raw_end_at`.
    pub fn raw_end_of(&self, s: &Vec<char>, p: usize, word: &Vec<char>) -> (r: Option<(usize, bool)>)
        requires
            p <= s.len(),
        ensures
            opt_int_bool(r) == self.raw_end_at(s@, p as int, word@),
            r matches Some((n, d)) ==> p + n <= s.len(),
    {
        let bs = &self.block_start;
        if lit2_at(s, p, bs, &self.trim) {
            let q = skip_white(s, p + bs.len() + self.trim.len());
            if lit_at(s, q, word) {
                match close_len_of(s, q + word.len(), &self.trim, &self.block_end) {
                    Some(c) => {
                        return Some((q + word.len() + c - p, true));
                    },
                    None => {},
                }
            }
        }
        if lit_at(s, p, bs) {
            let q = skip_white(s, p + bs.len());
            if lit_at(s, q, word) {
                match close_len_of(s, q + word.len(), &self.trim, &self.block_end) {
                    Some(c) => {
                        return Some((q + word.len() + c - p, false));
                    },
                    None => {},
                }
            }
        }
        None
    }

    /// Computes `first_raw_end`.
    pub fn find_raw_end(&self, s: &Vec<char>, from: usize, word: &Vec<char>) -> (r: Option<(usize, usize, bool)>)
        requires
            from <= s.len(),
        ensures
            opt_int_int_bool(r) == self.first_raw_end(s@, from as int, word@),
            r matches Some((a, n, d)) ==> from <= a && a + n <= s.len(),
    {
        let mut p = from;
        while p < s.len()
            invariant
                from <= p <= s.len(),
                self.first_raw_end(s@, from as int, word@) == self.first_raw_end(s@, p as int, word@),
            decreases s.len() - p,
        {
            match self.raw_end_of(s, p, word) {
                Some((n, d)) => {
                    return Some((p, n, d));
                },
                None => {},
            }
            p += 1;
        }
        None
    }

    /// Computes `comment_end_at`.
    pub fn comment_end_of(&self, s: &Vec<char>, p: usize) -> (r: Option<usize>)
        requires
            p <= s.len(),
        ensures
            opt_int(r) == self.comment_end_at(s@, p as int),
            r matches Some(n) ==> p + n <= s.len() && n >= self.comment_end@.len(),
    {
        let ce = &self.comment_end;
        if lit2_at(s, p, &self.trim, ce) {
            Some(skip_white(s, p + self.trim.len() + ce.len()) - p)
        } else if lit_at(s, p, ce) {
            if p + ce.len() < s.len() && s[p + ce.len()] == '\n' {
                Some(ce.len() + 1)
            } else {
                Some(ce.len())
            }
        } else {
            None
        }
    }

    /// Computes `first_comment_end`.
    pub fn find_comment_end(&self, s: &Vec<char>, from: usize) -> (r: Option<usize>)
        requires
            from <= s.len(),
        ensures
            opt_int(r) == self.first_comment_end(s@, from as int),
            r matches Some(e) ==> from + self.comment_end@.len() <= e <= s.len(),
    {
        let mut p = from;
        while p < s.len()
            invariant
                from <= p <= s.len(),
                self.first_comment_end(s@, from as int) == self.first_comment_end(s@, p as int),
            decreases s.len() - p,
        {
            match self.comment_end_of(s, p) {
                Some(n) => {
                    return Some(p + n);
                },
                None => {},
            }
            p += 1;
        }
        None
    }

    /// Computes `block_raw_len`.
    pub fn block_raw_of(&self, s: &Vec<char>, i: usize) -> (r: Option<(usize, bool)>)
        requires
            i <= s.len(),
        ensures
            opt_int_bool(r) == self.block_raw_len(s@, i as int),
            r matches Some((n, v)) ==> i + n <= s.len(),
    {
        let q = skip_white(s, i);
        if lit_at(s, q, &self.word_raw) {
            match close_len_of(s, q + self.word_raw.len(), &self.trim, &self.block_end) {
                Some(c) => Some((q + self.word_raw.len() + c - i, false)),
                None => None,
            }
        } else if lit_at(s, q, &self.word_verbatim) {
            match close_len_of(s, q + self.word_verbatim.len(), &self.trim, &self.block_end) {
                Some(c) => Some((q + self.word_verbatim.len() + c - i, true)),
                None => None,
            }
        } else {
            None
        }
    }

    /// Computes `block_line_len`.
    pub fn block_line_of(&self, s: &Vec<char>, i: usize) -> (r: Option<(usize, usize, usize)>)
        requires
            i <= s.len(),
        ensures
            opt_int3(r) == self.block_line_len(s@, i as int),
            r matches Some((n, a, d)) ==> i + n <= s.len() && i <= a && a + d <= i + n,
    {
        let q = skip_white(s, i);
        if !lit_at(s, q, &self.word_line) {
            return None;
        }
        let a = q + self.word_line.len();
        let d0 = skip_white(s, a);
        let d = span_of(s, d0, Klass::Digit);
        let b = skip_white(s, d0 + d);
        if d0 > a && d > 0 && lit_at(s, b, &self.block_end) {
            Some((b + self.block_end.len() - i, d0, d))
        } else {
            None
        }
    }

    /// Computes `tag_start_at`.
    pub fn tag_start_of(&self, s: &Vec<char>, p: usize) -> (r: Option<(TagKind, usize, usize, bool)>)
        requires
            p <= s.len(),
        ensures
            opt_tag(r) == self.tag_start_at(s@, p as int),
            r matches Some((k, l, a, t)) ==> p + a <= s.len() && l <= a,
    {
        let (kind, len) = if lit_at(s, p, &self.var_start) {
            (TagKind::Var, self.var_start.len())
        } else if lit_at(s, p, &self.block_start) {
            (TagKind::Block, self.block_start.len())
        } else if lit_at(s, p, &self.comment_start) {
            (TagKind::Comment, self.comment_start.len())
        } else {
            return None;
        };
        if lit_at(s, p + len, &self.trim) {
            Some((kind, len, len + self.trim.len(), true))
        } else {
            Some((kind, len, len, false))
        }
    }

    /// Computes `interp_start_len`.
    pub fn interp_start_of(&self, s: &Vec<char>, i: usize) -> (r: Option<usize>)
        requires
            i <= s.len(),
        ensures
            opt_int(r) == self.interp_start_len(s@, i as int),
            r matches Some(n) ==> i + n <= s.len() && n >= self.interp_start@.len(),
    {
        if lit_at(s, i, &self.interp_start) {
            Some(skip_white(s, i + self.interp_start.len()) - i)
        } else {
            None
        }
    }

    /// Computes `interp_end_len`.
    pub fn interp_end_of(&self, s: &Vec<char>, i: usize) -> (r: Option<usize>)
        requires
            i <= s.len(),
        ensures
            opt_int(r) == self.interp_end_len(s@, i as int),
            r matches Some(n) ==> i + n <= s.len() && n >= self.interp_end@.len(),
    {
        let q = skip_white(s, i);
        if lit_at(s, q, &self.interp_end) {
            Some(q + self.interp_end.len() - i)
        } else {
            None
        }
    }

    /// Computes `best_op`, with the end of the match.
    pub fn operator_at(&self, s: &Vec<char>, p: usize) -> (r: Option<(usize, usize)>)
        requires
            p <= s.len(),
        ensures
            match self.best_op(s@, p as int) {
                Some(k) => r matches Some((rk, e)) && rk == k && 0 <= k < self.operators@.len()
                    && self.operators@[k].matches_at(s@, p as int) == Some(e as int),
                None => r is None,
            },
            r matches Some((k, e)) ==> p <= e <= s.len() && e >= p + self.operators@[k as int].chars@.len(),
    {
        let mut best: Option<(usize, usize)> = None;
        let mut i: usize = 0;
        while i < self.operators.len()
            invariant
                p <= s.len(),
                i <= self.operators@.len(),
                match self.best_op_upto(s@, p as int, i as int) {
                    Some(k) => best matches Some((bk, e)) && bk == k && 0 <= k < i
                        && self.operators@[k].matches_at(s@, p as int) == Some(e as int) && p <= e <= s.len()
                        && e >= p + self.operators@[k].chars@.len(),
                    None => best is None,
                },
            decreases self.operators@.len() - i,
        {
            let op = &self.operators[i];
            match op_match_of(s, p, &op.chars, 0, op.needs_sep) {
                Some(e) => {
                    let better = match best {
                        None => true,
                        Some((bk, _)) => op.byte_len > self.operators[bk].byte_len,
                    };
                    if better {
                        best = Some((i, e));
                    }
                },
                None => {},
            }
            i += 1;
        }
        best
    }
}

} // verus!
