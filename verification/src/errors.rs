use vstd::prelude::*;
use vstd::string::{StringExecFns, StrSliceExecFns};
use crate::strutil::{spec_dec, spec_pad4, spec_repeat, push_dec, push_repeat, to_char_vec, string_from_range};

verus! {

// Positioned diagnostics. The lexer and the parser report every failure
// through `format_error`, which renders a fixed shape: a header with the
// position, the offending source line with a caret under the column, and a
// hint line.

pub struct ErrorPosition {
    pub line: usize,
    pub column: usize,
}

/// A diagnostic before rendering: position, message and hint.
pub struct SpecDiag {
    pub line: int,
    pub column: int,
    pub message: Seq<char>,
    pub hint: Seq<char>,
}

/// Index of the first occurrence of `c` in `s` at or after `i`, or `s.len()`.
pub open spec fn spec_find(s: Seq<char>, c: char, i: int) -> int
    decreases s.len() - i,
{
    if i < 0 {
        0
    } else if i >= s.len() {
        s.len() as int
    } else if s[i] == c {
        i
    } else {
        spec_find(s, c, i + 1)
    }
}

pub proof fn lemma_find_bounds(s: Seq<char>, c: char, i: int)
    requires
        0 <= i <= s.len(),
    ensures
        i <= spec_find(s, c, i) <= s.len(),
    decreases s.len() - i,
{
    if i < s.len() && s[i] != c {
        lemma_find_bounds(s, c, i + 1);
    }
}

pub open spec fn spec_strip_cr(t: Seq<char>) -> Seq<char> {
    if t.len() > 0 && t[t.len() - 1] == '\r' {
        t.subrange(0, t.len() - 1)
    } else {
        t
    }
}

/// The lines of `s` from position `i` on: split at newlines, one trailing
/// carriage return removed from each piece that ended in a newline, and no
/// empty piece after a final newline.
pub open spec fn spec_lines_from(s: Seq<char>, i: int) -> Seq<Seq<char>>
    decreases s.len() - i,
    via spec_lines_from_dec
{
    if i < 0 || i >= s.len() {
        Seq::empty()
    } else {
        let j = spec_find(s, '\n', i);
        if j >= s.len() {
            seq![s.subrange(i, s.len() as int)]
        } else {
            seq![spec_strip_cr(s.subrange(i, j))] + spec_lines_from(s, j + 1)
        }
    }
}

#[via_fn]
proof fn spec_lines_from_dec(s: Seq<char>, i: int) {
    if 0 <= i < s.len() {
        lemma_find_bounds(s, '\n', i);
    }
}

pub open spec fn spec_lines(s: Seq<char>) -> Seq<Seq<char>> {
    spec_lines_from(s, 0)
}

/// The exact text `format_error` produces.
pub open spec fn spec_format_error(
    path: Seq<char>,
    source: Seq<char>,
    line: int,
    column: int,
    message: Seq<char>,
    hint: Seq<char>,
) -> Seq<char> {
    let head = "Error in "@ + path + ":"@ + spec_dec(line as nat) + ":"@ + spec_dec(
        column as nat,
    ) + "\n"@ + "  "@ + message + "\n"@;
    let lines = spec_lines(source);
    let ctx = if line - 1 < lines.len() {
        "\n"@ + spec_pad4(spec_dec(line as nat)) + " | "@ + lines[line - 1] + "\n"@ + "     | "@
            + spec_repeat(' ', (column - 1) as nat) + "^"@ + "\n"@
    } else {
        Seq::<char>::empty()
    };
    head + ctx + "\nHint: "@ + hint + "\n"@
}

pub open spec fn spec_render_diag(path: Seq<char>, source: Seq<char>, d: SpecDiag) -> Seq<char> {
    spec_format_error(path, source, d.line, d.column, d.message, d.hint)
}

pub(crate) fn find_char(v: &Vec<char>, c: char, i: usize) -> (j: usize)
    requires
        i <= v@.len(),
    ensures
        j == spec_find(v@, c, i as int),
        i <= j <= v@.len(),
        j < v@.len() ==> v@[j as int] == c,
    decreases v@.len() - i,
{
    if i >= v.len() {
        i
    } else if v[i] == c {
        i
    } else {
        find_char(v, c, i + 1)
    }
}

fn lines_from(v: &Vec<char>, i: usize) -> (r: Vec<String>)
    requires
        i <= v@.len(),
    ensures
        r@.len() == spec_lines_from(v@, i as int).len(),
        forall|k: int| 0 <= k < r@.len() ==> r@[k]@ == spec_lines_from(v@, i as int)[k],
    decreases v@.len() - i,
{
    let mut r: Vec<String> = Vec::new();
    if i >= v.len() {
        return r;
    }
    let j = find_char(v, '\n', i);
    if j >= v.len() {
        let piece = string_from_range(v, i, v.len());
        r.push(piece);
        return r;
    }
    let end = if j > i && v[j - 1] == '\r' {
        j - 1
    } else {
        j
    };
    let piece = string_from_range(v, i, end);
    proof {
        assert(spec_strip_cr(v@.subrange(i as int, j as int)) =~= v@.subrange(
            i as int,
            end as int,
        ));
    }
    r.push(piece);
    let rest = lines_from(v, j + 1);
    let mut k: usize = 0;
    while k < rest.len()
        invariant
            r@.len() == 1 + k,
            k <= rest@.len(),
            r@[0]@ == spec_strip_cr(v@.subrange(i as int, spec_find(v@, '\n', i as int))),
            forall|m: int| 1 <= m < r@.len() ==> r@[m]@ == rest@[m - 1]@,
            forall|m: int|
                0 <= m < rest@.len() ==> rest@[m]@ == spec_lines_from(v@, j as int + 1)[m],
            rest@.len() == spec_lines_from(v@, j as int + 1).len(),
        decreases rest@.len() - k,
    {
        let piece = rest[k].clone();
        r.push(piece);
        k = k + 1;
    }
    r
}

/// Renders a positioned diagnostic: header, source-line context with a caret,
/// and a hint, in the exact shape `spec_format_error` gives.
pub fn format_error(
    source_path: &str,
    source: &str,
    pos: ErrorPosition,
    message: String,
    hint: String,
) -> (r: String)
    requires
        pos.line >= 1,
        pos.column >= 1,
    ensures
        r@ == spec_format_error(
            source_path@,
            source@,
            pos.line as int,
            pos.column as int,
            message@,
            hint@,
        ),
{
    let mut out = String::new();
    out.append("Error in ");
    out.append(source_path);
    out.append(":");
    push_dec(&mut out, pos.line as u64);
    out.append(":");
    push_dec(&mut out, pos.column as u64);
    out.append("\n");
    out.append("  ");
    out.append(message.as_str());
    out.append("\n");

    let chars = to_char_vec(source);
    let lines = lines_from(&chars, 0);
    let line_idx = pos.line - 1;
    if line_idx < lines.len() {
        out.append("\n");
        let num = crate::strutil::u64_to_string(pos.line as u64);
        let numlen = num.as_str().unicode_len();
        if numlen < 4 {
            push_repeat(&mut out, ' ', 4 - numlen);
        }
        out.append(num.as_str());
        out.append(" | ");
        out.append(lines[line_idx].as_str());
        out.append("\n");
        out.append("     | ");
        push_repeat(&mut out, ' ', pos.column - 1);
        out.append("^");
        out.append("\n");
    }
    out.append("\nHint: ");
    out.append(hint.as_str());
    out.append("\n");
    assert(out@ =~= spec_format_error(
        source_path@,
        source@,
        pos.line as int,
        pos.column as int,
        message@,
        hint@,
    ));
    out
}

} // verus!
