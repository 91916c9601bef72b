//! How a schema script is cut into the statements that are run one by one:
//! at each `;`, without `--` comment lines, trimmed, empty ones skipped.

use crate::text::{push_char, split_on, trim, trimmed, trimmed_start};
use vstd::prelude::*;
use vstd::string::*;

verus! {

/// `str::trim_start`: leading white space removed.
#[verifier::external_body]
fn trim_start(s: &str) -> (r: &str)
    ensures
        r@ == trimmed_start(s@),
{
    s.trim_start()
}

/// A line without the `\r` of a `\r\n` ending.
pub open spec fn without_cr(line: Seq<char>) -> Seq<char> {
    if line.len() > 0 && line.last() == '\r' {
        line.drop_last()
    } else {
        line
    }
}

pub open spec fn all_without_cr(pieces: Seq<Seq<char>>) -> Seq<Seq<char>> {
    pieces.map_values(|l: Seq<char>| without_cr(l))
}

/// The lines of a text as `str::lines` gives them: split at `\n`, an empty
/// piece after the last `\n` dropped, a trailing `\r` removed from each.
pub open spec fn lines_of(s: Seq<char>) -> Seq<Seq<char>> {
    let pieces = split_on(s, '\n');
    if pieces.last().len() == 0 {
        all_without_cr(pieces.drop_last())
    } else {
        all_without_cr(pieces)
    }
}

/// A line whose first non-blank characters are `--`.
pub open spec fn is_comment(line: Seq<char>) -> bool {
    let t = trimmed_start(line);
    t.len() >= 2 && t[0] == '-' && t[1] == '-'
}

/// The lines that are not comments, in order.
pub open spec fn code_lines(lines: Seq<Seq<char>>) -> Seq<Seq<char>>
    decreases lines.len(),
{
    if lines.len() == 0 {
        Seq::empty()
    } else {
        let init = code_lines(lines.drop_last());
        if is_comment(lines.last()) {
            init
        } else {
            init.push(lines.last())
        }
    }
}

/// The lines joined with `\n`.
pub open spec fn joined(lines: Seq<Seq<char>>) -> Seq<char>
    decreases lines.len(),
{
    if lines.len() == 0 {
        Seq::empty()
    } else if lines.len() == 1 {
        lines[0]
    } else {
        joined(lines.drop_last()) + seq!['\n'] + lines.last()
    }
}

/// The statement a piece of the script holds.
pub open spec fn statement_text(part: Seq<char>) -> Seq<char> {
    trimmed(joined(code_lines(lines_of(part))))
}

/// The non-empty statements of the pieces, in order.
pub open spec fn statement_list(parts: Seq<Seq<char>>) -> Seq<Seq<char>>
    decreases parts.len(),
{
    if parts.len() == 0 {
        Seq::empty()
    } else {
        let init = statement_list(parts.drop_last());
        let st = statement_text(parts.last());
        if st.len() > 0 {
            init.push(st)
        } else {
            init
        }
    }
}

/// The statements of a schema script, in order.
pub open spec fn script_statements(sql: Seq<char>) -> Seq<Seq<char>> {
    statement_list(split_on(sql, ';'))
}

pub open spec fn texts(v: Seq<String>) -> Seq<Seq<char>> {
    v.map_values(|s: String| s@)
}

fn strip_cr(line: &str) -> (r: &str)
    ensures
        r@ == without_cr(line@),
{
    let n = line.unicode_len();
    if n > 0 && line.get_char(n - 1) == '\r' {
        line.substring_char(0, n - 1)
    } else {
        line
    }
}

fn comment_line(line: &str) -> (r: bool)
    ensures
        r == is_comment(line@),
{
    let t = trim_start(line);
    t.unicode_len() >= 2 && t.get_char(0) == '-' && t.get_char(1) == '-'
}

/// Adds a finished line to the statement text unless it is a comment.
fn take_line(out: &mut String, any: &mut bool, line: &str)
    ensures
        !is_comment(without_cr(line@)) ==> final(out)@ == (if *old(any) {
            old(out)@ + seq!['\n'] + without_cr(line@)
        } else {
            without_cr(line@)
        }) && *final(any),
        is_comment(without_cr(line@)) ==> final(out)@ == old(out)@ && *final(any) == *old(any),
{
    let l = strip_cr(line);
    if !comment_line(l) {
        if *any {
            push_char(out, '\n');
            out.append(l);
        } else {
            *out = String::from_str(l);
        }
        *any = true;
    }
}

proof fn lemma_code_lines_push(lines: Seq<Seq<char>>, x: Seq<char>)
    ensures
        code_lines(lines.push(x)) == (if is_comment(x) {
            code_lines(lines)
        } else {
            code_lines(lines).push(x)
        }),
{
    assert(lines.push(x).drop_last() =~= lines);
}

proof fn lemma_joined_push(lines: Seq<Seq<char>>, x: Seq<char>)
    ensures
        joined(lines.push(x)) == (if lines.len() == 0 {
            x
        } else {
            joined(lines) + seq!['\n'] + x
        }),
{
    assert(lines.push(x).drop_last() =~= lines);
}

/// The statement text of one piece of the script.
fn statement_of(part: &str) -> (r: String)
    ensures
        r@ == statement_text(part@),
{
    let n = part.unicode_len();
    let mut out = String::new();
    let mut any = false;
    let mut current = String::new();
    let mut i: usize = 0;
    proof {
        assert(part@.take(0) =~= Seq::<char>::empty());
    }
    while i < n
        invariant
            n == part@.len(),
            i <= n,
            split_on(part@.take(i as int), '\n').len() >= 1,
            current@ == split_on(part@.take(i as int), '\n').last(),
            out@ == joined(code_lines(all_without_cr(split_on(part@.take(i as int), '\n').drop_last()))),
            any == (code_lines(all_without_cr(split_on(part@.take(i as int), '\n').drop_last())).len() > 0),
        decreases n - i,
    {
        let c = part.get_char(i);
        let ghost pieces = split_on(part@.take(i as int), '\n');
        proof {
            assert(part@.take(i + 1).drop_last() =~= part@.take(i as int));
        }
        if c == '\n' {
            let ghost done = all_without_cr(pieces.drop_last());
            take_line(&mut out, &mut any, current.as_str());
            current = String::new();
            proof {
                let next = split_on(part@.take(i + 1), '\n');
                assert(next.drop_last() =~= pieces);
                assert(pieces.drop_last().push(pieces.last()) =~= pieces);
                assert(all_without_cr(pieces) =~= done.push(without_cr(pieces.last())));
                lemma_code_lines_push(done, without_cr(pieces.last()));
                lemma_joined_push(code_lines(done), without_cr(pieces.last()));
            }
        } else {
            push_char(&mut current, c);
            proof {
                let next = split_on(part@.take(i + 1), '\n');
                assert(next.drop_last() =~= pieces.drop_last());
            }
        }
        i = i + 1;
    }
    proof {
        assert(part@.take(n as int) =~= part@);
    }
    let ghost pieces = split_on(part@, '\n');
    let ghost done = all_without_cr(pieces.drop_last());
    if current.as_str().unicode_len() > 0 {
        take_line(&mut out, &mut any, current.as_str());
        proof {
            assert(pieces.drop_last().push(pieces.last()) =~= pieces);
            assert(all_without_cr(pieces) =~= done.push(without_cr(pieces.last())));
            lemma_code_lines_push(done, without_cr(pieces.last()));
            lemma_joined_push(code_lines(done), without_cr(pieces.last()));
        }
    }
    String::from_str(trim(out.as_str()))
}

/// Cuts a schema script into the statements to run, in order.
pub fn migration_statements(sql: &str) -> (r: Vec<String>)
    ensures
        texts(r@) == script_statements(sql@),
{
    let n = sql.unicode_len();
    let mut statements: Vec<String> = Vec::new();
    let mut current = String::new();
    let mut i: usize = 0;
    proof {
        assert(sql@.take(0) =~= Seq::<char>::empty());
        assert(texts(statements@) =~= Seq::<Seq<char>>::empty());
    }
    while i < n
        invariant
            n == sql@.len(),
            i <= n,
            split_on(sql@.take(i as int), ';').len() >= 1,
            current@ == split_on(sql@.take(i as int), ';').last(),
            texts(statements@) == statement_list(split_on(sql@.take(i as int), ';').drop_last()),
        decreases n - i,
    {
        let c = sql.get_char(i);
        let ghost pieces = split_on(sql@.take(i as int), ';');
        proof {
            assert(sql@.take(i + 1).drop_last() =~= sql@.take(i as int));
        }
        if c == ';' {
            let st = statement_of(current.as_str());
            let ghost before = statements@;
            if st.as_str().unicode_len() > 0 {
                statements.push(st);
                proof {
                    assert(texts(statements@) =~= texts(before).push(st@));
                }
            }
            current = String::new();
            proof {
                let next = split_on(sql@.take(i + 1), ';');
                assert(next.drop_last() =~= pieces);
                assert(pieces.drop_last().push(pieces.last()) =~= pieces);
            }
        } else {
            push_char(&mut current, c);
            proof {
                let next = split_on(sql@.take(i + 1), ';');
                assert(next.drop_last() =~= pieces.drop_last());
            }
        }
        i = i + 1;
    }
    proof {
        assert(sql@.take(n as int) =~= sql@);
    }
    let ghost pieces = split_on(sql@, ';');
    let st = statement_of(current.as_str());
    let ghost before = statements@;
    if st.as_str().unicode_len() > 0 {
        statements.push(st);
        proof {
            assert(texts(statements@) =~= texts(before).push(st@));
        }
    }
    proof {
        assert(pieces.drop_last().push(pieces.last()) =~= pieces);
    }
    statements
}

} // verus!
