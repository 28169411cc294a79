//! Verified text helpers: decimal rendering of counters, character-based
//! truncation, and the pane title line.

use vstd::prelude::*;
use vstd::string::{StrSliceExecFns, StringExecFns};
use crate::pane::Pane;

verus! {

/// The decimal digit character for `d` in 0..9.
pub open spec fn digit_char(d: int) -> char {
    if d == 0 {
        '0'
    } else if d == 1 {
        '1'
    } else if d == 2 {
        '2'
    } else if d == 3 {
        '3'
    } else if d == 4 {
        '4'
    } else if d == 5 {
        '5'
    } else if d == 6 {
        '6'
    } else if d == 7 {
        '7'
    } else if d == 8 {
        '8'
    } else {
        '9'
    }
}

/// The decimal numeral of `n`, most significant digit first.
pub open spec fn spec_udec(n: nat) -> Seq<char>
    decreases n,
{
    if n < 10 {
        seq![digit_char(n as int)]
    } else {
        spec_udec(n / 10).push(digit_char((n % 10) as int))
    }
}

fn digit_str(d: usize) -> (r: &'static str)
    requires
        d < 10,
    ensures
        r@ == seq![digit_char(d as int)],
{
    proof {
        reveal_strlit("0123456789");
    }
    let r = "0123456789".substring_char(d, d + 1);
    assert(r@ =~= seq![digit_char(d as int)]);
    r
}

/// Render `n` in decimal.
pub fn usize_to_string(n: usize) -> (s: String)
    ensures
        s@ == spec_udec(n as nat),
    decreases n,
{
    if n < 10 {
        String::from_str(digit_str(n))
    } else {
        let mut s = usize_to_string(n / 10);
        s.append(digit_str(n % 10));
        assert(s@ =~= spec_udec(n as nat));
        s
    }
}

/// The first `limit` characters of `s`, or all of it when it is shorter.
pub open spec fn spec_truncate_chars(s: Seq<char>, limit: int) -> Seq<char> {
    if s.len() > limit {
        s.subrange(0, limit)
    } else {
        s
    }
}

/// Truncate a string to at most `limit` characters.
pub fn truncate_chars(s: &str, limit: usize) -> (r: String)
    ensures
        r@ == spec_truncate_chars(s@, limit as int),
{
    let n = s.unicode_len();
    if n > limit {
        s.substring_char(0, limit).to_owned()
    } else {
        s.to_owned()
    }
}

/// Whether `c` counts as whitespace for command splitting: the characters
/// with Unicode's White_Space property.
pub open spec fn spec_is_ws(c: char) -> bool {
    ||| (0x09 <= c as u32 && c as u32 <= 0x0d)
    ||| c as u32 == 0x20
    ||| c as u32 == 0x85
    ||| c as u32 == 0xa0
    ||| c as u32 == 0x1680
    ||| (0x2000 <= c as u32 && c as u32 <= 0x200a)
    ||| c as u32 == 0x2028
    ||| c as u32 == 0x2029
    ||| c as u32 == 0x202f
    ||| c as u32 == 0x205f
    ||| c as u32 == 0x3000
}

fn is_ws(c: char) -> (b: bool)
    ensures
        b == spec_is_ws(c),
{
    let v = c as u32;
    (0x09 <= v && v <= 0x0d) || v == 0x20 || v == 0x85 || v == 0xa0 || v == 0x1680 || (0x2000 <= v
        && v <= 0x200a) || v == 0x2028 || v == 0x2029 || v == 0x202f || v == 0x205f || v == 0x3000
}

/// One past the last character of the whitespace-free run starting at `i`.
pub open spec fn token_end(s: Seq<char>, i: int) -> int
    decreases s.len() - i,
{
    if i < 0 || i >= s.len() || spec_is_ws(s[i]) {
        i
    } else {
        token_end(s, i + 1)
    }
}

proof fn lemma_token_end_bounds(s: Seq<char>, i: int)
    requires
        0 <= i <= s.len(),
    ensures
        i <= token_end(s, i) <= s.len(),
        i < s.len() && !spec_is_ws(s[i]) ==> token_end(s, i) >= i + 1,
    decreases s.len() - i,
{
    if i < s.len() && !spec_is_ws(s[i]) {
        lemma_token_end_bounds(s, i + 1);
    }
}

/// The whitespace-separated tokens of `s` from position `i` on.
pub open spec fn spec_split_from(s: Seq<char>, i: int) -> Seq<Seq<char>>
    decreases s.len() - i,
    via split_from_decreases
{
    if i < 0 || i >= s.len() {
        Seq::empty()
    } else if spec_is_ws(s[i]) {
        spec_split_from(s, i + 1)
    } else {
        seq![s.subrange(i, token_end(s, i))] + spec_split_from(s, token_end(s, i))
    }
}

#[via_fn]
proof fn split_from_decreases(s: Seq<char>, i: int) {
    if 0 <= i < s.len() {
        lemma_token_end_bounds(s, i);
    }
}

/// The views of a list of strings.
pub open spec fn strs_view(v: Seq<String>) -> Seq<Seq<char>> {
    v.map_values(|t: String| t@)
}

fn token_end_at(s: &str, i: usize, n: usize) -> (r: usize)
    requires
        n == s@.len(),
        i <= n,
    ensures
        r == token_end(s@, i as int),
        i <= r <= n,
{
    let mut j: usize = i;
    loop
        invariant
            i <= j <= n,
            n == s@.len(),
            token_end(s@, i as int) == token_end(s@, j as int),
        ensures
            j == token_end(s@, i as int),
        decreases n - j,
    {
        if j >= n {
            break;
        }
        if is_ws(s.get_char(j)) {
            break;
        }
        j = j + 1;
    }
    j
}

/// Split `s` at whitespace runs into its tokens.
pub fn split_ws(s: &str) -> (r: Vec<String>)
    ensures
        strs_view(r@) == spec_split_from(s@, 0),
{
    let n = s.unicode_len();
    let mut out: Vec<String> = Vec::new();
    let mut i: usize = 0;
    loop
        invariant
            i <= n,
            n == s@.len(),
            strs_view(out@) + spec_split_from(s@, i as int) == spec_split_from(s@, 0),
        ensures
            strs_view(out@) == spec_split_from(s@, 0),
        decreases n - i,
    {
        if i >= n {
            assert(strs_view(out@) =~= strs_view(out@) + spec_split_from(s@, i as int));
            break;
        }
        let c = s.get_char(i);
        if is_ws(c) {
            i = i + 1;
        } else {
            proof {
                lemma_token_end_bounds(s@, i as int);
            }
            let j = token_end_at(s, i, n);
            let tok = s.substring_char(i, j).to_owned();
            assert(tok@ == s@.subrange(i as int, token_end(s@, i as int)));
            let ghost prev_out = out@;
            out.push(tok);
            proof {
                assert(strs_view(out@) =~= strs_view(prev_out).push(tok@));
            }
            assert(strs_view(out@) + spec_split_from(s@, j as int) =~= spec_split_from(s@, 0));
            i = j;
        }
    }
    out
}

/// The command line a pane runs: its configured command, or the default
/// shell.
pub open spec fn spec_command_line(command: Option<Seq<char>>, shell: Seq<char>) -> Seq<char> {
    match command {
        Some(c) => c,
        None => shell,
    }
}

/// Split a pane's command line by whitespace: the first token is the
/// executable (the default shell when there is none), the rest are its
/// arguments.
pub fn split_command(command: &Option<String>, default_shell: &str) -> (r: (String, Vec<String>))
    ensures
        ({
            let line = spec_command_line(
                match command {
                    Some(c) => Some(c@),
                    None => None,
                },
                default_shell@,
            );
            let toks = spec_split_from(line, 0);
            &&& toks.len() == 0 ==> r.0@ == default_shell@ && r.1@.len() == 0
            &&& toks.len() > 0 ==> r.0@ == toks[0] && strs_view(r.1@) == toks.drop_first()
        }),
{
    let line: &str = match command {
        Some(c) => c.as_str(),
        None => default_shell,
    };
    let mut toks = split_ws(line);
    if toks.len() == 0 {
        (default_shell.to_owned(), Vec::new())
    } else {
        let first = toks.remove(0);
        assert(strs_view(toks@) =~= spec_split_from(line@, 0).drop_first());
        (first, toks)
    }
}

/// The title line of a pane: its name alone when collapsed; the name and a
/// scroll tag while back-scrolled; the name and its weight tag otherwise.
pub open spec fn spec_status_text(p: Pane) -> Seq<char> {
    if p.collapsed {
        p.name@
    } else if p.scroll_offset > 0 {
        p.name@ + " [scroll: -"@ + spec_udec(p.scroll_offset as nat) + "]"@
    } else {
        p.name@ + " (w:"@ + spec_udec(p.weight as nat) + ")"@
    }
}

/// Build a pane's title line; see [`spec_status_text`].
pub fn pane_status_text(p: &Pane) -> (s: String)
    ensures
        s@ == spec_status_text(*p),
{
    if p.collapsed {
        p.name.clone()
    } else if p.scroll_offset > 0 {
        let mut s = p.name.clone();
        s.append(" [scroll: -");
        let num = usize_to_string(p.scroll_offset);
        s.append(num.as_str());
        s.append("]");
        assert(s@ =~= spec_status_text(*p));
        s
    } else {
        let mut s = p.name.clone();
        s.append(" (w:");
        let num = usize_to_string(p.weight as usize);
        s.append(num.as_str());
        s.append(")");
        assert(s@ =~= spec_status_text(*p));
        s
    }
}

} // verus!
