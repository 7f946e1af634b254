//! The operator's console: a line, with the white space around it taken
//! away, is a command.
use vstd::prelude::*;

verus! {

/// A command typed on the console.
#[derive(Clone, Copy, Debug, PartialEq, Eq, Structural)]
pub enum ConsoleCommand {
    /// `q` or `exit`: shut the nexus down.
    Quit,
    /// `l` or `list`: report how many clients and channels there are.
    List,
    /// Anything else: nothing happens.
    Ignore,
}

/// White space as `char::is_whitespace` defines it: the characters with the
/// Unicode `White_Space` property.
pub open spec fn is_white_space(c: char) -> bool {
    ||| '\t' <= c <= '\r'
    ||| c == ' '
    ||| c == '\u{85}'
    ||| c == '\u{a0}'
    ||| c == '\u{1680}'
    ||| '\u{2000}' <= c <= '\u{200a}'
    ||| c == '\u{2028}'
    ||| c == '\u{2029}'
    ||| c == '\u{202f}'
    ||| c == '\u{205f}'
    ||| c == '\u{3000}'
}

/// `s` without its leading white space.
pub open spec fn trim_start(s: Seq<char>) -> Seq<char>
    decreases s.len(),
{
    if s.len() > 0 && is_white_space(s[0]) {
        trim_start(s.drop_first())
    } else {
        s
    }
}

/// `s` without its trailing white space.
pub open spec fn trim_end(s: Seq<char>) -> Seq<char>
    decreases s.len(),
{
    if s.len() > 0 && is_white_space(s.last()) {
        trim_end(s.drop_last())
    } else {
        s
    }
}

/// `s` without the white space around it, as `str::trim` gives it.
pub open spec fn trimmed(s: Seq<char>) -> Seq<char> {
    trim_end(trim_start(s))
}

/// The command that a console line stands for.
pub open spec fn spec_command(line: Seq<char>) -> ConsoleCommand {
    let t = trimmed(line);
    if t == seq!['q'] || t == seq!['e', 'x', 'i', 't'] {
        ConsoleCommand::Quit
    } else if t == seq!['l'] || t == seq!['l', 'i', 's', 't'] {
        ConsoleCommand::List
    } else {
        ConsoleCommand::Ignore
    }
}

fn is_white_space_char(c: char) -> (r: bool)
    ensures
        r == is_white_space(c),
{
    ('\t' <= c && c <= '\r') || c == ' ' || c == '\u{85}' || c == '\u{a0}' || c == '\u{1680}' || (
    '\u{2000}' <= c && c <= '\u{200a}') || c == '\u{2028}' || c == '\u{2029}' || c == '\u{202f}'
        || c == '\u{205f}' || c == '\u{3000}'
}

proof fn lemma_trim_start_from(s: Seq<char>, i: int)
    requires
        0 <= i <= s.len(),
        forall|k: int| 0 <= k < i ==> is_white_space(#[trigger] s[k]),
    ensures
        trim_start(s) == trim_start(s.subrange(i, s.len() as int)),
    decreases i,
{
    if i > 0 {
        assert(is_white_space(s[0]));
        let t = s.drop_first();
        assert forall|k: int| 0 <= k < i - 1 implies is_white_space(#[trigger] t[k]) by {
            assert(t[k] == s[k + 1]);
        }
        lemma_trim_start_from(t, i - 1);
        assert(t.subrange(i - 1, t.len() as int) =~= s.subrange(i, s.len() as int));
    } else {
        assert(s.subrange(0, s.len() as int) =~= s);
    }
}

proof fn lemma_trim_end_to(s: Seq<char>, j: int)
    requires
        0 <= j <= s.len(),
        forall|k: int| j <= k < s.len() ==> is_white_space(#[trigger] s[k]),
    ensures
        trim_end(s) == trim_end(s.subrange(0, j)),
    decreases s.len() - j,
{
    if j < s.len() {
        assert(is_white_space(s[s.len() - 1]));
        let t = s.drop_last();
        assert forall|k: int| j <= k < t.len() implies is_white_space(#[trigger] t[k]) by {
            assert(t[k] == s[k]);
        }
        lemma_trim_end_to(t, j);
        assert(t.subrange(0, j) =~= s.subrange(0, j));
    } else {
        assert(s.subrange(0, j) =~= s);
    }
}

/// Where the text of `line` starts and ends once the white space around it
/// is taken away.
pub(crate) fn trim_bounds(line: &[char]) -> (r: (usize, usize))
    ensures
        r.0 <= r.1 <= line@.len(),
        trimmed(line@) == line@.subrange(r.0 as int, r.1 as int),
{
    let ghost s = line@;
    let mut i: usize = 0;
    while i < line.len() && is_white_space_char(line[i])
        invariant
            i <= line@.len(),
            s == line@,
            forall|k: int| 0 <= k < i ==> is_white_space(#[trigger] s[k]),
        decreases line@.len() - i,
    {
        i = i + 1;
    }
    proof {
        lemma_trim_start_from(s, i as int);
    }
    let ghost u = s.subrange(i as int, s.len() as int);
    assert(i == s.len() || !is_white_space(u[0]));
    assert(trim_start(s) == u);
    let mut j: usize = line.len();
    while j > i && is_white_space_char(line[j - 1])
        invariant
            i <= j <= line@.len(),
            s == line@,
            forall|k: int| j <= k < s.len() ==> is_white_space(#[trigger] s[k]),
        decreases j,
    {
        j = j - 1;
    }
    proof {
        let jj = (j - i) as int;
        assert forall|k: int| jj <= k < u.len() implies is_white_space(#[trigger] u[k]) by {
            assert(u[k] == s[k + i]);
        }
        lemma_trim_end_to(u, jj);
        let t = u.subrange(0, jj);
        assert(t =~= s.subrange(i as int, j as int));
        if jj > 0 {
            assert(!is_white_space(t.last()));
        }
        assert(trim_end(t) == t);
    }
    (i, j)
}

/// The command that a console line stands for.
pub fn parse_command(line: &[char]) -> (r: ConsoleCommand)
    ensures
        r == spec_command(line@),
{
    let ghost s = line@;
    let (i, j) = trim_bounds(line);
    let len: usize = j - i;
    if (len == 1 && line[i] == 'q') || (len == 4 && line[i] == 'e' && line[i + 1] == 'x' && line[i
        + 2] == 'i' && line[i + 3] == 't') {
        proof {
            let t = s.subrange(i as int, j as int);
            if len == 1 {
                assert(t =~= seq!['q']);
            } else {
                assert(t =~= seq!['e', 'x', 'i', 't']);
            }
        }
        assert(spec_command(line@) == ConsoleCommand::Quit);
        ConsoleCommand::Quit
    } else if (len == 1 && line[i] == 'l') || (len == 4 && line[i] == 'l' && line[i + 1] == 'i'
        && line[i + 2] == 's' && line[i + 3] == 't') {
        proof {
            let t = s.subrange(i as int, j as int);
            if len == 1 {
                assert(t =~= seq!['l']);
            } else {
                assert(t =~= seq!['l', 'i', 's', 't']);
            }
            assert(t[0] == 'l');
            assert(seq!['q'][0] == 'q' && seq!['e', 'x', 'i', 't'][0] == 'e');
        }
        assert(spec_command(line@) == ConsoleCommand::List);
        ConsoleCommand::List
    } else {
        proof {
            let t = s.subrange(i as int, j as int);
            assert(t.len() == len);
            assert(seq!['q'].len() == 1 && seq!['l'].len() == 1);
            assert(seq!['e', 'x', 'i', 't'].len() == 4 && seq!['l', 'i', 's', 't'].len() == 4);
            if len == 1 {
                assert(t[0] == s[i as int]);
                assert(t != seq!['q']);
                assert(t != seq!['l']);
            }
            if len == 4 {
                assert(t[0] == s[i as int] && t[1] == s[i + 1] && t[2] == s[i + 2] && t[3] == s[i + 3]);
                assert(t != seq!['e', 'x', 'i', 't']);
                assert(t != seq!['l', 'i', 's', 't']);
            }
        }
        assert(spec_command(line@) == ConsoleCommand::Ignore);
        ConsoleCommand::Ignore
    }
}

} // verus!
