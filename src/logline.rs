//! Parsing of one log line: a timestamp, a level, then the message.
use vstd::prelude::*;
use vstd::string::{StrSliceExecFns, StringExecFns};

verus! {

/// The characters with the Unicode `White_Space` property.
pub open spec fn is_white(c: char) -> bool {
    ||| ('\u{9}' <= c && c <= '\u{d}')
    ||| c == ' '
    ||| c == '\u{85}'
    ||| c == '\u{a0}'
    ||| c == '\u{1680}'
    ||| ('\u{2000}' <= c && c <= '\u{200a}')
    ||| c == '\u{2028}'
    ||| c == '\u{2029}'
    ||| c == '\u{202f}'
    ||| c == '\u{205f}'
    ||| c == '\u{3000}'
}

/// Length of the run of non-whitespace characters that starts `s`.
pub open spec fn leading_word_len(s: Seq<char>) -> nat
    decreases s.len(),
{
    if s.len() == 0 || is_white(s[0]) {
        0
    } else {
        1 + leading_word_len(s.drop_first())
    }
}

/// The maximal runs of non-whitespace characters of `s`, in order. (A line
/// that starts with a non-whitespace character has a leading word of length
/// between one and its own; the test on `n` only makes termination evident.)
pub open spec fn words(s: Seq<char>) -> Seq<Seq<char>>
    decreases s.len(),
{
    if s.len() == 0 {
        Seq::empty()
    } else if is_white(s[0]) {
        words(s.drop_first())
    } else {
        let n = leading_word_len(s);
        if 0 < n <= s.len() {
            seq![s.take(n as int)] + words(s.skip(n as int))
        } else {
            Seq::empty()
        }
    }
}

/// The words joined with one space between neighbours.
pub open spec fn join_spaced(ws: Seq<Seq<char>>) -> Seq<char>
    decreases ws.len(),
{
    if ws.len() == 0 {
        Seq::empty()
    } else if ws.len() == 1 {
        ws[0]
    } else {
        join_spaced(ws.drop_last()) + seq![' '] + ws.last()
    }
}

/// A run of non-whitespace from `start` to `end`, ended by whitespace or by
/// the end of `s`, is the leading word of what starts at `start`.
proof fn lemma_leading_word(s: Seq<char>, start: int, end: int)
    requires
        0 <= start <= end <= s.len(),
        forall|k: int| start <= k < end ==> !is_white(#[trigger] s[k]),
        end == s.len() || is_white(s[end]),
    ensures
        leading_word_len(s.skip(start)) == end - start,
    decreases end - start,
{
    let t = s.skip(start);
    if start < end {
        lemma_leading_word(s, start + 1, end);
        assert(t.drop_first() =~= s.skip(start + 1));
    }
}

/// A log entry: the first two words of the line, then the rest of its words
/// joined by single spaces.
#[derive(Debug, Clone, PartialEq, Eq)]
pub struct LogEntry {
    pub timestamp: String,
    pub level: String,
    pub message: String,
}

fn is_white_char(c: char) -> (r: bool)
    ensures
        r == is_white(c),
{
    ('\u{9}' <= c && c <= '\u{d}') || c == ' ' || c == '\u{85}' || c == '\u{a0}' || c == '\u{1680}'
        || ('\u{2000}' <= c && c <= '\u{200a}') || c == '\u{2028}' || c == '\u{2029}' || c
        == '\u{202f}' || c == '\u{205f}' || c == '\u{3000}'
}

/// The whitespace-separated words of `line`.
pub fn split_words(line: &str) -> (r: Vec<String>)
    ensures
        r@.len() == words(line@).len(),
        forall|i: int| 0 <= i < r@.len() ==> (#[trigger] r@[i])@ == words(line@)[i],
{
    let n = line.unicode_len();
    let ghost s = line@;
    let mut out: Vec<String> = Vec::new();
    let mut i: usize = 0;
    proof {
        assert(s.skip(0) =~= s);
        assert(out@.map_values(|w: String| w@) =~= Seq::<Seq<char>>::empty());
    }
    while i < n
        invariant
            n == s.len(),
            s == line@,
            i <= n,
            words(s) =~= out@.map_values(|w: String| w@) + words(s.skip(i as int)),
        decreases n - i,
    {
        let c = line.get_char(i);
        if is_white_char(c) {
            proof {
                assert(s.skip(i as int).drop_first() =~= s.skip(i + 1));
            }
            i = i + 1;
        } else {
            let start = i;
            let mut end = i + 1;
            while end < n && !is_white_char(line.get_char(end))
                invariant
                    n == s.len(),
                    s == line@,
                    start < end <= n,
                    forall|k: int| start <= k < end ==> !is_white(#[trigger] s[k]),
                decreases n - end,
            {
                end = end + 1;
            }
            let word = line.substring_char(start, end).to_owned();
            proof {
                lemma_leading_word(s, start as int, end as int);
                let t = s.skip(start as int);
                assert(t.take(end - start) =~= word@);
                assert(t.skip(end - start) =~= s.skip(end as int));
                assert(out@.push(word).map_values(|w: String| w@) =~= out@.map_values(|w: String| w@).push(word@));
            }
            out.push(word);
            i = end;
        }
    }
    proof {
        assert(s.skip(n as int) =~= Seq::<char>::empty());
        assert(words(s) =~= out@.map_values(|w: String| w@));
    }
    out
}

/// Parses a log line: `None` when it has fewer than three words.
pub fn parse_log_entry(line: &str) -> (r: Option<LogEntry>)
    ensures
        words(line@).len() < 3 <==> r is None,
        r matches Some(e) ==> e.timestamp@ == words(line@)[0] && e.level@ == words(line@)[1]
            && e.message@ == join_spaced(words(line@).skip(2)),
{
    let parts = split_words(line);
    let ghost ws = words(line@);
    if parts.len() < 3 {
        return None;
    }
    let timestamp = parts[0].clone();
    let level = parts[1].clone();
    let mut message = parts[2].clone();
    let mut i: usize = 3;
    proof {
        assert(ws.skip(2).take(1) =~= seq![ws[2]]);
        assert(ws.skip(2).take(1).drop_last() =~= Seq::<Seq<char>>::empty());
    }
    while i < parts.len()
        invariant
            3 <= i <= parts@.len(),
            parts@.len() == ws.len(),
            forall|k: int| 0 <= k < parts@.len() ==> (#[trigger] parts@[k])@ == ws[k],
            message@ == join_spaced(ws.skip(2).take(i - 2)),
        decreases parts.len() - i,
    {
        message.append(" ");
        message.append(parts[i].as_str());
        proof {
            reveal_strlit(" ");
            let pre = ws.skip(2).take(i + 1 - 2);
            assert(pre.drop_last() =~= ws.skip(2).take(i - 2));
            assert(pre.last() == ws[i as int]);
        }
        i = i + 1;
    }
    proof {
        assert(ws.skip(2).take(i - 2) =~= ws.skip(2));
    }
    Some(LogEntry { timestamp, level, message })
}

} // verus!
