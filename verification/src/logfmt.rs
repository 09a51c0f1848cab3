//! The pure parts of the logging sink: decimal rendering, the chat-mention
//! and chat-timestamp markers, the log-line layout, and the level gate.
//! Writing the line to the console, a file or a webhook is the embedding
//! application's I/O.

use vstd::prelude::*;
use vstd::string::StringExecFns;

verus! {

/// The digit character for a value below ten.
pub open spec fn spec_digit(d: nat) -> char
    recommends
        d < 10,
{
    if d == 0 {
        '0'
    } else if d == 1 {
        '1'
    } else if d == 2 {
        '2'
    } else if d == 3 {
        '3'
    } else if d == 4 {
        '4'
    } else if d == 5 {
        '5'
    } else if d == 6 {
        '6'
    } else if d == 7 {
        '7'
    } else if d == 8 {
        '8'
    } else {
        '9'
    }
}

/// The decimal rendering of a natural number, most significant digit
/// first, without leading zeroes (a lone zero for zero).
pub open spec fn spec_decimal(n: nat) -> Seq<char>
    decreases n,
{
    if n < 10 {
        seq![spec_digit(n)]
    } else {
        spec_decimal(n / 10).push(spec_digit(n % 10))
    }
}

/// The decimal rendering of a signed value: a minus sign before the
/// magnitude when negative.
pub open spec fn spec_i64_decimal(ts: i64) -> Seq<char> {
    if ts < 0 {
        seq!['-'] + spec_decimal((-(ts as int)) as nat)
    } else {
        spec_decimal(ts as nat)
    }
}

/// The one-character string for a digit.
fn digit_str(d: u64) -> (r: &'static str)
    requires
        d < 10,
    ensures
        r@ == seq![spec_digit(d as nat)],
{
    let r: &'static str = match d {
        0 => "0",
        1 => "1",
        2 => "2",
        3 => "3",
        4 => "4",
        5 => "5",
        6 => "6",
        7 => "7",
        8 => "8",
        _ => "9",
    };
    proof {
        reveal_strlit("0");
        reveal_strlit("1");
        reveal_strlit("2");
        reveal_strlit("3");
        reveal_strlit("4");
        reveal_strlit("5");
        reveal_strlit("6");
        reveal_strlit("7");
        reveal_strlit("8");
        reveal_strlit("9");
        assert(r@ =~= seq![spec_digit(d as nat)]);
    }
    r
}

/// Renders a value in decimal.
pub fn u64_decimal(n: u64) -> (r: String)
    ensures
        r@ == spec_decimal(n as nat),
    decreases n,
{
    if n < 10 {
        digit_str(n).to_owned()
    } else {
        let mut s = u64_decimal(n / 10);
        s.append(digit_str(n % 10));
        proof {
            assert(s@ =~= spec_decimal(n as nat));
        }
        s
    }
}

/// Renders a signed value in decimal.
pub fn i64_decimal(ts: i64) -> (r: String)
    ensures
        r@ == spec_i64_decimal(ts),
{
    if ts >= 0 {
        u64_decimal(ts as u64)
    } else {
        let mag: u64 = ((-1 - ts) as u64) + 1;
        proof {
            assert(mag as int == -(ts as int));
        }
        let mut s = "-".to_owned();
        s.append(u64_decimal(mag).as_str());
        proof {
            reveal_strlit("-");
            assert(s@ =~= spec_i64_decimal(ts));
        }
        s
    }
}

/// The chat-mention marker for an id: `<@` then the id then `>`.
pub fn tags(id: &str) -> (r: String)
    ensures
        r@ == seq!['<', '@'] + id@ + seq!['>'],
{
    let mut s = "<@".to_owned();
    s.append(id);
    s.append(">");
    proof {
        reveal_strlit("<@");
        reveal_strlit(">");
        assert(s@ =~= seq!['<', '@'] + id@ + seq!['>']);
    }
    s
}

/// The chat-timestamp marker for a Unix timestamp: `<t:` then the seconds
/// in decimal then `:f>`.
pub fn timest(ts: i64) -> (r: String)
    ensures
        r@ == seq!['<', 't', ':'] + spec_i64_decimal(ts) + seq![':', 'f', '>'],
{
    let mut s = "<t:".to_owned();
    s.append(i64_decimal(ts).as_str());
    s.append(":f>");
    proof {
        reveal_strlit("<t:");
        reveal_strlit(":f>");
        assert(s@ =~= seq!['<', 't', ':'] + spec_i64_decimal(ts) + seq![':', 'f', '>']);
    }
    s
}

/// The layout of one log line: the timestamp, level and target in
/// brackets, the source position, then the message.
pub fn format_line(timestamp: &str, level: &str, target: &str, file: &str, line: u32, msg: &str)
    -> (r: String)
    ensures
        r@ == seq!['['] + timestamp@ + seq![']', ' ', '['] + level@ + seq![']', ' ', '-', ' ', '[']
            + target@ + seq![']', ' ', '['] + file@ + seq![':'] + spec_decimal(line as nat)
            + seq![']', ' ', '-', ' '] + msg@,
{
    let mut s = "[".to_owned();
    s.append(timestamp);
    s.append("] [");
    s.append(level);
    s.append("] - [");
    s.append(target);
    s.append("] [");
    s.append(file);
    s.append(":");
    s.append(u64_decimal(line as u64).as_str());
    s.append("] - ");
    s.append(msg);
    proof {
        reveal_strlit("[");
        reveal_strlit("] [");
        reveal_strlit("] - [");
        reveal_strlit(":");
        reveal_strlit("] - ");
        assert(s@ =~= seq!['['] + timestamp@ + seq![']', ' ', '['] + level@ + seq![']', ' ', '-',
            ' ', '['] + target@ + seq![']', ' ', '['] + file@ + seq![':'] + spec_decimal(
            line as nat,
        ) + seq![']', ' ', '-', ' '] + msg@);
    }
    s
}

/// `needle` occurs in `hay` starting at position `k`.
pub open spec fn spec_match_at(hay: Seq<u8>, needle: Seq<u8>, k: int) -> bool {
    0 <= k && k + needle.len() <= hay.len() && hay.subrange(k, k + needle.len()) == needle
}

/// `needle` occurs somewhere in `hay`.
pub open spec fn spec_contains(hay: Seq<u8>, needle: Seq<u8>) -> bool {
    exists|k: int| spec_match_at(hay, needle, k)
}

/// Whether `needle` occurs in `hay` at position `k`.
fn match_at(hay: &[u8], needle: &[u8], k: usize) -> (r: bool)
    requires
        k + needle@.len() <= hay@.len(),
    ensures
        r == spec_match_at(hay@, needle@, k as int),
{
    let m = needle.len();
    let hn = hay.len();
    let mut i: usize = 0;
    while i < m
        invariant
            i <= m,
            m == needle@.len(),
            hn == hay@.len(),
            k + m <= hay@.len(),
            forall|j: int| 0 <= j < i ==> hay@[k + j] == needle@[j],
        decreases m - i,
    {
        if hay[k + i] != needle[i] {
            proof {
                assert(hay@.subrange(k as int, k + m as int)[i as int] == hay@[k + i]);
            }
            return false;
        }
        i = i + 1;
    }
    proof {
        assert(hay@.subrange(k as int, k + m as int) =~= needle@);
    }
    true
}

/// Whether `needle` occurs anywhere in `hay` — how a record's target is
/// matched against the logger's exception list.
pub fn contains_subslice(hay: &[u8], needle: &[u8]) -> (r: bool)
    ensures
        r == spec_contains(hay@, needle@),
{
    let n = hay.len();
    let m = needle.len();
    if m > n {
        return false;
    }
    if m == 0 {
        proof {
            assert(hay@.subrange(0, 0) =~= needle@);
            assert(spec_match_at(hay@, needle@, 0));
        }
        return true;
    }
    let mut k: usize = 0;
    while k <= n - m
        invariant
            1 <= m <= n,
            n == hay@.len(),
            m == needle@.len(),
            k <= n - m + 1,
            forall|j: int| 0 <= j < k ==> !spec_match_at(hay@, needle@, j),
        decreases n - m + 1 - k,
    {
        if match_at(hay, needle, k) {
            return true;
        }
        k = k + 1;
    }
    proof {
        assert forall|j: int| !spec_match_at(hay@, needle@, j) by {
            if 0 <= j < k {
            } else if j >= k {
                assert(j + m > n);
            }
        }
    }
    false
}

/// The level gate of the logging sink: a record passes when its target
/// matched no exception and its level clears the threshold — `Debug` when
/// debug printing is allowed, `Info` otherwise. Levels are numbered as in
/// the `log` crate: error 1, warn 2, info 3, debug 4, trace 5.
pub fn log_enabled(level: u32, target_excepted: bool, debug_allowed: bool) -> (r: bool)
    ensures
        r == (!target_excepted && (if debug_allowed {
            level <= 4
        } else {
            level <= 3
        })),
{
    if target_excepted {
        false
    } else if debug_allowed {
        level <= 4
    } else {
        level <= 3
    }
}

} // verus!
