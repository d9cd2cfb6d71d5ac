//! Normalization of wine version tags.

use vstd::prelude::*;

verus! {

/// `c` is a Unicode whitespace character (the `White_Space` property).
pub open spec fn spec_is_space(c: char) -> bool {
    let u = c as u32;
    ||| u == 0x20
    ||| (0x09 <= u && u <= 0x0D)
    ||| u == 0x85
    ||| u == 0xA0
    ||| u == 0x1680
    ||| (0x2000 <= u && u <= 0x200A)
    ||| u == 0x2028
    ||| u == 0x2029
    ||| u == 0x202F
    ||| u == 0x205F
    ||| u == 0x3000
}

/// `c` is one of the characters a normalized tag may hold: an ASCII digit
/// or `.`.
pub open spec fn spec_is_num(c: char) -> bool {
    let u = c as u32;
    (0x30 <= u && u <= 0x39) || u == 0x2E
}

/// `s` without its leading whitespace.
pub open spec fn drop_leading_spaces(s: Seq<char>) -> Seq<char>
    decreases s.len(),
{
    if s.len() > 0 && spec_is_space(s[0]) {
        drop_leading_spaces(s.drop_first())
    } else {
        s
    }
}

/// `s` without its trailing whitespace.
pub open spec fn drop_trailing_spaces(s: Seq<char>) -> Seq<char>
    decreases s.len(),
{
    if s.len() > 0 && spec_is_space(s.last()) {
        drop_trailing_spaces(s.drop_last())
    } else {
        s
    }
}

/// `s` without leading and trailing whitespace.
pub open spec fn spec_trim(s: Seq<char>) -> Seq<char> {
    drop_trailing_spaces(drop_leading_spaces(s))
}

/// `s` starts with the five characters `wine-`.
pub open spec fn has_wine_prefix(s: Seq<char>) -> bool {
    s.len() >= 5 && s[0] == 'w' && s[1] == 'i' && s[2] == 'n' && s[3] == 'e' && s[4] == '-'
}

/// `s` without a leading `wine-`, when it has one.
pub open spec fn strip_wine(s: Seq<char>) -> Seq<char> {
    if has_wine_prefix(s) {
        s.subrange(5, s.len() as int)
    } else {
        s
    }
}

/// `s` without a leading `v`, when it has one.
pub open spec fn strip_v(s: Seq<char>) -> Seq<char> {
    if s.len() >= 1 && s[0] == 'v' {
        s.subrange(1, s.len() as int)
    } else {
        s
    }
}

/// The longest prefix of `s` made of digits and dots.
pub open spec fn numeric_prefix(s: Seq<char>) -> Seq<char>
    decreases s.len(),
{
    if s.len() > 0 && spec_is_num(s[0]) {
        seq![s[0]] + numeric_prefix(s.drop_first())
    } else {
        Seq::empty()
    }
}

/// What tag normalization returns on a given character sequence: the input
/// is trimmed of surrounding whitespace, a leading `wine-` and then a
/// leading `v` are stripped, and the longest prefix of digits and dots is
/// kept.  An empty trimmed input, or an empty numeric prefix, yields
/// nothing.
pub open spec fn spec_normalize(s: Seq<char>) -> Option<Seq<char>> {
    let t = spec_trim(s);
    if t.len() == 0 {
        None
    } else {
        let p = numeric_prefix(strip_v(strip_wine(t)));
        if p.len() == 0 {
            None
        } else {
            Some(p)
        }
    }
}

proof fn lemma_drop_leading(s: Seq<char>, i: int)
    requires
        0 <= i <= s.len(),
        forall|j: int| 0 <= j < i ==> spec_is_space(s[j]),
        i == s.len() || !spec_is_space(s[i]),
    ensures
        drop_leading_spaces(s) == s.subrange(i, s.len() as int),
    decreases i,
{
    if i == 0 {
        assert(s.subrange(0, s.len() as int) =~= s);
    } else {
        let rest = s.drop_first();
        lemma_drop_leading(rest, i - 1);
        assert(rest.subrange(i - 1, rest.len() as int) =~= s.subrange(i, s.len() as int));
    }
}

proof fn lemma_drop_trailing(s: Seq<char>, j: int)
    requires
        0 <= j <= s.len(),
        forall|k: int| j <= k < s.len() ==> spec_is_space(s[k]),
        j == 0 || !spec_is_space(s[j - 1]),
    ensures
        drop_trailing_spaces(s) == s.subrange(0, j),
    decreases s.len(),
{
    if j == s.len() {
        assert(s.subrange(0, s.len() as int) =~= s);
    } else {
        let rest = s.drop_last();
        lemma_drop_trailing(rest, j);
        assert(rest.subrange(0, j) =~= s.subrange(0, j));
    }
}

/// `spec_trim` of `s` is `s.subrange(lo, hi)` when everything before `lo`
/// and everything from `hi` on is whitespace and neither end of the
/// subrange is.
proof fn lemma_trim_indices(s: Seq<char>, lo: int, hi: int)
    requires
        0 <= lo <= hi <= s.len(),
        forall|j: int| 0 <= j < lo ==> spec_is_space(s[j]),
        lo == s.len() || !spec_is_space(s[lo]),
        forall|k: int| hi <= k < s.len() ==> spec_is_space(s[k]),
        hi == lo || !spec_is_space(s[hi - 1]),
    ensures
        spec_trim(s) == s.subrange(lo, hi),
{
    lemma_drop_leading(s, lo);
    let t = s.subrange(lo, s.len() as int);
    lemma_drop_trailing(t, hi - lo);
    assert(t.subrange(0, hi - lo) =~= s.subrange(lo, hi));
}

proof fn lemma_numeric_prefix(s: Seq<char>, n: int)
    requires
        0 <= n <= s.len(),
        forall|j: int| 0 <= j < n ==> spec_is_num(s[j]),
        n == s.len() || !spec_is_num(s[n]),
    ensures
        numeric_prefix(s) == s.subrange(0, n),
    decreases s.len(),
{
    if n == 0 {
        assert(s.subrange(0, 0) =~= Seq::<char>::empty());
    } else {
        let rest = s.drop_first();
        lemma_numeric_prefix(rest, n - 1);
        assert(seq![s[0]] + rest.subrange(0, n - 1) =~= s.subrange(0, n));
    }
}

fn is_space_char(c: char) -> (r: bool)
    ensures
        r == spec_is_space(c),
{
    let u = c as u32;
    u == 0x20 || (0x09 <= u && u <= 0x0D) || u == 0x85 || u == 0xA0 || u == 0x1680 || (0x2000 <= u
        && u <= 0x200A) || u == 0x2028 || u == 0x2029 || u == 0x202F || u == 0x205F || u == 0x3000
}

fn is_num_char(c: char) -> (r: bool)
    ensures
        r == spec_is_num(c),
{
    let u = c as u32;
    (0x30 <= u && u <= 0x39) || u == 0x2E
}

/// The one-character string holding `c`, for the digits and the dot.
fn digit_str(c: char) -> (r: &'static str)
    requires
        spec_is_num(c),
    ensures
        r@ == seq![c],
{
    proof {
        reveal_strlit("0");
        reveal_strlit("1");
        reveal_strlit("2");
        reveal_strlit("3");
        reveal_strlit("4");
        reveal_strlit("5");
        reveal_strlit("6");
        reveal_strlit("7");
        reveal_strlit("8");
        reveal_strlit("9");
        reveal_strlit(".");
    }
    if c == '0' {
        proof {
            assert("0"@ =~= seq![c]);
        }
        "0"
    } else if c == '1' {
        proof {
            assert("1"@ =~= seq![c]);
        }
        "1"
    } else if c == '2' {
        proof {
            assert("2"@ =~= seq![c]);
        }
        "2"
    } else if c == '3' {
        proof {
            assert("3"@ =~= seq![c]);
        }
        "3"
    } else if c == '4' {
        proof {
            assert("4"@ =~= seq![c]);
        }
        "4"
    } else if c == '5' {
        proof {
            assert("5"@ =~= seq![c]);
        }
        "5"
    } else if c == '6' {
        proof {
            assert("6"@ =~= seq![c]);
        }
        "6"
    } else if c == '7' {
        proof {
            assert("7"@ =~= seq![c]);
        }
        "7"
    } else if c == '8' {
        proof {
            assert("8"@ =~= seq![c]);
        }
        "8"
    } else if c == '9' {
        proof {
            assert("9"@ =~= seq![c]);
        }
        "9"
    } else {
        proof {
            vstd::utf8::char_u32_cast(c, c as u32);
            assert("."@ =~= seq![c]);
        }
        "."
    }
}

/// Normalizes a wine version tag: trims surrounding whitespace, strips a
/// leading `wine-` and then a leading `v`, and keeps the longest prefix of
/// ASCII digits and dots.  Returns `None` when the trimmed input or the
/// numeric prefix is empty.
#[verifier::rlimit(60)]
pub fn normalize_wine_tag(input: &str) -> (r: Option<String>)
    ensures
        match r {
            Some(out) => spec_normalize(input@) == Some(out@),
            None => spec_normalize(input@) is None,
        },
{
    let n = input.unicode_len();
    let mut cs: Vec<char> = Vec::new();
    let mut i: usize = 0;
    while i < n
        invariant
            n == input@.len(),
            i <= n,
            cs@ == input@.subrange(0, i as int),
        decreases n - i,
    {
        cs.push(input.get_char(i));
        i += 1;
        proof {
            assert(cs@ =~= input@.subrange(0, i as int));
        }
    }
    proof {
        assert(cs@ =~= input@);
    }

    let mut lo: usize = 0;
    while lo < n && is_space_char(cs[lo])
        invariant
            n == cs@.len(),
            lo <= n,
            forall|j: int| 0 <= j < lo ==> spec_is_space(cs@[j]),
        decreases n - lo,
    {
        lo += 1;
    }
    let mut hi: usize = n;
    while hi > lo && is_space_char(cs[hi - 1])
        invariant
            n == cs@.len(),
            lo <= hi <= n,
            forall|k: int| hi <= k < n ==> spec_is_space(cs@[k]),
        decreases hi,
    {
        hi -= 1;
    }
    proof {
        lemma_trim_indices(cs@, lo as int, hi as int);
    }
    if lo == hi {
        return None;
    }
    let ghost trimmed = cs@.subrange(lo as int, hi as int);

    let mut start: usize = lo;
    if hi - start >= 5 && cs[start] == 'w' && cs[start + 1] == 'i' && cs[start + 2] == 'n'
        && cs[start + 3] == 'e' && cs[start + 4] == '-' {
        start += 5;
    }
    proof {
        assert(strip_wine(trimmed) =~= cs@.subrange(start as int, hi as int));
    }
    let ghost after_wine = cs@.subrange(start as int, hi as int);

    if start < hi && cs[start] == 'v' {
        start += 1;
    }
    proof {
        assert(strip_v(after_wine) =~= cs@.subrange(start as int, hi as int));
    }
    let ghost stripped = cs@.subrange(start as int, hi as int);

    let mut end: usize = start;
    while end < hi && is_num_char(cs[end])
        invariant
            hi <= n == cs@.len(),
            start <= end <= hi,
            forall|j: int| start <= j < end ==> spec_is_num(cs@[j]),
        decreases hi - end,
    {
        end += 1;
    }
    proof {
        lemma_numeric_prefix(stripped, end - start);
        assert(stripped.subrange(0, end - start) =~= cs@.subrange(start as int, end as int));
    }
    if end == start {
        return None;
    }

    let mut out = String::new();
    let mut k: usize = start;
    while k < end
        invariant
            start <= k <= end <= cs@.len(),
            forall|j: int| start <= j < end ==> spec_is_num(cs@[j]),
            out@ == cs@.subrange(start as int, k as int),
        decreases end - k,
    {
        let piece = digit_str(cs[k]);
        out.append(piece);
        k += 1;
        proof {
            assert(out@ =~= cs@.subrange(start as int, k as int));
        }
    }
    Some(out)
}

} // verus!
