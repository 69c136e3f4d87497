//! Character-level text helpers: whitespace, first-occurrence search,
//! line and token splitting, trimming, and decimal rendering.

use vstd::prelude::*;
use vstd::string::*;

verus! {

/// The characters treated as whitespace when splitting the request line
/// and trimming header values: the ASCII whitespace set.
pub open spec fn is_ws(c: char) -> bool {
    c == ' ' || c == '\t' || c == '\n' || c == '\r' || c == '\u{b}' || c == '\u{c}'
}

fn is_ws_char(c: char) -> (r: bool)
    ensures
        r == is_ws(c),
{
    c == ' ' || c == '\t' || c == '\n' || c == '\r' || c == '\u{b}' || c == '\u{c}'
}

/// Index of the first occurrence of `c` in `s`, or `s.len()` if there
/// is none.
pub open spec fn find_char(s: Seq<char>, c: char) -> nat
    decreases s.len(),
{
    if s.len() == 0 {
        0
    } else if s[0] == c {
        0
    } else {
        (1 + find_char(s.drop_first(), c)) as nat
    }
}

pub proof fn lemma_find_char(s: Seq<char>, c: char)
    ensures
        find_char(s, c) <= s.len(),
        forall|j: int| 0 <= j < find_char(s, c) ==> s[j] != c,
        find_char(s, c) < s.len() ==> s[find_char(s, c) as int] == c,
    decreases s.len(),
{
    if s.len() == 0 {
    } else if s[0] == c {
    } else {
        lemma_find_char(s.drop_first(), c);
        assert forall|j: int| 0 <= j < find_char(s, c) implies s[j] != c by {
            if j > 0 {
                assert(s.drop_first()[j - 1] == s[j]);
            }
        }
        if find_char(s, c) < s.len() {
            assert(s.drop_first()[find_char(s, c) - 1] == s[find_char(s, c) as int]);
        }
    }
}

/// The three properties of a first occurrence pin the index down.
pub proof fn lemma_find_char_unique(s: Seq<char>, c: char, i: nat)
    requires
        i <= s.len(),
        forall|j: int| 0 <= j < i ==> s[j] != c,
        i < s.len() ==> s[i as int] == c,
    ensures
        i == find_char(s, c),
{
    lemma_find_char(s, c);
    if i < find_char(s, c) {
        assert(s[i as int] != c);
    } else if find_char(s, c) < i {
        assert(s[find_char(s, c) as int] != c);
    }
}

/// Scans `s` from `from` for the first occurrence of `c`.
pub(crate) fn find_char_from(s: &str, from: usize, c: char) -> (r: usize)
    requires
        from <= s@.len(),
    ensures
        from <= r <= s@.len(),
        r - from == find_char(s@.skip(from as int), c),
        r < s@.len() ==> s@[r as int] == c,
{
    let n = s.unicode_len();
    let mut i = from;
    while i < n && s.get_char(i) != c
        invariant
            from <= i <= n,
            n == s@.len(),
            forall|j: int| from <= j < i ==> s@[j] != c,
        decreases n - i,
    {
        i += 1;
    }
    proof {
        let rest = s@.skip(from as int);
        assert forall|j: int| 0 <= j < i - from implies rest[j] != c by {
            assert(rest[j] == s@[j + from]);
        }
        if i < n {
            assert(rest[i - from] == s@[i as int]);
        }
        lemma_find_char_unique(rest, c, (i - from) as nat);
    }
    i
}

/// Index of the first whitespace character in `s`, or `s.len()` if
/// there is none.
pub open spec fn find_ws(s: Seq<char>) -> nat
    decreases s.len(),
{
    if s.len() == 0 {
        0
    } else if is_ws(s[0]) {
        0
    } else {
        (1 + find_ws(s.drop_first())) as nat
    }
}

pub proof fn lemma_find_ws(s: Seq<char>)
    ensures
        find_ws(s) <= s.len(),
        forall|j: int| 0 <= j < find_ws(s) ==> !is_ws(s[j]),
        find_ws(s) < s.len() ==> is_ws(s[find_ws(s) as int]),
    decreases s.len(),
{
    if s.len() == 0 {
    } else if is_ws(s[0]) {
    } else {
        lemma_find_ws(s.drop_first());
        assert forall|j: int| 0 <= j < find_ws(s) implies !is_ws(s[j]) by {
            if j > 0 {
                assert(s.drop_first()[j - 1] == s[j]);
            }
        }
        if find_ws(s) < s.len() {
            assert(s.drop_first()[find_ws(s) - 1] == s[find_ws(s) as int]);
        }
    }
}

pub proof fn lemma_find_ws_unique(s: Seq<char>, i: nat)
    requires
        i <= s.len(),
        forall|j: int| 0 <= j < i ==> !is_ws(s[j]),
        i < s.len() ==> is_ws(s[i as int]),
    ensures
        i == find_ws(s),
{
    lemma_find_ws(s);
    if i < find_ws(s) {
        assert(!is_ws(s[i as int]));
    } else if find_ws(s) < i {
        assert(!is_ws(s[find_ws(s) as int]));
    }
}

/// Scans `s` from `from` for the first whitespace character.
fn find_ws_from(s: &str, from: usize) -> (r: usize)
    requires
        from <= s@.len(),
    ensures
        from <= r <= s@.len(),
        r - from == find_ws(s@.skip(from as int)),
{
    let n = s.unicode_len();
    let mut i = from;
    while i < n && !is_ws_char(s.get_char(i))
        invariant
            from <= i <= n,
            n == s@.len(),
            forall|j: int| from <= j < i ==> !is_ws(s@[j]),
        decreases n - i,
    {
        i += 1;
    }
    proof {
        let rest = s@.skip(from as int);
        assert forall|j: int| 0 <= j < i - from implies !is_ws(rest[j]) by {
            assert(rest[j] == s@[j + from]);
        }
        if i < n {
            assert(rest[i - from] == s@[i as int]);
        }
        lemma_find_ws_unique(rest, (i - from) as nat);
    }
    i
}

/// `l` without one trailing carriage return: the text of a line whose
/// terminator on the wire was CRLF rather than a bare line feed.
pub open spec fn strip_cr(l: Seq<char>) -> Seq<char> {
    if l.len() > 0 && l.last() == '\r' {
        l.drop_last()
    } else {
        l
    }
}

/// The lines of `s`: the runs separated by line feeds, each without its
/// terminator and without one trailing carriage return.  A final line
/// feed closes the last line rather than opening an empty one, and an
/// empty text has no lines at all.
pub open spec fn spec_lines(s: Seq<char>) -> Seq<Seq<char>>
    decreases s.len(),
{
    if s.len() == 0 {
        seq![]
    } else if find_char(s, '\n') < s.len() {
        seq![strip_cr(s.take(find_char(s, '\n') as int))] + spec_lines(
            s.skip(find_char(s, '\n') as int + 1),
        )
    } else {
        seq![strip_cr(s)]
    }
}

/// Splits `s` into its lines.
pub fn split_lines(s: &str) -> (r: Vec<String>)
    ensures
        r.deep_view() == spec_lines(s@),
{
    let n = s.unicode_len();
    let mut lines: Vec<String> = Vec::new();
    let mut pos: usize = 0;
    proof {
        assert(s@.skip(0) =~= s@);
        assert(lines.deep_view() =~= Seq::<Seq<char>>::empty());
        assert(lines.deep_view() + spec_lines(s@.skip(0)) =~= spec_lines(s@));
    }
    while pos < n
        invariant
            pos <= n,
            n == s@.len(),
            spec_lines(s@) == lines.deep_view() + spec_lines(s@.skip(pos as int)),
        decreases n - pos,
    {
        let nl = find_char_from(s, pos, '\n');
        let end = if nl > pos && s.get_char(nl - 1) == '\r' {
            nl - 1
        } else {
            nl
        };
        let ghost prev = lines.deep_view();
        let line = String::from_str(s.substring_char(pos, end));
        lines.push(line);
        proof {
            let rest = s@.skip(pos as int);
            let k = nl - pos;
            assert(find_char(rest, '\n') == k);
            assert(rest.take(k) =~= s@.subrange(pos as int, nl as int));
            assert(strip_cr(rest.take(k)) =~= s@.subrange(pos as int, end as int));
            if nl < n {
                assert(rest.skip(k + 1) =~= s@.skip(nl + 1));
                assert(spec_lines(rest) == seq![strip_cr(rest.take(k))] + spec_lines(
                    s@.skip(nl + 1),
                ));
            } else {
                assert(rest.take(k) =~= rest);
                assert(spec_lines(rest) == seq![strip_cr(rest)]);
            }
            assert(lines.deep_view() =~= prev.push(s@.subrange(pos as int, end as int)));
            assert(lines.deep_view() =~= prev + seq![strip_cr(rest.take(k))]);
        }
        pos = if nl < n {
            nl + 1
        } else {
            n
        };
        proof {
            if pos == n {
                assert(s@.skip(n as int) =~= Seq::<char>::empty());
            }
        }
    }
    proof {
        assert(s@.skip(n as int) =~= Seq::<char>::empty());
        assert(lines.deep_view() + spec_lines(s@.skip(n as int)) =~= lines.deep_view());
        if n == 0 {
            assert(spec_lines(s@) =~= lines.deep_view());
        }
    }
    lines
}

/// The whitespace-separated tokens of `s`: its maximal nonempty runs of
/// non-whitespace characters, in order.
pub open spec fn spec_tokens(s: Seq<char>) -> Seq<Seq<char>>
    decreases s.len(),
    via spec_tokens_decreases
{
    if s.len() == 0 {
        seq![]
    } else if is_ws(s[0]) {
        spec_tokens(s.drop_first())
    } else {
        seq![s.take(find_ws(s) as int)] + spec_tokens(s.skip(find_ws(s) as int))
    }
}

#[via_fn]
proof fn spec_tokens_decreases(s: Seq<char>) {
    if s.len() > 0 && !is_ws(s[0]) {
        lemma_find_ws(s);
    }
}

/// Splits `s` into its whitespace-separated tokens.
pub fn split_tokens(s: &str) -> (r: Vec<String>)
    ensures
        r.deep_view() == spec_tokens(s@),
{
    let n = s.unicode_len();
    let mut toks: Vec<String> = Vec::new();
    let mut pos: usize = 0;
    proof {
        assert(s@.skip(0) =~= s@);
        assert(toks.deep_view() =~= Seq::<Seq<char>>::empty());
        assert(toks.deep_view() + spec_tokens(s@.skip(0)) =~= spec_tokens(s@));
    }
    while pos < n
        invariant
            pos <= n,
            n == s@.len(),
            spec_tokens(s@) == toks.deep_view() + spec_tokens(s@.skip(pos as int)),
        decreases n - pos,
    {
        if is_ws_char(s.get_char(pos)) {
            proof {
                let rest = s@.skip(pos as int);
                assert(rest[0] == s@[pos as int]);
                assert(rest.drop_first() =~= s@.skip(pos + 1));
            }
            pos = pos + 1;
        } else {
            let wsidx = find_ws_from(s, pos);
            let ghost prev = toks.deep_view();
            let tok = String::from_str(s.substring_char(pos, wsidx));
            toks.push(tok);
            proof {
                let rest = s@.skip(pos as int);
                let k = wsidx - pos;
                assert(rest[0] == s@[pos as int]);
                assert(find_ws(rest) == k);
                assert(k >= 1);
                assert(rest.take(k) =~= s@.subrange(pos as int, wsidx as int));
                assert(rest.skip(k) =~= s@.skip(wsidx as int));
                assert(spec_tokens(rest) == seq![rest.take(k)] + spec_tokens(
                    s@.skip(wsidx as int),
                ));
                assert(toks.deep_view() =~= prev.push(s@.subrange(pos as int, wsidx as int)));
                assert(toks.deep_view() =~= prev + seq![rest.take(k)]);
            }
            pos = wsidx;
        }
    }
    proof {
        assert(s@.skip(n as int) =~= Seq::<char>::empty());
        assert(toks.deep_view() + spec_tokens(s@.skip(n as int)) =~= toks.deep_view());
        if n == 0 {
            assert(spec_tokens(s@) =~= toks.deep_view());
        }
    }
    toks
}

/// `s` without leading and trailing whitespace.
pub open spec fn spec_trim(s: Seq<char>) -> Seq<char>
    decreases s.len(),
{
    if s.len() == 0 {
        s
    } else if is_ws(s[0]) {
        spec_trim(s.drop_first())
    } else if is_ws(s.last()) {
        spec_trim(s.drop_last())
    } else {
        s
    }
}

/// Copies `s` without its leading and trailing whitespace.
pub fn trim(s: &str) -> (r: String)
    ensures
        r@ == spec_trim(s@),
    decreases s@.len(),
{
    let n = s.unicode_len();
    if n == 0 {
        String::from_str(s)
    } else if is_ws_char(s.get_char(0)) {
        let rest = s.substring_char(1, n);
        proof {
            assert(rest@ =~= s@.drop_first());
        }
        trim(rest)
    } else if is_ws_char(s.get_char(n - 1)) {
        let rest = s.substring_char(0, n - 1);
        proof {
            assert(s@[n - 1] == s@.last());
            assert(rest@ =~= s@.drop_last());
        }
        trim(rest)
    } else {
        String::from_str(s)
    }
}

/// The decimal digit character for `d`.
pub open spec fn digit_char(d: nat) -> char {
    if d == 0 {
        '0'
    } else if d == 1 {
        '1'
    } else if d == 2 {
        '2'
    } else if d == 3 {
        '3'
    } else if d == 4 {
        '4'
    } else if d == 5 {
        '5'
    } else if d == 6 {
        '6'
    } else if d == 7 {
        '7'
    } else if d == 8 {
        '8'
    } else {
        '9'
    }
}

/// The decimal numeral of `n`: most significant digit first, no sign,
/// no leading zeros, and a single `'0'` for zero itself.
pub open spec fn dec_digits(n: nat) -> Seq<char>
    decreases n,
{
    if n < 10 {
        seq![digit_char(n)]
    } else {
        dec_digits(n / 10) + seq![digit_char(n % 10)]
    }
}

fn digit_str(d: usize) -> (r: &'static str)
    requires
        d < 10,
    ensures
        r@ == seq![digit_char(d as nat)],
{
    if d == 0 {
        proof {
            reveal_strlit("0");
            assert("0"@ =~= seq![digit_char(0)]);
        }
        "0"
    } else if d == 1 {
        proof {
            reveal_strlit("1");
            assert("1"@ =~= seq![digit_char(1)]);
        }
        "1"
    } else if d == 2 {
        proof {
            reveal_strlit("2");
            assert("2"@ =~= seq![digit_char(2)]);
        }
        "2"
    } else if d == 3 {
        proof {
            reveal_strlit("3");
            assert("3"@ =~= seq![digit_char(3)]);
        }
        "3"
    } else if d == 4 {
        proof {
            reveal_strlit("4");
            assert("4"@ =~= seq![digit_char(4)]);
        }
        "4"
    } else if d == 5 {
        proof {
            reveal_strlit("5");
            assert("5"@ =~= seq![digit_char(5)]);
        }
        "5"
    } else if d == 6 {
        proof {
            reveal_strlit("6");
            assert("6"@ =~= seq![digit_char(6)]);
        }
        "6"
    } else if d == 7 {
        proof {
            reveal_strlit("7");
            assert("7"@ =~= seq![digit_char(7)]);
        }
        "7"
    } else if d == 8 {
        proof {
            reveal_strlit("8");
            assert("8"@ =~= seq![digit_char(8)]);
        }
        "8"
    } else {
        proof {
            reveal_strlit("9");
            assert("9"@ =~= seq![digit_char(9)]);
        }
        "9"
    }
}

/// Renders `n` as its decimal numeral.
pub fn render_usize(n: usize) -> (r: String)
    ensures
        r@ == dec_digits(n as nat),
    decreases n,
{
    if n < 10 {
        String::from_str(digit_str(n))
    } else {
        let mut s = render_usize(n / 10);
        s.append(digit_str(n % 10));
        proof {
            assert(n as nat / 10 == (n / 10) as nat);
            assert(s@ =~= dec_digits(n as nat));
        }
        s
    }
}

} // verus!
