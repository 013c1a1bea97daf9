//! Character-level text utilities: whitespace trimming, delimiter search,
//! line splitting and decimal digit rendering, each pinned to a spec-level
//! model over `Seq<char>`.

use vstd::prelude::*;

verus! {

/// The whitespace characters stripped by [`trim`]: the Unicode white-space
/// set, as `char::is_whitespace` defines it.
pub open spec fn is_space(c: char) -> bool {
    ||| c == ' '
    ||| c == '\t'
    ||| c == '\n'
    ||| c == '\u{b}'
    ||| c == '\u{c}'
    ||| c == '\r'
    ||| c == '\u{85}'
    ||| c == '\u{a0}'
    ||| c == '\u{1680}'
    ||| ('\u{2000}' <= c && c <= '\u{200a}')
    ||| c == '\u{2028}'
    ||| c == '\u{2029}'
    ||| c == '\u{202f}'
    ||| c == '\u{205f}'
    ||| c == '\u{3000}'
}

/// `s` without leading whitespace.
pub open spec fn trim_start(s: Seq<char>) -> Seq<char>
    decreases s.len(),
{
    if s.len() > 0 && is_space(s[0]) {
        trim_start(s.drop_first())
    } else {
        s
    }
}

/// `s` without trailing whitespace.
pub open spec fn trim_end(s: Seq<char>) -> Seq<char>
    decreases s.len(),
{
    if s.len() > 0 && is_space(s[s.len() - 1]) {
        trim_end(s.drop_last())
    } else {
        s
    }
}

/// `s` without leading or trailing whitespace.
pub open spec fn spec_trim(s: Seq<char>) -> Seq<char> {
    trim_end(trim_start(s))
}

/// A sequence that neither starts nor ends with whitespace; such a sequence
/// is a fixed point of [`spec_trim`].
pub open spec fn is_clean(s: Seq<char>) -> bool {
    s.len() == 0 || (!is_space(s[0]) && !is_space(s[s.len() - 1]))
}

/// If the first `i` characters of `s` are whitespace and the one at `i` (if
/// any) is not, then trimming from the left keeps exactly the suffix at `i`.
pub proof fn lemma_trim_start_at(s: Seq<char>, i: int)
    requires
        0 <= i <= s.len(),
        forall|k: int| 0 <= k < i ==> is_space(s[k]),
        i == s.len() || !is_space(s[i]),
    ensures
        trim_start(s) == s.subrange(i, s.len() as int),
    decreases i,
{
    if i == 0 {
        assert(trim_start(s) =~= s.subrange(0, s.len() as int));
    } else {
        assert(is_space(s[0]));
        let t = s.drop_first();
        assert(forall|k: int| 0 <= k < i - 1 ==> is_space(#[trigger] t[k]));
        lemma_trim_start_at(t, i - 1);
        assert(t.subrange(i - 1, t.len() as int) =~= s.subrange(i, s.len() as int));
    }
}

/// If every character of `s` at or after `j` is whitespace and the one just
/// before `j` (if any) is not, then trimming from the right keeps exactly the
/// prefix up to `j`.
pub proof fn lemma_trim_end_at(s: Seq<char>, j: int)
    requires
        0 <= j <= s.len(),
        forall|k: int| j <= k < s.len() ==> is_space(s[k]),
        j == 0 || !is_space(s[j - 1]),
    ensures
        trim_end(s) == s.subrange(0, j),
    decreases s.len(),
{
    if j == s.len() {
        if s.len() > 0 {
            assert(!is_space(s[s.len() - 1]));
        }
        assert(trim_end(s) =~= s.subrange(0, j));
    } else {
        assert(is_space(s[s.len() - 1]));
        let t = s.drop_last();
        lemma_trim_end_at(t, j);
        assert(t.subrange(0, j) =~= s.subrange(0, j));
    }
}

/// Trimming from the left leaves no whitespace at the head.
proof fn lemma_trim_start_head(s: Seq<char>)
    ensures
        trim_start(s).len() > 0 ==> !is_space(trim_start(s)[0]),
    decreases s.len(),
{
    if s.len() > 0 && is_space(s[0]) {
        lemma_trim_start_head(s.drop_first());
    }
}

/// Trimming from the right leaves no whitespace at the end and keeps the
/// head character.
proof fn lemma_trim_end_ends(s: Seq<char>)
    ensures
        trim_end(s).len() > 0 ==> !is_space(trim_end(s)[trim_end(s).len() - 1]) && trim_end(
            s,
        )[0] == s[0],
    decreases s.len(),
{
    if s.len() > 0 && is_space(s[s.len() - 1]) {
        lemma_trim_end_ends(s.drop_last());
    }
}

/// What trimming leaves is clean.
pub proof fn lemma_trim_is_clean(s: Seq<char>)
    ensures
        is_clean(spec_trim(s)),
{
    let t = trim_start(s);
    lemma_trim_start_head(s);
    lemma_trim_end_ends(t);
}

/// Trimming twice is trimming once.
pub proof fn lemma_trim_idempotent(s: Seq<char>)
    ensures
        spec_trim(spec_trim(s)) == spec_trim(s),
{
    lemma_trim_is_clean(s);
    lemma_trim_clean(spec_trim(s));
}

/// A clean sequence is unchanged by trimming.
pub proof fn lemma_trim_clean(s: Seq<char>)
    requires
        is_clean(s),
    ensures
        spec_trim(s) == s,
{
    lemma_trim_start_at(s, 0);
    assert(trim_start(s) =~= s);
    lemma_trim_end_at(s, s.len() as int);
    assert(trim_end(s) =~= s);
}

/// Removes leading and trailing whitespace.
pub fn trim(s: &str) -> (r: String)
    ensures
        r@ == spec_trim(s@),
{
    let n = s.unicode_len();
    let mut i: usize = 0;
    while i < n && space_at(s, i)
        invariant
            0 <= i <= n,
            n == s@.len(),
            forall|k: int| 0 <= k < i ==> is_space(s@[k]),
        decreases n - i,
    {
        i = i + 1;
    }
    proof {
        lemma_trim_start_at(s@, i as int);
    }
    let mut j: usize = n;
    while j > i && space_at(s, j - 1)
        invariant
            i <= j <= n,
            n == s@.len(),
            forall|k: int| j <= k < n ==> is_space(s@[k]),
        decreases j,
    {
        j = j - 1;
    }
    let t = s.substring_char(i, j);
    proof {
        let suffix = s@.subrange(i as int, s@.len() as int);
        lemma_trim_end_at(suffix, j - i);
        assert(suffix.subrange(0, j - i) =~= s@.subrange(i as int, j as int));
    }
    t.to_owned()
}

/// Whether the character at position `i` is whitespace.
fn space_at(s: &str, i: usize) -> (r: bool)
    requires
        i < s@.len(),
    ensures
        r == is_space(s@[i as int]),
{
    let c = s.get_char(i);
    c == ' ' || c == '\t' || c == '\n' || c == '\u{b}' || c == '\u{c}' || c == '\r'
        || c == '\u{85}' || c == '\u{a0}' || c == '\u{1680}' || ('\u{2000}' <= c && c
        <= '\u{200a}') || c == '\u{2028}' || c == '\u{2029}' || c == '\u{202f}' || c == '\u{205f}'
        || c == '\u{3000}'
}

/// The three-character document delimiter starts at position `i` of `s`.
pub open spec fn delim_at(s: Seq<char>, i: int) -> bool {
    &&& 0 <= i
    &&& i + 3 <= s.len()
    &&& s[i] == '-'
    &&& s[i + 1] == '-'
    &&& s[i + 2] == '-'
}

/// The delimiter occurs nowhere in `s`.
pub open spec fn no_delim(s: Seq<char>) -> bool {
    forall|i: int| !delim_at(s, i)
}

/// The position of the first delimiter occurrence at or after `from`.
pub open spec fn spec_find_delim(s: Seq<char>, from: int) -> Option<int>
    decreases s.len() - from,
    when 0 <= from <= s.len()
{
    if from + 3 > s.len() {
        None
    } else if delim_at(s, from) {
        Some(from)
    } else {
        spec_find_delim(s, from + 1)
    }
}

/// If the first delimiter occurrence at or after `from` is at `k`, the search
/// finds exactly `k`.
pub proof fn lemma_find_delim_exact(s: Seq<char>, from: int, k: int)
    requires
        0 <= from <= k,
        delim_at(s, k),
        forall|i: int| from <= i < k ==> !delim_at(s, i),
    ensures
        spec_find_delim(s, from) == Some(k),
    decreases k - from,
{
    if from < k {
        lemma_find_delim_exact(s, from + 1, k);
    }
}

/// Finds the first occurrence of the delimiter at or after `from`.
pub fn find_delim(s: &str, from: usize) -> (r: Option<usize>)
    requires
        from <= s@.len(),
    ensures
        match r {
            Some(i) => from <= i && i + 3 <= s@.len() && delim_at(s@, i as int)
                && spec_find_delim(s@, from as int) == Some(i as int),
            None => spec_find_delim(s@, from as int) is None,
        },
{
    let n = s.unicode_len();
    let mut i: usize = from;
    while n >= 3 && i <= n - 3
        invariant
            from <= i <= n,
            n == s@.len(),
            spec_find_delim(s@, from as int) == spec_find_delim(s@, i as int),
        decreases n - i,
    {
        if s.get_char(i) == '-' && s.get_char(i + 1) == '-' && s.get_char(i + 2) == '-' {
            return Some(i);
        }
        assert(!delim_at(s@, i as int));
        i = i + 1;
    }
    None
}

/// A successful delimiter search returns a genuine occurrence at or after
/// `from`.
pub proof fn lemma_find_delim_found(s: Seq<char>, from: int)
    requires
        0 <= from <= s.len(),
        (spec_find_delim(s, from) is Some),
    ensures
        ({
            let k = spec_find_delim(s, from)->Some_0;
            from <= k && delim_at(s, k)
        }),
    decreases s.len() - from,
{
    if from + 3 <= s.len() && !delim_at(s, from) {
        lemma_find_delim_found(s, from + 1);
    }
}

/// If the delimiter occurs in neither part and the two parts do not meet in
/// a hyphen on both sides, it does not occur in the concatenation.
pub proof fn lemma_no_delim_concat(x: Seq<char>, y: Seq<char>)
    requires
        no_delim(x),
        no_delim(y),
        x.len() == 0 || y.len() == 0 || x[x.len() - 1] != '-' || y[0] != '-',
    ensures
        no_delim(x + y),
{
    let s = x + y;
    assert forall|i: int| !delim_at(s, i) by {
        if 0 <= i && i + 3 <= s.len() {
            if i + 3 <= x.len() {
                assert(!delim_at(x, i));
            } else if i >= x.len() {
                assert(s[i] == y[i - x.len()]);
                assert(s[i + 1] == y[i + 1 - x.len()]);
                assert(s[i + 2] == y[i + 2 - x.len()]);
                assert(!delim_at(y, i - x.len()));
            } else {
                // the window straddles the boundary, so it contains both the
                // last character of `x` and the first of `y`
                assert(s[x.len() - 1] == x[x.len() - 1]);
                assert(s[x.len() as int] == y[0]);
            }
        }
    }
}

/// The position of the first occurrence of `c` at or after `from`.
pub open spec fn spec_find_char(s: Seq<char>, c: char, from: int) -> Option<int>
    decreases s.len() - from,
    when 0 <= from <= s.len()
{
    if from >= s.len() {
        None
    } else if s[from] == c {
        Some(from)
    } else {
        spec_find_char(s, c, from + 1)
    }
}

/// If the first occurrence of `c` at or after `from` is at `k`, the search
/// finds exactly `k`.
pub proof fn lemma_find_char_exact(s: Seq<char>, c: char, from: int, k: int)
    requires
        0 <= from <= k < s.len(),
        s[k] == c,
        forall|i: int| from <= i < k ==> s[i] != c,
    ensures
        spec_find_char(s, c, from) == Some(k),
    decreases k - from,
{
    if from < k {
        lemma_find_char_exact(s, c, from + 1, k);
    }
}

/// If `c` does not occur at or after `from`, the search finds nothing.
pub proof fn lemma_find_char_none(s: Seq<char>, c: char, from: int)
    requires
        0 <= from <= s.len(),
        forall|i: int| from <= i < s.len() ==> s[i] != c,
    ensures
        spec_find_char(s, c, from) is None,
    decreases s.len() - from,
{
    if from < s.len() {
        lemma_find_char_none(s, c, from + 1);
    }
}

/// Finds the first occurrence of `c` at or after `from`.
pub fn find_char(s: &str, c: char, from: usize) -> (r: Option<usize>)
    requires
        from <= s@.len(),
    ensures
        match r {
            Some(i) => from <= i && spec_find_char(s@, c, from as int) == Some(i as int),
            None => spec_find_char(s@, c, from as int) is None,
        },
{
    let n = s.unicode_len();
    let mut i: usize = from;
    while i < n
        invariant
            from <= i <= n,
            n == s@.len(),
            spec_find_char(s@, c, from as int) == spec_find_char(s@, c, i as int),
        decreases n - i,
    {
        if s.get_char(i) == c {
            return Some(i);
        }
        i = i + 1;
    }
    None
}

/// The lines of `s`, split at each newline character; the final line has no
/// terminator, so a trailing newline yields a final empty line.
pub open spec fn spec_lines(s: Seq<char>) -> Seq<Seq<char>>
    decreases s.len(),
{
    match spec_find_char(s, '\n', 0) {
        None => seq![s],
        Some(i) => if 0 <= i < s.len() {
            seq![s.subrange(0, i)] + spec_lines(s.subrange(i + 1, s.len() as int))
        } else {
            // a found index is always in range, so this arm never applies
            seq![s]
        },
    }
}

/// A line without a newline is a single line.
pub proof fn lemma_lines_single(s: Seq<char>)
    requires
        forall|i: int| 0 <= i < s.len() ==> s[i] != '\n',
    ensures
        spec_lines(s) == seq![s],
{
    lemma_find_char_none(s, '\n', 0);
}

/// Splitting at the first newline peels off one line.
pub proof fn lemma_lines_cons(head: Seq<char>, tail: Seq<char>)
    requires
        forall|i: int| 0 <= i < head.len() ==> head[i] != '\n',
    ensures
        spec_lines(head + seq!['\n'] + tail) == seq![head] + spec_lines(tail),
{
    let s = head + seq!['\n'] + tail;
    assert(s[head.len() as int] == '\n');
    assert(forall|i: int| 0 <= i < head.len() ==> s[i] == head[i]);
    lemma_find_char_exact(s, '\n', 0, head.len() as int);
    assert(s.subrange(0, head.len() as int) =~= head);
    assert(s.subrange(head.len() as int + 1, s.len() as int) =~= tail);
}

/// Splits `s` into its lines.
pub fn split_lines(s: &str) -> (r: Vec<String>)
    ensures
        r.deep_view() == spec_lines(s@),
{
    let n = s.unicode_len();
    let mut out: Vec<String> = Vec::new();
    let mut start: usize = 0;
    proof {
        assert(s@.subrange(0, n as int) =~= s@);
        assert(out.deep_view() =~= Seq::<Seq<char>>::empty());
        assert(out.deep_view() + spec_lines(s@) =~= spec_lines(s@));
    }
    loop
        invariant
            start <= n,
            n == s@.len(),
            spec_lines(s@) == out.deep_view() + spec_lines(s@.subrange(start as int, n as int)),
        ensures
            out.deep_view() == spec_lines(s@),
        decreases n - start,
    {
        let ghost rest = s@.subrange(start as int, n as int);
        match find_char(s, '\n', start) {
            Some(j) => {
                proof {
                    lemma_find_char_found(s@, '\n', start as int);
                }
                let line = s.substring_char(start, j);
                proof {
                    let jr = j - start;
                    assert forall|i: int| start <= i < j implies s@[i] != '\n' by {
                        lemma_find_char_bound(s@, '\n', start as int, j as int, i);
                    }
                    assert(forall|i: int| 0 <= i < jr ==> rest[i] == s@[start + i]);
                    assert(rest[jr] == s@[j as int]);
                    lemma_find_char_exact(rest, '\n', 0, jr);
                    assert(rest.subrange(0, jr) =~= s@.subrange(start as int, j as int));
                    assert(rest.subrange(jr + 1, rest.len() as int) =~= s@.subrange(
                        j + 1,
                        n as int,
                    ));
                }
                let owned = line.to_owned();
                out.push(owned);
                proof {
                    assert(out.deep_view() =~= out.deep_view().subrange(
                        0,
                        out.deep_view().len() - 1,
                    ) + seq![s@.subrange(start as int, j as int)]);
                    assert(spec_lines(s@) =~= out.deep_view() + spec_lines(
                        s@.subrange(j + 1, n as int),
                    ));
                }
                start = j + 1;
            },
            None => {
                let line = s.substring_char(start, n);
                proof {
                    lemma_find_char_none_inv(s@, '\n', start as int);
                    assert forall|i: int| 0 <= i < rest.len() implies rest[i] != '\n' by {
                        assert(rest[i] == s@[start + i]);
                    }
                    lemma_lines_single(rest);
                }
                let owned = line.to_owned();
                out.push(owned);
                proof {
                    assert(out.deep_view() =~= out.deep_view().subrange(
                        0,
                        out.deep_view().len() - 1,
                    ) + seq![rest]);
                    assert(spec_lines(s@) =~= out.deep_view());
                }
                return out;
            },
        }
    }
}

/// If the first occurrence of `c` at or after `from` is at `k`, then `c`
/// does not occur strictly before `k`.
pub proof fn lemma_find_char_bound(s: Seq<char>, c: char, from: int, k: int, i: int)
    requires
        0 <= from <= s.len(),
        spec_find_char(s, c, from) == Some(k),
        from <= i < k,
    ensures
        s[i] != c,
        from <= k < s.len() && s[k] == c,
    decreases i - from,
{
    lemma_find_char_found(s, c, from);
    if from < i {
        lemma_find_char_bound(s, c, from + 1, k, i);
    }
}

/// A successful character search returns a genuine occurrence at or after
/// `from`.
pub proof fn lemma_find_char_found(s: Seq<char>, c: char, from: int)
    requires
        0 <= from <= s.len(),
        (spec_find_char(s, c, from) is Some),
    ensures
        ({
            let k = spec_find_char(s, c, from)->Some_0;
            from <= k < s.len() && s[k] == c
        }),
    decreases s.len() - from,
{
    if from < s.len() && s[from] != c {
        lemma_find_char_found(s, c, from + 1);
    }
}

/// If the search finds nothing, `c` does not occur at or after `from`.
pub proof fn lemma_find_char_none_inv(s: Seq<char>, c: char, from: int)
    requires
        0 <= from <= s.len(),
        (spec_find_char(s, c, from) is None),
    ensures
        forall|i: int| from <= i < s.len() ==> s[i] != c,
    decreases s.len() - from,
{
    if from < s.len() {
        lemma_find_char_none_inv(s, c, from + 1);
    }
}

/// The decimal digit character for `n`.
pub open spec fn digit_char(n: int) -> char {
    ((48 + n) as u8) as char
}

/// Two-digit zero-padded decimal rendering.
pub open spec fn spec_dec2(n: int) -> Seq<char> {
    seq![digit_char(n / 10), digit_char(n % 10)]
}

/// Four-digit zero-padded decimal rendering.
pub open spec fn spec_dec4(n: int) -> Seq<char> {
    seq![
        digit_char(n / 1000),
        digit_char((n / 100) % 10),
        digit_char((n / 10) % 10),
        digit_char(n % 10),
    ]
}

/// Appends the digit character for `d` to `out`.
pub fn push_digit(out: &mut String, d: u32)
    requires
        d < 10,
    ensures
        final(out)@ == old(out)@ + seq![digit_char(d as int)],
{
    let digits = "0123456789";
    proof {
        reveal_strlit("0123456789");
    }
    let one = digits.substring_char(d as usize, (d + 1) as usize);
    assert(one@ =~= seq![digit_char(d as int)]);
    out.append(one);
}

/// Character-by-character string equality.
pub fn str_eq(a: &str, b: &str) -> (r: bool)
    ensures
        r == (a@ == b@),
{
    let n = a.unicode_len();
    let m = b.unicode_len();
    if n != m {
        assert(a@ != b@) by {
            assert(a@.len() != b@.len());
        }
        return false;
    }
    let mut i: usize = 0;
    while i < n
        invariant
            0 <= i <= n,
            n == a@.len() && n == b@.len(),
            forall|k: int| 0 <= k < i ==> a@[k] == b@[k],
        decreases n - i,
    {
        if a.get_char(i) != b.get_char(i) {
            return false;
        }
        i = i + 1;
    }
    proof {
        assert(a@ =~= b@);
    }
    true
}

} // verus!
